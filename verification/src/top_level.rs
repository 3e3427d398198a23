//! A window as the engine knows it: its identity, its title once one has been
//! announced, and the displays it currently occupies.

use vstd::prelude::*;
use crate::ids::{DisplayId, WindowId};

verus! {

/// What a window is, in mathematical terms.
#[verifier::ext_equal]
pub struct WindowView {
    /// The window's identity.
    pub handle: WindowId,
    /// The title last announced, if any was.
    pub title: Option<Seq<char>>,
    /// The displays the window occupies, in the order it entered them.
    pub outputs: Seq<DisplayId>,
}

impl WindowView {
    /// A window that has just been mentioned for the first time.
    pub open spec fn fresh(handle: WindowId) -> WindowView {
        WindowView { handle, title: None, outputs: Seq::empty() }
    }

    /// No display occurs twice among the occupied ones.
    pub open spec fn wf(self) -> bool {
        self.outputs.no_duplicates()
    }

    /// The window after its title has been announced as `title`.
    pub open spec fn with_title(self, title: Seq<char>) -> WindowView {
        WindowView { title: Some(title), ..self }
    }

    /// The window after it has entered `output`: appended unless already occupied.
    pub open spec fn entered(self, output: DisplayId) -> WindowView {
        if self.outputs.contains(output) {
            self
        } else {
            WindowView { outputs: self.outputs.push(output), ..self }
        }
    }

    /// The window after it has left `output`: every occurrence is taken out, the
    /// others keep their order.
    pub open spec fn left(self, output: DisplayId) -> WindowView {
        WindowView { outputs: self.outputs.filter(other_than(output)), ..self }
    }
}

/// The predicate that holds of every display but `output`.
pub open spec fn other_than(output: DisplayId) -> spec_fn(DisplayId) -> bool {
    |d: DisplayId| d != output
}

/// A window of the compositor session.
#[derive(Debug)]
pub struct TopLevelInfo {
    pub(crate) handle: WindowId,
    pub(crate) title: Option<String>,
    pub(crate) current_outputs: Vec<DisplayId>,
}

impl View for TopLevelInfo {
    type V = WindowView;

    closed spec fn view(&self) -> WindowView {
        WindowView {
            handle: self.handle,
            title: match self.title {
                Some(t) => Some(t@),
                None => None,
            },
            outputs: self.current_outputs@,
        }
    }
}

impl TopLevelInfo {
    /// A display occurs at most once among those the window occupies.
    pub open spec fn wf(&self) -> bool {
        self@.wf()
    }

    /// A window with no title yet and on no display.
    pub fn new(handle: WindowId) -> (top_level: Self)
        ensures
            top_level@ == WindowView::fresh(handle),
            top_level.wf(),
    {
        Self { handle, title: None, current_outputs: Vec::new() }
    }

    /// The window's identity.
    pub fn handle(&self) -> (handle: WindowId)
        ensures
            handle == self@.handle,
    {
        self.handle
    }

    /// The title last announced, if any was.
    pub fn title(&self) -> (title: Option<&String>)
        ensures
            match title {
                Some(t) => self@.title == Some(t@),
                None => self@.title is None,
            },
    {
        self.title.as_ref()
    }

    /// The displays the window occupies, in the order it entered them.
    pub fn current_outputs(&self) -> (outputs: &Vec<DisplayId>)
        ensures
            outputs@ == self@.outputs,
    {
        &self.current_outputs
    }

    /// Records the title announced for the window, replacing any earlier one.
    pub fn set_title(&mut self, title: String)
        ensures
            final(self)@ == old(self)@.with_title(title@),
    {
        self.title = Some(title);
    }

    /// Records that the window entered `handle`. A display already occupied is
    /// not recorded a second time.
    pub fn push_current_output(&mut self, handle: DisplayId)
        ensures
            final(self)@ == old(self)@.entered(handle),
            old(self).wf() ==> final(self).wf(),
    {
        if !crate::diff::contains_display(self.current_outputs.as_slice(), handle) {
            self.current_outputs.push(handle);
        }
    }

    /// Records that the window left `handle`. Leaving a display that was never
    /// entered changes nothing.
    pub fn pop_current_output(&mut self, handle: &DisplayId)
        requires
            old(self).wf(),
        ensures
            final(self)@ == old(self)@.left(*handle),
            final(self).wf(),
            !old(self)@.outputs.contains(*handle) ==> final(self)@ == old(self)@,
    {
        let mut idx: usize = 0;
        while idx < self.current_outputs.len()
            invariant
                idx <= self.current_outputs.len(),
                *self == *old(self),
                self.wf(),
                forall|k: int| 0 <= k < idx ==> self.current_outputs@[k] != *handle,
            decreases self.current_outputs.len() - idx,
        {
            if self.current_outputs[idx] == *handle {
                proof {
                    lemma_remove_only_occurrence(self.current_outputs@, idx as int, *handle);
                }
                self.current_outputs.remove(idx);
                return;
            }
            idx += 1;
        }
        proof {
            let outputs = self.current_outputs@;
            assert forall|k: int| 0 <= k < outputs.len() implies #[trigger] outputs[k]
                != *handle by {}
            crate::diff::lemma_filter_keeps_all(outputs, other_than(*handle));
            assert(!outputs.contains(*handle));
        }
    }
}

/// Entering or leaving a display, or a change of title, leaves a window's
/// identity alone and never makes it occupy a display twice.
pub proof fn lemma_window_updates_keep_wf(window: WindowView, output: DisplayId, title: Seq<char>)
    requires
        window.wf(),
    ensures
        window.entered(output).wf(),
        window.entered(output).handle == window.handle,
        window.left(output).wf(),
        window.left(output).handle == window.handle,
        window.with_title(title).wf(),
        window.with_title(title).handle == window.handle,
{
    crate::diff::lemma_filter_no_duplicates(window.outputs, other_than(output));
    if !window.outputs.contains(output) {
        let pushed = window.outputs.push(output);
        assert forall|i: int, j: int|
            0 <= i < pushed.len() && 0 <= j < pushed.len() && i != j implies pushed[i]
            != pushed[j] by {
            if i < window.outputs.len() && j < window.outputs.len() {
                assert(window.outputs[i] != window.outputs[j]);
            } else if i < window.outputs.len() {
                assert(window.outputs.contains(window.outputs[i]));
            } else {
                assert(window.outputs.contains(window.outputs[j]));
            }
        }
    }
}

/// In a sequence without duplicates, taking out the one position that holds
/// `d` is the same as filtering `d` out.
pub proof fn lemma_remove_only_occurrence(xs: Seq<DisplayId>, i: int, d: DisplayId)
    requires
        xs.no_duplicates(),
        0 <= i < xs.len(),
        xs[i] == d,
    ensures
        xs.remove(i) == xs.filter(other_than(d)),
        xs.remove(i).no_duplicates(),
{
    let pred = other_than(d);
    let before = xs.subrange(0, i);
    let at = xs.subrange(i, i + 1);
    let after = xs.subrange(i + 1, xs.len() as int);
    assert(xs =~= before + at + after);
    assert(at =~= seq![d]);
    Seq::filter_distributes_over_add(before + at, after, pred);
    Seq::filter_distributes_over_add(before, at, pred);
    crate::diff::lemma_filter_keeps_all(before, pred);
    crate::diff::lemma_filter_keeps_all(after, pred);
    crate::diff::lemma_filter_keeps_none(at, pred);
    assert(xs.remove(i) =~= before + after);
    assert(before + Seq::<DisplayId>::empty() =~= before);
    crate::diff::lemma_filter_no_duplicates(xs, pred);
}

} // verus!

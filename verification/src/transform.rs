//! From the model to transform commands: which displays should carry the
//! saturation transform, and what has to be sent to the compositor so that
//! exactly those carry it.

use vstd::prelude::*;
use crate::diff::{diff_lists, dropped, retained};
use crate::ids::DisplayId;
use crate::state::{AppState, AppStateView};

verus! {

/// The configured title filters, as sequences of characters.
pub open spec fn titles(title_match: Seq<String>) -> Seq<Seq<char>> {
    title_match.map_values(|t: String| t@)
}

/// Whether `title` is one of the configured titles. Titles are compared
/// character by character: no case folding, no trimming.
pub fn title_matches(title_match: &Vec<String>, title: &String) -> (matched: bool)
    ensures
        matched == titles(title_match@).contains(title@),
{
    let mut i: usize = 0;
    while i < title_match.len()
        invariant
            i <= title_match.len(),
            forall|k: int| 0 <= k < i ==> titles(title_match@)[k] != title@,
        decreases title_match.len() - i,
    {
        if title_match[i] == *title {
            assert(titles(title_match@)[i as int] == title@);
            return true;
        }
        i += 1;
    }
    false
}

impl AppStateView {
    /// The displays that should carry the transform: those that the focused
    /// window occupies, provided that a window is focused, that it has a title
    /// and that its title is one of `title_match`; no display otherwise.
    pub open spec fn desired_outputs(self, title_match: Seq<Seq<char>>) -> Seq<DisplayId> {
        match self.focused_window() {
            Some(window) => match window.title {
                Some(title) => if title_match.contains(title) {
                    window.outputs
                } else {
                    Seq::empty()
                },
                None => Seq::empty(),
            },
            None => Seq::empty(),
        }
    }
}

/// A copy of `displays`.
fn copy_displays(displays: &Vec<DisplayId>) -> (copy: Vec<DisplayId>)
    ensures
        copy@ == displays@,
{
    let mut copy: Vec<DisplayId> = Vec::new();
    let mut i: usize = 0;
    while i < displays.len()
        invariant
            i <= displays.len(),
            copy@ == displays@.take(i as int),
        decreases displays.len() - i,
    {
        copy.push(displays[i]);
        i += 1;
    }
    copy
}

impl AppState {
    /// The displays that should carry the transform now, in the order in which
    /// the focused window entered them. A focus tracker that names an unknown
    /// window is cleared on the way.
    pub fn desired_outputs(&mut self, title_match: &Vec<String>) -> (desired: Vec<DisplayId>)
        requires
            old(self).wf(),
        ensures
            desired@ == old(self)@.desired_outputs(titles(title_match@)),
            desired@.no_duplicates(),
            final(self).wf(),
            final(self)@.windows == old(self)@.windows,
            final(self)@.focus == if old(self)@.focus_is_live() {
                old(self)@.focus
            } else {
                None
            },
            final(self)@.focus_is_live(),
    {
        match self.focused_top_level() {
            Some(top_level) => match top_level.title() {
                Some(title) => if title_matches(title_match, title) {
                    copy_displays(top_level.current_outputs())
                } else {
                    Vec::new()
                },
                None => Vec::new(),
            },
            None => Vec::new(),
        }
    }
}

/// One request to the compositor's colour transform control.
#[derive(Clone, Copy, Debug, PartialEq, Eq, Structural)]
pub enum TransformCommand {
    /// Put the identity matrix on the display: take the transform off.
    Clear(DisplayId),
    /// Put the saturation matrix on the display.
    Saturate(DisplayId),
    /// Commit everything requested since the last commit as one update.
    Commit,
}

/// The requests that take the transform off each of `displays`, in order.
pub open spec fn clear_commands(displays: Seq<DisplayId>) -> Seq<TransformCommand> {
    displays.map_values(|d: DisplayId| TransformCommand::Clear(d))
}

/// The requests that put the transform on each of `displays`, in order.
pub open spec fn saturate_commands(displays: Seq<DisplayId>) -> Seq<TransformCommand> {
    displays.map_values(|d: DisplayId| TransformCommand::Saturate(d))
}

/// What has to be sent so that `desired` replaces `applied`: a clear for every
/// display that loses the transform, then a saturate for every display that
/// gains it, then one commit; nothing at all if no display loses or gains it.
/// Displays that keep the transform are never sent again.
pub open spec fn transform_batch(applied: Seq<DisplayId>, desired: Seq<DisplayId>) -> Seq<
    TransformCommand,
> {
    let removed = dropped(applied, desired);
    let added = dropped(desired, applied);
    if removed.len() == 0 && added.len() == 0 {
        Seq::empty()
    } else {
        clear_commands(removed) + saturate_commands(added) + seq![TransformCommand::Commit]
    }
}

/// The displays that carry the transform once the batch for `desired` has been
/// sent: those that kept it, followed by those that gained it.
pub open spec fn applied_after(applied: Seq<DisplayId>, desired: Seq<DisplayId>) -> Seq<
    DisplayId,
> {
    retained(applied, desired) + dropped(desired, applied)
}

/// Computes the requests that make `desired` the set of displays carrying the
/// transform, and updates `applied`, the record of the displays that carry it.
pub fn plan_transforms(applied: &mut Vec<DisplayId>, desired: &Vec<DisplayId>) -> (commands: Vec<
    TransformCommand,
>)
    ensures
        commands@ == transform_batch(old(applied)@, desired@),
        final(applied)@ == applied_after(old(applied)@, desired@),
        final(applied)@.to_set() == desired@.to_set(),
{
    proof {
        lemma_applied_is_desired(applied@, desired@);
    }
    let (removed, unchanged, added) = diff_lists(applied.as_slice(), desired.as_slice());
    let mut commands: Vec<TransformCommand> = Vec::new();
    if removed.len() == 0 && added.len() == 0 {
        proof {
            lemma_nothing_removed_nothing_added(applied@, desired@);
        }
        return commands;
    }
    let mut i: usize = 0;
    while i < removed.len()
        invariant
            i <= removed.len(),
            commands@ == clear_commands(removed@.take(i as int)),
        decreases removed.len() - i,
    {
        commands.push(TransformCommand::Clear(removed[i]));
        i += 1;
    }
    assert(removed@.take(removed.len() as int) == removed@);
    let mut j: usize = 0;
    while j < added.len()
        invariant
            j <= added.len(),
            commands@ == clear_commands(removed@) + saturate_commands(added@.take(j as int)),
        decreases added.len() - j,
    {
        commands.push(TransformCommand::Saturate(added[j]));
        j += 1;
    }
    assert(added@.take(added.len() as int) == added@);
    commands.push(TransformCommand::Commit);

    let mut next: Vec<DisplayId> = unchanged;
    let mut k: usize = 0;
    while k < added.len()
        invariant
            k <= added.len(),
            next@ == unchanged@ + added@.take(k as int),
        decreases added.len() - k,
    {
        next.push(added[k]);
        k += 1;
    }
    assert(added@.take(added.len() as int) == added@);
    *applied = next;
    commands
}

/// Where the diff removes nothing and adds nothing, what stays unchanged is
/// the whole previous list.
pub proof fn lemma_nothing_removed_nothing_added(applied: Seq<DisplayId>, desired: Seq<DisplayId>)
    requires
        dropped(applied, desired).len() == 0,
        dropped(desired, applied).len() == 0,
    ensures
        applied_after(applied, desired) == applied,
{
    assert forall|k: int| 0 <= k < applied.len() implies desired.contains(
        #[trigger] applied[k],
    ) by {
        crate::diff::lemma_filter_membership(
            applied,
            crate::diff::absent_from(desired),
            applied[k],
        );
        if !desired.contains(applied[k]) {
            assert(dropped(applied, desired).contains(applied[k]));
        }
    }
    crate::diff::lemma_filter_keeps_all(applied, crate::diff::occurs_in(desired));
    assert(dropped(desired, applied) =~= Seq::empty());
    assert(applied + Seq::<DisplayId>::empty() =~= applied);
}

/// Once the batch has been sent, the displays recorded as carrying the
/// transform are exactly the desired ones; and if neither list repeated a
/// display, the record repeats none.
pub proof fn lemma_applied_is_desired(applied: Seq<DisplayId>, desired: Seq<DisplayId>)
    ensures
        applied_after(applied, desired).to_set() == desired.to_set(),
        applied.no_duplicates() && desired.no_duplicates() ==> applied_after(
            applied,
            desired,
        ).no_duplicates(),
{
    let unchanged = retained(applied, desired);
    let added = dropped(desired, applied);
    let all = unchanged + added;
    crate::diff::lemma_diff_partitions(applied, desired);
    assert forall|d: DisplayId| all.contains(d) <==> unchanged.contains(d) || added.contains(
        d,
    ) by {
        if unchanged.contains(d) {
            let k = choose|k: int| 0 <= k < unchanged.len() && unchanged[k] == d;
            assert(all[k] == d);
        }
        if added.contains(d) {
            let k = choose|k: int| 0 <= k < added.len() && added[k] == d;
            assert(all[unchanged.len() + k] == d);
        }
        if all.contains(d) {
            let k = choose|k: int| 0 <= k < all.len() && all[k] == d;
            if k < unchanged.len() {
                assert(unchanged[k] == d);
            } else {
                assert(added[k - unchanged.len()] == d);
            }
        }
    }
    assert(all.to_set() =~= unchanged.to_set().union(added.to_set()));
    if applied.no_duplicates() && desired.no_duplicates() {
        crate::diff::lemma_diff_applied_no_duplicates(applied, desired);
    }
}

/// One dispatch cycle after a batch of notifications has been applied: derives
/// the desired displays from the state and the title filters, and plans the
/// requests that bring the compositor from `applied` to them.
pub fn dispatch_cycle(
    state: &mut AppState,
    title_match: &Vec<String>,
    applied: &mut Vec<DisplayId>,
) -> (commands: Vec<TransformCommand>)
    requires
        old(state).wf(),
    ensures
        commands@ == transform_batch(
            old(applied)@,
            old(state)@.desired_outputs(titles(title_match@)),
        ),
        final(applied)@ == applied_after(
            old(applied)@,
            old(state)@.desired_outputs(titles(title_match@)),
        ),
        final(state).wf(),
        final(state)@.windows == old(state)@.windows,
        final(state)@.focus == if old(state)@.focus_is_live() {
            old(state)@.focus
        } else {
            None
        },
        final(state)@.focus_is_live(),
{
    let desired = state.desired_outputs(title_match);
    plan_transforms(applied, &desired)
}

} // verus!

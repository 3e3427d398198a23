//! The window registry and the focus tracker.
//!
//! [`AppState`] holds every window that is currently known and the identity of
//! the one that has input focus, if any. Notifications about one window may
//! arrive in any order, so every operation that concerns a window first makes
//! sure that the window is known.

use vstd::prelude::*;
use crate::ids::{DisplayId, WindowId};
use crate::top_level::{TopLevelInfo, WindowView};

verus! {

/// What the registry and the focus tracker hold, in mathematical terms.
#[verifier::ext_equal]
pub struct AppStateView {
    /// The known windows, in the order in which they were first mentioned.
    pub windows: Seq<WindowView>,
    /// The identity of the focused window, if one is tracked.
    pub focus: Option<WindowId>,
}

/// No two of `windows` share an identity, and none occupies a display twice.
pub open spec fn windows_wf(windows: Seq<WindowView>) -> bool {
    &&& forall|i: int, j: int|
        0 <= i < windows.len() && 0 <= j < windows.len() && i != j ==> #[trigger] windows[i].handle
            != #[trigger] windows[j].handle
    &&& forall|i: int| 0 <= i < windows.len() ==> #[trigger] windows[i].wf()
}

impl AppStateView {
    /// No window known and no focus tracked.
    pub open spec fn empty() -> AppStateView {
        AppStateView { windows: Seq::empty(), focus: None }
    }

    /// Whether a window with identity `handle` is known.
    pub open spec fn has_window(self, handle: WindowId) -> bool {
        exists|i: int| 0 <= i < self.windows.len() && #[trigger] self.windows[i].handle == handle
    }

    /// A position at which the window with identity `handle` stands. Where the
    /// state is well formed there is only one.
    pub open spec fn index_of(self, handle: WindowId) -> int {
        choose|i: int| 0 <= i < self.windows.len() && #[trigger] self.windows[i].handle == handle
    }

    /// The window with identity `handle`.
    pub open spec fn window(self, handle: WindowId) -> WindowView {
        self.windows[self.index_of(handle)]
    }

    /// No two windows share an identity, and no window occupies a display twice.
    pub open spec fn wf(self) -> bool {
        windows_wf(self.windows)
    }

    /// The tracked focus, if any, is a known window.
    pub open spec fn focus_is_live(self) -> bool {
        self.focus matches Some(handle) ==> self.has_window(handle)
    }

    /// The state once the window `handle` is known: unchanged if it already was,
    /// else with a fresh window appended.
    pub open spec fn with_window(self, handle: WindowId) -> AppStateView {
        if self.has_window(handle) {
            self
        } else {
            AppStateView { windows: self.windows.push(WindowView::fresh(handle)), ..self }
        }
    }

    /// The state with the window `handle` replaced by `window`.
    pub open spec fn with_window_set(self, handle: WindowId, window: WindowView) -> AppStateView {
        AppStateView { windows: self.windows.update(self.index_of(handle), window), ..self }
    }

    /// The state after the title of `handle` was announced as `title`.
    pub open spec fn titled(self, handle: WindowId, title: Seq<char>) -> AppStateView {
        let known = self.with_window(handle);
        known.with_window_set(handle, known.window(handle).with_title(title))
    }

    /// The state after `handle` entered `output`.
    pub open spec fn entered(self, handle: WindowId, output: DisplayId) -> AppStateView {
        let known = self.with_window(handle);
        known.with_window_set(handle, known.window(handle).entered(output))
    }

    /// The state after `handle` left `output`.
    pub open spec fn left(self, handle: WindowId, output: DisplayId) -> AppStateView {
        let known = self.with_window(handle);
        known.with_window_set(handle, known.window(handle).left(output))
    }

    /// The state after `handle` was reported as focused or not focused. Gaining
    /// focus overwrites whatever was tracked; losing it clears the tracker only
    /// if `handle` is the tracked window.
    pub open spec fn focus_changed(self, handle: WindowId, focused: bool) -> AppStateView {
        if focused {
            AppStateView { focus: Some(handle), ..self }
        } else if self.focus == Some(handle) {
            AppStateView { focus: None, ..self }
        } else {
            self
        }
    }

    /// The state after the window `handle` was closed: it is no longer known, and
    /// no longer tracked as focused if it was.
    pub open spec fn closed(self, handle: WindowId) -> AppStateView {
        AppStateView {
            windows: if self.has_window(handle) {
                self.windows.remove(self.index_of(handle))
            } else {
                self.windows
            },
            focus: if self.focus == Some(handle) {
                None
            } else {
                self.focus
            },
        }
    }

    /// The focused window: the known window that the tracker names, if there is
    /// one.
    pub open spec fn focused_window(self) -> Option<WindowView> {
        match self.focus {
            Some(handle) => if self.has_window(handle) {
                Some(self.window(handle))
            } else {
                None
            },
            None => None,
        }
    }
}

/// Once a window has been made known it is known, whatever was known before
/// still is, and a well-formed state stays well formed.
pub proof fn lemma_with_window(state: AppStateView, handle: WindowId)
    ensures
        state.with_window(handle).has_window(handle),
        state.with_window(handle).window(handle).handle == handle,
        state.wf() ==> state.with_window(handle).wf(),
        forall|other: WindowId|
            state.has_window(other) ==> #[trigger] state.with_window(handle).has_window(other),
{
    let known = state.with_window(handle);
    if !state.has_window(handle) {
        let last = state.windows.len() as int;
        assert(known.windows[last].handle == handle);
        assert forall|other: WindowId| state.has_window(other) implies #[trigger] known.has_window(
            other,
        ) by {
            let i = state.index_of(other);
            assert(known.windows[i].handle == other);
        }
        if state.wf() {
            assert forall|i: int, j: int|
                0 <= i < known.windows.len() && 0 <= j < known.windows.len() && i != j implies
                #[trigger] known.windows[i].handle != #[trigger] known.windows[j].handle by {
                if i < last && j < last {
                    assert(state.windows[i].handle != state.windows[j].handle);
                } else if i < last {
                    assert(state.windows[i].handle != handle);
                } else {
                    assert(state.windows[j].handle != handle);
                }
            }
            assert forall|i: int| 0 <= i < known.windows.len() implies (
            #[trigger] known.windows[i]).wf() by {
                if i < last {
                    assert(state.windows[i].wf());
                }
            }
        }
    }
}

/// Replacing a known window by a well-formed one of the same identity keeps
/// the state well formed and the set of known windows as it is.
pub proof fn lemma_window_set(state: AppStateView, handle: WindowId, window: WindowView)
    requires
        state.wf(),
        state.has_window(handle),
        window.handle == handle,
        window.wf(),
    ensures
        state.with_window_set(handle, window).wf(),
        state.with_window_set(handle, window).window(handle) == window,
        forall|other: WindowId|
            state.has_window(other) <==> #[trigger] state.with_window_set(
                handle,
                window,
            ).has_window(other),
{
    let idx = state.index_of(handle);
    let set = state.with_window_set(handle, window);
    assert forall|i: int| 0 <= i < set.windows.len() implies #[trigger] set.windows[i].handle
        == state.windows[i].handle by {}
    assert forall|i: int, j: int|
        0 <= i < set.windows.len() && 0 <= j < set.windows.len() && i != j implies
        #[trigger] set.windows[i].handle != #[trigger] set.windows[j].handle by {
        assert(state.windows[i].handle != state.windows[j].handle);
    }
    assert forall|i: int| 0 <= i < set.windows.len() implies #[trigger] set.windows[i].wf() by {
        if i != idx {
            assert(state.windows[i].wf());
        }
    }
    assert forall|other: WindowId| state.has_window(other) <==> #[trigger] set.has_window(
        other,
    ) by {
        if state.has_window(other) {
            let i = state.index_of(other);
            assert(set.windows[i].handle == other);
        }
        if set.has_window(other) {
            let i = set.index_of(other);
            assert(state.windows[i].handle == other);
        }
    }
    assert(set.windows[idx].handle == handle);
    assert(set.index_of(handle) == idx);
}

/// Closing a window keeps the state well formed, makes that window unknown and
/// leaves every other window as it was.
pub proof fn lemma_closed(state: AppStateView, handle: WindowId)
    requires
        state.wf(),
    ensures
        state.closed(handle).wf(),
        !state.closed(handle).has_window(handle),
        forall|other: WindowId|
            other != handle ==> (state.has_window(other) <==> #[trigger] state.closed(
                handle,
            ).has_window(other)),
        forall|other: WindowId|
            other != handle && state.has_window(other) ==> #[trigger] state.closed(handle).window(
                other,
            ) == state.window(other),
{
    let after = state.closed(handle);
    if state.has_window(handle) {
        let idx = state.index_of(handle);
        assert forall|i: int, j: int|
            0 <= i < after.windows.len() && 0 <= j < after.windows.len() && i != j implies
            #[trigger] after.windows[i].handle != #[trigger] after.windows[j].handle by {
            let si = if i < idx { i } else { i + 1 };
            let sj = if j < idx { j } else { j + 1 };
            assert(after.windows[i] == state.windows[si]);
            assert(after.windows[j] == state.windows[sj]);
            assert(state.windows[si].handle != state.windows[sj].handle);
        }
        assert forall|i: int| 0 <= i < after.windows.len() implies (
        #[trigger] after.windows[i]).wf() by {
            let si = if i < idx { i } else { i + 1 };
            assert(after.windows[i] == state.windows[si]);
            assert(state.windows[si].wf());
        }
        assert forall|i: int| 0 <= i < after.windows.len() implies (
        #[trigger] after.windows[i]).handle != handle by {
            let si = if i < idx { i } else { i + 1 };
            assert(after.windows[i] == state.windows[si]);
            assert(state.windows[si].handle != state.windows[idx].handle);
        }
        assert forall|other: WindowId| other != handle implies (state.has_window(other)
            <==> #[trigger] after.has_window(other)) by {
            if state.has_window(other) {
                let si = state.index_of(other);
                let i = if si < idx { si } else { si - 1 };
                assert(after.windows[i] == state.windows[si]);
                assert(after.windows[i].handle == other);
            }
            if after.has_window(other) {
                let i = after.index_of(other);
                let si = if i < idx { i } else { i + 1 };
                assert(after.windows[i] == state.windows[si]);
                assert(state.windows[si].handle == other);
            }
        }
        assert forall|other: WindowId|
            other != handle && state.has_window(other) implies #[trigger] after.window(other)
            == state.window(other) by {
            let si = state.index_of(other);
            assert(after.has_window(other));
            let i = after.index_of(other);
            let sj = if i < idx { i } else { i + 1 };
            assert(after.windows[i] == state.windows[sj]);
            assert(state.windows[sj].handle == state.windows[si].handle);
        }
    }
}

/// Putting a known window back as it is changes nothing.
pub proof fn lemma_window_set_same(state: AppStateView, handle: WindowId)
    requires
        state.has_window(handle),
    ensures
        state.with_window_set(handle, state.window(handle)) == state,
{
    assert(state.with_window_set(handle, state.window(handle)) =~= state);
}

/// The window registry together with the focus tracker.
#[derive(Debug)]
pub struct AppState {
    pub(crate) top_levels: Vec<TopLevelInfo>,
    pub(crate) focused_top_level_object_id: Option<WindowId>,
}

/// The windows of a registry, each as its view.
spec fn window_views(top_levels: Seq<TopLevelInfo>) -> Seq<WindowView> {
    top_levels.map_values(|w: TopLevelInfo| w@)
}

impl View for AppState {
    type V = AppStateView;

    closed spec fn view(&self) -> AppStateView {
        AppStateView {
            windows: window_views(self.top_levels@),
            focus: self.focused_top_level_object_id,
        }
    }
}

impl Default for AppState {
    /// A state in which no window is known and none is focused.
    fn default() -> (state: Self)
        ensures
            state@ == AppStateView::empty(),
            state.wf(),
    {
        AppState::new()
    }
}

impl AppState {
    /// No two windows share an identity, and no window occupies a display twice.
    pub open spec fn wf(&self) -> bool {
        self@.wf()
    }

    /// A state in which no window is known and none is focused.
    pub fn new() -> (state: Self)
        ensures
            state@ == AppStateView::empty(),
            state.wf(),
    {
        let state = Self { top_levels: Vec::new(), focused_top_level_object_id: None };
        assert(state@.windows =~= Seq::empty());
        state
    }

    /// The position of the window `handle` in the registry, if it is known.
    pub fn index_of_top_level_for_object_id(&self, id: &WindowId) -> (idx: Option<usize>)
        requires
            self.wf(),
        ensures
            idx is Some <==> self@.has_window(*id),
            idx matches Some(i) ==> i as int == self@.index_of(*id),
    {
        let mut i: usize = 0;
        while i < self.top_levels.len()
            invariant
                i <= self.top_levels.len(),
                self.wf(),
                forall|k: int| 0 <= k < i ==> #[trigger] self@.windows[k].handle != *id,
            decreases self.top_levels.len() - i,
        {
            assert(self@.windows[i as int] == self.top_levels@[i as int]@);
            if self.top_levels[i].handle() == *id {
                return Some(i);
            }
            i += 1;
        }
        None
    }

    /// The identity that the focus tracker holds, if any.
    pub fn focused_handle(&self) -> (focus: Option<WindowId>)
        ensures
            focus == self@.focus,
    {
        self.focused_top_level_object_id
    }

    /// The known window `handle`, if there is one.
    pub fn find_top_level(&self, handle: &WindowId) -> (found: Option<&TopLevelInfo>)
        requires
            self.wf(),
        ensures
            found is Some <==> self@.has_window(*handle),
            found matches Some(w) ==> w@ == self@.window(*handle) && w.wf(),
    {
        match self.index_of_top_level_for_object_id(handle) {
            Some(i) => {
                assert(self@.windows[i as int] == self.top_levels@[i as int]@);
                Some(&self.top_levels[i])
            },
            None => None,
        }
    }

    /// The focused window, if the tracker names a window that is known. A
    /// tracker that names a window that is not known is cleared.
    pub fn focused_top_level(&mut self) -> (focused: Option<&TopLevelInfo>)
        requires
            old(self).wf(),
        ensures
            match focused {
                Some(w) => old(self)@.focused_window() == Some(w@) && w.wf(),
                None => old(self)@.focused_window() is None,
            },
            final(self)@.windows == old(self)@.windows,
            final(self)@.focus == if old(self)@.focus_is_live() {
                old(self)@.focus
            } else {
                None
            },
            final(self).wf(),
            final(self)@.focus_is_live(),
    {
        match self.focused_top_level_object_id {
            Some(handle) => match self.index_of_top_level_for_object_id(&handle) {
                Some(i) => {
                    assert(self@.windows[i as int] == self.top_levels@[i as int]@);
                    Some(&self.top_levels[i])
                },
                None => {
                    self.focused_top_level_object_id = None;
                    None
                },
            },
            None => None,
        }
    }

    /// Reports that `changed_handle` gained or lost focus.
    pub fn notify_top_level_focus_changed(&mut self, changed_handle: &WindowId, focused: bool)
        ensures
            final(self)@ == old(self)@.focus_changed(*changed_handle, focused),
            final(self)@.windows == old(self)@.windows,
            !focused && old(self)@.focus != Some(*changed_handle) ==> final(self)@ == old(self)@,
    {
        if focused {
            self.focused_top_level_object_id = Some(*changed_handle);
        } else if self.focused_top_level_object_id == Some(*changed_handle) {
            self.focused_top_level_object_id = None;
        }
    }

    /// The window `handle`, which is created first if it is not known yet: with no
    /// title and on no display. What the caller then does to the window is what
    /// happens to it in the registry.
    pub fn get_or_create_top_level(&mut self, handle: &WindowId) -> (top_level: &mut TopLevelInfo)
        requires
            old(self).wf(),
        ensures
            top_level@ == old(self)@.with_window(*handle).window(*handle),
            top_level@.handle == *handle,
            top_level.wf(),
            final(self)@ =~= old(self)@.with_window(*handle).with_window_set(
                *handle,
                final(top_level)@,
            ),
            final(top_level)@.handle == *handle && final(top_level).wf() ==> final(self).wf(),
    {
        let ghost known = old(self)@.with_window(*handle);
        let existing_idx = self.index_of_top_level_for_object_id(handle);
        let new_insert_idx: usize = self.top_levels.len();
        if existing_idx.is_none() {
            self.top_levels.push(TopLevelInfo::new(*handle));
        }
        let idx: usize = match existing_idx {
            Some(i) => i,
            None => new_insert_idx,
        };
        proof {
            assert(self@ =~= known);
            assert(known.windows[idx as int] == self.top_levels@[idx as int]@);
            assert(known.windows[idx as int].handle == *handle);
            lemma_with_window(old(self)@, *handle);
            assert forall|replaced: TopLevelInfo|
                replaced@.handle == *handle && replaced.wf() implies windows_wf(
                #[trigger] window_views(self.top_levels@.update(idx as int, replaced)),
            ) by {
                lemma_window_set(known, *handle, replaced@);
                assert(window_views(self.top_levels@.update(idx as int, replaced))
                    =~= known.with_window_set(*handle, replaced@).windows);
            }
        }
        &mut self.top_levels[idx]
    }

    /// Records the title announced for the window `handle`, replacing any earlier
    /// one. The window is created first if it is not known yet.
    pub fn set_title(&mut self, handle: &WindowId, title: String)
        requires
            old(self).wf(),
        ensures
            final(self)@ == old(self)@.titled(*handle, title@),
            final(self).wf(),
    {
        let top_level = self.get_or_create_top_level(handle);
        top_level.set_title(title);
    }

    /// Makes sure that the window `handle` is known: it is created, with no title
    /// and on no display, unless the registry already holds it.
    pub fn ensure_top_level(&mut self, handle: &WindowId)
        requires
            old(self).wf(),
        ensures
            final(self)@ == old(self)@.with_window(*handle),
            final(self).wf(),
    {
        self.get_or_create_top_level(handle);
        proof {
            lemma_with_window(old(self)@, *handle);
            lemma_window_set_same(old(self)@.with_window(*handle), *handle);
        }
    }

    /// Records that the window `handle` entered `display`; a display that it
    /// already occupies is not recorded twice. The window is created first if it
    /// is not known yet.
    pub fn add_occupied_display(&mut self, handle: &WindowId, display: DisplayId)
        requires
            old(self).wf(),
        ensures
            final(self)@ == old(self)@.entered(*handle, display),
            final(self).wf(),
    {
        let top_level = self.get_or_create_top_level(handle);
        top_level.push_current_output(display);
    }

    /// Records that the window `handle` left `display`; leaving a display that it
    /// does not occupy changes nothing about its displays. The window is created
    /// first if it is not known yet.
    pub fn remove_occupied_display(&mut self, handle: &WindowId, display: DisplayId)
        requires
            old(self).wf(),
        ensures
            final(self)@ == old(self)@.left(*handle, display),
            final(self).wf(),
    {
        let top_level = self.get_or_create_top_level(handle);
        top_level.pop_current_output(&display);
    }

    /// Reports that the window `handle` was closed. The window is forgotten, and
    /// the focus tracker is cleared if it named this window; the focus on any
    /// other window stays. Closing a window that is not known changes nothing
    /// about the registry.
    pub fn notify_top_level_closed(&mut self, handle: &WindowId) -> (existed: bool)
        requires
            old(self).wf(),
        ensures
            final(self)@ == old(self)@.closed(*handle),
            final(self).wf(),
            existed == old(self)@.has_window(*handle),
            !final(self)@.has_window(*handle),
            old(self)@.focus == Some(*handle) ==> final(self)@.focus is None,
            old(self)@.focus != Some(*handle) ==> final(self)@.focus == old(self)@.focus,
    {
        proof {
            lemma_closed(old(self)@, *handle);
        }
        if self.focused_top_level_object_id == Some(*handle) {
            self.focused_top_level_object_id = None;
        }
        match self.index_of_top_level_for_object_id(handle) {
            Some(idx) => {
                self.top_levels.remove(idx);
                proof {
                    assert(self@.windows =~= old(self)@.windows.remove(idx as int));
                }
                true
            },
            None => false,
        }
    }
}

} // verus!

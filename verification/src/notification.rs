//! The notifications about a window that the compositor sends, and what each
//! does to the registry and the focus tracker.

use vstd::prelude::*;
use crate::ids::{DisplayId, WindowId};
use crate::protocol::{is_activated, state_is_activated};
use crate::state::{AppState, AppStateView, lemma_closed, lemma_window_set, lemma_with_window};
use crate::top_level::lemma_window_updates_keep_wf;

verus! {

/// A notification about one window.
#[derive(Debug)]
pub enum Notification {
    /// The window appeared.
    Appeared,
    /// The window's title changed.
    TitleChanged { title: String },
    /// The window entered a display.
    EnteredDisplay { output: DisplayId },
    /// The window left a display.
    LeftDisplay { output: DisplayId },
    /// The window's state changed; `state` is the state array as it came.
    StateChanged { state: Vec<u8> },
    /// The window was closed.
    Closed,
    /// Any other notification; none of them matters to the engine.
    Ignored,
}

/// A notification about one window, in mathematical terms.
pub enum NotificationView {
    Appeared,
    TitleChanged { title: Seq<char> },
    EnteredDisplay { output: DisplayId },
    LeftDisplay { output: DisplayId },
    StateChanged { state: Seq<u8> },
    Closed,
    Ignored,
}

impl View for Notification {
    type V = NotificationView;

    open spec fn view(&self) -> NotificationView {
        match self {
            Notification::Appeared => NotificationView::Appeared,
            Notification::TitleChanged { title } => NotificationView::TitleChanged {
                title: title@,
            },
            Notification::EnteredDisplay { output } => NotificationView::EnteredDisplay {
                output: *output,
            },
            Notification::LeftDisplay { output } => NotificationView::LeftDisplay {
                output: *output,
            },
            Notification::StateChanged { state } => NotificationView::StateChanged {
                state: state@,
            },
            Notification::Closed => NotificationView::Closed,
            Notification::Ignored => NotificationView::Ignored,
        }
    }
}

impl AppStateView {
    /// The state after one notification about the window `handle`.
    ///
    /// Whatever the notification is, the window is known afterwards, except
    /// where the notification says that it was closed.
    pub open spec fn step(self, handle: WindowId, notification: NotificationView) -> AppStateView {
        match notification {
            NotificationView::Appeared => self.with_window(handle),
            NotificationView::TitleChanged { title } => self.titled(handle, title),
            NotificationView::EnteredDisplay { output } => self.entered(handle, output),
            NotificationView::LeftDisplay { output } => self.left(handle, output),
            NotificationView::StateChanged { state } => self.with_window(handle).focus_changed(
                handle,
                is_activated(state),
            ),
            NotificationView::Closed => self.closed(handle),
            NotificationView::Ignored => self.with_window(handle),
        }
    }

    /// The state after a sequence of notifications, applied in order.
    pub open spec fn run(self, notifications: Seq<(WindowId, NotificationView)>) -> AppStateView
        decreases notifications.len(),
    {
        if notifications.len() == 0 {
            self
        } else {
            self.run(notifications.drop_last()).step(
                notifications.last().0,
                notifications.last().1,
            )
        }
    }
}

impl AppState {
    /// Applies one notification about the window `handle`.
    pub fn apply_notification(&mut self, handle: &WindowId, notification: Notification)
        requires
            old(self).wf(),
        ensures
            final(self)@ == old(self)@.step(*handle, notification@),
            final(self).wf(),
    {
        match notification {
            Notification::Appeared => {
                self.ensure_top_level(handle);
            },
            Notification::TitleChanged { title } => {
                self.set_title(handle, title);
            },
            Notification::EnteredDisplay { output } => {
                self.add_occupied_display(handle, output);
            },
            Notification::LeftDisplay { output } => {
                self.remove_occupied_display(handle, output);
            },
            Notification::StateChanged { state } => {
                self.ensure_top_level(handle);
                let focused = state_is_activated(state.as_slice());
                self.notify_top_level_focus_changed(handle, focused);
            },
            Notification::Closed => {
                self.notify_top_level_closed(handle);
            },
            Notification::Ignored => {
                self.ensure_top_level(handle);
            },
        }
    }
}

/// One notification takes a well-formed state to a well-formed state: no
/// window comes to occupy a display twice, and no identity comes to name two
/// windows. If the tracked focus was a known window before, it is one after.
pub proof fn lemma_step_keeps_invariants(
    state: AppStateView,
    handle: WindowId,
    notification: NotificationView,
)
    requires
        state.wf(),
    ensures
        state.step(handle, notification).wf(),
        state.focus_is_live() ==> state.step(handle, notification).focus_is_live(),
{
    let known = state.with_window(handle);
    let window = known.window(handle);
    lemma_with_window(state, handle);
    lemma_closed(state, handle);
    match notification {
        NotificationView::TitleChanged { title } => {
            lemma_window_updates_keep_wf(window, DisplayId(0), title);
            lemma_window_set(known, handle, window.with_title(title));
        },
        NotificationView::EnteredDisplay { output } => {
            lemma_window_updates_keep_wf(window, output, Seq::empty());
            lemma_window_set(known, handle, window.entered(output));
        },
        NotificationView::LeftDisplay { output } => {
            lemma_window_updates_keep_wf(window, output, Seq::empty());
            lemma_window_set(known, handle, window.left(output));
        },
        _ => {},
    }
}

/// Any sequence of notifications takes a well-formed state to a well-formed
/// state, and keeps a tracked focus among the known windows.
pub proof fn lemma_run_keeps_invariants(
    state: AppStateView,
    notifications: Seq<(WindowId, NotificationView)>,
)
    requires
        state.wf(),
    ensures
        state.run(notifications).wf(),
        state.focus_is_live() ==> state.run(notifications).focus_is_live(),
    decreases notifications.len(),
{
    if notifications.len() > 0 {
        lemma_run_keeps_invariants(state, notifications.drop_last());
        lemma_step_keeps_invariants(
            state.run(notifications.drop_last()),
            notifications.last().0,
            notifications.last().1,
        );
    }
}

/// Starting from nothing, after every step of every sequence of notifications
/// no window occupies a display twice, no identity names two windows, and the
/// tracked focus, if any, is a known window.
pub proof fn lemma_invariants_hold_after_every_step(
    notifications: Seq<(WindowId, NotificationView)>,
    steps: int,
)
    requires
        0 <= steps <= notifications.len(),
    ensures
        AppStateView::empty().run(notifications.take(steps)).wf(),
        AppStateView::empty().run(notifications.take(steps)).focus_is_live(),
        forall|i: int|
            0 <= i < AppStateView::empty().run(notifications.take(steps)).windows.len()
                ==> (#[trigger] AppStateView::empty().run(
                notifications.take(steps),
            ).windows[i]).outputs.no_duplicates(),
{
    let reached = AppStateView::empty().run(notifications.take(steps));
    lemma_run_keeps_invariants(AppStateView::empty(), notifications.take(steps));
    assert forall|i: int| 0 <= i < reached.windows.len() implies (
    #[trigger] reached.windows[i]).outputs.no_duplicates() by {
        assert(reached.windows[i].wf());
    }
}

} // verus!

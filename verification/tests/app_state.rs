use hyprland_vibrance::{AppState, DisplayId, Notification, WindowId};

const A: WindowId = WindowId(1);
const B: WindowId = WindowId(2);
const C: WindowId = WindowId(3);
const D1: DisplayId = DisplayId(10);
const D2: DisplayId = DisplayId(20);

#[test]
fn new_state_knows_no_window_and_tracks_no_focus() {
    let mut state = AppState::new();
    assert_eq!(state.index_of_top_level_for_object_id(&A), None);
    assert!(state.find_top_level(&A).is_none());
    assert_eq!(state.focused_handle(), None);
    assert!(state.focused_top_level().is_none());
}

#[test]
fn default_state_is_the_new_state() {
    let mut state = AppState::default();
    assert_eq!(state.focused_handle(), None);
    assert_eq!(state.index_of_top_level_for_object_id(&A), None);
    assert!(state.focused_top_level().is_none());
}

#[test]
fn get_or_create_creates_a_fresh_window() {
    let mut state = AppState::new();
    let top_level = state.get_or_create_top_level(&A);
    assert_eq!(top_level.handle(), A);
    assert_eq!(top_level.title(), None);
    assert!(top_level.current_outputs().is_empty());
    assert_eq!(state.index_of_top_level_for_object_id(&A), Some(0));
}

#[test]
fn get_or_create_returns_the_window_that_exists() {
    let mut state = AppState::new();
    state.get_or_create_top_level(&A).set_title(String::from("Terminal"));
    state.get_or_create_top_level(&B);
    let again = state.get_or_create_top_level(&A);
    assert_eq!(again.handle(), A);
    assert_eq!(again.title(), Some(&String::from("Terminal")));
    assert_eq!(state.index_of_top_level_for_object_id(&A), Some(0));
    assert_eq!(state.index_of_top_level_for_object_id(&B), Some(1));
    assert_eq!(state.index_of_top_level_for_object_id(&C), None);
}

#[test]
fn changes_through_the_returned_window_reach_the_registry() {
    let mut state = AppState::new();
    state.get_or_create_top_level(&A).push_current_output(D1);
    state.get_or_create_top_level(&A).push_current_output(D2);
    let found = state.find_top_level(&A).unwrap();
    assert_eq!(found.current_outputs(), &vec![D1, D2]);
}

#[test]
fn set_title_creates_the_window_and_overwrites() {
    let mut state = AppState::new();
    state.set_title(&A, String::from("one"));
    assert_eq!(
        state.find_top_level(&A).unwrap().title(),
        Some(&String::from("one"))
    );
    state.set_title(&A, String::from("two"));
    assert_eq!(
        state.find_top_level(&A).unwrap().title(),
        Some(&String::from("two"))
    );
    assert_eq!(state.index_of_top_level_for_object_id(&A), Some(0));
    assert_eq!(state.index_of_top_level_for_object_id(&B), None);
}

#[test]
fn add_occupied_display_creates_the_window_and_ignores_repeats() {
    let mut state = AppState::new();
    state.add_occupied_display(&A, D1);
    state.add_occupied_display(&A, D2);
    state.add_occupied_display(&A, D1);
    assert_eq!(
        state.find_top_level(&A).unwrap().current_outputs(),
        &vec![D1, D2]
    );
}

#[test]
fn remove_occupied_display_tolerates_a_display_never_entered() {
    let mut state = AppState::new();
    state.add_occupied_display(&A, D1);
    state.remove_occupied_display(&A, D2);
    assert_eq!(state.find_top_level(&A).unwrap().current_outputs(), &vec![D1]);
    state.remove_occupied_display(&A, D1);
    assert!(state.find_top_level(&A).unwrap().current_outputs().is_empty());
}

#[test]
fn remove_occupied_display_makes_an_unseen_window_known() {
    let mut state = AppState::new();
    state.remove_occupied_display(&B, D1);
    let found = state.find_top_level(&B).unwrap();
    assert_eq!(found.title(), None);
    assert!(found.current_outputs().is_empty());
}

#[test]
fn windows_do_not_share_their_displays() {
    let mut state = AppState::new();
    state.add_occupied_display(&A, D1);
    state.add_occupied_display(&B, D1);
    state.add_occupied_display(&B, D2);
    state.remove_occupied_display(&A, D1);
    assert!(state.find_top_level(&A).unwrap().current_outputs().is_empty());
    assert_eq!(
        state.find_top_level(&B).unwrap().current_outputs(),
        &vec![D1, D2]
    );
}

#[test]
fn activation_sets_the_focus() {
    let mut state = AppState::new();
    state.get_or_create_top_level(&A);
    state.notify_top_level_focus_changed(&A, true);
    assert_eq!(state.focused_handle(), Some(A));
    assert_eq!(state.focused_top_level().unwrap().handle(), A);
}

#[test]
fn activation_overwrites_an_earlier_focus() {
    let mut state = AppState::new();
    state.get_or_create_top_level(&A);
    state.get_or_create_top_level(&B);
    state.notify_top_level_focus_changed(&A, true);
    state.notify_top_level_focus_changed(&B, true);
    assert_eq!(state.focused_handle(), Some(B));
    assert_eq!(state.focused_top_level().unwrap().handle(), B);
}

#[test]
fn deactivation_of_the_focused_window_clears_the_focus() {
    let mut state = AppState::new();
    state.get_or_create_top_level(&A);
    state.notify_top_level_focus_changed(&A, true);
    state.notify_top_level_focus_changed(&A, false);
    assert_eq!(state.focused_handle(), None);
    assert!(state.focused_top_level().is_none());
}

#[test]
fn stale_deactivation_is_a_no_op() {
    let mut state = AppState::new();
    state.set_title(&A, String::from("Terminal"));
    state.add_occupied_display(&B, D1);
    state.notify_top_level_focus_changed(&A, true);
    state.notify_top_level_focus_changed(&B, true);
    // the deactivation of A arrives after B was activated
    state.notify_top_level_focus_changed(&A, false);
    assert_eq!(state.focused_handle(), Some(B));
    assert_eq!(state.index_of_top_level_for_object_id(&A), Some(0));
    assert_eq!(state.index_of_top_level_for_object_id(&B), Some(1));
    assert_eq!(
        state.find_top_level(&A).unwrap().title(),
        Some(&String::from("Terminal"))
    );
    assert_eq!(state.find_top_level(&B).unwrap().current_outputs(), &vec![D1]);
}

#[test]
fn deactivation_without_any_focus_is_a_no_op() {
    let mut state = AppState::new();
    state.get_or_create_top_level(&A);
    state.notify_top_level_focus_changed(&A, false);
    assert_eq!(state.focused_handle(), None);
    assert_eq!(state.index_of_top_level_for_object_id(&A), Some(0));
}

#[test]
fn closing_the_focused_window_clears_the_focus() {
    let mut state = AppState::new();
    state.get_or_create_top_level(&A);
    state.get_or_create_top_level(&B);
    state.notify_top_level_focus_changed(&A, true);
    assert!(state.notify_top_level_closed(&A));
    assert_eq!(state.focused_handle(), None);
    assert!(state.focused_top_level().is_none());
    assert!(state.find_top_level(&A).is_none());
    assert_eq!(state.index_of_top_level_for_object_id(&B), Some(0));
}

#[test]
fn closing_another_window_leaves_the_focus_untouched() {
    let mut state = AppState::new();
    state.get_or_create_top_level(&A);
    state.get_or_create_top_level(&B);
    state.notify_top_level_focus_changed(&A, true);
    assert!(state.notify_top_level_closed(&B));
    assert_eq!(state.focused_handle(), Some(A));
    assert_eq!(state.focused_top_level().unwrap().handle(), A);
    assert!(state.find_top_level(&B).is_none());
}

#[test]
fn closing_an_unknown_window_is_tolerated() {
    let mut state = AppState::new();
    state.set_title(&A, String::from("Terminal"));
    state.notify_top_level_focus_changed(&A, true);
    assert!(!state.notify_top_level_closed(&C));
    assert_eq!(state.focused_handle(), Some(A));
    assert_eq!(state.index_of_top_level_for_object_id(&A), Some(0));
    assert_eq!(
        state.find_top_level(&A).unwrap().title(),
        Some(&String::from("Terminal"))
    );
}

#[test]
fn closing_keeps_the_other_windows_in_their_order() {
    let mut state = AppState::new();
    state.get_or_create_top_level(&A);
    state.add_occupied_display(&B, D1);
    state.add_occupied_display(&C, D2);
    assert!(state.notify_top_level_closed(&B));
    assert_eq!(state.index_of_top_level_for_object_id(&A), Some(0));
    assert_eq!(state.index_of_top_level_for_object_id(&B), None);
    assert_eq!(state.index_of_top_level_for_object_id(&C), Some(1));
    assert_eq!(state.find_top_level(&C).unwrap().current_outputs(), &vec![D2]);
}

#[test]
fn a_closed_window_that_is_mentioned_again_starts_afresh() {
    let mut state = AppState::new();
    state.set_title(&A, String::from("Terminal"));
    state.add_occupied_display(&A, D1);
    assert!(state.notify_top_level_closed(&A));
    let again = state.get_or_create_top_level(&A);
    assert_eq!(again.title(), None);
    assert!(again.current_outputs().is_empty());
}

#[test]
fn focus_on_an_unknown_window_is_reported_absent_and_cleared() {
    let mut state = AppState::new();
    state.get_or_create_top_level(&A);
    state.notify_top_level_focus_changed(&C, true);
    assert_eq!(state.focused_handle(), Some(C));
    assert!(state.focused_top_level().is_none());
    assert_eq!(state.focused_handle(), None);
    // the window that appears later is not focused by the cleared tracker
    state.get_or_create_top_level(&C);
    assert!(state.focused_top_level().is_none());
}

#[test]
fn focused_top_level_leaves_a_live_focus_alone() {
    let mut state = AppState::new();
    state.add_occupied_display(&A, D1);
    state.notify_top_level_focus_changed(&A, true);
    assert_eq!(state.focused_top_level().unwrap().current_outputs(), &vec![D1]);
    assert_eq!(state.focused_handle(), Some(A));
    assert_eq!(state.focused_top_level().unwrap().handle(), A);
}

#[test]
fn notifications_are_applied_one_by_one() {
    let mut state = AppState::new();
    state.apply_notification(&A, Notification::Appeared);
    state.apply_notification(
        &A,
        Notification::TitleChanged { title: String::from("Terminal") },
    );
    state.apply_notification(&A, Notification::EnteredDisplay { output: D1 });
    state.apply_notification(&A, Notification::EnteredDisplay { output: D2 });
    state.apply_notification(&A, Notification::LeftDisplay { output: D1 });
    state.apply_notification(&A, Notification::StateChanged { state: vec![2, 0, 0, 0] });
    let focused = state.focused_top_level().unwrap();
    assert_eq!(focused.handle(), A);
    assert_eq!(focused.title(), Some(&String::from("Terminal")));
    assert_eq!(focused.current_outputs(), &vec![D2]);
}

#[test]
fn any_notification_makes_an_unseen_window_known() {
    let mut state = AppState::new();
    state.apply_notification(&A, Notification::TitleChanged { title: String::from("t") });
    state.apply_notification(&B, Notification::EnteredDisplay { output: D1 });
    state.apply_notification(&C, Notification::LeftDisplay { output: D1 });
    state.apply_notification(&WindowId(4), Notification::StateChanged { state: vec![] });
    state.apply_notification(&WindowId(5), Notification::Ignored);
    state.apply_notification(&WindowId(6), Notification::Appeared);
    assert_eq!(state.index_of_top_level_for_object_id(&A), Some(0));
    assert_eq!(state.index_of_top_level_for_object_id(&B), Some(1));
    assert_eq!(state.index_of_top_level_for_object_id(&C), Some(2));
    assert_eq!(state.index_of_top_level_for_object_id(&WindowId(4)), Some(3));
    assert_eq!(state.index_of_top_level_for_object_id(&WindowId(5)), Some(4));
    assert_eq!(state.index_of_top_level_for_object_id(&WindowId(6)), Some(5));
    assert_eq!(state.focused_handle(), None);
}

#[test]
fn appearing_after_other_notifications_changes_nothing() {
    let mut state = AppState::new();
    state.apply_notification(&A, Notification::EnteredDisplay { output: D1 });
    state.apply_notification(&A, Notification::TitleChanged { title: String::from("t") });
    state.apply_notification(&A, Notification::Appeared);
    let found = state.find_top_level(&A).unwrap();
    assert_eq!(found.title(), Some(&String::from("t")));
    assert_eq!(found.current_outputs(), &vec![D1]);
    assert_eq!(state.index_of_top_level_for_object_id(&A), Some(0));
}

#[test]
fn closed_notification_for_an_unknown_window_leaves_nothing_behind() {
    let mut state = AppState::new();
    state.apply_notification(&A, Notification::Appeared);
    state.apply_notification(&B, Notification::Closed);
    assert_eq!(state.index_of_top_level_for_object_id(&A), Some(0));
    assert_eq!(state.index_of_top_level_for_object_id(&B), None);
}

#[test]
fn closed_notification_forgets_the_window_and_its_focus() {
    let mut state = AppState::new();
    state.apply_notification(&A, Notification::StateChanged { state: vec![2, 0, 0, 0] });
    assert_eq!(state.focused_handle(), Some(A));
    state.apply_notification(&A, Notification::Closed);
    assert_eq!(state.focused_handle(), None);
    assert_eq!(state.index_of_top_level_for_object_id(&A), None);
}

#[test]
fn state_without_the_activated_value_takes_the_focus_away() {
    let mut state = AppState::new();
    state.apply_notification(&A, Notification::StateChanged { state: vec![2, 0, 0, 0] });
    assert_eq!(state.focused_handle(), Some(A));
    // maximized and fullscreen, not activated
    state.apply_notification(
        &A,
        Notification::StateChanged { state: vec![0, 0, 0, 0, 3, 0, 0, 0] },
    );
    assert_eq!(state.focused_handle(), None);
}

#[test]
fn state_of_another_window_without_activation_is_stale() {
    let mut state = AppState::new();
    state.apply_notification(&A, Notification::StateChanged { state: vec![2, 0, 0, 0] });
    state.apply_notification(&B, Notification::StateChanged { state: vec![1, 0, 0, 0] });
    assert_eq!(state.focused_handle(), Some(A));
}

#[test]
fn no_window_ever_occupies_a_display_twice() {
    let mut state = AppState::new();
    let windows = [A, B, C];
    let displays = [D1, D2, DisplayId(30)];
    // a fixed, irregular walk through the notifications
    let mut seed: u32 = 12345;
    for _ in 0..400 {
        seed = seed.wrapping_mul(1103515245).wrapping_add(12345);
        let window = windows[((seed >> 16) % 3) as usize];
        let display = displays[((seed >> 8) % 3) as usize];
        let notification = match (seed >> 20) % 7 {
            0 => Notification::Appeared,
            1 => Notification::TitleChanged { title: String::from("Terminal") },
            2 | 3 => Notification::EnteredDisplay { output: display },
            4 => Notification::LeftDisplay { output: display },
            5 => Notification::StateChanged { state: vec![(seed % 4) as u8, 0, 0, 0] },
            _ => Notification::Closed,
        };
        state.apply_notification(&window, notification);

        for handle in &windows {
            if let Some(top_level) = state.find_top_level(handle) {
                let outputs = top_level.current_outputs();
                for (i, output) in outputs.iter().enumerate() {
                    assert!(!outputs[i + 1..].contains(output));
                }
            }
        }
        if let Some(focus) = state.focused_handle() {
            assert!(state.find_top_level(&focus).is_some());
        }
    }
}

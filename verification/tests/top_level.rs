use hyprland_vibrance::{DisplayId, TopLevelInfo, WindowId};

#[test]
fn new_top_level_has_no_title_and_no_outputs() {
    let top_level = TopLevelInfo::new(WindowId(7));
    assert_eq!(top_level.handle(), WindowId(7));
    assert_eq!(top_level.title(), None);
    assert!(top_level.current_outputs().is_empty());
}

#[test]
fn set_title_overwrites_the_earlier_title() {
    let mut top_level = TopLevelInfo::new(WindowId(1));
    top_level.set_title(String::from("first"));
    assert_eq!(top_level.title(), Some(&String::from("first")));
    top_level.set_title(String::from("second"));
    assert_eq!(top_level.title(), Some(&String::from("second")));
}

#[test]
fn push_current_output_appends_in_order() {
    let mut top_level = TopLevelInfo::new(WindowId(1));
    top_level.push_current_output(DisplayId(3));
    top_level.push_current_output(DisplayId(1));
    top_level.push_current_output(DisplayId(2));
    assert_eq!(
        top_level.current_outputs(),
        &vec![DisplayId(3), DisplayId(1), DisplayId(2)]
    );
}

#[test]
fn push_current_output_ignores_a_display_already_occupied() {
    let mut top_level = TopLevelInfo::new(WindowId(1));
    top_level.push_current_output(DisplayId(3));
    top_level.push_current_output(DisplayId(1));
    top_level.push_current_output(DisplayId(3));
    top_level.push_current_output(DisplayId(1));
    assert_eq!(top_level.current_outputs(), &vec![DisplayId(3), DisplayId(1)]);
}

#[test]
fn pop_current_output_removes_the_display_and_keeps_the_order() {
    let mut top_level = TopLevelInfo::new(WindowId(1));
    top_level.push_current_output(DisplayId(3));
    top_level.push_current_output(DisplayId(1));
    top_level.push_current_output(DisplayId(2));
    top_level.pop_current_output(&DisplayId(1));
    assert_eq!(top_level.current_outputs(), &vec![DisplayId(3), DisplayId(2)]);
}

#[test]
fn pop_current_output_of_a_display_never_entered_changes_nothing() {
    let mut top_level = TopLevelInfo::new(WindowId(1));
    top_level.push_current_output(DisplayId(3));
    top_level.pop_current_output(&DisplayId(9));
    assert_eq!(top_level.current_outputs(), &vec![DisplayId(3)]);
    assert_eq!(top_level.handle(), WindowId(1));
    assert_eq!(top_level.title(), None);
}

#[test]
fn pop_current_output_on_a_window_without_displays_changes_nothing() {
    let mut top_level = TopLevelInfo::new(WindowId(1));
    top_level.pop_current_output(&DisplayId(9));
    assert!(top_level.current_outputs().is_empty());
}

#[test]
fn a_display_can_be_entered_again_after_it_was_left() {
    let mut top_level = TopLevelInfo::new(WindowId(1));
    top_level.push_current_output(DisplayId(1));
    top_level.push_current_output(DisplayId(2));
    top_level.pop_current_output(&DisplayId(1));
    top_level.push_current_output(DisplayId(1));
    assert_eq!(top_level.current_outputs(), &vec![DisplayId(2), DisplayId(1)]);
}

#[test]
fn title_and_displays_do_not_touch_each_other() {
    let mut top_level = TopLevelInfo::new(WindowId(4));
    top_level.set_title(String::from("Terminal"));
    top_level.push_current_output(DisplayId(1));
    assert_eq!(top_level.title(), Some(&String::from("Terminal")));
    top_level.set_title(String::from("Editor"));
    assert_eq!(top_level.current_outputs(), &vec![DisplayId(1)]);
    assert_eq!(top_level.handle(), WindowId(4));
}

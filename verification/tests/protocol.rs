use hyprland_vibrance::protocol::state_is_activated;

#[test]
fn empty_state_is_not_activated() {
    assert!(!state_is_activated(&[]));
}

#[test]
fn state_with_the_activated_value_is_activated() {
    assert!(state_is_activated(&[2, 0, 0, 0]));
    assert!(state_is_activated(&[0, 0, 0, 0, 2, 0, 0, 0]));
    assert!(state_is_activated(&[3, 0, 0, 0, 2, 0, 0, 0, 1, 0, 0, 0]));
}

#[test]
fn state_with_other_values_only_is_not_activated() {
    assert!(!state_is_activated(&[0, 0, 0, 0]));
    assert!(!state_is_activated(&[1, 0, 0, 0]));
    assert!(!state_is_activated(&[3, 0, 0, 0]));
    assert!(!state_is_activated(&[0, 0, 0, 0, 1, 0, 0, 0, 3, 0, 0, 0]));
}

#[test]
fn activated_is_looked_for_among_the_bytes() {
    assert!(state_is_activated(&[2]));
    assert!(state_is_activated(&[7, 2]));
    assert!(!state_is_activated(&[20, 22, 200]));
}

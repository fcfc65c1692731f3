use control_panel::{Selector, System};

fn only(p: usize) -> [bool; 8] {
    let mut a = [false; 8];
    a[p] = true;
    a
}

#[test]
fn sole_active_input_selects() {
    assert_eq!(Selector::selection(only(0)), Some(0));
    assert_eq!(Selector::selection(only(5)), Some(5));
    assert_eq!(Selector::selection(only(7)), Some(7));
}

#[test]
fn no_active_input_selects_nothing() {
    assert_eq!(Selector::selection([false; 8]), None);
}

#[test]
fn two_active_inputs_select_nothing() {
    let mut a = only(2);
    a[3] = true;
    assert_eq!(Selector::selection(a), None);
    assert_eq!(Selector::selection([true; 8]), None);
}

#[test]
fn first_position_reported() {
    let mut s = Selector::new();
    assert_eq!(s.changed(only(4)), Some(4));
    assert_eq!(s.changed(only(4)), None);
}

#[test]
fn ambiguous_readings_no_event() {
    let mut s = Selector::new();
    assert_eq!(s.changed([false; 8]), None);
    assert_eq!(s.changed(only(1)), Some(1));
    let mut two = only(1);
    two[2] = true;
    assert_eq!(s.changed(two), None);
    assert_eq!(s.changed([false; 8]), None);
}

#[test]
fn return_after_ambiguity_not_reported() {
    let mut s = Selector::new();
    assert_eq!(s.changed(only(3)), Some(3));
    let mut two = only(3);
    two[4] = true;
    assert_eq!(s.changed(two), None);
    assert_eq!(s.changed([false; 8]), None);
    assert_eq!(s.changed(only(3)), None);
    assert_eq!(s.changed(only(4)), Some(4));
}

#[test]
fn system_mode_selector_reports_changes() {
    let mut sys = System::new();
    assert_eq!(sys.mode_selector.changed(only(6)), Some(6));
    assert_eq!(sys.mode_selector.changed(only(6)), None);
}

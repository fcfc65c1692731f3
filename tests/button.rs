use control_panel::{Button, System};

fn feed(b: &mut Button, samples: &[bool]) {
    for &s in samples {
        b.sample(s);
    }
}

#[test]
fn six_active_samples_then_release_not_reported() {
    let mut b = Button::new();
    feed(&mut b, &[true; 6]);
    b.sample(false);
    assert!(!b.was_pressed());
}

#[test]
fn seven_active_samples_reported() {
    let mut b = Button::new();
    feed(&mut b, &[true; 6]);
    assert!(!b.was_pressed());
    b.sample(true);
    assert!(b.was_pressed());
}

#[test]
fn bounce_shorter_than_window_ignored() {
    let mut b = Button::new();
    feed(&mut b, &[true, true, false, true, true, true, false, true, true, true, true, true, true]);
    assert!(!b.was_pressed());
    b.sample(true);
    assert!(b.was_pressed());
}

#[test]
fn second_read_reports_no_press() {
    let mut b = Button::new();
    feed(&mut b, &[true; 7]);
    assert!(b.was_pressed());
    assert!(!b.was_pressed());
}

#[test]
fn held_press_reported_once() {
    let mut b = Button::new();
    let mut reports = 0;
    for _ in 0..100 {
        b.sample(true);
        if b.was_pressed() {
            reports += 1;
        }
    }
    assert_eq!(reports, 1);
}

#[test]
fn unread_press_stays_latched_after_release() {
    let mut b = Button::new();
    feed(&mut b, &[true; 7]);
    feed(&mut b, &[false; 20]);
    assert!(b.was_pressed());
    assert!(!b.was_pressed());
}

#[test]
fn second_press_after_release_reported_again() {
    let mut b = Button::new();
    feed(&mut b, &[true; 10]);
    assert!(b.was_pressed());
    b.sample(false);
    feed(&mut b, &[true; 6]);
    assert!(!b.was_pressed());
    b.sample(true);
    assert!(b.was_pressed());
}

#[test]
fn system_tick_samples_each_button() {
    let mut sys = System::new();
    assert_eq!(System::num_buttons(), 3);
    for _ in 0..7 {
        sys.tick([false, true, false]);
    }
    assert!(!sys.button_pressed(0));
    assert!(sys.button_pressed(1));
    assert!(!sys.button_pressed(1));
    assert!(!sys.button_pressed(2));
    assert_eq!(sys.get_millis(), 7);
}

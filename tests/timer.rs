use control_panel::{Duration, System, Timer};

fn advance(sys: &mut System, ticks: u32) {
    for _ in 0..ticks {
        sys.tick([false; 3]);
    }
}

#[test]
fn new_timer_never_ready() {
    let mut sys = System::new();
    let mut t = Timer::new();
    assert!(!t.is_ready(&sys));
    advance(&mut sys, 1000);
    assert!(!t.is_ready(&sys));
}

#[test]
fn restart_then_immediately_not_ready() {
    let sys = System::new();
    let mut t = Timer::new();
    t.reset(&sys, &Duration::Millis(500));
    assert!(!t.is_ready(&sys));
}

#[test]
fn ready_once_after_length() {
    let mut sys = System::new();
    let mut t = Timer::new();
    t.reset(&sys, &Duration::Millis(500));
    advance(&mut sys, 499);
    assert!(!t.is_ready(&sys));
    advance(&mut sys, 1);
    assert!(t.is_ready(&sys));
    assert!(!t.is_ready(&sys));
    advance(&mut sys, 600);
    assert!(!t.is_ready(&sys));
}

#[test]
fn ready_late_still_reported_once() {
    let mut sys = System::new();
    let mut t = Timer::new();
    t.reset(&sys, &Duration::Millis(500));
    advance(&mut sys, 750);
    assert!(t.is_ready(&sys));
    assert!(!t.is_ready(&sys));
}

#[test]
fn forever_never_ready() {
    let mut sys = System::new();
    let mut t = Timer::new();
    t.reset(&sys, &Duration::Millis(5));
    t.reset(&sys, &Duration::Forever);
    advance(&mut sys, 100);
    assert!(!t.is_ready(&sys));
}

#[test]
fn restart_rearms_after_firing() {
    let mut sys = System::new();
    let mut t = Timer::new();
    t.reset(&sys, &Duration::Millis(3));
    advance(&mut sys, 3);
    assert!(t.is_ready(&sys));
    t.reset(&sys, &Duration::Millis(3));
    advance(&mut sys, 2);
    assert!(!t.is_ready(&sys));
    advance(&mut sys, 1);
    assert!(t.is_ready(&sys));
}

#[test]
fn force_ready_fires_at_once() {
    let mut sys = System::new();
    advance(&mut sys, 42);
    let mut t = Timer::new();
    t.force_ready(&sys);
    assert!(t.is_ready(&sys));
    assert!(!t.is_ready(&sys));
}

#[test]
fn end_to_end_ten_millis() {
    let mut sys = System::new();
    assert_eq!(sys.get_millis(), 0);
    let mut t = Timer::new();
    t.reset(&sys, &Duration::Millis(10));
    advance(&mut sys, 9);
    assert_eq!(sys.get_millis(), 9);
    assert!(!t.is_ready(&sys));
    advance(&mut sys, 1);
    assert_eq!(sys.get_millis(), 10);
    assert!(t.is_ready(&sys));
    advance(&mut sys, 1);
    assert_eq!(sys.get_millis(), 11);
    assert!(!t.is_ready(&sys));
}

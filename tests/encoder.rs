use control_panel::{Encoder, System};

#[test]
fn no_motion_no_event() {
    let mut e = Encoder::new();
    assert_eq!(e.clicks_moved(0), None);
}

#[test]
fn partial_clicks_carry_over() {
    let mut e = Encoder::new();
    assert_eq!(e.clicks_moved(3), None);
    assert_eq!(e.clicks_moved(6), Some(1));
    assert_eq!(e.clicks_moved(8), Some(1));
}

#[test]
fn backward_partial_clicks_round_down() {
    let mut e = Encoder::new();
    assert_eq!(e.clicks_moved(65533), Some(-1));
    assert_eq!(e.clicks_moved(65530), Some(-1));
    assert_eq!(e.clicks_moved(65528), None);
}

#[test]
fn wrap_forward_is_one_click() {
    let mut e = Encoder::new();
    assert_eq!(e.clicks_moved(65532), Some(-1));
    assert_eq!(e.clicks_moved(65535), None);
    assert_eq!(e.clicks_moved(0), Some(1));
}

#[test]
fn wrap_backward_is_small() {
    let mut e = Encoder::new();
    assert_eq!(e.clicks_moved(8), Some(2));
    assert_eq!(e.clicks_moved(65535), Some(-3));
}

#[test]
fn largest_moves_each_way() {
    let mut e = Encoder::new();
    assert_eq!(e.clicks_moved(0x7fff), Some(8191));
    let mut f = Encoder::new();
    assert_eq!(f.clicks_moved(0x8000), Some(-8192));
}

#[test]
fn sum_of_clicks_matches_total_motion() {
    let mut e = Encoder::new();
    let mut raw: u16 = 0;
    let mut total: i32 = 0;
    let mut sum: i32 = 0;
    for step in [3i32, 3, -5, 7, 1, -2, 9, -11, 4] {
        raw = raw.wrapping_add(step as u16);
        total += step;
        if let Some(c) = e.clicks_moved(raw) {
            sum += c as i32;
        }
    }
    assert_eq!(sum, total.div_euclid(4));
}

#[test]
fn system_polls_the_named_encoder() {
    let mut sys = System::new();
    assert_eq!(System::num_encoders(), 3);
    assert_eq!(sys.encoder_moved(2, 4), Some(1));
    assert_eq!(sys.encoder_moved(0, 4), Some(1));
    assert_eq!(sys.encoder_moved(2, 4), None);
    assert_eq!(sys.encoder_moved(1, 65535), Some(-1));
}

//! Input events and scheduling for a panel of physical controls: debounced
//! push-buttons, quadrature encoders, a rotary selector switch, and a one-shot
//! interval timer measured against a millisecond tick clock.
//!
//! Raw electrical levels and hardware counter readings are handed to the
//! library as plain values; the library turns them into clean events.

mod button;
mod controls;
mod system;
mod timer;

pub use button::{
    after_read, after_sample, after_samples, lemma_held_press_silent, lemma_press_reported_once,
    lemma_second_read_false, lemma_short_press_ignored, presses, shift_in, Button, ButtonView,
    PRESS_PATTERN,
};
pub use controls::{
    advanced, baseline_after, baseline_after_polls, clicks_between, clicks_of, clicks_reported,
    is_sole_active, latest_reading, lemma_ambiguous_reading_silent, lemma_clicks_add_up,
    lemma_return_not_reported, lemma_wrap_is_transparent, on_reading, position_after, raw_motion,
    signed_delta, sole_active, Encoder, Selector, COUNTS_PER_CLICK, POSITIONS,
};
pub use system::{next_millis, System, SystemView};
pub use timer::{
    after_force, after_poll, after_reset, elapsed, is_due, lemma_one_shot, Duration, Timer,
    TimerView,
};

use vstd::prelude::*;

use crate::button::{after_read, after_sample, Button, ButtonView};
use crate::controls::{baseline_after, clicks_between, Encoder, Selector};

verus! {

/// What a [`System`] holds: the tick clock, each button's state, each
/// encoder's baseline, and the selector's remembered position.
pub struct SystemView {
    pub millis: u32,
    pub buttons: Seq<ButtonView>,
    pub encoders: Seq<u16>,
    pub selector: Option<u8>,
}

/// The clock reading one tick after `millis`, wrapping at 2^32.
pub open spec fn next_millis(millis: u32) -> u32 {
    ((millis as int + 1) % 0x1_0000_0000) as u32
}

/// The input state shared by the tick context and the main loop: a
/// millisecond clock, three debounced buttons, three encoders and the mode
/// selector.
///
/// `tick` is the tick context's whole work; the other methods belong to the
/// main loop. The caller runs each of them under one critical section.
pub struct System {
    millis: u32,
    button0: Button,
    button1: Button,
    button2: Button,
    pub encoder0: Encoder,
    pub encoder1: Encoder,
    pub encoder2: Encoder,
    pub mode_selector: Selector,
}

impl View for System {
    type V = SystemView;

    closed spec fn view(&self) -> SystemView {
        SystemView {
            millis: self.millis,
            buttons: seq![self.button0@, self.button1@, self.button2@],
            encoders: seq![self.encoder0@, self.encoder1@, self.encoder2@],
            selector: self.mode_selector@,
        }
    }
}

impl System {
    /// The state at start-up: clock at zero, no samples, no press, every
    /// encoder baseline at zero, no selector position.
    pub fn new() -> (s: System)
        ensures
            s@.millis == 0,
            s@.buttons == seq![ButtonView { history: 0, latched: false }; 3],
            s@.encoders == seq![0u16; 3],
            s@.selector is None,
    {
        let s = System {
            millis: 0,
            button0: Button::new(),
            button1: Button::new(),
            button2: Button::new(),
            encoder0: Encoder::new(),
            encoder1: Encoder::new(),
            encoder2: Encoder::new(),
            mode_selector: Selector::new(),
        };
        assert(s@.buttons =~= seq![ButtonView { history: 0, latched: false }; 3]);
        assert(s@.encoders =~= seq![0u16; 3]);
        s
    }

    /// Number of encoders.
    pub fn num_encoders() -> (n: usize)
        ensures
            n == 3,
    {
        3
    }

    /// Number of buttons.
    pub fn num_buttons() -> (n: usize)
        ensures
            n == 3,
    {
        3
    }

    /// One tick of the clock: advances it by one millisecond and feeds each
    /// button its raw level (`active[i]` is true while button `i` is closed).
    pub fn tick(&mut self, active: [bool; 3])
        ensures
            final(self)@ == (SystemView {
                millis: next_millis(old(self)@.millis),
                buttons: Seq::new(3, |i: int| after_sample(old(self)@.buttons[i], active@[i])),
                ..old(self)@
            }),
    {
        self.millis = self.millis.wrapping_add(1);
        self.button0.sample(active[0]);
        self.button1.sample(active[1]);
        self.button2.sample(active[2]);
        assert(self@.buttons =~= Seq::new(
            3,
            |i: int| after_sample(old(self)@.buttons[i], active@[i]),
        ));
    }

    /// Polls encoder `encoder_num` with its current raw counter value.
    pub fn encoder_moved(&mut self, encoder_num: usize, raw_count: u16) -> (r: Option<i16>)
        requires
            encoder_num < 3,
        ensures
            ({
                let c = clicks_between(old(self)@.encoders[encoder_num as int], raw_count);
                &&& c == 0 ==> r is None
                &&& c != 0 ==> r is Some && r->0 == c
            }),
            final(self)@ == (SystemView {
                encoders: old(self)@.encoders.update(
                    encoder_num as int,
                    baseline_after(old(self)@.encoders[encoder_num as int], raw_count),
                ),
                ..old(self)@
            }),
    {
        let r = if encoder_num == 0 {
            self.encoder0.clicks_moved(raw_count)
        } else if encoder_num == 1 {
            self.encoder1.clicks_moved(raw_count)
        } else {
            self.encoder2.clicks_moved(raw_count)
        };
        assert(self@.encoders =~= old(self)@.encoders.update(
            encoder_num as int,
            baseline_after(old(self)@.encoders[encoder_num as int], raw_count),
        ));
        r
    }

    /// Reports whether button `which_button` was pressed since the last call,
    /// and clears its latch.
    pub fn button_pressed(&mut self, which_button: usize) -> (r: bool)
        requires
            which_button < 3,
        ensures
            r == old(self)@.buttons[which_button as int].latched,
            final(self)@ == (SystemView {
                buttons: old(self)@.buttons.update(
                    which_button as int,
                    after_read(old(self)@.buttons[which_button as int]),
                ),
                ..old(self)@
            }),
    {
        let r = if which_button == 0 {
            self.button0.was_pressed()
        } else if which_button == 1 {
            self.button1.was_pressed()
        } else {
            self.button2.was_pressed()
        };
        assert(self@.buttons =~= old(self)@.buttons.update(
            which_button as int,
            after_read(old(self)@.buttons[which_button as int]),
        ));
        r
    }

    /// The clock reading, in milliseconds since start-up, modulo 2^32.
    pub fn get_millis(&self) -> (r: u32)
        ensures
            r == self@.millis,
    {
        self.millis
    }
}

} // verus!

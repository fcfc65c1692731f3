use vstd::prelude::*;

verus! {

/// History value that marks a fresh press: the seven latest samples are active
/// and the one before them was not.
pub const PRESS_PATTERN: u8 = 0x7f;

/// What a [`Button`] holds: its last eight raw samples (latest in bit 0) and
/// whether a press has been seen and not yet read.
pub struct ButtonView {
    pub history: u8,
    pub latched: bool,
}

/// A push-button debounced by a shift register of raw samples.
///
/// `sample` is driven at a fixed rate from the tick context; `was_pressed`
/// reads and clears the press latch from the main loop.
pub struct Button {
    history: u8,
    was_pressed: bool,
}

/// The history after shifting in one more sample.
pub open spec fn shift_in(history: u8, active: bool) -> u8 {
    (history << 1u8) | (if active { 1u8 } else { 0u8 })
}

/// The state after one sample: the latch is set when the history becomes the
/// press pattern, and is otherwise kept.
pub open spec fn after_sample(v: ButtonView, active: bool) -> ButtonView {
    let h = shift_in(v.history, active);
    ButtonView { history: h, latched: v.latched || h == PRESS_PATTERN }
}

/// The state after a sequence of samples, oldest first.
pub open spec fn after_samples(v: ButtonView, samples: Seq<bool>) -> ButtonView
    decreases samples.len(),
{
    if samples.len() == 0 {
        v
    } else {
        after_sample(after_samples(v, samples.drop_last()), samples.last())
    }
}

/// The state after the latch has been read.
pub open spec fn after_read(v: ButtonView) -> ButtonView {
    ButtonView { history: v.history, latched: false }
}

/// A run of `n` active samples: the contact held closed for `n` ticks.
pub open spec fn presses(n: nat) -> Seq<bool> {
    Seq::new(n, |i: int| true)
}

impl View for Button {
    type V = ButtonView;

    closed spec fn view(&self) -> ButtonView {
        ButtonView { history: self.history, latched: self.was_pressed }
    }
}

impl Button {
    /// A button that has seen only inactive samples and no press.
    pub fn new() -> (b: Button)
        ensures
            b@ == (ButtonView { history: 0, latched: false }),
    {
        Button { history: 0, was_pressed: false }
    }

    /// Shifts in one raw sample (`active` is true when the contact is closed).
    pub fn sample(&mut self, active: bool)
        ensures
            final(self)@ == after_sample(old(self)@, active),
    {
        let bit: u8 = if active { 1 } else { 0 };
        self.history = (self.history << 1u8) | bit;
        if self.history == PRESS_PATTERN {
            self.was_pressed = true;
        }
    }

    /// Reports whether a press was seen since the last call, and clears it.
    pub fn was_pressed(&mut self) -> (r: bool)
        ensures
            r == old(self)@.latched,
            final(self)@ == after_read(old(self)@),
    {
        let r = self.was_pressed;
        self.was_pressed = false;
        r
    }
}

proof fn lemma_presses_step(v: ButtonView, n: nat)
    ensures
        after_samples(v, presses(n + 1)) == after_sample(after_samples(v, presses(n)), true),
{
    assert(presses(n + 1).drop_last() =~= presses(n));
}

proof fn lemma_mask_step(x: u8, j: u8)
    requires
        j < 6,
        x & !(0xfeu8 << j) == !(0xffu8 << j),
    ensures
        ((x << 1u8) | 1u8) & !(0xfeu8 << (j + 1u8)) == !(0xffu8 << (j + 1u8)),
        ((x << 1u8) | 1u8) != 0x7fu8,
{
    assert(((x << 1u8) | 1u8) & !(0xfeu8 << (j + 1u8)) == !(0xffu8 << (j + 1u8)) && ((x << 1u8)
        | 1u8) != 0x7fu8) by (bit_vector)
        requires
            j < 6,
            x & !(0xfeu8 << j) == !(0xffu8 << j),
    ;
}

/// After `k <= 6` active samples that follow an inactive one, the low `k + 1`
/// bits of the history are one inactive sample and `k` active ones, and the
/// latch is untouched.
proof fn lemma_partial_run(v: ButtonView, k: nat)
    requires
        v.history & 1u8 == 0u8,
        k <= 6,
    ensures
        after_samples(v, presses(k)).history & !(0xfeu8 << (k as u8)) == !(0xffu8 << (k as u8)),
        after_samples(v, presses(k)).latched == v.latched,
    decreases k,
{
    if k == 0 {
        assert(presses(0) =~= Seq::<bool>::empty());
        let h = v.history;
        assert(h & 1u8 == 0u8 ==> h & !(0xfeu8 << 0u8) == !(0xffu8 << 0u8)) by (bit_vector);
    } else {
        let j = (k - 1) as nat;
        lemma_partial_run(v, j);
        lemma_presses_step(v, j);
        let x = after_samples(v, presses(j)).history;
        lemma_mask_step(x, j as u8);
        assert((j as u8) + 1u8 == k as u8);
    }
}

/// A press shorter than the debounce window is never reported: after an
/// inactive sample, up to six active samples and then an inactive one leave
/// the latch as it was.
pub proof fn lemma_short_press_ignored(v: ButtonView, k: nat)
    requires
        v.history & 1u8 == 0u8,
        k <= 6,
    ensures
        after_samples(v, presses(k).push(false)).latched == v.latched,
{
    lemma_partial_run(v, k);
    assert(presses(k).push(false).drop_last() =~= presses(k));
    let x = after_samples(v, presses(k)).history;
    assert(((x << 1u8) | 0u8) != 0x7fu8) by (bit_vector);
}

/// Once a press has been registered (its last seven samples are active),
/// holding the button down never registers it again.
pub proof fn lemma_held_press_silent(v: ButtonView, k: nat)
    requires
        v.history & 0x7fu8 == 0x7fu8,
    ensures
        after_samples(v, presses(k)).latched == v.latched,
        k > 0 ==> after_samples(v, presses(k)).history == 0xffu8,
    decreases k,
{
    if k == 0 {
        assert(presses(0) =~= Seq::<bool>::empty());
    } else {
        let j = (k - 1) as nat;
        lemma_held_press_silent(v, j);
        lemma_presses_step(v, j);
        let x = after_samples(v, presses(j)).history;
        if j == 0 {
            assert(presses(0) =~= Seq::<bool>::empty());
        } else {
            assert(0xffu8 & 0x7fu8 == 0x7fu8) by (bit_vector);
        }
        assert(x & 0x7fu8 == 0x7fu8);
        assert(x & 0x7fu8 == 0x7fu8 ==> ((x << 1u8) | 1u8) == 0xffu8) by (bit_vector);
    }
}

/// A press held for at least the debounce window, starting after an inactive
/// sample, is reported exactly once: the latch is set, and once it has been
/// read, holding the button any longer does not set it again.
pub proof fn lemma_press_reported_once(v: ButtonView, k: nat, m: nat)
    requires
        v.history & 1u8 == 0u8,
        k >= 7,
    ensures
        after_samples(v, presses(k)).latched,
        !after_samples(after_read(after_samples(v, presses(k))), presses(m)).latched,
    decreases k,
{
    if k == 7 {
        lemma_partial_run(v, 6);
        lemma_presses_step(v, 6);
        let x = after_samples(v, presses(6)).history;
        assert(x & !(0xfeu8 << 6u8) == !(0xffu8 << 6u8) ==> ((x << 1u8) | 1u8) == 0x7fu8)
            by (bit_vector);
    } else {
        let j = (k - 1) as nat;
        lemma_press_reported_once(v, j, m);
        lemma_presses_step(v, j);
    }
    let w = after_samples(v, presses(k));
    assert(w.history & 0x7fu8 == 0x7fu8) by {
        lemma_press_history(v, k);
    }
    lemma_held_press_silent(after_read(w), m);
}

proof fn lemma_press_history(v: ButtonView, k: nat)
    requires
        v.history & 1u8 == 0u8,
        k >= 7,
    ensures
        after_samples(v, presses(k)).history & 0x7fu8 == 0x7fu8,
    decreases k,
{
    let j = (k - 1) as nat;
    lemma_presses_step(v, j);
    let x = after_samples(v, presses(j)).history;
    if k == 7 {
        lemma_partial_run(v, 6);
        assert(x & !(0xfeu8 << 6u8) == !(0xffu8 << 6u8) ==> ((x << 1u8) | 1u8) & 0x7fu8
            == 0x7fu8) by (bit_vector);
    } else {
        lemma_press_history(v, j);
        assert(x & 0x7fu8 == 0x7fu8 ==> ((x << 1u8) | 1u8) & 0x7fu8 == 0x7fu8) by (bit_vector);
    }
}

/// Reading the latch clears it: a second read with no sample in between
/// reports no press, whatever the first one reported.
pub proof fn lemma_second_read_false(v: ButtonView)
    ensures
        !after_read(v).latched,
        after_read(after_read(v)) == after_read(v),
{
}

} // verus!

use vstd::prelude::*;

pub use crate::button::Button;

verus! {

/// Raw counter steps that make one physical detent of an encoder.
pub const COUNTS_PER_CLICK: u16 = 4;

/// Number of position inputs of a selector switch.
pub const POSITIONS: usize = 8;

/// The movement from raw reading `from` to raw reading `to` of a 16-bit
/// counter that wraps: their difference, brought into `[-2^15, 2^15)` by
/// adding or subtracting 2^16.
pub open spec fn signed_delta(from: u16, to: u16) -> int {
    let d = to as int - from as int;
    if d >= 0x8000 {
        d - 0x10000
    } else if d < -0x8000 {
        d + 0x10000
    } else {
        d
    }
}

/// Whole clicks in a movement, rounded toward negative infinity.
pub open spec fn clicks_of(delta: int) -> int {
    delta / (COUNTS_PER_CLICK as int)
}

/// Whole clicks between a baseline and a raw reading.
pub open spec fn clicks_between(baseline: u16, raw: u16) -> int {
    clicks_of(signed_delta(baseline, raw))
}

/// A baseline moved on by whole clicks, modulo 2^16.
pub open spec fn advanced(baseline: u16, clicks: int) -> u16 {
    ((baseline as int + clicks * (COUNTS_PER_CLICK as int)) % 0x10000) as u16
}

/// The baseline left behind by a poll that sees raw reading `raw`.
pub open spec fn baseline_after(baseline: u16, raw: u16) -> u16 {
    advanced(baseline, clicks_between(baseline, raw))
}

/// Decodes the raw step counter of a quadrature encoder into signed clicks.
///
/// The baseline is the raw value up to which movement has been reported; it
/// only ever moves by whole clicks, so a partial click carries over to the
/// next poll.
pub struct Encoder {
    prev_count: u16,
}

impl View for Encoder {
    type V = u16;

    closed spec fn view(&self) -> u16 {
        self.prev_count
    }
}

impl Encoder {
    /// An encoder whose baseline is raw count zero.
    pub fn new() -> (e: Encoder)
        ensures
            e@ == 0,
    {
        Encoder { prev_count: 0 }
    }

    /// Reports the whole clicks moved since the baseline, given the current
    /// raw counter value, and advances the baseline by exactly those clicks.
    /// No event when less than a whole click has been moved.
    pub fn clicks_moved(&mut self, raw_count: u16) -> (r: Option<i16>)
        ensures
            clicks_between(old(self)@, raw_count) == 0 ==> r is None && final(self)@ == old(self)@,
            clicks_between(old(self)@, raw_count) != 0 ==> r is Some && r->0 == clicks_between(
                old(self)@,
                raw_count,
            ) && final(self)@ == baseline_after(old(self)@, raw_count),
    {
        let prev = self.prev_count;
        let d: u16 = raw_count.wrapping_sub(prev);
        if d < 0x8000 {
            let c: u16 = d / COUNTS_PER_CLICK;
            if c == 0 {
                return None;
            }
            let next = prev.wrapping_add(c * COUNTS_PER_CLICK);
            proof {
                assert(signed_delta(prev, raw_count) == d);
            }
            self.prev_count = next;
            Some(c as i16)
        } else {
            let back: u32 = 0x10000u32 - d as u32;
            let c: u32 = (back + (COUNTS_PER_CLICK as u32 - 1)) / (COUNTS_PER_CLICK as u32);
            let next = prev.wrapping_sub((c * (COUNTS_PER_CLICK as u32)) as u16);
            proof {
                assert(signed_delta(prev, raw_count) == d - 0x10000);
                assert(clicks_of(d - 0x10000) == -c) by (nonlinear_arith)
                    requires
                        back == 0x10000 - d,
                        c == (back + 3) / 4,
                        1 <= back <= 0x8000,
                ;
            }
            self.prev_count = next;
            Some(-(c as i16))
        }
    }
}

/// The baseline after polls that saw the raw readings `raws`, oldest first,
/// starting from baseline `b`.
pub open spec fn baseline_after_polls(b: u16, raws: Seq<u16>) -> u16
    decreases raws.len(),
{
    if raws.len() == 0 {
        b
    } else {
        baseline_after(baseline_after_polls(b, raws.drop_last()), raws.last())
    }
}

/// The sum of the clicks reported by those polls (a poll with no event
/// counts as zero).
pub open spec fn clicks_reported(b: u16, raws: Seq<u16>) -> int
    decreases raws.len(),
{
    if raws.len() == 0 {
        0
    } else {
        clicks_reported(b, raws.drop_last()) + clicks_between(
            baseline_after_polls(b, raws.drop_last()),
            raws.last(),
        )
    }
}

/// The raw reading before the next poll: the latest one, or the starting
/// baseline.
pub open spec fn latest_reading(b: u16, raws: Seq<u16>) -> u16 {
    if raws.len() == 0 {
        b
    } else {
        raws.last()
    }
}

/// The total raw movement over the readings: the sum of the movements between
/// each reading and the one before it.
pub open spec fn raw_motion(b: u16, raws: Seq<u16>) -> int
    decreases raws.len(),
{
    if raws.len() == 0 {
        0
    } else {
        raw_motion(b, raws.drop_last()) + signed_delta(
            latest_reading(b, raws.drop_last()),
            raws.last(),
        )
    }
}

/// A movement of less than half the counter range, in either direction, is
/// read as itself, also where the counter wraps: from 65535 to 0 is one step
/// forward, not 65535 steps back.
pub proof fn lemma_wrap_is_transparent(from: u16, k: int)
    requires
        -0x8000 <= k < 0x8000,
    ensures
        signed_delta(from, ((from + k) % 0x10000) as u16) == k,
        signed_delta(0xffff, 0) == 1,
{
}

/// What is left of the raw movement once the reported clicks are taken off
/// lies in `[0, COUNTS_PER_CLICK)`, and is the distance from the baseline to
/// the latest reading.
proof fn lemma_remainder(b: u16, raws: Seq<u16>)
    requires
        forall|i: int|
            0 <= i < raws.len() ==> signed_delta(
                latest_reading(b, raws.take(i)),
                raws[i],
            ) <= 0x7fff - (COUNTS_PER_CLICK - 1),
    ensures
        0 <= raw_motion(b, raws) - clicks_reported(b, raws) * (COUNTS_PER_CLICK as int) < (
        COUNTS_PER_CLICK as int),
        baseline_after_polls(b, raws) as int == latest_reading(b, raws) - (raw_motion(b, raws)
            - clicks_reported(b, raws) * (COUNTS_PER_CLICK as int)) || baseline_after_polls(
            b,
            raws,
        ) as int == latest_reading(b, raws) - (raw_motion(b, raws) - clicks_reported(b, raws) * (
        COUNTS_PER_CLICK as int)) + 0x10000,
    decreases raws.len(),
{
    if raws.len() > 0 {
        let prefix = raws.drop_last();
        assert forall|i: int| 0 <= i < prefix.len() implies signed_delta(
            latest_reading(b, prefix.take(i)),
            prefix[i],
        ) <= 0x7fff - (COUNTS_PER_CLICK - 1) by {
            assert(prefix.take(i) =~= raws.take(i));
        }
        lemma_remainder(b, prefix);
        assert(raws.take(raws.len() - 1) =~= prefix);
        let base = baseline_after_polls(b, prefix);
        let last = latest_reading(b, prefix);
        let rem = raw_motion(b, prefix) - clicks_reported(b, prefix) * 4;
        let r = raws.last();
        let step = signed_delta(last, r);
        assert(signed_delta(base, r) == step + rem);
        let c = clicks_of(step + rem);
        assert(0 <= step + rem - c * 4 < 4);
    }
}

/// No movement is lost across polls: over any series of polls, the clicks
/// reported add up to the total raw movement divided by `COUNTS_PER_CLICK`,
/// rounded toward negative infinity. This holds as long as the counter moves
/// less than half its range, less one partial click, between two polls.
pub proof fn lemma_clicks_add_up(b: u16, raws: Seq<u16>)
    requires
        forall|i: int|
            0 <= i < raws.len() ==> signed_delta(
                latest_reading(b, raws.take(i)),
                raws[i],
            ) <= 0x7fff - (COUNTS_PER_CLICK - 1),
    ensures
        clicks_reported(b, raws) == raw_motion(b, raws) / (COUNTS_PER_CLICK as int),
{
    lemma_remainder(b, raws);
    let m = raw_motion(b, raws);
    let c = clicks_reported(b, raws);
    assert(m / 4 == c) by (nonlinear_arith)
        requires
            0 <= m - c * 4 < 4,
    ;
}

/// Whether input `p` is the one and only active input.
pub open spec fn is_sole_active(active: Seq<bool>, p: int) -> bool {
    0 <= p < active.len() && active[p] && forall|q: int|
        0 <= q < active.len() && q != p ==> !active[q]
}

/// The position that a set of input levels selects: the sole active input, or
/// none when no input, or more than one, is active.
pub open spec fn sole_active(active: Seq<bool>) -> Option<u8> {
    if exists|p: int| is_sole_active(active, p) {
        Some((choose|p: int| is_sole_active(active, p)) as u8)
    } else {
        None
    }
}

/// A selector poll as a transition: from the remembered position and the
/// input levels, the position remembered next and the event reported.
pub open spec fn on_reading(previous: Option<u8>, active: Seq<bool>) -> (Option<u8>, Option<u8>) {
    match sole_active(active) {
        None => (previous, None),
        Some(p) => if previous == Some(p) {
            (previous, None)
        } else {
            (Some(p), Some(p))
        },
    }
}

/// The position remembered after a series of readings, oldest first.
pub open spec fn position_after(previous: Option<u8>, readings: Seq<Seq<bool>>) -> Option<u8>
    decreases readings.len(),
{
    if readings.len() == 0 {
        previous
    } else {
        on_reading(position_after(previous, readings.drop_last()), readings.last()).0
    }
}

/// When no input is active, or more than one is, a poll reports nothing and
/// keeps the remembered position, whatever it was.
pub proof fn lemma_ambiguous_reading_silent(previous: Option<u8>, active: Seq<bool>)
    requires
        (forall|p: int| 0 <= p < active.len() ==> !active[p]) || exists|p: int, q: int|
            0 <= p < q < active.len() && active[p] && active[q],
    ensures
        on_reading(previous, active) == (previous, None::<u8>),
{
    assert forall|x: int| !is_sole_active(active, x) by {
        if exists|p: int, q: int| 0 <= p < q < active.len() && active[p] && active[q] {
            let (p, q) = choose|p: int, q: int| 0 <= p < q < active.len() && active[p] && active[q];
            if is_sole_active(active, x) {
                assert(x == p && x == q);
            }
        }
    }
}

/// Turning away from a position through readings that select nothing, and
/// back to it, reports nothing along the way and keeps the position.
pub proof fn lemma_return_not_reported(p: u8, readings: Seq<Seq<bool>>, back: Seq<bool>)
    requires
        forall|i: int| 0 <= i < readings.len() ==> sole_active(#[trigger] readings[i]) is None,
        sole_active(back) == Some(p),
    ensures
        forall|i: int|
            0 <= i < readings.len() ==> on_reading(
                position_after(Some(p), readings.take(i)),
                #[trigger] readings[i],
            ) == (Some(p), None::<u8>),
        position_after(Some(p), readings) == Some(p),
        on_reading(position_after(Some(p), readings), back) == (Some(p), None::<u8>),
    decreases readings.len(),
{
    if readings.len() > 0 {
        let prefix = readings.drop_last();
        lemma_return_not_reported(p, prefix, back);
        assert forall|i: int| 0 <= i < readings.len() implies on_reading(
            position_after(Some(p), readings.take(i)),
            #[trigger] readings[i],
        ) == (Some(p), None::<u8>) by {
            assert(readings.take(i) =~= prefix.take(i));
            if i < prefix.len() {
                assert(prefix[i] == readings[i]);
            } else {
                assert(readings.take(i) =~= prefix);
            }
        }
    }
}

/// Decodes a rotary selector switch with one input per position.
///
/// A position counts only when its input is the one active input; while the
/// switch turns between positions (no input, or two, active) nothing is
/// reported and the remembered position is kept.
pub struct Selector {
    previous: Option<u8>,
}

impl View for Selector {
    type V = Option<u8>;

    closed spec fn view(&self) -> Option<u8> {
        self.previous
    }
}

impl Selector {
    /// A selector that remembers no position.
    pub fn new() -> (s: Selector)
        ensures
            s@ is None,
    {
        Selector { previous: None }
    }

    /// Reports a newly selected position, and remembers it.
    pub fn changed(&mut self, active: [bool; POSITIONS]) -> (r: Option<u8>)
        ensures
            (final(self)@, r) == on_reading(old(self)@, active@),
    {
        let current = match Selector::selection(active) {
            Some(p) => p,
            None => {
                return None;
            },
        };
        if let Some(prev) = self.previous {
            if prev == current {
                return None;
            }
        }
        self.previous = Some(current);
        Some(current)
    }

    /// The position selected by the input levels (`active[i]` is true when
    /// input `i` is active), or none when not exactly one input is active.
    pub fn selection(active: [bool; POSITIONS]) -> (r: Option<u8>)
        ensures
            r == sole_active(active@),
            r matches Some(p) ==> is_sole_active(active@, p as int),
            r is None <==> forall|p: int| !is_sole_active(active@, p),
    {
        let mut first: Option<usize> = None;
        let mut multiple = false;
        let mut i: usize = 0;
        while i < POSITIONS
            invariant
                i <= POSITIONS,
                active@.len() == POSITIONS,
                first is None ==> !multiple && forall|j: int| 0 <= j < i ==> !active@[j],
                first matches Some(p) ==> p < i && active@[p as int] && forall|j: int|
                    0 <= j < p ==> !active@[j],
                multiple ==> first is Some && exists|q: int|
                    first->0 < q < i && active@[q],
                first is Some && !multiple ==> forall|j: int|
                    0 <= j < i && j != first->0 ==> !active@[j],
            decreases POSITIONS - i,
        {
            if active[i] {
                if first.is_none() {
                    first = Some(i);
                } else {
                    multiple = true;
                }
            }
            i = i + 1;
        }
        match first {
            None => {
                assert(forall|p: int| !is_sole_active(active@, p));
                None
            },
            Some(p) => {
                if multiple {
                    assert forall|x: int| !is_sole_active(active@, x) by {
                        let q = choose|q: int| p < q < POSITIONS && active@[q];
                        if is_sole_active(active@, x) {
                            assert(x == p as int || x == q);
                        }
                    }
                    None
                } else {
                    assert(is_sole_active(active@, p as int));
                    assert forall|x: int| is_sole_active(active@, x) implies x == p as int by {}
                    Some(p as u8)
                }
            },
        }
    }
}

} // verus!

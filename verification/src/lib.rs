//! A fixed-point software audio synthesiser: a square-wave oscillator, an
//! ADSR envelope state machine, a score-to-event scheduler, a sample-exact
//! player and a saturating mixer, all driven at a fixed sample rate with
//! integer arithmetic only.

use vstd::prelude::*;

pub mod adsr;
pub mod mixdown;
pub mod oscillator;
pub mod pitch;
pub mod songs;
pub mod wav;

verus! {

pub use adsr::Adsr;
pub use oscillator::Oscillator;

use vstd::arithmetic::div_mod::{
    lemma_div_is_ordered,
    lemma_div_multiples_vanish,
    lemma_div_nonincreasing,
    lemma_div_pos_is_pos,
};
use vstd::arithmetic::mul::{
    lemma_mul_inequality,
    lemma_mul_is_commutative,
    lemma_mul_nonnegative,
    lemma_mul_upper_bound,
};

/// Samples per second produced and consumed by every unit in this crate.
pub const RATE: u32 = 48000;

/// Largest volume a unit can be set to; also the peak sample amplitude.
pub const MAX_VOL: i16 = 32767;

/// Volumes handed to `set_vol` are pinned into `[0, MAX_VOL]`.
pub open spec fn clamp_vol(v: int) -> int {
    if v < 0 {
        0
    } else if v > MAX_VOL {
        MAX_VOL as int
    } else {
        v
    }
}

/// A control request for a `Sound` unit: set its volume, start a note at a
/// frequency, or begin stopping.
#[derive(Clone, Copy, Debug, PartialEq, Eq, Structural)]
pub enum Action {
    Vol(i16),
    Start(u16),
    Stop,
}

/// The capability shared by every synthesis unit: query the current volume
/// and output sample, set frequency and volume, stop, and advance by one
/// tick of the fixed sample rate.
pub trait Sound: Sized {
    /// The unit's internal invariant, established by its constructor and
    /// preserved by every operation.
    spec fn wf(&self) -> bool;

    /// The unit's current volume, always in `[0, MAX_VOL]`.
    spec fn spec_vol(&self) -> int;

    /// The sample the unit currently outputs, bounded by `MAX_VOL`.
    spec fn spec_sample(&self) -> int;

    fn vol(&self) -> (r: i16)
        requires
            self.wf(),
        ensures
            r == self.spec_vol(),
            0 <= r <= MAX_VOL,
    ;

    fn get(&self) -> (r: i16)
        requires
            self.wf(),
        ensures
            r == self.spec_sample(),
            -MAX_VOL <= r <= MAX_VOL,
    ;

    fn advance(&mut self)
        requires
            old(self).wf(),
        ensures
            final(self).wf(),
            final(self).spec_vol() == old(self).spec_vol(),
    ;

    fn set_freq(&mut self, freq: u16)
        requires
            old(self).wf(),
        ensures
            final(self).wf(),
            final(self).spec_vol() == old(self).spec_vol(),
    ;

    fn stop(&mut self)
        requires
            old(self).wf(),
        ensures
            final(self).wf(),
            final(self).spec_vol() == old(self).spec_vol(),
    ;

    fn set_vol(&mut self, vol: i16)
        requires
            old(self).wf(),
        ensures
            final(self).wf(),
            final(self).spec_vol() == clamp_vol(vol as int),
    ;

    /// Read the current sample, then advance one tick.
    fn step(&mut self) -> (r: i16)
        requires
            old(self).wf(),
        ensures
            final(self).wf(),
            final(self).spec_vol() == old(self).spec_vol(),
            r == old(self).spec_sample(),
            -MAX_VOL <= r <= MAX_VOL,
    {
        let res = self.get();
        self.advance();
        res
    }

    /// Apply one control action.
    fn modify(&mut self, action: &Action)
        requires
            old(self).wf(),
        ensures
            final(self).wf(),
            (match *action {
                Action::Vol(v) => final(self).spec_vol() == clamp_vol(v as int),
                Action::Start(_) => final(self).spec_vol() == old(self).spec_vol(),
                Action::Stop => final(self).spec_vol() == old(self).spec_vol(),
            }),
    {
        match action {
            Action::Vol(vol) => self.set_vol(*vol),
            Action::Start(freq) => self.set_freq(*freq),
            Action::Stop => self.stop(),
        }
    }
}

/// Linear interpolation from `from` toward `to` after `num` out of `denom`
/// ticks, with both counters halved together until the denominator fits in
/// 16 bits, exactly as `compute_ratio` computes it.  A zero (or exhausted)
/// denominator holds the starting value.
pub open spec fn ratio_spec(from: int, to: int, num: int, denom: int) -> int
    decreases denom,
{
    if denom <= 0 {
        from
    } else if denom > 0xFFFF {
        ratio_spec(from, to, num / 2, denom / 2)
    } else if to >= from {
        from + (to - from) * num / denom
    } else {
        from - (from - to) * num / denom
    }
}

/// A ramp that has consumed none of its ticks still sits at its start value.
pub proof fn lemma_ratio_start(from: int, to: int, denom: int)
    requires
        0 <= denom,
    ensures
        ratio_spec(from, to, 0, denom) == from,
    decreases denom,
{
    if denom > 0xFFFF {
        lemma_ratio_start(from, to, denom / 2);
    } else if denom > 0 {
        if to >= from {
            assert((to - from) * 0 == 0) by (nonlinear_arith);
            assert(0int / denom == 0) by {
                lemma_div_pos_is_pos(0, denom);
                lemma_div_is_ordered(0, 0, denom);
            }
        } else {
            assert((from - to) * 0 == 0) by (nonlinear_arith);
            assert(0int / denom == 0) by {
                lemma_div_pos_is_pos(0, denom);
                lemma_div_is_ordered(0, 0, denom);
            }
        }
    }
}

/// A ramp that has consumed all of its ticks has reached its target exactly:
/// the halving loses no precision at the endpoint, because both counters are
/// halved together.
pub proof fn lemma_ratio_end(from: int, to: int, denom: int)
    requires
        0 <= denom,
    ensures
        denom > 0 ==> ratio_spec(from, to, denom, denom) == to,
        denom == 0 ==> ratio_spec(from, to, denom, denom) == from,
    decreases denom,
{
    if denom > 0xFFFF {
        lemma_ratio_end(from, to, denom / 2);
    } else if denom > 0 {
        if to >= from {
            lemma_mul_is_commutative(to - from, denom);
            lemma_div_multiples_vanish(to - from, denom);
            assert((to - from) * denom / denom == to - from);
        } else {
            lemma_mul_is_commutative(from - to, denom);
            lemma_div_multiples_vanish(from - to, denom);
            assert((from - to) * denom / denom == from - to);
        }
    }
}

/// Everywhere along a ramp the value stays between its two endpoints.
pub proof fn lemma_ratio_bounds(from: int, to: int, num: int, denom: int)
    requires
        0 <= num <= denom,
    ensures
        to >= from ==> from <= ratio_spec(from, to, num, denom) <= to,
        to < from ==> to <= ratio_spec(from, to, num, denom) <= from,
    decreases denom,
{
    if denom > 0xFFFF {
        lemma_div_is_ordered(0, num, 2);
        lemma_div_is_ordered(num, denom, 2);
        lemma_ratio_bounds(from, to, num / 2, denom / 2);
    } else if denom > 0 {
        let d = if to >= from { to - from } else { from - to };
        lemma_mul_nonnegative(d, num);
        lemma_div_pos_is_pos(d * num, denom);
        lemma_mul_inequality(num, denom, d);
        lemma_mul_is_commutative(num, d);
        lemma_mul_is_commutative(denom, d);
        lemma_div_is_ordered(d * num, d * denom, denom);
        lemma_mul_is_commutative(d, denom);
        lemma_div_multiples_vanish(d, denom);
        assert(0 <= d * num / denom <= d);
    }
}

/// For a fixed ramp, the interpolated value is monotonic in the number of
/// ticks consumed: non-decreasing when ramping up, non-increasing when
/// ramping down.
pub proof fn lemma_ratio_monotone(from: int, to: int, num1: int, num2: int, denom: int)
    requires
        0 <= num1 <= num2 <= denom,
    ensures
        to >= from ==> ratio_spec(from, to, num1, denom) <= ratio_spec(from, to, num2, denom),
        to < from ==> ratio_spec(from, to, num1, denom) >= ratio_spec(from, to, num2, denom),
    decreases denom,
{
    if denom > 0xFFFF {
        lemma_div_is_ordered(0, num1, 2);
        lemma_div_is_ordered(num1, num2, 2);
        lemma_div_is_ordered(num2, denom, 2);
        lemma_ratio_monotone(from, to, num1 / 2, num2 / 2, denom / 2);
    } else if denom > 0 {
        let d = if to >= from { to - from } else { from - to };
        lemma_mul_inequality(num1, num2, d);
        lemma_mul_is_commutative(num1, d);
        lemma_mul_is_commutative(num2, d);
        lemma_div_is_ordered(d * num1, d * num2, denom);
    }
}

/// Fixed-point linear interpolation between two volumes, used for envelope
/// ramps.  `num` counts ticks out of `denom`; both are halved together until
/// the denominator fits in 16 bits, which keeps the multiply inside 32 bits
/// for every tick count an envelope phase can use.  A zero `denom` returns
/// `from` unchanged.
pub fn compute_ratio(from: i16, to: i16, num: u32, denom: u32) -> (r: i16)
    requires
        0 <= from <= MAX_VOL,
        0 <= to <= MAX_VOL,
        num <= denom,
    ensures
        r == ratio_spec(from as int, to as int, num as int, denom as int),
{
    if denom == 0 {
        return from;
    }
    let mut n: u32 = num;
    let mut d: u32 = denom;
    while d > 0xFFFF
        invariant
            1 <= d,
            n <= d,
            ratio_spec(from as int, to as int, num as int, denom as int) == ratio_spec(
                from as int,
                to as int,
                n as int,
                d as int,
            ),
        decreases d,
    {
        proof {
            lemma_div_is_ordered(n as int, d as int, 2);
        }
        n = n / 2;
        d = d / 2;
    }
    proof {
        let df: int = if to >= from { to - from } else { from - to };
        lemma_mul_nonnegative(df, n as int);
        lemma_div_pos_is_pos(df * n, d as int);
        lemma_mul_inequality(n as int, d as int, df);
        lemma_mul_is_commutative(n as int, df);
        lemma_mul_is_commutative(d as int, df);
        lemma_div_is_ordered(df * n, df * d, d as int);
        lemma_mul_is_commutative(df, d as int);
        lemma_div_multiples_vanish(df, d as int);
        assert(0 <= df * n / (d as int) <= df);
    }
    if to >= from {
        let diff: u32 = (to - from) as u32;
        proof {
            lemma_mul_upper_bound(diff as int, 0x7FFF, n as int, 0xFFFF);
        }
        let step: u32 = diff * n / d;
        from + (step as i16)
    } else {
        let diff: u32 = (from - to) as u32;
        proof {
            lemma_mul_upper_bound(diff as int, 0x7FFF, n as int, 0xFFFF);
        }
        let step: u32 = diff * n / d;
        from - (step as i16)
    }
}

/// A scheduled event's contribution to the pending millisecond budget.
pub open spec fn opt_event_ms(e: Option<songs::Event>) -> int {
    match e {
        Some(ev) => ev.spec_ms(),
        None => 0,
    }
}

/// How many entries the event-drain loop still holds in hand.
pub open spec fn pending_count(e: Option<songs::Event>) -> nat {
    match e {
        Some(_) => 1nat,
        None => 0nat,
    }
}

/// Drives one `Sound` unit sample by sample over a precomputed total
/// sample count, applying scheduled events at millisecond boundaries, and
/// reporting its exact remaining length at all times.
pub struct Player<S> {
    sound: S,
    event: Option<songs::Event>,
    events: songs::Events,
    t: u32,
    next_ms: u32,
}

impl<S: Sound> Player<S> {
    /// The exact number of samples still to be produced.
    pub closed spec fn spec_len(&self) -> int {
        self.t as int
    }

    /// The driven unit.
    pub closed spec fn spec_sound(&self) -> S {
        self.sound
    }

    /// The scheduled events not yet applied, the one held in hand first.
    pub closed spec fn spec_schedule(&self) -> Seq<songs::Event> {
        match self.event {
            Some(e) => seq![e] + self.events.remaining(),
            None => self.events.remaining(),
        }
    }

    /// The driven unit is sound, the schedule is well formed, and the
    /// milliseconds still owed by the schedule match the sample countdown.
    pub closed spec fn wf(&self) -> bool {
        &&& self.sound.wf()
        &&& self.events.wf()
        &&& (self.event is None ==> self.events.remaining().len() == 0)
        &&& self.next_ms + opt_event_ms(self.event) + songs::sum_ms(self.events.remaining())
            == self.t as int / (RATE as int / 1000)
    }

    /// Hand back the driven unit, dropping the schedule.
    pub fn into_sound(self) -> (s: S)
        ensures
            s == self.spec_sound(),
    {
        self.sound
    }

    /// The exact number of samples this player will still yield: this is a
    /// commitment, not an estimate.
    pub fn len(&self) -> (r: usize)
        ensures
            r == self.spec_len(),
    {
        self.t as usize
    }

    /// Produce one sample, or `None` once the precomputed total is
    /// exhausted.  At each sample index aligned with a millisecond tick,
    /// first apply every scheduled event whose predecessors' durations have
    /// elapsed — several zero-duration events stacked on the same
    /// millisecond all apply at once.  The remaining length falls by
    /// exactly one per produced sample.
    pub fn next(&mut self) -> (r: Option<i16>)
        requires
            old(self).wf(),
        ensures
            final(self).wf(),
            old(self).spec_len() == 0 ==> r is None && *final(self) == *old(self),
            old(self).spec_len() > 0 ==> (r matches Some(s) && -MAX_VOL <= s <= MAX_VOL)
                && final(self).spec_len() == old(self).spec_len() - 1,
            old(self).spec_len() > 0 && old(self).spec_len() % (RATE as int / 1000) != 0 ==> r
                == Some((old(self).spec_sound().spec_sample() as i16)),
    {
        if self.t == 0 {
            return None;
        }
        if self.t % (RATE / 1000) == 0 {
            loop
                invariant_except_break
                    self.sound.wf(),
                    self.events.wf(),
                    self.event is None ==> self.events.remaining().len() == 0,
                    self.t == old(self).t,
                    self.t > 0,
                    self.t as int % 48 == 0,
                    self.next_ms + opt_event_ms(self.event) + songs::sum_ms(
                        self.events.remaining(),
                    ) == self.t as int / 48,
                ensures
                    self.sound.wf(),
                    self.events.wf(),
                    self.event is None ==> self.events.remaining().len() == 0,
                    self.t == old(self).t,
                    self.next_ms >= 1,
                    self.next_ms + opt_event_ms(self.event) + songs::sum_ms(
                        self.events.remaining(),
                    ) == self.t as int / 48,
                decreases self.events.remaining().len() + pending_count(self.event),
            {
                if self.next_ms != 0 {
                    break;
                }
                match self.event {
                    None => {
                        proof {
                            assert(self.t as int / 48 >= 1);
                            assert(false);
                        }
                        break;
                    },
                    Some(e) => {
                        proof {
                            crate::songs::lemma_sum_ms_nonneg(self.events.remaining());
                            if self.events.remaining().len() > 0 {
                                assert(songs::sum_ms(self.events.remaining())
                                    == self.events.remaining()[0].spec_ms() + songs::sum_ms(
                                    self.events.remaining().drop_first(),
                                ));
                                crate::songs::lemma_sum_ms_nonneg(
                                    self.events.remaining().drop_first(),
                                );
                            }
                        }
                        self.sound.modify(&e.to_action());
                        self.next_ms = e.ms_duration();
                        self.event = self.events.next();
                    },
                }
            }
            self.next_ms = self.next_ms - 1;
        }
        self.t = self.t - 1;
        Some(self.sound.step())
    }
}

/// Couple a `Sound` unit with a score's event schedule: the player drives
/// the unit sample by sample and yields exactly `ms_duration * RATE / 1000`
/// samples.
pub fn into_player<S: Sound>(sound: S, score: &songs::Score) -> (p: Player<S>)
    requires
        sound.wf(),
        score.wf(),
        score.spec_ms_duration() * RATE <= u32::MAX,
    ensures
        p.wf(),
        p.spec_sound() == sound,
        p.spec_len() == score.spec_ms_duration() * (RATE as int) / 1000,
        p.spec_schedule() == score.spec_events(),
{
    proof {
        lemma_div_pos_is_pos(60000, score.tempo as int);
        lemma_div_nonincreasing(60000, score.tempo as int);
        crate::songs::lemma_total_ms_nonneg(score.spec_whole_ms(), score.notes@);
    }
    let mut events = score.events();
    let d: u32 = score.ms_duration();
    let t: u32 = d * RATE / 1000;
    proof {
        lemma_div_multiples_vanish(d as int * 48, 1000);
        assert(d as int * (RATE as int) == 1000 * (d as int * 48));
        assert(t == d as int * 48);
        lemma_div_multiples_vanish(d as int, 48);
        assert((48 * (d as int)) / 48 == d as int);
        assert(t as int / 48 == d as int);
        crate::songs::lemma_sum_ms_nonneg(events.remaining());
        if events.remaining().len() > 0 {
            assert(songs::sum_ms(events.remaining()) == events.remaining()[0].spec_ms()
                + songs::sum_ms(events.remaining().drop_first()));
        }
    }
    let event = events.next();
    let p = Player { sound, t, event, events, next_ms: 0 };
    proof {
        assert(p.spec_schedule() =~= score.spec_events());
    }
    p
}

/// Saturating 16-bit addition at the specification level.
pub open spec fn sat_i16(x: int) -> int {
    if x > MAX_VOL {
        MAX_VOL as int
    } else if x < -32768 {
        -32768
    } else {
        x
    }
}

/// The elementwise saturating mix of two sample sequences: as long as the
/// maximum of the two lengths, saturated sums where both contribute, the
/// longer sequence's own samples beyond that.
pub open spec fn mix_spec(a: Seq<i16>, b: Seq<i16>) -> Seq<i16> {
    let n = if a.len() >= b.len() {
        a.len()
    } else {
        b.len()
    };
    Seq::new(
        n,
        |i: int|
            if i < a.len() && i < b.len() {
                sat_i16(a[i] + b[i]) as i16
            } else if i < a.len() {
                a[i]
            } else {
                b[i]
            },
    )
}

fn sat_add(x: i16, y: i16) -> (r: i16)
    ensures
        r == sat_i16(x as int + y as int),
{
    let s: i32 = x as i32 + y as i32;
    if s > 32767 {
        32767
    } else if s < -32768 {
        -32768
    } else {
        s as i16
    }
}

/// Combines two finite sample sequences elementwise with saturating
/// addition; once the shorter is exhausted the longer's samples pass
/// through unchanged.
pub struct Mix {
    iter1: Vec<i16>,
    iter2: Vec<i16>,
    at: usize,
}

impl Mix {
    /// The mixed samples not yet yielded.
    pub closed spec fn remaining(&self) -> Seq<i16> {
        mix_spec(self.iter1@, self.iter2@).skip(self.at as int)
    }

    pub closed spec fn wf(&self) -> bool {
        self.at <= mix_spec(self.iter1@, self.iter2@).len()
    }

    /// Yield the next mixed sample, if either input has one left.
    pub fn next(&mut self) -> (r: Option<i16>)
        requires
            old(self).wf(),
        ensures
            final(self).wf(),
            old(self).remaining().len() == 0 ==> r is None && *final(self) == *old(self),
            old(self).remaining().len() > 0 ==> r == Some(old(self).remaining()[0])
                && final(self).remaining() == old(self).remaining().drop_first(),
    {
        let ghost m = mix_spec(self.iter1@, self.iter2@);
        let in1 = self.at < self.iter1.len();
        let in2 = self.at < self.iter2.len();
        if !in1 && !in2 {
            proof {
                assert(old(self).remaining() =~= Seq::<i16>::empty());
            }
            return None;
        }
        let s: i16 = if in1 && in2 {
            sat_add(self.iter1[self.at], self.iter2[self.at])
        } else if in1 {
            self.iter1[self.at]
        } else {
            self.iter2[self.at]
        };
        proof {
            assert(old(self).remaining()[0] == m[self.at as int]);
        }
        self.at = self.at + 1;
        proof {
            assert(self.remaining() =~= old(self).remaining().drop_first());
        }
        Some(s)
    }
}

/// Combine two sample streams into one saturating mix.
pub fn mix(iter1: Vec<i16>, iter2: Vec<i16>) -> (m: Mix)
    ensures
        m.wf(),
        m.remaining() == mix_spec(iter1@, iter2@),
{
    let m = Mix { iter1, iter2, at: 0 };
    proof {
        assert(m.remaining() =~= mix_spec(m.iter1@, m.iter2@));
    }
    m
}

} // verus!

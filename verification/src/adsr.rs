//! The Attack-Decay-Sustain-Release envelope: wraps any `Sound` unit and
//! shapes its volume over time through a four-phase state machine, using
//! fixed-point interpolation for each ramp.

use vstd::prelude::*;

verus! {

use vstd::arithmetic::div_mod::lemma_div_multiples_vanish;
use vstd::arithmetic::div_mod::lemma_div_pos_is_pos;
use vstd::arithmetic::div_mod::lemma_div_is_ordered;
use vstd::arithmetic::mul::lemma_mul_inequality;
use vstd::arithmetic::mul::lemma_mul_is_commutative;
use vstd::arithmetic::mul::lemma_mul_nonnegative;
use crate::{
    clamp_vol, compute_ratio, lemma_ratio_bounds, lemma_ratio_end, lemma_ratio_monotone,
    lemma_ratio_start, ratio_spec, Sound, MAX_VOL, RATE,
};

/// Longest phase duration, in milliseconds, whose tick count still fits in
/// 32 bits at the fixed sample rate.
pub const MAX_PHASE_MS: u32 = 89478;

/// Milliseconds converted to ticks of the sample clock.
pub open spec fn ticks_of(ms: u32) -> int {
    ms * RATE / 1000
}

fn as_ticks(ms: u32) -> (r: u32)
    requires
        ms * RATE <= u32::MAX,
    ensures
        r == ticks_of(ms),
{
    ms * RATE / 1000
}

/// The envelope's phase.  `Attack` and `Release` remember the volume the
/// ramp started from; every ramping phase counts its remaining ticks down.
#[derive(Clone, Copy, Debug, PartialEq, Eq, Structural)]
pub enum AdsrState {
    Stop,
    Attack { from_vol: i16, ticks: u32 },
    Decay(u32),
    Sustain,
    Release { from_vol: i16, ticks: u32 },
}

/// An envelope around an inner `Sound` unit.  `vol` is the configured peak
/// volume; the sustain level is a fraction of it, `sustain` over `MAX_VOL`.
pub struct Adsr<S> {
    sound: S,
    attack_ms: u32,
    decay_ms: u32,
    sustain: i16,
    release_ms: u32,
    vol: i16,
    sustain_vol: i16,
    state: AdsrState,
}

impl<S: Sound> Adsr<S> {
    /// The wrapped inner unit.
    pub closed spec fn spec_sound(&self) -> S {
        self.sound
    }

    /// The envelope's current phase.
    pub closed spec fn spec_state(&self) -> AdsrState {
        self.state
    }

    pub closed spec fn spec_attack_ms(&self) -> u32 {
        self.attack_ms
    }

    pub closed spec fn spec_decay_ms(&self) -> u32 {
        self.decay_ms
    }

    pub closed spec fn spec_release_ms(&self) -> u32 {
        self.release_ms
    }

    /// The configured sustain fraction numerator, over `MAX_VOL`.
    pub closed spec fn spec_sustain(&self) -> int {
        self.sustain as int
    }

    /// The derived sustain volume, `vol * sustain / MAX_VOL`.
    pub closed spec fn spec_sustain_vol(&self) -> int {
        self.sustain_vol as int
    }

    /// The configuration fields both envelopes share.
    pub open spec fn same_config(&self, other: &Adsr<S>) -> bool {
        &&& self.spec_attack_ms() == other.spec_attack_ms()
        &&& self.spec_decay_ms() == other.spec_decay_ms()
        &&& self.spec_release_ms() == other.spec_release_ms()
        &&& self.spec_sustain() == other.spec_sustain()
        &&& self.spec_vol() == other.spec_vol()
        &&& self.spec_sustain_vol() == other.spec_sustain_vol()
    }

    /// Build an envelope around `sound`, which is first silenced.  The peak
    /// volume starts at `MAX_VOL`, so the derived sustain volume starts at
    /// the sustain numerator itself.
    pub fn new(sound: S, attack_ms: u32, decay_ms: u32, sustain: i16, release_ms: u32) -> (r:
        Adsr<S>)
        requires
            sound.wf(),
            0 <= sustain <= MAX_VOL,
            attack_ms <= MAX_PHASE_MS,
            decay_ms <= MAX_PHASE_MS,
            release_ms <= MAX_PHASE_MS,
        ensures
            r.wf(),
            r.spec_state() == AdsrState::Stop,
            r.spec_vol() == MAX_VOL,
            r.spec_sustain() == sustain,
            r.spec_sustain_vol() == sustain,
            r.spec_attack_ms() == attack_ms,
            r.spec_decay_ms() == decay_ms,
            r.spec_release_ms() == release_ms,
            r.spec_sound().spec_vol() == 0,
    {
        let mut sound = sound;
        sound.set_vol(0);
        sound.stop();
        let mut res = Adsr {
            sound,
            attack_ms,
            decay_ms,
            sustain,
            release_ms,
            vol: MAX_VOL,
            sustain_vol: 0,
            state: AdsrState::Stop,
        };
        res.set_vol(MAX_VOL);
        proof {
            lemma_mul_is_commutative(MAX_VOL as int, sustain as int);
            lemma_div_multiples_vanish(sustain as int, MAX_VOL as int);
        }
        res
    }
}

impl<S: Sound> Sound for Adsr<S> {
    open spec fn wf(&self) -> bool {
        &&& self.spec_sound().wf()
        &&& 0 <= self.spec_vol() <= MAX_VOL
        &&& 0 <= self.spec_sustain() <= MAX_VOL
        &&& 0 <= self.spec_sustain_vol() <= self.spec_vol()
        &&& self.spec_attack_ms() <= MAX_PHASE_MS
        &&& self.spec_decay_ms() <= MAX_PHASE_MS
        &&& self.spec_release_ms() <= MAX_PHASE_MS
        &&& (match self.spec_state() {
            AdsrState::Attack { from_vol, ticks } => 0 <= from_vol <= MAX_VOL && ticks <= ticks_of(
                self.spec_attack_ms(),
            ),
            AdsrState::Decay(ticks) => ticks <= ticks_of(self.spec_decay_ms()),
            AdsrState::Release { from_vol, ticks } => 0 <= from_vol <= MAX_VOL && ticks
                <= ticks_of(self.spec_release_ms()),
            _ => true,
        })
    }

    closed spec fn spec_vol(&self) -> int {
        self.vol as int
    }

    open spec fn spec_sample(&self) -> int {
        self.spec_sound().spec_sample()
    }

    /// The envelope reports its configured peak volume, not the inner
    /// unit's momentary one.
    fn vol(&self) -> (r: i16) {
        self.vol
    }

    fn get(&self) -> (r: i16) {
        self.sound.get()
    }

    /// One tick: in a ramping phase, interpolate the inner volume between
    /// the phase's start and target in proportion to the ticks consumed,
    /// then count down or move to the next phase; then advance the inner
    /// unit.  A ramp whose counter started at zero settles on its target at
    /// once.
    fn advance(&mut self)
        ensures
            final(self).same_config(old(self)),
            final(self).spec_sound().spec_vol() == ratio_after_tick(*old(self)),
            final(self).spec_state() == state_after_tick(*old(self)),
    {
        match self.state {
            AdsrState::Stop => {},
            AdsrState::Attack { from_vol, ticks } => {
                proof {
                    lemma_ratio_bounds(
                        self.spec_vol(),
                        from_vol as int,
                        ticks as int,
                        ticks_of(self.spec_attack_ms()),
                    );
                }
                let vol = compute_ratio(self.vol, from_vol, ticks, as_ticks(self.attack_ms));
                self.sound.set_vol(vol);
                self.state = if ticks == 0 {
                    AdsrState::Decay(as_ticks(self.decay_ms))
                } else {
                    AdsrState::Attack { from_vol, ticks: ticks - 1 }
                };
            },
            AdsrState::Decay(ticks) => {
                proof {
                    lemma_ratio_bounds(
                        self.spec_sustain_vol(),
                        self.spec_vol(),
                        ticks as int,
                        ticks_of(self.spec_decay_ms()),
                    );
                }
                let vol = compute_ratio(self.sustain_vol, self.vol, ticks, as_ticks(self.decay_ms));
                self.sound.set_vol(vol);
                self.state = if ticks == 0 {
                    AdsrState::Sustain
                } else {
                    AdsrState::Decay(ticks - 1)
                };
            },
            AdsrState::Sustain => {},
            AdsrState::Release { from_vol, ticks } => {
                proof {
                    lemma_ratio_bounds(
                        0,
                        from_vol as int,
                        ticks as int,
                        ticks_of(self.spec_release_ms()),
                    );
                    if ticks == 0 {
                        lemma_ratio_start(
                            0,
                            from_vol as int,
                            ticks_of(self.spec_release_ms()),
                        );
                    }
                }
                let vol = compute_ratio(0, from_vol, ticks, as_ticks(self.release_ms));
                self.sound.set_vol(vol);
                if ticks == 0 {
                    self.sound.stop();
                    self.state = AdsrState::Stop;
                } else {
                    self.state = AdsrState::Release { from_vol, ticks: ticks - 1 };
                }
            },
        }
        self.sound.advance();
    }

    /// A note-on: the new Attack ramps from the inner unit's *current*
    /// volume, not from zero, so retriggering never produces a click.
    fn set_freq(&mut self, freq: u16)
        ensures
            final(self).same_config(old(self)),
            final(self).spec_sound().spec_vol() == old(self).spec_sound().spec_vol(),
            (final(self).spec_state() matches AdsrState::Attack { from_vol, ticks }
                && from_vol == old(self).spec_sound().spec_vol()
                && ticks == ticks_of(old(self).spec_attack_ms())),
    {
        self.sound.set_freq(freq);
        self.state = AdsrState::Attack {
            from_vol: self.sound.vol(),
            ticks: as_ticks(self.attack_ms),
        };
    }

    /// Begin a graceful Release ramp from the inner unit's current volume.
    fn stop(&mut self)
        ensures
            final(self).same_config(old(self)),
            final(self).spec_sound() == old(self).spec_sound(),
            (final(self).spec_state() matches AdsrState::Release { from_vol, ticks }
                && from_vol == old(self).spec_sound().spec_vol()
                && ticks == ticks_of(old(self).spec_release_ms())),
    {
        self.state = AdsrState::Release {
            from_vol: self.sound.vol(),
            ticks: as_ticks(self.release_ms),
        };
    }

    /// Reconfigure the peak volume and recompute the derived sustain
    /// volume; the phase is left alone.
    fn set_vol(&mut self, vol: i16)
        ensures
            final(self).spec_state() == old(self).spec_state(),
            final(self).spec_sound() == old(self).spec_sound(),
            final(self).spec_attack_ms() == old(self).spec_attack_ms(),
            final(self).spec_decay_ms() == old(self).spec_decay_ms(),
            final(self).spec_release_ms() == old(self).spec_release_ms(),
            final(self).spec_sustain() == old(self).spec_sustain(),
            final(self).spec_sustain_vol() == clamp_vol(vol as int) * old(self).spec_sustain()
                / MAX_VOL as int,
    {
        let v: i16 = if vol < 0 {
            0
        } else {
            vol
        };
        self.vol = v;
        proof {
            lemma_mul_nonnegative(v as int, self.spec_sustain());
            lemma_div_pos_is_pos(v as int * self.spec_sustain(), MAX_VOL as int);
            lemma_mul_inequality(self.spec_sustain(), MAX_VOL as int, v as int);
            lemma_mul_is_commutative(self.spec_sustain(), v as int);
            lemma_mul_is_commutative(MAX_VOL as int, v as int);
            lemma_div_is_ordered(
                v as int * self.spec_sustain(),
                v as int * MAX_VOL,
                MAX_VOL as int,
            );
            lemma_mul_is_commutative(v as int, MAX_VOL as int);
            lemma_div_multiples_vanish(v as int, MAX_VOL as int);
        }
        self.sustain_vol = ((v as i32) * (self.sustain as i32) / (MAX_VOL as i32)) as i16;
    }
}

/// The inner unit's volume after one `advance` of the envelope: the ramp
/// value of the active phase, or the volume it already had in `Stop` and
/// `Sustain`.
pub open spec fn ratio_after_tick<S: Sound>(a: Adsr<S>) -> int {
    match a.spec_state() {
        AdsrState::Stop => a.spec_sound().spec_vol(),
        AdsrState::Attack { from_vol, ticks } => ratio_spec(
            a.spec_vol(),
            from_vol as int,
            ticks as int,
            ticks_of(a.spec_attack_ms()),
        ),
        AdsrState::Decay(ticks) => ratio_spec(
            a.spec_sustain_vol(),
            a.spec_vol(),
            ticks as int,
            ticks_of(a.spec_decay_ms()),
        ),
        AdsrState::Sustain => a.spec_sound().spec_vol(),
        AdsrState::Release { from_vol, ticks } => ratio_spec(
            0,
            from_vol as int,
            ticks as int,
            ticks_of(a.spec_release_ms()),
        ),
    }
}

/// The envelope's phase after one `advance`: ramping phases count down and
/// roll over into the next phase when their counter was already zero.
pub open spec fn state_after_tick<S: Sound>(a: Adsr<S>) -> AdsrState {
    match a.spec_state() {
        AdsrState::Stop => AdsrState::Stop,
        AdsrState::Attack { from_vol, ticks } => if ticks == 0 {
            AdsrState::Decay(ticks_of(a.spec_decay_ms()) as u32)
        } else {
            AdsrState::Attack { from_vol, ticks: (ticks - 1) as u32 }
        },
        AdsrState::Decay(ticks) => if ticks == 0 {
            AdsrState::Sustain
        } else {
            AdsrState::Decay((ticks - 1) as u32)
        },
        AdsrState::Sustain => AdsrState::Sustain,
        AdsrState::Release { from_vol, ticks } => if ticks == 0 {
            AdsrState::Stop
        } else {
            AdsrState::Release { from_vol, ticks: (ticks - 1) as u32 }
        },
    }
}

/// During Attack the sampled volume is monotonically non-decreasing over
/// time: with fewer ticks remaining the ramp sits no lower.  It starts at
/// `from_vol` when the whole phase remains and reaches the peak exactly
/// when the counter runs out.
pub proof fn lemma_attack_monotone(peak: int, from_vol: int, t1: int, t2: int, total: int)
    requires
        0 <= from_vol <= peak <= MAX_VOL,
        0 <= t1 <= t2 <= total,
    ensures
        ratio_spec(peak, from_vol, t2, total) <= ratio_spec(peak, from_vol, t1, total),
        ratio_spec(peak, from_vol, 0, total) == peak,
        total > 0 ==> ratio_spec(peak, from_vol, total, total) == from_vol,
{
    if from_vol < peak {
        lemma_ratio_monotone(peak, from_vol, t1, t2, total);
    } else {
        lemma_ratio_bounds(peak, from_vol, t1, total);
        lemma_ratio_bounds(peak, from_vol, t2, total);
    }
    lemma_ratio_start(peak, from_vol, total);
    lemma_ratio_end(peak, from_vol, total);
}

/// During Decay the sampled volume is monotonically non-increasing over
/// time, starting at the peak and reaching the sustain volume exactly when
/// the counter runs out.
pub proof fn lemma_decay_monotone(sustain_vol: int, peak: int, t1: int, t2: int, total: int)
    requires
        0 <= sustain_vol <= peak <= MAX_VOL,
        0 <= t1 <= t2 <= total,
    ensures
        ratio_spec(sustain_vol, peak, t1, total) <= ratio_spec(sustain_vol, peak, t2, total),
        ratio_spec(sustain_vol, peak, 0, total) == sustain_vol,
        total > 0 ==> ratio_spec(sustain_vol, peak, total, total) == peak,
{
    if sustain_vol < peak {
        lemma_ratio_monotone(sustain_vol, peak, t1, t2, total);
    } else {
        lemma_ratio_bounds(sustain_vol, peak, t1, total);
        lemma_ratio_bounds(sustain_vol, peak, t2, total);
    }
    lemma_ratio_start(sustain_vol, peak, total);
    lemma_ratio_end(sustain_vol, peak, total);
}

/// During Release the sampled volume is monotonically non-increasing over
/// time, starting from the volume the phase began at and reaching exact
/// silence when the counter runs out.
pub proof fn lemma_release_monotone(from_vol: int, t1: int, t2: int, total: int)
    requires
        0 <= from_vol <= MAX_VOL,
        0 <= t1 <= t2 <= total,
    ensures
        ratio_spec(0, from_vol, t1, total) <= ratio_spec(0, from_vol, t2, total),
        ratio_spec(0, from_vol, 0, total) == 0,
        total > 0 ==> ratio_spec(0, from_vol, total, total) == from_vol,
{
    lemma_decay_monotone(0, from_vol, t1, t2, total);
}

} // verus!

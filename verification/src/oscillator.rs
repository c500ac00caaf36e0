//! The sole signal source: a square-wave oscillator with a programmable
//! frequency and volume, advanced one sample period at a time.

use vstd::prelude::*;

verus! {

use vstd::arithmetic::div_mod::{
    lemma_add_mod_noop_right,
    lemma_mod_add_multiples_vanish,
    lemma_mod_bound,
    lemma_small_mod,
};
use crate::{clamp_vol, Action, Sound, MAX_VOL, RATE};

/// A periodic waveform generator.  Frequency 0 is the silent state; the
/// waveform is a square wave whose period is `RATE / freq` samples,
/// integer-rounded, and whose amplitude equals the current volume.
#[derive(Clone, Copy, Debug)]
pub struct Oscillator {
    freq: u16,
    vol: i16,
    phase: u32,
}

/// Number of samples in one full period at frequency `freq`: zero both for
/// the silent frequency 0 and for frequencies above the sample rate.
pub open spec fn period_of(freq: u16) -> int {
    if freq == 0 {
        0
    } else {
        RATE as int / freq as int
    }
}

/// The square-wave sample for a given frequency, volume and phase position:
/// `vol` in the first half of the period, `-vol` in the second, silence when
/// the period is degenerate.
pub open spec fn sample_of(freq: u16, vol: int, phase: int) -> int {
    let p = period_of(freq);
    if p == 0 {
        0
    } else if 2 * phase < p {
        vol
    } else {
        -vol
    }
}

impl Oscillator {
    /// The current generation frequency in Hz.
    pub closed spec fn spec_freq(&self) -> u16 {
        self.freq
    }

    /// The current phase position inside the period.
    pub closed spec fn spec_phase(&self) -> int {
        self.phase as int
    }

    /// The silent oscillator `Default` produces.
    pub closed spec fn silent() -> Oscillator {
        Oscillator { freq: 0, vol: 0, phase: 0 }
    }

    /// The state `set_freq` leaves behind: the new frequency, the phase at
    /// rest, the volume kept.
    pub closed spec fn with_freq(self, freq: u16) -> Oscillator {
        Oscillator { freq, vol: self.vol, phase: 0 }
    }

    /// The state `set_vol` leaves behind: the volume pinned into range,
    /// frequency and phase kept.
    pub closed spec fn with_vol(self, vol: i16) -> Oscillator {
        Oscillator { freq: self.freq, vol: (clamp_vol(vol as int)) as i16, phase: self.phase }
    }

    /// The state `stop` leaves behind: silent frequency, phase at rest,
    /// volume kept.
    pub closed spec fn stopped(self) -> Oscillator {
        Oscillator { freq: 0, vol: self.vol, phase: 0 }
    }

    /// The state `advance` leaves behind: the phase one step further,
    /// wrapped at the period.
    pub closed spec fn advanced(self) -> Oscillator {
        let p = period_of(self.freq);
        Oscillator {
            freq: self.freq,
            vol: self.vol,
            phase: if p > 0 {
                (((self.phase + 1) as int % p) as u32)
            } else {
                self.phase
            },
        }
    }

    /// The state one control action leaves behind.
    pub open spec fn applied(self, a: Action) -> Oscillator {
        match a {
            Action::Vol(v) => self.with_vol(v),
            Action::Start(f) => self.with_freq(f),
            Action::Stop => self.stopped(),
        }
    }

    /// Phase position after `n` further ticks: the phase walks forward one
    /// step per tick, wrapping at the period.
    pub open spec fn phase_after(&self, n: nat) -> int {
        let p = period_of(self.spec_freq());
        if p == 0 {
            0
        } else {
            (self.spec_phase() + n) % p
        }
    }
}

impl Sound for Oscillator {
    open spec fn wf(&self) -> bool {
        let p = period_of(self.spec_freq());
        &&& 0 <= self.spec_vol() <= MAX_VOL
        &&& p > 0 ==> 0 <= self.spec_phase() < p
        &&& p == 0 ==> self.spec_phase() == 0
    }

    closed spec fn spec_vol(&self) -> int {
        self.vol as int
    }

    open spec fn spec_sample(&self) -> int {
        sample_of(self.spec_freq(), self.spec_vol(), self.spec_phase())
    }

    fn vol(&self) -> (r: i16) {
        self.vol
    }

    fn get(&self) -> (r: i16)
        ensures
            -self.spec_vol() <= r <= self.spec_vol(),
    {
        if self.freq == 0 {
            return 0;
        }
        let p: u32 = RATE / (self.freq as u32);
        if p == 0 {
            0
        } else if 2 * self.phase < p {
            self.vol
        } else {
            -self.vol
        }
    }

    fn advance(&mut self)
        ensures
            final(self).spec_freq() == old(self).spec_freq(),
            final(self).spec_phase() == old(self).phase_after(1),
            *final(self) == old(self).advanced(),
    {
        if self.freq == 0 {
            return;
        }
        let p: u32 = RATE / (self.freq as u32);
        if p > 0 {
            self.phase = (self.phase + 1) % p;
        }
    }

    fn set_freq(&mut self, freq: u16)
        ensures
            final(self).spec_freq() == freq,
            final(self).spec_phase() == 0,
            *final(self) == old(self).with_freq(freq),
    {
        self.freq = freq;
        self.phase = 0;
    }

    fn stop(&mut self)
        ensures
            final(self).spec_freq() == 0,
            final(self).spec_phase() == 0,
            *final(self) == old(self).stopped(),
    {
        self.freq = 0;
        self.phase = 0;
    }

    fn set_vol(&mut self, vol: i16)
        ensures
            final(self).spec_freq() == old(self).spec_freq(),
            final(self).spec_phase() == old(self).spec_phase(),
            *final(self) == old(self).with_vol(vol),
    {
        self.vol = if vol < 0 {
            0
        } else {
            vol
        };
    }

    fn modify(&mut self, action: &Action)
        ensures
            *final(self) == old(self).applied(*action),
    {
        match action {
            Action::Vol(vol) => self.set_vol(*vol),
            Action::Start(freq) => self.set_freq(*freq),
            Action::Stop => self.stop(),
        }
    }
}

impl Default for Oscillator {
    /// A silent oscillator: no frequency, zero volume, phase at rest.
    fn default() -> (r: Oscillator)
        ensures
            r.wf(),
            r.spec_freq() == 0,
            r.spec_vol() == 0,
            r.spec_phase() == 0,
            r == Oscillator::silent(),
    {
        Oscillator { freq: 0, vol: 0, phase: 0 }
    }
}

/// Before any tick has elapsed the phase is where it stands now.
pub proof fn lemma_phase_after_zero(o: Oscillator)
    requires
        o.wf(),
    ensures
        o.phase_after(0) == o.spec_phase(),
{
    let p = period_of(o.spec_freq());
    if p > 0 {
        lemma_small_mod(o.spec_phase() as nat, p as nat);
    }
}

/// Advancing one more tick from the position reached after `n` ticks lands
/// on the position after `n + 1` ticks: the per-tick step of `advance`
/// composes into `phase_after`.
pub proof fn lemma_phase_after_succ(o: Oscillator, n: nat)
    requires
        o.wf(),
        period_of(o.spec_freq()) > 0,
    ensures
        (o.phase_after(n) + 1) % period_of(o.spec_freq()) == o.phase_after(n + 1),
{
    let p = period_of(o.spec_freq());
    lemma_add_mod_noop_right(1, o.spec_phase() + n, p);
    assert((1 + (o.spec_phase() + n) % p) % p == (1 + (o.spec_phase() + n)) % p);
}

/// Periodicity: a sounding oscillator returns to the same phase — and hence
/// the same output sample — every `RATE / freq` ticks.
pub proof fn lemma_oscillator_periodic(o: Oscillator, n: nat)
    requires
        o.wf(),
        period_of(o.spec_freq()) > 0,
    ensures
        o.phase_after((n + period_of(o.spec_freq())) as nat) == o.phase_after(n),
        sample_of(o.spec_freq(), o.spec_vol(), o.phase_after((n + period_of(o.spec_freq())) as nat))
            == sample_of(o.spec_freq(), o.spec_vol(), o.phase_after(n)),
{
    let p = period_of(o.spec_freq());
    lemma_mod_add_multiples_vanish(o.spec_phase() + n, p);
    assert((p + (o.spec_phase() + n)) % p == (o.spec_phase() + n) % p);
}

/// The phase always stays inside the period.
pub proof fn lemma_phase_after_in_period(o: Oscillator, n: nat)
    requires
        o.wf(),
        period_of(o.spec_freq()) > 0,
    ensures
        0 <= o.phase_after(n) < period_of(o.spec_freq()),
{
    lemma_mod_bound(o.spec_phase() + n, period_of(o.spec_freq()));
}

} // verus!

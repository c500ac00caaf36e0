//! Offline multichannel rendering: four oscillators driven by a sorted,
//! millisecond-timed action list, their outputs summed with saturation
//! into one sample stream.

use vstd::prelude::*;

verus! {

use vstd::arithmetic::div_mod::lemma_div_multiples_vanish;
use crate::oscillator::Oscillator;
use crate::{sat_i16, Action, Sound, RATE};

/// A control action scheduled at a millisecond timestamp on one of four
/// channels.
#[derive(Clone, Copy, Debug)]
pub struct TimedAction {
    pub ms: u32,
    pub chan: usize,
    pub action: Action,
}

/// The song is playable: timestamps never decrease and every action names
/// one of the four channels.
pub open spec fn song_wf(song: Seq<TimedAction>) -> bool {
    &&& forall|i: int, j: int|
        0 <= i <= j < song.len() ==> (#[trigger] song[i]).ms <= (#[trigger] song[j]).ms
    &&& forall|i: int| 0 <= i < song.len() ==> (#[trigger] song[i]).chan < 4
}

/// Playback lasts until the last scheduled timestamp.
pub open spec fn duration_of(song: Seq<TimedAction>) -> int {
    if song.len() == 0 {
        0
    } else {
        song[song.len() - 1].ms as int
    }
}

/// Four well-formed channels.
pub open spec fn bank_wf(bank: Seq<Oscillator>) -> bool {
    bank.len() == 4 && (forall|i: int| 0 <= i < 4 ==> (#[trigger] bank[i]).wf())
}

/// The bank after one scheduled action hits its channel.
pub open spec fn bank_after_action(bank: Seq<Oscillator>, e: TimedAction) -> Seq<Oscillator> {
    bank.update(e.chan as int, bank[e.chan as int].applied(e.action))
}

/// Apply every action scheduled at millisecond `ms` from `idx` on; the
/// result is the new bank and the index of the first later action.
pub open spec fn apply_at(bank: Seq<Oscillator>, song: Seq<TimedAction>, idx: int, ms: int) -> (
    Seq<Oscillator>,
    int,
)
    decreases song.len() - idx,
    when 0 <= idx <= song.len()
{
    if idx < song.len() && song[idx].ms == ms {
        apply_at(bank_after_action(bank, song[idx]), song, idx + 1, ms)
    } else {
        (bank, idx)
    }
}

/// The saturated sum of the four channel samples.
pub open spec fn bank_sample(bank: Seq<Oscillator>) -> int {
    sat_i16(
        bank[0].spec_sample() + bank[1].spec_sample() + bank[2].spec_sample()
            + bank[3].spec_sample(),
    )
}

/// All four channels advanced one tick.
pub open spec fn bank_advanced(bank: Seq<Oscillator>) -> Seq<Oscillator> {
    seq![bank[0].advanced(), bank[1].advanced(), bank[2].advanced(), bank[3].advanced()]
}

/// `k` further samples from the bank with no intervening action: each tick
/// contributes the saturated channel sum, then advances every channel.
pub open spec fn run_ticks(bank: Seq<Oscillator>, k: nat) -> (Seq<i16>, Seq<Oscillator>)
    decreases k,
{
    if k == 0 {
        (Seq::empty(), bank)
    } else {
        let rest = run_ticks(bank_advanced(bank), (k - 1) as nat);
        (seq![(bank_sample(bank) as i16)] + rest.0, rest.1)
    }
}

/// The samples still to come from millisecond `ms` on: apply that
/// millisecond's actions, render one millisecond of samples, continue.
pub open spec fn run_ms(
    bank: Seq<Oscillator>,
    song: Seq<TimedAction>,
    idx: int,
    ms: int,
    ms_left: nat,
) -> Seq<i16>
    decreases ms_left,
    when 0 <= idx <= song.len()
{
    if ms_left == 0 {
        Seq::empty()
    } else {
        let applied = apply_at(bank, song, idx, ms);
        let ticked = run_ticks(applied.0, 48);
        ticked.0 + run_ms(ticked.1, song, applied.1, ms + 1, (ms_left - 1) as nat)
    }
}

/// Applying actions never moves the index backwards or past the end.
pub proof fn lemma_apply_at_idx(bank: Seq<Oscillator>, song: Seq<TimedAction>, idx: int, ms: int)
    requires
        0 <= idx <= song.len(),
    ensures
        idx <= apply_at(bank, song, idx, ms).1 <= song.len(),
    decreases song.len() - idx,
{
    if idx < song.len() && song[idx].ms == ms {
        lemma_apply_at_idx(bank_after_action(bank, song[idx]), song, idx + 1, ms);
    }
}

/// One tick run yields exactly `k` samples.
pub proof fn lemma_run_ticks_len(bank: Seq<Oscillator>, k: nat)
    ensures
        run_ticks(bank, k).0.len() == k,
    decreases k,
{
    if k > 0 {
        lemma_run_ticks_len(bank_advanced(bank), (k - 1) as nat);
    }
}

/// A run of `ms_left` milliseconds yields exactly `48 * ms_left` samples.
pub proof fn lemma_run_ms_len(
    bank: Seq<Oscillator>,
    song: Seq<TimedAction>,
    idx: int,
    ms: int,
    ms_left: nat,
)
    requires
        0 <= idx <= song.len(),
    ensures
        run_ms(bank, song, idx, ms, ms_left).len() == 48 * ms_left,
    decreases ms_left,
{
    if ms_left > 0 {
        let applied = apply_at(bank, song, idx, ms);
        lemma_apply_at_idx(bank, song, idx, ms);
        lemma_run_ticks_len(applied.0, 48);
        lemma_run_ms_len(run_ticks(applied.0, 48).1, song, applied.1, ms + 1, (ms_left - 1) as nat);
    }
}

/// The full sample stream `make` produces: four silent oscillators driven
/// by the song from its first millisecond to its last timestamp.
pub open spec fn make_spec(song: Seq<TimedAction>) -> Seq<i16> {
    let bank = seq![
        Oscillator::silent(),
        Oscillator::silent(),
        Oscillator::silent(),
        Oscillator::silent(),
    ];
    run_ms(bank, song, 0, 0, duration_of(song) as nat)
}

/// Read one sample from every channel, sum with saturation, and advance
/// all four channels one tick.
fn mix4_step(oscs: &mut Vec<Oscillator>) -> (s: i16)
    requires
        bank_wf(old(oscs)@),
    ensures
        bank_wf(final(oscs)@),
        final(oscs)@ == bank_advanced(old(oscs)@),
        s == bank_sample(old(oscs)@),
{
    let mut o0 = oscs[0];
    let s0 = o0.get();
    o0.advance();
    oscs.set(0, o0);
    let mut o1 = oscs[1];
    let s1 = o1.get();
    o1.advance();
    oscs.set(1, o1);
    let mut o2 = oscs[2];
    let s2 = o2.get();
    o2.advance();
    oscs.set(2, o2);
    let mut o3 = oscs[3];
    let s3 = o3.get();
    o3.advance();
    oscs.set(3, o3);
    proof {
        assert(oscs@ =~= bank_advanced(old(oscs)@));
    }
    let sum: i32 = s0 as i32 + s1 as i32 + s2 as i32 + s3 as i32;
    if sum > 32767 {
        32767
    } else if sum < -32768 {
        -32768
    } else {
        sum as i16
    }
}

/// Render a sorted, millisecond-timed action list through four channels
/// into one finite sample stream of exactly `RATE / 1000` samples per
/// millisecond up to the last timestamp.
pub fn make(song: &Vec<TimedAction>) -> (out: Vec<i16>)
    requires
        song_wf(song@),
        duration_of(song@) * RATE <= u32::MAX,
    ensures
        out@ == make_spec(song@),
        out@.len() == 48 * duration_of(song@),
        out@.len() == duration_of(song@) * (RATE as int) / 1000,
{
    let duration: u32 = if song.len() == 0 {
        0
    } else {
        song[song.len() - 1].ms
    };
    let mut oscs: Vec<Oscillator> = Vec::new();
    oscs.push(Oscillator::default());
    oscs.push(Oscillator::default());
    oscs.push(Oscillator::default());
    oscs.push(Oscillator::default());
    let mut out: Vec<i16> = Vec::new();
    let mut idx: usize = 0;
    let mut ms: u32 = 0;
    proof {
        assert(oscs@ =~= seq![
            Oscillator::silent(),
            Oscillator::silent(),
            Oscillator::silent(),
            Oscillator::silent(),
        ]);
        assert(out@ + run_ms(oscs@, song@, 0, 0, duration as nat) =~= make_spec(song@));
    }
    while ms < duration
        invariant
            song_wf(song@),
            bank_wf(oscs@),
            ms <= duration,
            duration == duration_of(song@),
            idx <= song@.len(),
            forall|j: int| idx <= j < song@.len() ==> (#[trigger] song@[j]).ms >= ms,
            out@ + run_ms(oscs@, song@, idx as int, ms as int, (duration - ms) as nat) == make_spec(
                song@,
            ),
        decreases duration - ms,
    {
        let ghost bank0 = oscs@;
        let ghost idx0 = idx as int;
        while idx < song.len() && song[idx].ms == ms
            invariant
                song_wf(song@),
                bank_wf(oscs@),
                idx0 <= idx <= song@.len(),
                forall|j: int| idx <= j < song@.len() ==> (#[trigger] song@[j]).ms >= ms,
                apply_at(bank0, song@, idx0, ms as int) == apply_at(
                    oscs@,
                    song@,
                    idx as int,
                    ms as int,
                ),
            decreases song@.len() - idx,
        {
            let e = song[idx];
            let mut o = oscs[e.chan];
            o.modify(&e.action);
            oscs.set(e.chan, o);
            idx = idx + 1;
        }
        proof {
            assert(apply_at(oscs@, song@, idx as int, ms as int) == (oscs@, idx as int));
            assert(apply_at(bank0, song@, idx0, ms as int) == (oscs@, idx as int));
        }
        let ghost bank1 = oscs@;
        let ghost out1 = out@;
        let mut k: u32 = 0;
        while k < 48
            invariant
                bank_wf(oscs@),
                k <= 48,
                out1 + run_ticks(bank1, 48).0 == out@ + run_ticks(oscs@, (48 - k) as nat).0,
                run_ticks(bank1, 48).1 == run_ticks(oscs@, (48 - k) as nat).1,
            decreases 48 - k,
        {
            let ghost pre = oscs@;
            let s = mix4_step(&mut oscs);
            out.push(s);
            proof {
                assert(run_ticks(pre, (48 - k) as nat).0 == seq![(bank_sample(pre) as i16)]
                    + run_ticks(oscs@, (48 - k - 1) as nat).0);
                assert(out1 + run_ticks(bank1, 48).0 =~= out@ + run_ticks(
                    oscs@,
                    (48 - k - 1) as nat,
                ).0);
            }
            k = k + 1;
        }
        proof {
            assert(run_ticks(oscs@, 0).0 =~= Seq::<i16>::empty());
            assert(out@ + Seq::<i16>::empty() =~= out@);
            assert(out@ == out1 + run_ticks(bank1, 48).0);
        }
        ms = ms + 1;
        proof {
            assert(forall|j: int|
                idx <= j < song@.len() ==> (#[trigger] song@[j]).ms >= ms) by {
                if idx < song@.len() {
                    assert(song@[idx as int].ms >= ms - 1);
                    assert(song@[idx as int].ms != ms - 1);
                    assert(forall|j: int|
                        idx <= j < song@.len() ==> song@[idx as int].ms <= (
                        #[trigger] song@[j]).ms);
                }
            }
            assert(out1 + run_ms(bank0, song@, idx0, ms - 1, (duration - ms + 1) as nat)
                == make_spec(song@));
            assert(run_ms(bank0, song@, idx0, ms - 1, (duration - ms + 1) as nat) == run_ticks(
                bank1,
                48,
            ).0 + run_ms(oscs@, song@, idx as int, ms as int, (duration - ms) as nat));
            assert(out1 + (run_ticks(bank1, 48).0 + run_ms(
                oscs@,
                song@,
                idx as int,
                ms as int,
                (duration - ms) as nat,
            )) =~= out@ + run_ms(oscs@, song@, idx as int, ms as int, (duration - ms) as nat));
        }
    }
    proof {
        assert(run_ms(oscs@, song@, idx as int, ms as int, 0) =~= Seq::<i16>::empty());
        assert(out@ + Seq::<i16>::empty() =~= out@);
        lemma_run_ms_len(
            seq![
                Oscillator::silent(),
                Oscillator::silent(),
                Oscillator::silent(),
                Oscillator::silent(),
            ],
            song@,
            0,
            0,
            duration_of(song@) as nat,
        );
        lemma_div_multiples_vanish(48 * duration_of(song@), 1000);
        assert(duration_of(song@) * (RATE as int) == 1000 * (48 * duration_of(song@)));
    }
    out
}

} // verus!

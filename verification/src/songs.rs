//! Declarative music scores and the scheduler that derives timed events
//! from them: each note yields a `Note` event for its audible span and, if
//! its audible share leaves a remainder, an implicit `Rest` event that
//! completes the note's nominal duration.

use vstd::prelude::*;

verus! {

use vstd::arithmetic::div_mod::{
    lemma_div_is_ordered,
    lemma_div_multiples_vanish,
    lemma_div_nonincreasing,
    lemma_div_pos_is_pos,
};
use vstd::arithmetic::mul::{
    lemma_mul_inequality,
    lemma_mul_is_commutative,
    lemma_mul_upper_bound,
};
use crate::pitch::{AF4, AF5, BF5, C5, C6, D5, E5, EF5, F5, G4, G5, A5};
use crate::Action;

/// A note descriptor: pitch in Hz (0 for a written rest), duration
/// numerator and denominator as a fraction of a whole note, and the
/// percentage of that duration which is audible.
pub open spec fn note_wf(n: (u16, u8, u8, u8)) -> bool {
    n.2 >= 1 && n.3 <= 100
}

/// Every descriptor in the list is well formed.
pub open spec fn notes_wf(notes: Seq<(u16, u8, u8, u8)>) -> bool
    decreases notes.len(),
{
    if notes.len() == 0 {
        true
    } else {
        note_wf(notes[0]) && notes_wf(notes.drop_first())
    }
}

/// The nominal duration of a note in milliseconds: the whole-note duration
/// scaled by the note's fraction.
pub open spec fn note_total_ms(whole: int, n: (u16, u8, u8, u8)) -> int {
    whole * n.1 / n.2 as int
}

/// The audible part of the nominal duration, per the audible percentage.
pub open spec fn note_audible_ms(whole: int, n: (u16, u8, u8, u8)) -> int {
    note_total_ms(whole, n) * n.3 / 100
}

/// The implicit rest completing the nominal duration.
pub open spec fn note_rest_ms(whole: int, n: (u16, u8, u8, u8)) -> int {
    note_total_ms(whole, n) - note_audible_ms(whole, n)
}

/// For a whole-note duration of at most a minute and a well-formed note,
/// the derived durations are ordered and fit comfortably in 32 bits.
pub proof fn lemma_note_ms_bounds(whole: int, n: (u16, u8, u8, u8))
    requires
        0 <= whole <= 60000,
        note_wf(n),
    ensures
        0 <= note_audible_ms(whole, n) <= note_total_ms(whole, n) <= 15300000,
        0 <= note_rest_ms(whole, n) <= note_total_ms(whole, n),
{
    let total = note_total_ms(whole, n);
    lemma_mul_upper_bound(whole, 60000, n.1 as int, 255);
    lemma_mul_nonneg_pair(whole, n.1 as int);
    lemma_div_pos_is_pos(whole * n.1, n.2 as int);
    lemma_div_nonincreasing(whole * n.1, n.2 as int);
    lemma_div_is_ordered(whole * n.1, 15300000, n.2 as int);
    lemma_div_pos_is_pos(15300000, n.2 as int);
    lemma_div_nonincreasing(15300000, n.2 as int);
    assert(0 <= total <= 15300000);
    lemma_mul_nonneg_pair(total, n.3 as int);
    lemma_div_pos_is_pos(total * n.3, 100);
    lemma_mul_inequality(n.3 as int, 100, total);
    lemma_mul_is_commutative(n.3 as int, total);
    lemma_mul_is_commutative(100, total);
    lemma_div_is_ordered(total * n.3, total * 100, 100);
    lemma_mul_is_commutative(total, 100);
    lemma_div_multiples_vanish(total, 100);
    assert(0 <= note_audible_ms(whole, n) <= total);
}

proof fn lemma_mul_nonneg_pair(x: int, y: int)
    requires
        0 <= x,
        0 <= y,
    ensures
        0 <= x * y,
{
    vstd::arithmetic::mul::lemma_mul_nonnegative(x, y);
}

/// A timed musical event, derived lazily from a score.
#[derive(Clone, Copy, Debug, PartialEq, Eq, Structural)]
pub enum Event {
    Note { pitch: u16, ms: u32 },
    Rest { ms: u32 },
}

impl Event {
    /// The event's duration in milliseconds.
    pub open spec fn spec_ms(&self) -> int {
        match *self {
            Event::Note { ms, .. } => ms as int,
            Event::Rest { ms } => ms as int,
        }
    }

    pub fn ms_duration(&self) -> (r: u32)
        ensures
            r == self.spec_ms(),
    {
        match *self {
            Event::Note { ms, .. } => ms,
            Event::Rest { ms } => ms,
        }
    }

    /// The control action the event stands for: a note starts a frequency,
    /// a rest begins stopping.
    pub fn to_action(&self) -> (r: Action)
        ensures
            (match *self {
                Event::Note { pitch, .. } => r == Action::Start(pitch),
                Event::Rest { .. } => r == Action::Stop,
            }),
    {
        match *self {
            Event::Note { pitch, .. } => Action::Start(pitch),
            Event::Rest { .. } => Action::Stop,
        }
    }
}

/// The full event sequence a note list gives rise to, in score order: for
/// each note its audible `Note` event, then its implicit `Rest` event if
/// the audible share left a positive remainder.
pub open spec fn events_of_notes(whole: int, notes: Seq<(u16, u8, u8, u8)>) -> Seq<Event>
    decreases notes.len(),
{
    if notes.len() == 0 {
        Seq::empty()
    } else {
        let n = notes[0];
        let head: Seq<Event> = if note_rest_ms(whole, n) > 0 {
            seq![
                Event::Note { pitch: n.0, ms: note_audible_ms(whole, n) as u32 },
                Event::Rest { ms: note_rest_ms(whole, n) as u32 },
            ]
        } else {
            seq![Event::Note { pitch: n.0, ms: note_audible_ms(whole, n) as u32 }]
        };
        head + events_of_notes(whole, notes.drop_first())
    }
}

/// The sum of the durations of a sequence of events.
pub open spec fn sum_ms(evs: Seq<Event>) -> int
    decreases evs.len(),
{
    if evs.len() == 0 {
        0
    } else {
        evs[0].spec_ms() + sum_ms(evs.drop_first())
    }
}

/// A sum of event durations is never negative.
pub proof fn lemma_sum_ms_nonneg(evs: Seq<Event>)
    ensures
        sum_ms(evs) >= 0,
    decreases evs.len(),
{
    if evs.len() > 0 {
        lemma_sum_ms_nonneg(evs.drop_first());
    }
}

/// Durations add over concatenation.
pub proof fn lemma_sum_ms_append(a: Seq<Event>, b: Seq<Event>)
    ensures
        sum_ms(a + b) == sum_ms(a) + sum_ms(b),
    decreases a.len(),
{
    if a.len() == 0 {
        assert(a + b =~= b);
    } else {
        assert((a + b).drop_first() =~= a.drop_first() + b);
        assert((a + b)[0] == a[0]);
        lemma_sum_ms_append(a.drop_first(), b);
    }
}

/// The nominal duration of a whole note list, in milliseconds.
pub open spec fn total_ms_of(whole: int, notes: Seq<(u16, u8, u8, u8)>) -> int
    decreases notes.len(),
{
    if notes.len() == 0 {
        0
    } else {
        note_total_ms(whole, notes[0]) + total_ms_of(whole, notes.drop_first())
    }
}

/// Nominal durations are never negative.
pub proof fn lemma_total_ms_nonneg(whole: int, notes: Seq<(u16, u8, u8, u8)>)
    requires
        0 <= whole <= 60000,
        notes_wf(notes),
    ensures
        0 <= total_ms_of(whole, notes),
    decreases notes.len(),
{
    if notes.len() > 0 {
        lemma_note_ms_bounds(whole, notes[0]);
        lemma_total_ms_nonneg(whole, notes.drop_first());
    }
}

/// The audible percentage splits each note's nominal duration exactly, so
/// the derived events of a note list sum to precisely its nominal duration.
pub proof fn lemma_events_sum_to_total(whole: int, notes: Seq<(u16, u8, u8, u8)>)
    requires
        0 <= whole <= 60000,
        notes_wf(notes),
    ensures
        sum_ms(events_of_notes(whole, notes)) == total_ms_of(whole, notes),
    decreases notes.len(),
{
    if notes.len() > 0 {
        let n = notes[0];
        lemma_note_ms_bounds(whole, n);
        let head: Seq<Event> = if note_rest_ms(whole, n) > 0 {
            seq![
                Event::Note { pitch: n.0, ms: note_audible_ms(whole, n) as u32 },
                Event::Rest { ms: note_rest_ms(whole, n) as u32 },
            ]
        } else {
            seq![Event::Note { pitch: n.0, ms: note_audible_ms(whole, n) as u32 }]
        };
        lemma_sum_ms_append(head, events_of_notes(whole, notes.drop_first()));
        lemma_events_sum_to_total(whole, notes.drop_first());
        assert(events_of_notes(whole, notes) == head + events_of_notes(whole, notes.drop_first()));
        assert(head[0].spec_ms() == note_audible_ms(whole, n));
        assert(sum_ms(Seq::<Event>::empty()) == 0);
        assert(sum_ms(head) == head[0].spec_ms() + sum_ms(head.drop_first()));
        if note_rest_ms(whole, n) > 0 {
            assert(head.drop_first()[0] == head[1]);
            assert(head[1].spec_ms() == note_rest_ms(whole, n));
            assert(sum_ms(head.drop_first()) == head.drop_first()[0].spec_ms() + sum_ms(
                head.drop_first().drop_first(),
            ));
            assert(head.drop_first().drop_first() =~= Seq::<Event>::empty());
            assert(sum_ms(head) == note_audible_ms(whole, n) + note_rest_ms(whole, n));
        } else {
            assert(head.drop_first() =~= Seq::<Event>::empty());
            assert(sum_ms(head) == note_audible_ms(whole, n));
        }
        assert(sum_ms(head) == note_total_ms(whole, n));
    }
}

/// A piece of music: a tempo in quarter notes per minute and an ordered
/// note list.
#[derive(Debug)]
pub struct Score {
    pub tempo: u8,
    pub notes: Vec<(u16, u8, u8, u8)>,
}

impl Score {
    /// A score is usable when its tempo is positive and every note has a
    /// positive duration denominator and an audible share of at most 100
    /// percent.
    pub open spec fn wf(&self) -> bool {
        self.tempo >= 1 && notes_wf(self.notes@)
    }

    /// Milliseconds in one whole note at this tempo.
    pub open spec fn spec_whole_ms(&self) -> int {
        60000int / self.tempo as int
    }

    /// The score's total duration in milliseconds.
    pub open spec fn spec_ms_duration(&self) -> int {
        total_ms_of(self.spec_whole_ms(), self.notes@)
    }

    /// The full event sequence this score gives rise to.
    pub open spec fn spec_events(&self) -> Seq<Event> {
        events_of_notes(self.spec_whole_ms(), self.notes@)
    }

    /// Start the lazy event sequence over from the top of the score.
    pub fn events(&self) -> (e: Events)
        requires
            self.wf(),
        ensures
            e.wf(),
            e.remaining() == self.spec_events(),
    {
        proof {
            lemma_div_pos_is_pos(60000, self.tempo as int);
            lemma_div_nonincreasing(60000, self.tempo as int);
        }
        let e = Events {
            whole_ms: 60 * 1000 / (self.tempo as u32),
            notes: clone_notes(&self.notes),
            idx: 0,
            rest: None,
        };
        proof {
            assert(e.notes@.skip(0) =~= self.notes@);
        }
        e
    }

    /// Start the millisecond-granular event sequence over from the top.
    pub fn ms_events(&self) -> (e: MsEvents)
        requires
            self.wf(),
        ensures
            e.wf(),
            e.remaining() == ms_expand(self.spec_events()),
    {
        self.events().ms_events()
    }

    /// The total duration of the score in milliseconds: the sum of the
    /// durations of every event it yields.
    pub fn ms_duration(&self) -> (r: u32)
        requires
            self.wf(),
            self.spec_ms_duration() <= u32::MAX,
        ensures
            r == self.spec_ms_duration(),
            r == sum_ms(self.spec_events()),
    {
        proof {
            lemma_div_pos_is_pos(60000, self.tempo as int);
            lemma_div_nonincreasing(60000, self.tempo as int);
            lemma_events_sum_to_total(self.spec_whole_ms(), self.notes@);
        }
        let whole: u32 = 60 * 1000 / (self.tempo as u32);
        let ghost whole_i: int = whole as int;
        let mut acc: u32 = 0;
        let mut i: usize = 0;
        proof {
            assert(self.notes@.skip(0) =~= self.notes@);
        }
        while i < self.notes.len()
            invariant
                i <= self.notes.len(),
                whole_i == self.spec_whole_ms(),
                0 <= whole_i <= 60000,
                whole == whole_i,
                notes_wf(self.notes@),
                self.spec_ms_duration() <= u32::MAX,
                acc + total_ms_of(whole_i, self.notes@.skip(i as int)) == self.spec_ms_duration(),
                notes_wf(self.notes@.skip(i as int)),
            decreases self.notes.len() - i,
        {
            let (_pitch, n, d, _pct) = self.notes[i];
            proof {
                assert(self.notes@.skip(i as int)[0] == self.notes@[i as int]);
                assert(note_wf(self.notes@[i as int]));
                lemma_note_ms_bounds(whole_i, self.notes@[i as int]);
                lemma_mul_upper_bound(whole_i, 60000, n as int, 255);
                lemma_mul_nonneg_pair(whole_i, n as int);
                lemma_total_ms_nonneg(whole_i, self.notes@.skip(i as int).drop_first());
                assert(self.notes@.skip(i as int).drop_first() =~= self.notes@.skip(i + 1));
            }
            let ms: u32 = whole * (n as u32) / (d as u32);
            acc = acc + ms;
            i = i + 1;
        }
        proof {
            assert(self.notes@.skip(self.notes@.len() as int) =~= Seq::<(u16, u8, u8, u8)>::empty());
        }
        acc
    }
}

fn clone_notes(v: &Vec<(u16, u8, u8, u8)>) -> (r: Vec<(u16, u8, u8, u8)>)
    ensures
        r@ == v@,
{
    let mut r: Vec<(u16, u8, u8, u8)> = Vec::new();
    let mut i: usize = 0;
    while i < v.len()
        invariant
            i <= v.len(),
            r@ == v@.take(i as int),
        decreases v.len() - i,
    {
        r.push(v[i]);
        proof {
            assert(v@.take(i + 1) =~= v@.take(i as int).push(v@[i as int]));
        }
        i = i + 1;
    }
    proof {
        assert(v@.take(v@.len() as int) =~= v@);
    }
    r
}

/// The lazy event sequence of a score: yields each note's audible event
/// and then, when one is pending, its implicit rest.
#[derive(Debug)]
pub struct Events {
    whole_ms: u32,
    notes: Vec<(u16, u8, u8, u8)>,
    idx: usize,
    rest: Option<u32>,
}

impl Events {
    pub closed spec fn wf(&self) -> bool {
        &&& self.whole_ms <= 60000
        &&& self.idx <= self.notes@.len()
        &&& notes_wf(self.notes@.skip(self.idx as int))
    }

    /// The events not yet yielded: a pending rest first, then everything
    /// the remaining notes give rise to.
    pub closed spec fn remaining(&self) -> Seq<Event> {
        let tail = events_of_notes(self.whole_ms as int, self.notes@.skip(self.idx as int));
        match self.rest {
            Some(ms) => seq![Event::Rest { ms }] + tail,
            None => tail,
        }
    }

    /// Yield the next event, if any: the pending implicit rest, or the next
    /// note's audible event (queueing its rest when one is left over).
    pub fn next(&mut self) -> (r: Option<Event>)
        requires
            old(self).wf(),
        ensures
            final(self).wf(),
            old(self).remaining().len() == 0 ==> r is None && *final(self) == *old(self),
            old(self).remaining().len() > 0 ==> r == Some(old(self).remaining()[0])
                && final(self).remaining() == old(self).remaining().drop_first(),
    {
        match self.rest {
            Some(ms) => {
                self.rest = None;
                proof {
                    assert(old(self).remaining().drop_first() =~= self.remaining());
                }
                Some(Event::Rest { ms })
            },
            None => {
                if self.idx >= self.notes.len() {
                    proof {
                        assert(self.notes@.skip(self.idx as int) =~= Seq::<(
                            u16,
                            u8,
                            u8,
                            u8,
                        )>::empty());
                    }
                    None
                } else {
                    let ghost pre = *self;
                    let (pitch, n, d, pct) = self.notes[self.idx];
                    proof {
                        assert(self.notes@.skip(self.idx as int)[0] == self.notes@[self.idx as int]);
                        assert(note_wf(self.notes@[self.idx as int]));
                        lemma_note_ms_bounds(self.whole_ms as int, self.notes@[self.idx as int]);
                        lemma_mul_upper_bound(self.whole_ms as int, 60000, n as int, 255);
                        lemma_mul_nonneg_pair(self.whole_ms as int, n as int);
                        assert(self.notes@.skip(self.idx as int).drop_first() =~= self.notes@.skip(
                            self.idx + 1,
                        ));
                    }
                    self.idx = self.idx + 1;
                    let ms: u32 = self.whole_ms * (n as u32) / (d as u32);
                    let note_ms: u32 = ms * (pct as u32) / 100;
                    let rest_ms: u32 = ms - note_ms;
                    if rest_ms > 0 {
                        self.rest = Some(rest_ms);
                    }
                    proof {
                        assert(self.remaining() =~= pre.remaining().drop_first());
                    }
                    Some(Event::Note { pitch, ms: note_ms })
                }
            },
        }
    }

    /// Wrap this event sequence into its millisecond-granular expansion.
    pub fn ms_events(self) -> (r: MsEvents)
        requires
            self.wf(),
        ensures
            r.wf(),
            r.remaining() == ms_expand(self.remaining()),
    {
        let r = MsEvents { events: self, wait_ms: 0 };
        proof {
            assert(r.remaining() =~= ms_expand(r.spec_events().remaining()));
        }
        r
    }
}

/// The millisecond-granular marker an event opens with.
pub open spec fn marker_of(e: Event) -> MsEvent {
    match e {
        Event::Note { pitch, .. } => MsEvent::BeginNote { pitch },
        Event::Rest { .. } => MsEvent::EndNote,
    }
}

/// Each event expands into its marker followed by one `Wait` per
/// millisecond of its duration.
pub open spec fn ms_expand(evs: Seq<Event>) -> Seq<MsEvent>
    decreases evs.len(),
{
    if evs.len() == 0 {
        Seq::empty()
    } else {
        seq![marker_of(evs[0])] + Seq::new(evs[0].spec_ms() as nat, |i: int| MsEvent::Wait)
            + ms_expand(evs.drop_first())
    }
}

/// A musical event at millisecond granularity.
#[derive(Clone, Copy, Debug, PartialEq, Eq, Structural)]
pub enum MsEvent {
    BeginNote { pitch: u16 },
    EndNote,
    Wait,
}

/// The lazy millisecond-granular expansion of an event sequence.
#[derive(Debug)]
pub struct MsEvents {
    events: Events,
    wait_ms: u32,
}

impl MsEvents {
    pub closed spec fn spec_events(&self) -> Events {
        self.events
    }

    pub closed spec fn wf(&self) -> bool {
        self.events.wf()
    }

    /// The millisecond-granular events not yet yielded.
    pub closed spec fn remaining(&self) -> Seq<MsEvent> {
        Seq::new(self.wait_ms as nat, |i: int| MsEvent::Wait) + ms_expand(self.events.remaining())
    }

    /// Yield the next millisecond-granular event: a pending `Wait`, or the
    /// marker of the next event, whose duration is then waited out.
    pub fn next(&mut self) -> (r: Option<MsEvent>)
        requires
            old(self).wf(),
        ensures
            final(self).wf(),
            old(self).remaining().len() == 0 ==> r is None && *final(self) == *old(self),
            old(self).remaining().len() > 0 ==> r == Some(old(self).remaining()[0])
                && final(self).remaining() == old(self).remaining().drop_first(),
    {
        if self.wait_ms > 0 {
            self.wait_ms = self.wait_ms - 1;
            proof {
                assert(old(self).remaining()[0] == MsEvent::Wait);
                assert(self.remaining() =~= old(self).remaining().drop_first());
            }
            return Some(MsEvent::Wait);
        }
        let ghost pre = *self;
        let next_event = self.events.next();
        match next_event {
            None => {
                proof {
                    assert(*self == *old(self));
                }
                None
            },
            Some(e) => {
                proof {
                    assert(pre.events.remaining().len() > 0);
                    assert(e == pre.events.remaining()[0]);
                }
                match e {
                    Event::Note { pitch, ms } => {
                        self.wait_ms = ms;
                        proof {
                            assert(self.remaining() =~= pre.remaining().drop_first());
                        }
                        Some(MsEvent::BeginNote { pitch })
                    },
                    Event::Rest { ms } => {
                        self.wait_ms = ms;
                        proof {
                            assert(self.remaining() =~= pre.remaining().drop_first());
                        }
                        Some(MsEvent::EndNote)
                    },
                }
            },
        }
    }
}

/// Appending a well-formed note keeps a note list well formed.
proof fn lemma_notes_wf_push(notes: Seq<(u16, u8, u8, u8)>, n: (u16, u8, u8, u8))
    requires
        notes_wf(notes),
        note_wf(n),
    ensures
        notes_wf(notes.push(n)),
    decreases notes.len(),
{
    assert(notes_wf(Seq::<(u16, u8, u8, u8)>::empty()));
    assert(notes_wf(notes.push(n)) == (note_wf(notes.push(n)[0]) && notes_wf(
        notes.push(n).drop_first(),
    )));
    if notes.len() == 0 {
        assert(notes.push(n)[0] == n);
        assert(notes.push(n).drop_first() =~= Seq::<(u16, u8, u8, u8)>::empty());
    } else {
        assert(notes.push(n)[0] == notes[0]);
        assert(notes.push(n).drop_first() =~= notes.drop_first().push(n));
        lemma_notes_wf_push(notes.drop_first(), n);
    }
}

fn push_note(v: &mut Vec<(u16, u8, u8, u8)>, pitch: u16, n: u8, d: u8, pct: u8)
    requires
        notes_wf(old(v)@),
        d >= 1,
        pct <= 100,
    ensures
        final(v)@ == old(v)@.push((pitch, n, d, pct)),
        notes_wf(final(v)@),
{
    proof {
        lemma_notes_wf_push(v@, (pitch, n, d, pct));
    }
    v.push((pitch, n, d, pct));
}

/// The Frère Jacques theme: 32 notes at tempo 140/4, each sounding for 90
/// percent of its written duration.
pub fn frere_jacques() -> (s: Score)
    ensures
        s.wf(),
        s.tempo == 35,
        s.notes@.len() == 32,
{
    let mut notes: Vec<(u16, u8, u8, u8)> = Vec::new();
    push_note(&mut notes, C5, 1, 4, 90);
    push_note(&mut notes, D5, 1, 4, 90);
    push_note(&mut notes, E5, 1, 4, 90);
    push_note(&mut notes, C5, 1, 4, 90);
    push_note(&mut notes, C5, 1, 4, 90);
    push_note(&mut notes, D5, 1, 4, 90);
    push_note(&mut notes, E5, 1, 4, 90);
    push_note(&mut notes, C5, 1, 4, 90);
    push_note(&mut notes, E5, 1, 4, 90);
    push_note(&mut notes, F5, 1, 4, 90);
    push_note(&mut notes, G5, 1, 2, 90);
    push_note(&mut notes, E5, 1, 4, 90);
    push_note(&mut notes, F5, 1, 4, 90);
    push_note(&mut notes, G5, 1, 2, 90);
    push_note(&mut notes, G5, 3, 16, 90);
    push_note(&mut notes, A5, 1, 16, 90);
    push_note(&mut notes, G5, 1, 8, 90);
    push_note(&mut notes, F5, 1, 8, 90);
    push_note(&mut notes, E5, 1, 4, 90);
    push_note(&mut notes, C5, 1, 4, 90);
    push_note(&mut notes, G5, 3, 16, 90);
    push_note(&mut notes, A5, 1, 16, 90);
    push_note(&mut notes, G5, 1, 8, 90);
    push_note(&mut notes, F5, 1, 8, 90);
    push_note(&mut notes, E5, 1, 4, 90);
    push_note(&mut notes, C5, 1, 4, 90);
    push_note(&mut notes, C5, 1, 4, 90);
    push_note(&mut notes, G4, 1, 4, 90);
    push_note(&mut notes, C5, 1, 2, 90);
    push_note(&mut notes, C5, 1, 4, 90);
    push_note(&mut notes, G4, 1, 4, 90);
    push_note(&mut notes, C5, 1, 2, 90);
    Score { tempo: 35, notes }
}

/// The opening of a well-known platformer theme: 7 notes at tempo 185/4,
/// played staccato.
pub fn mario_theme_intro() -> (s: Score)
    ensures
        s.wf(),
        s.tempo == 46,
        s.notes@.len() == 7,
{
    let mut notes: Vec<(u16, u8, u8, u8)> = Vec::new();
    push_note(&mut notes, E5, 1, 8, 50);
    push_note(&mut notes, E5, 1, 4, 25);
    push_note(&mut notes, E5, 1, 4, 25);
    push_note(&mut notes, C5, 1, 8, 50);
    push_note(&mut notes, E5, 1, 4, 25);
    push_note(&mut notes, G5, 1, 2, 25);
    push_note(&mut notes, G4, 1, 2, 25);
    Score { tempo: 46, notes }
}

/// The five-tone motif of a close encounter, answered an octave below and
/// closed by a silent bar: 6 notes at tempo 120/4.
pub fn third_kind() -> (s: Score)
    ensures
        s.wf(),
        s.tempo == 30,
        s.notes@.len() == 6,
{
    let mut notes: Vec<(u16, u8, u8, u8)> = Vec::new();
    push_note(&mut notes, BF5, 1, 4, 100);
    push_note(&mut notes, C6, 1, 4, 100);
    push_note(&mut notes, AF5, 1, 4, 100);
    push_note(&mut notes, AF4, 1, 4, 100);
    push_note(&mut notes, EF5, 1, 2, 100);
    push_note(&mut notes, BF5, 1, 2, 0);
    Score { tempo: 30, notes }
}

} // verus!

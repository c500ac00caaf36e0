//! Score scheduling: lazy events, millisecond expansion, and the
//! sample-exact player.

use softsynth::oscillator::Oscillator;
use softsynth::songs::{frere_jacques, mario_theme_intro, third_kind, Event, MsEvent, Score};
use softsynth::{into_player, Sound, RATE};

#[test]
fn events_split_note_and_rest() {
    let score = Score { tempo: 60, notes: vec![(440, 1, 4, 50)] };
    // whole note = 1000 ms, this note = 250 ms, half of it audible.
    let mut events = score.events();
    assert_eq!(events.next(), Some(Event::Note { pitch: 440, ms: 125 }));
    assert_eq!(events.next(), Some(Event::Rest { ms: 125 }));
    assert_eq!(events.next(), None);
}

#[test]
fn events_fully_audible_note_has_no_rest() {
    let score = Score { tempo: 60, notes: vec![(440, 1, 4, 100)] };
    let mut events = score.events();
    assert_eq!(events.next(), Some(Event::Note { pitch: 440, ms: 250 }));
    assert_eq!(events.next(), None);
}

#[test]
fn event_accessors() {
    let n = Event::Note { pitch: 440, ms: 125 };
    let r = Event::Rest { ms: 42 };
    assert_eq!(n.ms_duration(), 125);
    assert_eq!(r.ms_duration(), 42);
    assert!(matches!(n.to_action(), softsynth::Action::Start(440)));
    assert!(matches!(r.to_action(), softsynth::Action::Stop));
}

#[test]
fn score_duration_equals_event_sum() {
    let score = frere_jacques();
    let mut events = score.events();
    let mut sum: u32 = 0;
    while let Some(e) = events.next() {
        sum += e.ms_duration();
    }
    assert_eq!(sum, score.ms_duration());
}

#[test]
fn frere_jacques_duration_exact() {
    // whole note = 60000 / 35 = 1714 ms; 20 quarters, 4 halves, 2 dotted
    // eighths, 2 sixteenths and 4 eighths.
    let score = frere_jacques();
    assert_eq!(score.ms_duration(), 20 * 428 + 4 * 857 + 2 * 321 + 2 * 107 + 4 * 214);
    assert_eq!(score.ms_duration(), 13700);
}

#[test]
fn bundled_scores_are_consistent() {
    // Every bundled score satisfies the duration law: the events it yields
    // sum to its reported total duration.
    for score in [frere_jacques(), mario_theme_intro(), third_kind()] {
        let mut events = score.events();
        let mut sum: u32 = 0;
        while let Some(e) = events.next() {
            sum += e.ms_duration();
        }
        assert_eq!(sum, score.ms_duration());
    }
    // tempo 46: whole note 1304 ms; tempo 30: whole note 2000 ms.
    assert_eq!(mario_theme_intro().ms_duration(), 2 * 163 + 3 * 326 + 2 * 652);
    assert_eq!(third_kind().ms_duration(), 4 * 500 + 2 * 1000);
}

#[test]
fn fully_silent_note_stops_immediately() {
    // The closing note of the five-tone motif is written with an audible
    // share of zero: it contributes a zero-length note and a full rest.
    let score = third_kind();
    let mut events = score.events();
    let mut last_two: Vec<Event> = Vec::new();
    while let Some(e) = events.next() {
        last_two.push(e);
        if last_two.len() > 2 {
            last_two.remove(0);
        }
    }
    assert_eq!(last_two[0], Event::Note { pitch: 932, ms: 0 });
    assert_eq!(last_two[1], Event::Rest { ms: 1000 });
}

#[test]
fn empty_score_has_no_events() {
    let score = Score { tempo: 1, notes: vec![] };
    assert_eq!(score.ms_duration(), 0);
    let mut events = score.events();
    assert_eq!(events.next(), None);
}

#[test]
fn ms_events_expand_durations() {
    let score = Score { tempo: 60, notes: vec![(440, 1, 4, 50)] };
    let mut ms_events = score.ms_events();
    assert_eq!(ms_events.next(), Some(MsEvent::BeginNote { pitch: 440 }));
    for _ in 0..125 {
        assert_eq!(ms_events.next(), Some(MsEvent::Wait));
    }
    assert_eq!(ms_events.next(), Some(MsEvent::EndNote));
    for _ in 0..125 {
        assert_eq!(ms_events.next(), Some(MsEvent::Wait));
    }
    assert_eq!(ms_events.next(), None);
}

#[test]
fn player_yields_exact_sample_count() {
    let score = frere_jacques();
    let expected = score.ms_duration() as usize * (RATE as usize / 1000);
    let mut player = into_player(Oscillator::default(), &score);
    assert_eq!(player.len(), expected);
    let mut produced: usize = 0;
    while let Some(_) = player.next() {
        produced += 1;
    }
    assert_eq!(produced, expected);
    assert_eq!(player.len(), 0);
    assert_eq!(player.next(), None);
}

#[test]
fn player_len_decrements_by_one() {
    let score = Score { tempo: 60, notes: vec![(440, 1, 4, 50)] };
    let mut player = into_player(Oscillator::default(), &score);
    let mut remaining = player.len();
    assert_eq!(remaining, 250 * 48);
    while let Some(_) = player.next() {
        assert_eq!(player.len(), remaining - 1);
        remaining = player.len();
    }
    assert_eq!(remaining, 0);
}

#[test]
fn player_applies_note_then_rest() {
    let score = Score { tempo: 60, notes: vec![(440, 1, 4, 50)] };
    let mut osc = Oscillator::default();
    osc.set_vol(1000);
    let mut player = into_player(osc, &score);
    let mut samples: Vec<i16> = Vec::new();
    while let Some(s) = player.next() {
        samples.push(s);
    }
    // The note plays for the first 125 ms, the rest silences the remainder.
    assert_eq!(samples.len(), 250 * 48);
    assert_eq!(samples[0], 1000);
    assert!(samples[..125 * 48].iter().any(|&s| s != 0));
    assert!(samples[125 * 48..].iter().all(|&s| s == 0));
}

#[test]
fn player_stacks_zero_duration_events() {
    // An audible share of 0% yields a zero-length note, then its rest; both
    // apply within the same millisecond, so the rest wins immediately.
    let score = Score { tempo: 60, notes: vec![(440, 1, 4, 0)] };
    let mut osc = Oscillator::default();
    osc.set_vol(1000);
    let mut player = into_player(osc, &score);
    let mut count: usize = 0;
    while let Some(s) = player.next() {
        assert_eq!(s, 0);
        count += 1;
    }
    assert_eq!(count, 250 * 48);
}

#[test]
fn player_into_sound_returns_unit() {
    let score = Score { tempo: 60, notes: vec![(440, 1, 4, 100)] };
    let mut osc = Oscillator::default();
    osc.set_vol(777);
    let mut player = into_player(osc, &score);
    player.next();
    let back = player.into_sound();
    assert_eq!(back.vol(), 777);
}

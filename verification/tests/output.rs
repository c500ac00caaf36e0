//! Output assembly: the saturating mixer, the multichannel renderer and
//! the WAV container.

use softsynth::mixdown::{make, TimedAction};
use softsynth::oscillator::Oscillator;
use softsynth::songs::frere_jacques;
use softsynth::wav::wav_bytes;
use softsynth::{into_player, mix, Action, RATE};

#[test]
fn mix_ten_and_fifteen_samples() {
    let a: Vec<i16> = (0..10).map(|i| (i * 1000) as i16).collect();
    let b: Vec<i16> = (0..15).map(|i| (i * 100) as i16).collect();
    let mut m = mix(a.clone(), b.clone());
    let mut out: Vec<i16> = Vec::new();
    while let Some(s) = m.next() {
        out.push(s);
    }
    assert_eq!(out.len(), 15);
    for i in 0..10 {
        assert_eq!(out[i], a[i].saturating_add(b[i]));
    }
    for i in 10..15 {
        assert_eq!(out[i], b[i]);
    }
    assert_eq!(m.next(), None);
}

#[test]
fn mix_saturates_both_ways() {
    let a: Vec<i16> = vec![30000, -30000, 0];
    let b: Vec<i16> = vec![10000, -10000, 5];
    let mut m = mix(a, b);
    assert_eq!(m.next(), Some(32767));
    assert_eq!(m.next(), Some(-32768));
    assert_eq!(m.next(), Some(5));
    assert_eq!(m.next(), None);
}

#[test]
fn mix_empty_passes_through() {
    let mut m = mix(Vec::new(), vec![7, -7]);
    assert_eq!(m.next(), Some(7));
    assert_eq!(m.next(), Some(-7));
    assert_eq!(m.next(), None);
}

#[test]
fn make_renders_duration_and_applies_actions() {
    let song = vec![
        TimedAction { ms: 0, chan: 0, action: Action::Vol(1000) },
        TimedAction { ms: 0, chan: 0, action: Action::Start(440) },
        TimedAction { ms: 100, chan: 0, action: Action::Stop },
    ];
    let out = make(&song);
    assert_eq!(out.len(), 100 * 48);
    assert_eq!(out[0], 1000);
    assert!(out.iter().all(|&s| s == 1000 || s == -1000));
}

#[test]
fn make_mixes_four_channels() {
    let song = vec![
        TimedAction { ms: 0, chan: 0, action: Action::Vol(100) },
        TimedAction { ms: 0, chan: 1, action: Action::Vol(33) },
        TimedAction { ms: 0, chan: 2, action: Action::Vol(20) },
        TimedAction { ms: 0, chan: 3, action: Action::Vol(14) },
        TimedAction { ms: 0, chan: 0, action: Action::Start(440) },
        TimedAction { ms: 0, chan: 1, action: Action::Start(1320) },
        TimedAction { ms: 1, chan: 0, action: Action::Stop },
    ];
    let out = make(&song);
    assert_eq!(out.len(), 48);
    // Both started channels begin in the high half of their squares.
    assert_eq!(out[0], 133);
}

#[test]
fn make_empty_song_is_empty() {
    let out = make(&Vec::new());
    assert_eq!(out.len(), 0);
}

#[test]
fn wav_header_fields_exact() {
    let samples: Vec<i16> = vec![0x1234, -1, 0];
    let bytes = wav_bytes(&samples, RATE);
    assert_eq!(bytes.len(), 44 + 6);
    assert_eq!(&bytes[0..4], b"RIFF");
    assert_eq!(&bytes[4..8], &(36u32 + 6).to_le_bytes());
    assert_eq!(&bytes[8..12], b"WAVE");
    assert_eq!(&bytes[12..16], b"fmt ");
    assert_eq!(&bytes[16..20], &16u32.to_le_bytes());
    assert_eq!(&bytes[20..22], &1u16.to_le_bytes());
    assert_eq!(&bytes[22..24], &1u16.to_le_bytes());
    assert_eq!(&bytes[24..28], &RATE.to_le_bytes());
    assert_eq!(&bytes[28..32], &(RATE * 2).to_le_bytes());
    assert_eq!(&bytes[32..34], &2u16.to_le_bytes());
    assert_eq!(&bytes[34..36], &16u16.to_le_bytes());
    assert_eq!(&bytes[36..40], b"data");
    assert_eq!(&bytes[40..44], &6u32.to_le_bytes());
    assert_eq!(&bytes[44..46], &[0x34, 0x12]);
    assert_eq!(&bytes[46..48], &[0xFF, 0xFF]);
    assert_eq!(&bytes[48..50], &[0x00, 0x00]);
}

#[test]
fn wav_of_rendered_score_end_to_end() {
    // A known 32-note score at tempo 35 (140/4): every sample of the
    // player lands in the data chunk, two bytes each, and the RIFF size
    // field holds 36 + data_bytes.
    let score = frere_jacques();
    let mut player = into_player(Oscillator::default(), &score);
    let mut samples: Vec<i16> = Vec::new();
    while let Some(s) = player.next() {
        samples.push(s);
    }
    assert_eq!(samples.len(), 13700 * 48);
    let bytes = wav_bytes(&samples, RATE);
    let data_bytes = 2 * samples.len() as u32;
    assert_eq!(bytes.len(), 44 + data_bytes as usize);
    assert_eq!(&bytes[4..8], &(36 + data_bytes).to_le_bytes());
    assert_eq!(&bytes[40..44], &data_bytes.to_le_bytes());
}

#[test]
fn mix_layers_players() {
    // Two players over the same score, one delayed: saturating layering of
    // real rendered streams.
    let score = frere_jacques();
    let mut p1 = into_player(Oscillator::default(), &score);
    let mut v1: Vec<i16> = Vec::new();
    while let Some(s) = p1.next() {
        v1.push(s);
    }
    let mut v2: Vec<i16> = vec![0; 4800];
    v2.extend_from_slice(&v1);
    let n1 = v1.len();
    let mut m = mix(v1, v2);
    let mut total: usize = 0;
    while let Some(_) = m.next() {
        total += 1;
    }
    assert_eq!(total, n1 + 4800);
}

//! Equal-temperament pitch frequencies in Hz, rounded to the nearest
//! integer, for the octaves the bundled scores use.

use vstd::prelude::*;

verus! {

pub const C4: u16 = 262;

pub const D4: u16 = 294;

pub const E4: u16 = 330;

pub const F4: u16 = 349;

pub const G4: u16 = 392;

pub const AF4: u16 = 415;

pub const A4: u16 = 440;

pub const B4: u16 = 494;

pub const C5: u16 = 523;

pub const D5: u16 = 587;

pub const EF5: u16 = 622;

pub const E5: u16 = 659;

pub const F5: u16 = 698;

pub const G5: u16 = 784;

pub const AF5: u16 = 831;

pub const A5: u16 = 880;

pub const BF5: u16 = 932;

pub const B5: u16 = 988;

pub const C6: u16 = 1047;

pub const D6: u16 = 1175;

pub const E6: u16 = 1319;

} // verus!

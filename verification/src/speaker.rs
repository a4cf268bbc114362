//! The PC speaker: tones from PIT channel 2, and a toy text-to-beeps voice.
//!
//! Port writes are the caller's; this module computes the values.
use vstd::prelude::*;
use crate::text::{chars_of, spec_lowercase, to_lowercase};

verus! {

/// The PIT's input clock in Hz.
pub const PIT_HZ: u32 = 1193180;

/// The PIT channel 2 divider for a tone of `frequency` Hz, low byte then high byte, as
/// written to port 0x42 after mode 0xB6 on port 0x43.
pub fn tone_divider(frequency: u32) -> (res: (u8, u8))
    requires
        frequency > 0,
    ensures
        res.0 == (PIT_HZ / frequency) % 256,
        res.1 == (PIT_HZ / frequency) / 256 % 256,
{
    let divider = PIT_HZ / frequency;
    ((divider % 256) as u8, (divider / 256 % 256) as u8)
}

/// The value to write to port 0x61 to connect the speaker, given what it reads; none
/// when both gate bits are already set.
pub fn speaker_on(port61: u8) -> (res: Option<u8>)
    ensures
        res == if port61 != port61 | 3 { Some(port61 | 3) } else { None::<u8> },
{
    if port61 != port61 | 3 { Some(port61 | 3) } else { None }
}

/// The value to write to port 0x61 to silence the speaker, given what it reads.
pub fn speaker_off(port61: u8) -> (res: u8)
    ensures
        res == port61 & 0xFC,
{
    port61 & 0xFC
}

/// The PC speaker.
pub struct PcSpeaker;

impl PcSpeaker {
    /// A tone: the divider bytes to program, or none for frequency 0, which silences
    /// the speaker instead.
    pub fn play_tone(frequency: u32) -> (res: Option<(u8, u8)>)
        ensures
            frequency == 0 ==> res is None,
            frequency > 0 ==> res == Some((((PIT_HZ / frequency) % 256) as u8, ((PIT_HZ / frequency) / 256 % 256) as u8)),
    {
        if frequency == 0 {
            return None;
        }
        Some(tone_divider(frequency))
    }

    /// The beep: a 1 kHz tone.
    pub fn beep() -> (res: (u8, u8))
        ensures
            res == (((PIT_HZ / 1000) % 256) as u8, ((PIT_HZ / 1000) / 256 % 256) as u8),
    {
        tone_divider(1000)
    }
}

/// One step of the voice: a short tone, or a pause for a space.
#[derive(Debug, Clone, Copy, PartialEq, Eq, Structural)]
pub enum Phoneme {
    Tone(u32),
    Pause,
}

/// The step for one lower-case character; none for characters the voice skips.
pub open spec fn spec_phoneme(c: char) -> Option<Phoneme> {
    if c == 'a' || c == 'e' || c == 'i' || c == 'o' || c == 'u' {
        Some(Phoneme::Tone(440))
    } else if c == 'b' || c == 'c' || c == 'd' || c == 'f' || c == 'g' {
        Some(Phoneme::Tone(330))
    } else if c == 'h' || c == 'j' || c == 'k' || c == 'l' || c == 'm' {
        Some(Phoneme::Tone(550))
    } else if c == 'n' || c == 'p' || c == 'q' || c == 'r' || c == 's' {
        Some(Phoneme::Tone(220))
    } else if c == 't' || c == 'v' || c == 'w' || c == 'x' || c == 'y' || c == 'z' {
        Some(Phoneme::Tone(660))
    } else if c == ' ' {
        Some(Phoneme::Pause)
    } else {
        None
    }
}

pub fn phoneme(c: char) -> (res: Option<Phoneme>)
    ensures
        res == spec_phoneme(c),
{
    if c == 'a' || c == 'e' || c == 'i' || c == 'o' || c == 'u' {
        Some(Phoneme::Tone(440))
    } else if c == 'b' || c == 'c' || c == 'd' || c == 'f' || c == 'g' {
        Some(Phoneme::Tone(330))
    } else if c == 'h' || c == 'j' || c == 'k' || c == 'l' || c == 'm' {
        Some(Phoneme::Tone(550))
    } else if c == 'n' || c == 'p' || c == 'q' || c == 'r' || c == 's' {
        Some(Phoneme::Tone(220))
    } else if c == 't' || c == 'v' || c == 'w' || c == 'x' || c == 'y' || c == 'z' {
        Some(Phoneme::Tone(660))
    } else if c == ' ' {
        Some(Phoneme::Pause)
    } else {
        None
    }
}

/// The steps for a text, in order, skipping characters without one.
pub open spec fn spec_phonemes(cs: Seq<char>) -> Seq<Phoneme>
    decreases cs.len(),
{
    if cs.len() == 0 {
        Seq::empty()
    } else {
        let rest = spec_phonemes(cs.drop_last());
        match spec_phoneme(cs.last()) {
            Some(p) => rest.push(p),
            None => rest,
        }
    }
}

/// What the voice plays for `text`: the text is lower-cased first.
pub fn speak(text: &str) -> (res: Vec<Phoneme>)
    ensures
        res@ == spec_phonemes(spec_lowercase(text@)),
{
    let lower = to_lowercase(text);
    let cs = chars_of(lower.as_str());
    let mut out: Vec<Phoneme> = Vec::new();
    let mut i: usize = 0;
    while i < cs.len()
        invariant
            cs@ == spec_lowercase(text@),
            i <= cs@.len(),
            out@ == spec_phonemes(cs@.subrange(0, i as int)),
        decreases cs@.len() - i,
    {
        let ghost pre = cs@.subrange(0, i as int);
        assert(cs@.subrange(0, i as int + 1).drop_last() =~= pre);
        match phoneme(cs[i]) {
            Some(p) => out.push(p),
            None => {},
        }
        i = i + 1;
    }
    assert(cs@.subrange(0, cs@.len() as int) =~= cs@);
    out
}

} // verus!

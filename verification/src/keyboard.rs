//! PS/2 scan-code set 1 decoding for the US and Spanish layouts, with the state of the
//! modifier keys.
use vstd::prelude::*;
use crate::config::KbdLayout;

verus! {

/// Keys that do not produce a character.
#[derive(Debug, Clone, Copy, PartialEq, Eq, Structural)]
pub enum SpecialKey {
    Escape,
    Backspace,
    Tab,
    Enter,
    ArrowUp,
    ArrowDown,
    ArrowLeft,
    ArrowRight,
    Home,
    End,
    PageUp,
    PageDown,
    Insert,
    Delete,
    F1,
    F2,
    F3,
    F4,
    F5,
    F6,
    F7,
    F8,
    F9,
    F10,
    F11,
    F12,
    CtrlC,
    CtrlS,
    CtrlX,
}

/// What a key press produces.
#[derive(Debug, Clone, Copy, PartialEq, Eq, Structural)]
pub enum KeyEvent {
    Char(char),
    Special(SpecialKey),
}

/// The decoder's memory: a pending `0xE0` prefix and the modifier keys.
#[derive(Debug, Clone, Copy, PartialEq, Eq, Structural)]
pub struct KeyboardState {
    pub extended: bool,
    pub shift: bool,
    pub caps_lock: bool,
    pub ctrl: bool,
    pub alt: bool,
}

/// No prefix pending and no modifier active.
pub fn init() -> (res: KeyboardState)
    ensures
        res == (KeyboardState { extended: false, shift: false, caps_lock: false, ctrl: false, alt: false }),
{
    KeyboardState { extended: false, shift: false, caps_lock: false, ctrl: false, alt: false }
}

/// Keys of the `0xE0` extended set (released keys produce nothing).
pub open spec fn spec_decode_extended(code: u8, is_release: bool) -> Option<KeyEvent> {
    if is_release {
        None
    } else if code == 0x48 {
        Some(KeyEvent::Special(SpecialKey::ArrowUp))
    } else if code == 0x50 {
        Some(KeyEvent::Special(SpecialKey::ArrowDown))
    } else if code == 0x4B {
        Some(KeyEvent::Special(SpecialKey::ArrowLeft))
    } else if code == 0x4D {
        Some(KeyEvent::Special(SpecialKey::ArrowRight))
    } else if code == 0x47 {
        Some(KeyEvent::Special(SpecialKey::Home))
    } else if code == 0x4F {
        Some(KeyEvent::Special(SpecialKey::End))
    } else if code == 0x49 {
        Some(KeyEvent::Special(SpecialKey::PageUp))
    } else if code == 0x51 {
        Some(KeyEvent::Special(SpecialKey::PageDown))
    } else if code == 0x52 {
        Some(KeyEvent::Special(SpecialKey::Insert))
    } else if code == 0x53 {
        Some(KeyEvent::Special(SpecialKey::Delete))
    } else {
        None
    }
}

fn decode_extended(code: u8, is_release: bool) -> (res: Option<KeyEvent>)
    ensures
        res == spec_decode_extended(code, is_release),
{
    if is_release {
        return None;
    }
    match code {
        0x48 => Some(KeyEvent::Special(SpecialKey::ArrowUp)),
        0x50 => Some(KeyEvent::Special(SpecialKey::ArrowDown)),
        0x4B => Some(KeyEvent::Special(SpecialKey::ArrowLeft)),
        0x4D => Some(KeyEvent::Special(SpecialKey::ArrowRight)),
        0x47 => Some(KeyEvent::Special(SpecialKey::Home)),
        0x4F => Some(KeyEvent::Special(SpecialKey::End)),
        0x49 => Some(KeyEvent::Special(SpecialKey::PageUp)),
        0x51 => Some(KeyEvent::Special(SpecialKey::PageDown)),
        0x52 => Some(KeyEvent::Special(SpecialKey::Insert)),
        0x53 => Some(KeyEvent::Special(SpecialKey::Delete)),
        _ => None,
    }
}

/// The US layout: the key event of a pressed key, given the state of Shift
/// and of Shift combined with Caps Lock.
pub open spec fn spec_decode_us(code: u8, shift: bool, upper: bool) -> Option<KeyEvent> {
    if code == 0x01 {
        Some(KeyEvent::Special(SpecialKey::Escape))
    } else if code == 0x0E {
        Some(KeyEvent::Special(SpecialKey::Backspace))
    } else if code == 0x0F {
        Some(KeyEvent::Special(SpecialKey::Tab))
    } else if code == 0x1C {
        Some(KeyEvent::Special(SpecialKey::Enter))
    } else if code == 0x3B {
        Some(KeyEvent::Special(SpecialKey::F1))
    } else if code == 0x3C {
        Some(KeyEvent::Special(SpecialKey::F2))
    } else if code == 0x3D {
        Some(KeyEvent::Special(SpecialKey::F3))
    } else if code == 0x3E {
        Some(KeyEvent::Special(SpecialKey::F4))
    } else if code == 0x3F {
        Some(KeyEvent::Special(SpecialKey::F5))
    } else if code == 0x40 {
        Some(KeyEvent::Special(SpecialKey::F6))
    } else if code == 0x41 {
        Some(KeyEvent::Special(SpecialKey::F7))
    } else if code == 0x42 {
        Some(KeyEvent::Special(SpecialKey::F8))
    } else if code == 0x43 {
        Some(KeyEvent::Special(SpecialKey::F9))
    } else if code == 0x44 {
        Some(KeyEvent::Special(SpecialKey::F10))
    } else if code == 0x57 {
        Some(KeyEvent::Special(SpecialKey::F11))
    } else if code == 0x58 {
        Some(KeyEvent::Special(SpecialKey::F12))
    } else if code == 0x02 {
        Some(KeyEvent::Char(if shift { '!' } else { '1' }))
    } else if code == 0x03 {
        Some(KeyEvent::Char(if shift { '@' } else { '2' }))
    } else if code == 0x04 {
        Some(KeyEvent::Char(if shift { '#' } else { '3' }))
    } else if code == 0x05 {
        Some(KeyEvent::Char(if shift { '$' } else { '4' }))
    } else if code == 0x06 {
        Some(KeyEvent::Char(if shift { '%' } else { '5' }))
    } else if code == 0x07 {
        Some(KeyEvent::Char(if shift { '^' } else { '6' }))
    } else if code == 0x08 {
        Some(KeyEvent::Char(if shift { '&' } else { '7' }))
    } else if code == 0x09 {
        Some(KeyEvent::Char(if shift { '*' } else { '8' }))
    } else if code == 0x0A {
        Some(KeyEvent::Char(if shift { '(' } else { '9' }))
    } else if code == 0x0B {
        Some(KeyEvent::Char(if shift { ')' } else { '0' }))
    } else if code == 0x0C {
        Some(KeyEvent::Char(if shift { '_' } else { '-' }))
    } else if code == 0x0D {
        Some(KeyEvent::Char(if shift { '+' } else { '=' }))
    } else if code == 0x10 {
        Some(KeyEvent::Char(if upper { 'Q' } else { 'q' }))
    } else if code == 0x11 {
        Some(KeyEvent::Char(if upper { 'W' } else { 'w' }))
    } else if code == 0x12 {
        Some(KeyEvent::Char(if upper { 'E' } else { 'e' }))
    } else if code == 0x13 {
        Some(KeyEvent::Char(if upper { 'R' } else { 'r' }))
    } else if code == 0x14 {
        Some(KeyEvent::Char(if upper { 'T' } else { 't' }))
    } else if code == 0x15 {
        Some(KeyEvent::Char(if upper { 'Y' } else { 'y' }))
    } else if code == 0x16 {
        Some(KeyEvent::Char(if upper { 'U' } else { 'u' }))
    } else if code == 0x17 {
        Some(KeyEvent::Char(if upper { 'I' } else { 'i' }))
    } else if code == 0x18 {
        Some(KeyEvent::Char(if upper { 'O' } else { 'o' }))
    } else if code == 0x19 {
        Some(KeyEvent::Char(if upper { 'P' } else { 'p' }))
    } else if code == 0x1E {
        Some(KeyEvent::Char(if upper { 'A' } else { 'a' }))
    } else if code == 0x1F {
        Some(KeyEvent::Char(if upper { 'S' } else { 's' }))
    } else if code == 0x20 {
        Some(KeyEvent::Char(if upper { 'D' } else { 'd' }))
    } else if code == 0x21 {
        Some(KeyEvent::Char(if upper { 'F' } else { 'f' }))
    } else if code == 0x22 {
        Some(KeyEvent::Char(if upper { 'G' } else { 'g' }))
    } else if code == 0x23 {
        Some(KeyEvent::Char(if upper { 'H' } else { 'h' }))
    } else if code == 0x24 {
        Some(KeyEvent::Char(if upper { 'J' } else { 'j' }))
    } else if code == 0x25 {
        Some(KeyEvent::Char(if upper { 'K' } else { 'k' }))
    } else if code == 0x26 {
        Some(KeyEvent::Char(if upper { 'L' } else { 'l' }))
    } else if code == 0x2C {
        Some(KeyEvent::Char(if upper { 'Z' } else { 'z' }))
    } else if code == 0x2D {
        Some(KeyEvent::Char(if upper { 'X' } else { 'x' }))
    } else if code == 0x2E {
        Some(KeyEvent::Char(if upper { 'C' } else { 'c' }))
    } else if code == 0x2F {
        Some(KeyEvent::Char(if upper { 'V' } else { 'v' }))
    } else if code == 0x30 {
        Some(KeyEvent::Char(if upper { 'B' } else { 'b' }))
    } else if code == 0x31 {
        Some(KeyEvent::Char(if upper { 'N' } else { 'n' }))
    } else if code == 0x32 {
        Some(KeyEvent::Char(if upper { 'M' } else { 'm' }))
    } else if code == 0x1A {
        Some(KeyEvent::Char(if shift { '{' } else { '[' }))
    } else if code == 0x1B {
        Some(KeyEvent::Char(if shift { '}' } else { ']' }))
    } else if code == 0x2B {
        Some(KeyEvent::Char(if shift { '|' } else { '\\' }))
    } else if code == 0x27 {
        Some(KeyEvent::Char(if shift { ':' } else { ';' }))
    } else if code == 0x28 {
        Some(KeyEvent::Char(if shift { '"' } else { '\'' }))
    } else if code == 0x29 {
        Some(KeyEvent::Char(if shift { '~' } else { '`' }))
    } else if code == 0x33 {
        Some(KeyEvent::Char(if shift { '<' } else { ',' }))
    } else if code == 0x34 {
        Some(KeyEvent::Char(if shift { '>' } else { '.' }))
    } else if code == 0x35 {
        Some(KeyEvent::Char(if shift { '?' } else { '/' }))
    } else if code == 0x39 {
        Some(KeyEvent::Char(' '))
    } else {
        None
    }
}

fn decode_us(code: u8, shift: bool, upper: bool) -> (res: Option<KeyEvent>)
    ensures
        res == spec_decode_us(code, shift, upper),
{
    if code == 0x01 {
        Some(KeyEvent::Special(SpecialKey::Escape))
    } else if code == 0x0E {
        Some(KeyEvent::Special(SpecialKey::Backspace))
    } else if code == 0x0F {
        Some(KeyEvent::Special(SpecialKey::Tab))
    } else if code == 0x1C {
        Some(KeyEvent::Special(SpecialKey::Enter))
    } else if code == 0x3B {
        Some(KeyEvent::Special(SpecialKey::F1))
    } else if code == 0x3C {
        Some(KeyEvent::Special(SpecialKey::F2))
    } else if code == 0x3D {
        Some(KeyEvent::Special(SpecialKey::F3))
    } else if code == 0x3E {
        Some(KeyEvent::Special(SpecialKey::F4))
    } else if code == 0x3F {
        Some(KeyEvent::Special(SpecialKey::F5))
    } else if code == 0x40 {
        Some(KeyEvent::Special(SpecialKey::F6))
    } else if code == 0x41 {
        Some(KeyEvent::Special(SpecialKey::F7))
    } else if code == 0x42 {
        Some(KeyEvent::Special(SpecialKey::F8))
    } else if code == 0x43 {
        Some(KeyEvent::Special(SpecialKey::F9))
    } else if code == 0x44 {
        Some(KeyEvent::Special(SpecialKey::F10))
    } else if code == 0x57 {
        Some(KeyEvent::Special(SpecialKey::F11))
    } else if code == 0x58 {
        Some(KeyEvent::Special(SpecialKey::F12))
    } else if code == 0x02 {
        Some(KeyEvent::Char(if shift { '!' } else { '1' }))
    } else if code == 0x03 {
        Some(KeyEvent::Char(if shift { '@' } else { '2' }))
    } else if code == 0x04 {
        Some(KeyEvent::Char(if shift { '#' } else { '3' }))
    } else if code == 0x05 {
        Some(KeyEvent::Char(if shift { '$' } else { '4' }))
    } else if code == 0x06 {
        Some(KeyEvent::Char(if shift { '%' } else { '5' }))
    } else if code == 0x07 {
        Some(KeyEvent::Char(if shift { '^' } else { '6' }))
    } else if code == 0x08 {
        Some(KeyEvent::Char(if shift { '&' } else { '7' }))
    } else if code == 0x09 {
        Some(KeyEvent::Char(if shift { '*' } else { '8' }))
    } else if code == 0x0A {
        Some(KeyEvent::Char(if shift { '(' } else { '9' }))
    } else if code == 0x0B {
        Some(KeyEvent::Char(if shift { ')' } else { '0' }))
    } else if code == 0x0C {
        Some(KeyEvent::Char(if shift { '_' } else { '-' }))
    } else if code == 0x0D {
        Some(KeyEvent::Char(if shift { '+' } else { '=' }))
    } else if code == 0x10 {
        Some(KeyEvent::Char(if upper { 'Q' } else { 'q' }))
    } else if code == 0x11 {
        Some(KeyEvent::Char(if upper { 'W' } else { 'w' }))
    } else if code == 0x12 {
        Some(KeyEvent::Char(if upper { 'E' } else { 'e' }))
    } else if code == 0x13 {
        Some(KeyEvent::Char(if upper { 'R' } else { 'r' }))
    } else if code == 0x14 {
        Some(KeyEvent::Char(if upper { 'T' } else { 't' }))
    } else if code == 0x15 {
        Some(KeyEvent::Char(if upper { 'Y' } else { 'y' }))
    } else if code == 0x16 {
        Some(KeyEvent::Char(if upper { 'U' } else { 'u' }))
    } else if code == 0x17 {
        Some(KeyEvent::Char(if upper { 'I' } else { 'i' }))
    } else if code == 0x18 {
        Some(KeyEvent::Char(if upper { 'O' } else { 'o' }))
    } else if code == 0x19 {
        Some(KeyEvent::Char(if upper { 'P' } else { 'p' }))
    } else if code == 0x1E {
        Some(KeyEvent::Char(if upper { 'A' } else { 'a' }))
    } else if code == 0x1F {
        Some(KeyEvent::Char(if upper { 'S' } else { 's' }))
    } else if code == 0x20 {
        Some(KeyEvent::Char(if upper { 'D' } else { 'd' }))
    } else if code == 0x21 {
        Some(KeyEvent::Char(if upper { 'F' } else { 'f' }))
    } else if code == 0x22 {
        Some(KeyEvent::Char(if upper { 'G' } else { 'g' }))
    } else if code == 0x23 {
        Some(KeyEvent::Char(if upper { 'H' } else { 'h' }))
    } else if code == 0x24 {
        Some(KeyEvent::Char(if upper { 'J' } else { 'j' }))
    } else if code == 0x25 {
        Some(KeyEvent::Char(if upper { 'K' } else { 'k' }))
    } else if code == 0x26 {
        Some(KeyEvent::Char(if upper { 'L' } else { 'l' }))
    } else if code == 0x2C {
        Some(KeyEvent::Char(if upper { 'Z' } else { 'z' }))
    } else if code == 0x2D {
        Some(KeyEvent::Char(if upper { 'X' } else { 'x' }))
    } else if code == 0x2E {
        Some(KeyEvent::Char(if upper { 'C' } else { 'c' }))
    } else if code == 0x2F {
        Some(KeyEvent::Char(if upper { 'V' } else { 'v' }))
    } else if code == 0x30 {
        Some(KeyEvent::Char(if upper { 'B' } else { 'b' }))
    } else if code == 0x31 {
        Some(KeyEvent::Char(if upper { 'N' } else { 'n' }))
    } else if code == 0x32 {
        Some(KeyEvent::Char(if upper { 'M' } else { 'm' }))
    } else if code == 0x1A {
        Some(KeyEvent::Char(if shift { '{' } else { '[' }))
    } else if code == 0x1B {
        Some(KeyEvent::Char(if shift { '}' } else { ']' }))
    } else if code == 0x2B {
        Some(KeyEvent::Char(if shift { '|' } else { '\\' }))
    } else if code == 0x27 {
        Some(KeyEvent::Char(if shift { ':' } else { ';' }))
    } else if code == 0x28 {
        Some(KeyEvent::Char(if shift { '"' } else { '\'' }))
    } else if code == 0x29 {
        Some(KeyEvent::Char(if shift { '~' } else { '`' }))
    } else if code == 0x33 {
        Some(KeyEvent::Char(if shift { '<' } else { ',' }))
    } else if code == 0x34 {
        Some(KeyEvent::Char(if shift { '>' } else { '.' }))
    } else if code == 0x35 {
        Some(KeyEvent::Char(if shift { '?' } else { '/' }))
    } else if code == 0x39 {
        Some(KeyEvent::Char(' '))
    } else {
        None
    }
}

/// The Spanish layout: the key event of a pressed key, given the state of Shift
/// and of Shift combined with Caps Lock.
pub open spec fn spec_decode_es(code: u8, shift: bool, upper: bool) -> Option<KeyEvent> {
    if code == 0x01 {
        Some(KeyEvent::Special(SpecialKey::Escape))
    } else if code == 0x0E {
        Some(KeyEvent::Special(SpecialKey::Backspace))
    } else if code == 0x0F {
        Some(KeyEvent::Special(SpecialKey::Tab))
    } else if code == 0x1C {
        Some(KeyEvent::Special(SpecialKey::Enter))
    } else if code == 0x02 {
        Some(KeyEvent::Char(if shift { '!' } else { '1' }))
    } else if code == 0x03 {
        Some(KeyEvent::Char(if shift { '"' } else { '2' }))
    } else if code == 0x04 {
        Some(KeyEvent::Char(if shift { '\u{B7}' } else { '3' }))
    } else if code == 0x05 {
        Some(KeyEvent::Char(if shift { '$' } else { '4' }))
    } else if code == 0x06 {
        Some(KeyEvent::Char(if shift { '%' } else { '5' }))
    } else if code == 0x07 {
        Some(KeyEvent::Char(if shift { '&' } else { '6' }))
    } else if code == 0x08 {
        Some(KeyEvent::Char(if shift { '/' } else { '7' }))
    } else if code == 0x09 {
        Some(KeyEvent::Char(if shift { '(' } else { '8' }))
    } else if code == 0x0A {
        Some(KeyEvent::Char(if shift { ')' } else { '9' }))
    } else if code == 0x0B {
        Some(KeyEvent::Char(if shift { '=' } else { '0' }))
    } else if code == 0x0C {
        Some(KeyEvent::Char(if shift { '?' } else { '\'' }))
    } else if code == 0x0D {
        Some(KeyEvent::Char(if shift { '\u{BF}' } else { '\u{A1}' }))
    } else if code == 0x10 {
        Some(KeyEvent::Char(if upper { 'Q' } else { 'q' }))
    } else if code == 0x11 {
        Some(KeyEvent::Char(if upper { 'W' } else { 'w' }))
    } else if code == 0x12 {
        Some(KeyEvent::Char(if upper { 'E' } else { 'e' }))
    } else if code == 0x13 {
        Some(KeyEvent::Char(if upper { 'R' } else { 'r' }))
    } else if code == 0x14 {
        Some(KeyEvent::Char(if upper { 'T' } else { 't' }))
    } else if code == 0x15 {
        Some(KeyEvent::Char(if upper { 'Y' } else { 'y' }))
    } else if code == 0x16 {
        Some(KeyEvent::Char(if upper { 'U' } else { 'u' }))
    } else if code == 0x17 {
        Some(KeyEvent::Char(if upper { 'I' } else { 'i' }))
    } else if code == 0x18 {
        Some(KeyEvent::Char(if upper { 'O' } else { 'o' }))
    } else if code == 0x19 {
        Some(KeyEvent::Char(if upper { 'P' } else { 'p' }))
    } else if code == 0x1E {
        Some(KeyEvent::Char(if upper { 'A' } else { 'a' }))
    } else if code == 0x1F {
        Some(KeyEvent::Char(if upper { 'S' } else { 's' }))
    } else if code == 0x20 {
        Some(KeyEvent::Char(if upper { 'D' } else { 'd' }))
    } else if code == 0x21 {
        Some(KeyEvent::Char(if upper { 'F' } else { 'f' }))
    } else if code == 0x22 {
        Some(KeyEvent::Char(if upper { 'G' } else { 'g' }))
    } else if code == 0x23 {
        Some(KeyEvent::Char(if upper { 'H' } else { 'h' }))
    } else if code == 0x24 {
        Some(KeyEvent::Char(if upper { 'J' } else { 'j' }))
    } else if code == 0x25 {
        Some(KeyEvent::Char(if upper { 'K' } else { 'k' }))
    } else if code == 0x26 {
        Some(KeyEvent::Char(if upper { 'L' } else { 'l' }))
    } else if code == 0x2C {
        Some(KeyEvent::Char(if upper { 'Z' } else { 'z' }))
    } else if code == 0x2D {
        Some(KeyEvent::Char(if upper { 'X' } else { 'x' }))
    } else if code == 0x2E {
        Some(KeyEvent::Char(if upper { 'C' } else { 'c' }))
    } else if code == 0x2F {
        Some(KeyEvent::Char(if upper { 'V' } else { 'v' }))
    } else if code == 0x30 {
        Some(KeyEvent::Char(if upper { 'B' } else { 'b' }))
    } else if code == 0x31 {
        Some(KeyEvent::Char(if upper { 'N' } else { 'n' }))
    } else if code == 0x32 {
        Some(KeyEvent::Char(if upper { 'M' } else { 'm' }))
    } else if code == 0x1A {
        Some(KeyEvent::Char(if shift { '^' } else { '`' }))
    } else if code == 0x1B {
        Some(KeyEvent::Char(if shift { '*' } else { '+' }))
    } else if code == 0x2B {
        Some(KeyEvent::Char(if shift { '\u{C7}' } else { '\u{E7}' }))
    } else if code == 0x27 {
        Some(KeyEvent::Char(if upper { '\u{D1}' } else { '\u{F1}' }))
    } else if code == 0x28 {
        Some(KeyEvent::Char(if shift { '\u{A8}' } else { '\u{B4}' }))
    } else if code == 0x29 {
        Some(KeyEvent::Char(if shift { '\u{AA}' } else { '\u{BA}' }))
    } else if code == 0x33 {
        Some(KeyEvent::Char(if shift { ';' } else { ',' }))
    } else if code == 0x34 {
        Some(KeyEvent::Char(if shift { ':' } else { '.' }))
    } else if code == 0x35 {
        Some(KeyEvent::Char(if shift { '_' } else { '-' }))
    } else if code == 0x39 {
        Some(KeyEvent::Char(' '))
    } else {
        None
    }
}

fn decode_es(code: u8, shift: bool, upper: bool) -> (res: Option<KeyEvent>)
    ensures
        res == spec_decode_es(code, shift, upper),
{
    if code == 0x01 {
        Some(KeyEvent::Special(SpecialKey::Escape))
    } else if code == 0x0E {
        Some(KeyEvent::Special(SpecialKey::Backspace))
    } else if code == 0x0F {
        Some(KeyEvent::Special(SpecialKey::Tab))
    } else if code == 0x1C {
        Some(KeyEvent::Special(SpecialKey::Enter))
    } else if code == 0x02 {
        Some(KeyEvent::Char(if shift { '!' } else { '1' }))
    } else if code == 0x03 {
        Some(KeyEvent::Char(if shift { '"' } else { '2' }))
    } else if code == 0x04 {
        Some(KeyEvent::Char(if shift { '\u{B7}' } else { '3' }))
    } else if code == 0x05 {
        Some(KeyEvent::Char(if shift { '$' } else { '4' }))
    } else if code == 0x06 {
        Some(KeyEvent::Char(if shift { '%' } else { '5' }))
    } else if code == 0x07 {
        Some(KeyEvent::Char(if shift { '&' } else { '6' }))
    } else if code == 0x08 {
        Some(KeyEvent::Char(if shift { '/' } else { '7' }))
    } else if code == 0x09 {
        Some(KeyEvent::Char(if shift { '(' } else { '8' }))
    } else if code == 0x0A {
        Some(KeyEvent::Char(if shift { ')' } else { '9' }))
    } else if code == 0x0B {
        Some(KeyEvent::Char(if shift { '=' } else { '0' }))
    } else if code == 0x0C {
        Some(KeyEvent::Char(if shift { '?' } else { '\'' }))
    } else if code == 0x0D {
        Some(KeyEvent::Char(if shift { '\u{BF}' } else { '\u{A1}' }))
    } else if code == 0x10 {
        Some(KeyEvent::Char(if upper { 'Q' } else { 'q' }))
    } else if code == 0x11 {
        Some(KeyEvent::Char(if upper { 'W' } else { 'w' }))
    } else if code == 0x12 {
        Some(KeyEvent::Char(if upper { 'E' } else { 'e' }))
    } else if code == 0x13 {
        Some(KeyEvent::Char(if upper { 'R' } else { 'r' }))
    } else if code == 0x14 {
        Some(KeyEvent::Char(if upper { 'T' } else { 't' }))
    } else if code == 0x15 {
        Some(KeyEvent::Char(if upper { 'Y' } else { 'y' }))
    } else if code == 0x16 {
        Some(KeyEvent::Char(if upper { 'U' } else { 'u' }))
    } else if code == 0x17 {
        Some(KeyEvent::Char(if upper { 'I' } else { 'i' }))
    } else if code == 0x18 {
        Some(KeyEvent::Char(if upper { 'O' } else { 'o' }))
    } else if code == 0x19 {
        Some(KeyEvent::Char(if upper { 'P' } else { 'p' }))
    } else if code == 0x1E {
        Some(KeyEvent::Char(if upper { 'A' } else { 'a' }))
    } else if code == 0x1F {
        Some(KeyEvent::Char(if upper { 'S' } else { 's' }))
    } else if code == 0x20 {
        Some(KeyEvent::Char(if upper { 'D' } else { 'd' }))
    } else if code == 0x21 {
        Some(KeyEvent::Char(if upper { 'F' } else { 'f' }))
    } else if code == 0x22 {
        Some(KeyEvent::Char(if upper { 'G' } else { 'g' }))
    } else if code == 0x23 {
        Some(KeyEvent::Char(if upper { 'H' } else { 'h' }))
    } else if code == 0x24 {
        Some(KeyEvent::Char(if upper { 'J' } else { 'j' }))
    } else if code == 0x25 {
        Some(KeyEvent::Char(if upper { 'K' } else { 'k' }))
    } else if code == 0x26 {
        Some(KeyEvent::Char(if upper { 'L' } else { 'l' }))
    } else if code == 0x2C {
        Some(KeyEvent::Char(if upper { 'Z' } else { 'z' }))
    } else if code == 0x2D {
        Some(KeyEvent::Char(if upper { 'X' } else { 'x' }))
    } else if code == 0x2E {
        Some(KeyEvent::Char(if upper { 'C' } else { 'c' }))
    } else if code == 0x2F {
        Some(KeyEvent::Char(if upper { 'V' } else { 'v' }))
    } else if code == 0x30 {
        Some(KeyEvent::Char(if upper { 'B' } else { 'b' }))
    } else if code == 0x31 {
        Some(KeyEvent::Char(if upper { 'N' } else { 'n' }))
    } else if code == 0x32 {
        Some(KeyEvent::Char(if upper { 'M' } else { 'm' }))
    } else if code == 0x1A {
        Some(KeyEvent::Char(if shift { '^' } else { '`' }))
    } else if code == 0x1B {
        Some(KeyEvent::Char(if shift { '*' } else { '+' }))
    } else if code == 0x2B {
        Some(KeyEvent::Char(if shift { '\u{C7}' } else { '\u{E7}' }))
    } else if code == 0x27 {
        Some(KeyEvent::Char(if upper { '\u{D1}' } else { '\u{F1}' }))
    } else if code == 0x28 {
        Some(KeyEvent::Char(if shift { '\u{A8}' } else { '\u{B4}' }))
    } else if code == 0x29 {
        Some(KeyEvent::Char(if shift { '\u{AA}' } else { '\u{BA}' }))
    } else if code == 0x33 {
        Some(KeyEvent::Char(if shift { ';' } else { ',' }))
    } else if code == 0x34 {
        Some(KeyEvent::Char(if shift { ':' } else { '.' }))
    } else if code == 0x35 {
        Some(KeyEvent::Char(if shift { '_' } else { '-' }))
    } else if code == 0x39 {
        Some(KeyEvent::Char(' '))
    } else {
        None
    }
}

/// A pressed (non-modifier) key: Ctrl+C, Ctrl+S and Ctrl+X first, then the layout.
pub open spec fn spec_decode_press(st: KeyboardState, code: u8, layout: KbdLayout) -> Option<KeyEvent> {
    let upper = st.shift != st.caps_lock;
    if code == 0x2E && st.ctrl {
        Some(KeyEvent::Special(SpecialKey::CtrlC))
    } else if code == 0x1F && st.ctrl {
        Some(KeyEvent::Special(SpecialKey::CtrlS))
    } else if code == 0x2D && st.ctrl {
        Some(KeyEvent::Special(SpecialKey::CtrlX))
    } else if layout == KbdLayout::ES {
        spec_decode_es(code, st.shift, upper)
    } else {
        spec_decode_us(code, st.shift, upper)
    }
}

/// The decoder's new state and output for one scan code.
pub open spec fn spec_decode(st: KeyboardState, scancode: u8, layout: KbdLayout) -> (KeyboardState, Option<KeyEvent>) {
    if scancode == 0xE0 {
        (KeyboardState { extended: true, ..st }, None)
    } else {
        let s = KeyboardState { extended: false, ..st };
        let is_release = scancode >= 0x80;
        let code = (scancode % 0x80) as u8;
        if st.extended {
            (s, spec_decode_extended(code, is_release))
        } else if code == 0x2A || code == 0x36 {
            (KeyboardState { shift: !is_release, ..s }, None)
        } else if code == 0x1D {
            (KeyboardState { ctrl: !is_release, ..s }, None)
        } else if code == 0x38 {
            (KeyboardState { alt: !is_release, ..s }, None)
        } else if code == 0x3A && !is_release {
            (KeyboardState { caps_lock: !st.caps_lock, ..s }, None)
        } else if is_release {
            (s, None)
        } else {
            (s, spec_decode_press(s, code, layout))
        }
    }
}

/// Feeds one scan code to the decoder; returns the key event it completes, if any.
pub fn decode(kb: &mut KeyboardState, scancode: u8, layout: KbdLayout) -> (res: Option<KeyEvent>)
    ensures
        (*final(kb), res) == spec_decode(*old(kb), scancode, layout),
{
    if scancode == 0xE0 {
        kb.extended = true;
        return None;
    }
    let is_extended = kb.extended;
    kb.extended = false;
    let is_release = scancode >= 0x80;
    let code = scancode % 0x80;
    if is_extended {
        return decode_extended(code, is_release);
    }
    if code == 0x2A || code == 0x36 {
        kb.shift = !is_release;
        return None;
    } else if code == 0x1D {
        kb.ctrl = !is_release;
        return None;
    } else if code == 0x38 {
        kb.alt = !is_release;
        return None;
    } else if code == 0x3A && !is_release {
        kb.caps_lock = !kb.caps_lock;
        return None;
    }
    if is_release {
        return None;
    }
    let upper = kb.shift != kb.caps_lock;
    if code == 0x2E && kb.ctrl {
        return Some(KeyEvent::Special(SpecialKey::CtrlC));
    }
    if code == 0x1F && kb.ctrl {
        return Some(KeyEvent::Special(SpecialKey::CtrlS));
    }
    if code == 0x2D && kb.ctrl {
        return Some(KeyEvent::Special(SpecialKey::CtrlX));
    }
    if layout == KbdLayout::ES {
        decode_es(code, kb.shift, upper)
    } else {
        decode_us(code, kb.shift, upper)
    }
}

pub fn is_ctrl_pressed(kb: &KeyboardState) -> (res: bool)
    ensures
        res == kb.ctrl,
{
    kb.ctrl
}

pub fn is_alt_pressed(kb: &KeyboardState) -> (res: bool)
    ensures
        res == kb.alt,
{
    kb.alt
}

pub fn is_shift_pressed(kb: &KeyboardState) -> (res: bool)
    ensures
        res == kb.shift,
{
    kb.shift
}

/// A `0xE0` prefix affects exactly the next scan code: it is decoded from the extended
/// set and the prefix is then forgotten, with the modifiers untouched.
pub proof fn law_extended_prefix(st: KeyboardState, sc: u8, layout: KbdLayout)
    requires
        sc != 0xE0,
    ensures
        ({
            let (s1, e1) = spec_decode(st, 0xE0, layout);
            let (s2, e2) = spec_decode(s1, sc, layout);
            &&& e1 is None
            &&& e2 == spec_decode_extended((sc % 0x80) as u8, sc >= 0x80)
            &&& s2 == KeyboardState { extended: false, ..st }
        }),
{
}

/// Caps Lock toggles on each press: two presses restore the state.
pub proof fn law_caps_lock_toggles(st: KeyboardState, layout: KbdLayout)
    requires
        !st.extended,
    ensures
        spec_decode(spec_decode(st, 0x3A, layout).0, 0x3A, layout).0 == st,
        spec_decode(st, 0x3A, layout).0.caps_lock == !st.caps_lock,
{
}

/// A key release produces no event.
pub proof fn law_release_is_silent(st: KeyboardState, sc: u8, layout: KbdLayout)
    requires
        sc >= 0x80,
        sc != 0xE0,
    ensures
        spec_decode(st, sc, layout).1 is None,
{
}


/// The scan codes of the 26 letter keys.
pub open spec fn is_letter_code(code: u8) -> bool {
    (0x10 <= code <= 0x19) || (0x1E <= code <= 0x26) || (0x2C <= code <= 0x32)
}

pub open spec fn is_ascii_upper(c: char) -> bool {
    65 <= c as int <= 90
}

pub open spec fn is_ascii_lower(c: char) -> bool {
    97 <= c as int <= 122
}

/// On the US layout, without Ctrl, a letter key gives a letter, upper case exactly when
/// one of Shift and Caps Lock is on.
pub proof fn law_us_letter_case(st: KeyboardState, code: u8)
    requires
        !st.extended,
        !st.ctrl,
        is_letter_code(code),
    ensures
        spec_decode(st, code, KbdLayout::US).1 matches Some(KeyEvent::Char(c)) && (if st.shift != st.caps_lock {
            is_ascii_upper(c)
        } else {
            is_ascii_lower(c)
        }),
{
}

/// On the US layout the digit row does not depend on Caps Lock, only on Shift.
pub proof fn law_us_digit_row_ignores_caps(st: KeyboardState, code: u8)
    requires
        !st.extended,
        0x02 <= code <= 0x0D,
    ensures
        spec_decode(st, code, KbdLayout::US).1 == spec_decode(KeyboardState { caps_lock: !st.caps_lock, ..st }, code,
            KbdLayout::US).1,
{
}

/// The make code of the key that prints `c` on a US keyboard without Shift (0 when no key
/// does), written from the keyboard's printed legends.
pub open spec fn us_plain_key(c: char) -> u8 {
    if c == '1' { 0x02u8 }
    else if c == '2' { 0x03u8 }
    else if c == '3' { 0x04u8 }
    else if c == '4' { 0x05u8 }
    else if c == '5' { 0x06u8 }
    else if c == '6' { 0x07u8 }
    else if c == '7' { 0x08u8 }
    else if c == '8' { 0x09u8 }
    else if c == '9' { 0x0Au8 }
    else if c == '0' { 0x0Bu8 }
    else if c == '-' { 0x0Cu8 }
    else if c == '=' { 0x0Du8 }
    else if c == '[' { 0x1Au8 }
    else if c == ']' { 0x1Bu8 }
    else if c == ';' { 0x27u8 }
    else if c == '\'' { 0x28u8 }
    else if c == '`' { 0x29u8 }
    else if c == '\\' { 0x2Bu8 }
    else if c == ',' { 0x33u8 }
    else if c == '.' { 0x34u8 }
    else if c == '/' { 0x35u8 }
    else if c == ' ' { 0x39u8 }
    else if c == 'q' { 0x10u8 }
    else if c == 'w' { 0x11u8 }
    else if c == 'e' { 0x12u8 }
    else if c == 'r' { 0x13u8 }
    else if c == 't' { 0x14u8 }
    else if c == 'y' { 0x15u8 }
    else if c == 'u' { 0x16u8 }
    else if c == 'i' { 0x17u8 }
    else if c == 'o' { 0x18u8 }
    else if c == 'p' { 0x19u8 }
    else if c == 'a' { 0x1Eu8 }
    else if c == 's' { 0x1Fu8 }
    else if c == 'd' { 0x20u8 }
    else if c == 'f' { 0x21u8 }
    else if c == 'g' { 0x22u8 }
    else if c == 'h' { 0x23u8 }
    else if c == 'j' { 0x24u8 }
    else if c == 'k' { 0x25u8 }
    else if c == 'l' { 0x26u8 }
    else if c == 'z' { 0x2Cu8 }
    else if c == 'x' { 0x2Du8 }
    else if c == 'c' { 0x2Eu8 }
    else if c == 'v' { 0x2Fu8 }
    else if c == 'b' { 0x30u8 }
    else if c == 'n' { 0x31u8 }
    else if c == 'm' { 0x32u8 }
    else { 0u8 }
}

/// The make code of the key that prints `c` on a US keyboard with Shift held (0 when no
/// key does).
pub open spec fn us_shift_key(c: char) -> u8 {
    if c == '!' { 0x02u8 }
    else if c == '@' { 0x03u8 }
    else if c == '#' { 0x04u8 }
    else if c == '$' { 0x05u8 }
    else if c == '%' { 0x06u8 }
    else if c == '^' { 0x07u8 }
    else if c == '&' { 0x08u8 }
    else if c == '*' { 0x09u8 }
    else if c == '(' { 0x0Au8 }
    else if c == ')' { 0x0Bu8 }
    else if c == '_' { 0x0Cu8 }
    else if c == '+' { 0x0Du8 }
    else if c == '{' { 0x1Au8 }
    else if c == '}' { 0x1Bu8 }
    else if c == ':' { 0x27u8 }
    else if c == '"' { 0x28u8 }
    else if c == '~' { 0x29u8 }
    else if c == '|' { 0x2Bu8 }
    else if c == '<' { 0x33u8 }
    else if c == '>' { 0x34u8 }
    else if c == '?' { 0x35u8 }
    else if c == ' ' { 0x39u8 }
    else if c == 'Q' { 0x10u8 }
    else if c == 'W' { 0x11u8 }
    else if c == 'E' { 0x12u8 }
    else if c == 'R' { 0x13u8 }
    else if c == 'T' { 0x14u8 }
    else if c == 'Y' { 0x15u8 }
    else if c == 'U' { 0x16u8 }
    else if c == 'I' { 0x17u8 }
    else if c == 'O' { 0x18u8 }
    else if c == 'P' { 0x19u8 }
    else if c == 'A' { 0x1Eu8 }
    else if c == 'S' { 0x1Fu8 }
    else if c == 'D' { 0x20u8 }
    else if c == 'F' { 0x21u8 }
    else if c == 'G' { 0x22u8 }
    else if c == 'H' { 0x23u8 }
    else if c == 'J' { 0x24u8 }
    else if c == 'K' { 0x25u8 }
    else if c == 'L' { 0x26u8 }
    else if c == 'Z' { 0x2Cu8 }
    else if c == 'X' { 0x2Du8 }
    else if c == 'C' { 0x2Eu8 }
    else if c == 'V' { 0x2Fu8 }
    else if c == 'B' { 0x30u8 }
    else if c == 'N' { 0x31u8 }
    else if c == 'M' { 0x32u8 }
    else { 0u8 }
}

/// On the US layout without Caps Lock or Ctrl, a key press prints the character on that
/// key of a US keyboard: the character produced by make code `sc` is the one whose
/// legend sits on key `sc`, with Shift the upper legend. So no two keys print the same
/// character.
#[verifier::rlimit(50)]
pub proof fn law_us_keys_as_printed(st: KeyboardState, sc: u8)
    requires
        !st.extended,
        !st.ctrl,
        !st.caps_lock,
        sc < 0x80,
    ensures
        spec_decode(st, sc, KbdLayout::US).1 matches Some(KeyEvent::Char(c)) ==> (if st.shift {
            us_shift_key(c)
        } else {
            us_plain_key(c)
        }) == sc,
{
}

/// On the US layout, two different keys pressed with the same modifiers (no Caps Lock or
/// Ctrl) never print the same character.
pub proof fn law_us_keys_distinct(st: KeyboardState, sc1: u8, sc2: u8)
    requires
        !st.extended,
        !st.ctrl,
        !st.caps_lock,
        sc1 < 0x80,
        sc2 < 0x80,
        sc1 != sc2,
    ensures
        spec_decode(st, sc1, KbdLayout::US).1 matches Some(KeyEvent::Char(c1)) ==> spec_decode(st, sc2, KbdLayout::US).1
            matches Some(KeyEvent::Char(c2)) ==> c1 != c2,
{
    law_us_keys_as_printed(st, sc1);
    law_us_keys_as_printed(st, sc2);
}

/// The make code of the key that prints `c` on a Spanish keyboard without Shift (0 when
/// no key does), written from the keyboard's printed legends.
pub open spec fn es_plain_key(c: char) -> u8 {
    if c == '1' { 0x02u8 }
    else if c == '2' { 0x03u8 }
    else if c == '3' { 0x04u8 }
    else if c == '4' { 0x05u8 }
    else if c == '5' { 0x06u8 }
    else if c == '6' { 0x07u8 }
    else if c == '7' { 0x08u8 }
    else if c == '8' { 0x09u8 }
    else if c == '9' { 0x0Au8 }
    else if c == '0' { 0x0Bu8 }
    else if c == '\'' { 0x0Cu8 }
    else if c == '\u{A1}' { 0x0Du8 }
    else if c == '`' { 0x1Au8 }
    else if c == '+' { 0x1Bu8 }
    else if c == '\u{F1}' { 0x27u8 }
    else if c == '\u{B4}' { 0x28u8 }
    else if c == '\u{BA}' { 0x29u8 }
    else if c == '\u{E7}' { 0x2Bu8 }
    else if c == ',' { 0x33u8 }
    else if c == '.' { 0x34u8 }
    else if c == '-' { 0x35u8 }
    else if c == ' ' { 0x39u8 }
    else if c == 'q' { 0x10u8 }
    else if c == 'w' { 0x11u8 }
    else if c == 'e' { 0x12u8 }
    else if c == 'r' { 0x13u8 }
    else if c == 't' { 0x14u8 }
    else if c == 'y' { 0x15u8 }
    else if c == 'u' { 0x16u8 }
    else if c == 'i' { 0x17u8 }
    else if c == 'o' { 0x18u8 }
    else if c == 'p' { 0x19u8 }
    else if c == 'a' { 0x1Eu8 }
    else if c == 's' { 0x1Fu8 }
    else if c == 'd' { 0x20u8 }
    else if c == 'f' { 0x21u8 }
    else if c == 'g' { 0x22u8 }
    else if c == 'h' { 0x23u8 }
    else if c == 'j' { 0x24u8 }
    else if c == 'k' { 0x25u8 }
    else if c == 'l' { 0x26u8 }
    else if c == 'z' { 0x2Cu8 }
    else if c == 'x' { 0x2Du8 }
    else if c == 'c' { 0x2Eu8 }
    else if c == 'v' { 0x2Fu8 }
    else if c == 'b' { 0x30u8 }
    else if c == 'n' { 0x31u8 }
    else if c == 'm' { 0x32u8 }
    else { 0u8 }
}

/// The make code of the key that prints `c` on a Spanish keyboard with Shift held (0 when
/// no key does).
pub open spec fn es_shift_key(c: char) -> u8 {
    if c == '!' { 0x02u8 }
    else if c == '"' { 0x03u8 }
    else if c == '\u{B7}' { 0x04u8 }
    else if c == '$' { 0x05u8 }
    else if c == '%' { 0x06u8 }
    else if c == '&' { 0x07u8 }
    else if c == '/' { 0x08u8 }
    else if c == '(' { 0x09u8 }
    else if c == ')' { 0x0Au8 }
    else if c == '=' { 0x0Bu8 }
    else if c == '?' { 0x0Cu8 }
    else if c == '\u{BF}' { 0x0Du8 }
    else if c == '^' { 0x1Au8 }
    else if c == '*' { 0x1Bu8 }
    else if c == '\u{D1}' { 0x27u8 }
    else if c == '\u{A8}' { 0x28u8 }
    else if c == '\u{AA}' { 0x29u8 }
    else if c == '\u{C7}' { 0x2Bu8 }
    else if c == ';' { 0x33u8 }
    else if c == ':' { 0x34u8 }
    else if c == '_' { 0x35u8 }
    else if c == ' ' { 0x39u8 }
    else if c == 'Q' { 0x10u8 }
    else if c == 'W' { 0x11u8 }
    else if c == 'E' { 0x12u8 }
    else if c == 'R' { 0x13u8 }
    else if c == 'T' { 0x14u8 }
    else if c == 'Y' { 0x15u8 }
    else if c == 'U' { 0x16u8 }
    else if c == 'I' { 0x17u8 }
    else if c == 'O' { 0x18u8 }
    else if c == 'P' { 0x19u8 }
    else if c == 'A' { 0x1Eu8 }
    else if c == 'S' { 0x1Fu8 }
    else if c == 'D' { 0x20u8 }
    else if c == 'F' { 0x21u8 }
    else if c == 'G' { 0x22u8 }
    else if c == 'H' { 0x23u8 }
    else if c == 'J' { 0x24u8 }
    else if c == 'K' { 0x25u8 }
    else if c == 'L' { 0x26u8 }
    else if c == 'Z' { 0x2Cu8 }
    else if c == 'X' { 0x2Du8 }
    else if c == 'C' { 0x2Eu8 }
    else if c == 'V' { 0x2Fu8 }
    else if c == 'B' { 0x30u8 }
    else if c == 'N' { 0x31u8 }
    else if c == 'M' { 0x32u8 }
    else { 0u8 }
}

/// On the Spanish layout without Caps Lock or Ctrl, a key press prints the character on
/// that key of a Spanish keyboard, Shift giving the upper legend; so no two keys print
/// the same character.
#[verifier::rlimit(50)]
pub proof fn law_es_keys_as_printed(st: KeyboardState, sc: u8)
    requires
        !st.extended,
        !st.ctrl,
        !st.caps_lock,
        sc < 0x80,
    ensures
        spec_decode(st, sc, KbdLayout::ES).1 matches Some(KeyEvent::Char(c)) ==> (if st.shift {
            es_shift_key(c)
        } else {
            es_plain_key(c)
        }) == sc,
{
}

} // verus!

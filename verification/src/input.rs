use vstd::prelude::*;

verus! {

/// The keys the interface reacts to, as plain values; the terminal layer
/// translates its own event type into this one.
#[derive(Clone, Copy, PartialEq, Eq, Structural, Debug)]
pub enum Key {
    Char(char),
    Esc,
    Enter,
    Backspace,
    Delete,
    Left,
    Right,
    Home,
    End,
    Up,
    Down,
    Tab,
}

/// Mouse input, reduced to what the interface reacts to.
#[derive(Clone, Copy, PartialEq, Eq, Structural, Debug)]
pub enum MouseInput {
    ScrollUp,
    ScrollDown,
    LeftClick { column: u16, row: u16 },
}

/// The modal input states. Exactly one is active at a time; cancel (Esc)
/// and completion always return to `Normal`.
#[derive(Default, Clone, Copy, PartialEq, Eq, Structural, Debug)]
pub enum InputMode {
    #[default]
    Normal,
    Insert,
    RemoteUrl,
    RepoSelect,
    TagInput,
}

/// Folding of full-width (IME) alphanumerics and the ideographic space to
/// their ASCII counterparts; anything else passes through unchanged.
pub open spec fn spec_normalize_fullwidth(c: char) -> char {
    if 0xFF41 <= c as u32 <= 0xFF5A {
        (c as u32 - 0xFF41 + 0x61) as char
    } else if 0xFF21 <= c as u32 <= 0xFF3A {
        (c as u32 - 0xFF21 + 0x41) as char
    } else if 0xFF10 <= c as u32 <= 0xFF19 {
        (c as u32 - 0xFF10 + 0x30) as char
    } else if c as u32 == 0x3000 {
        ' '
    } else {
        c
    }
}

/// Normalizes full-width ASCII characters to half-width, so composed
/// Japanese input still triggers single-letter commands.
pub fn normalize_fullwidth(c: char) -> (r: char)
    ensures
        r == spec_normalize_fullwidth(c),
{
    let u = c as u32;
    if 0xFF41 <= u && u <= 0xFF5A {
        ((u - 0xFF41 + 0x61) as u8) as char
    } else if 0xFF21 <= u && u <= 0xFF3A {
        ((u - 0xFF21 + 0x41) as u8) as char
    } else if 0xFF10 <= u && u <= 0xFF19 {
        ((u - 0xFF10 + 0x30) as u8) as char
    } else if u == 0x3000 {
        ' '
    } else {
        c
    }
}

} // verus!

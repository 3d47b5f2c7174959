//! Doom key scancodes and the mapping from abstract key symbols to them.

use vstd::prelude::*;

verus! {

pub const DOOM_KEY_UP: u8 = 0xad;
pub const DOOM_KEY_DOWN: u8 = 0xaf;
pub const DOOM_KEY_LEFT: u8 = 0xac;
pub const DOOM_KEY_RIGHT: u8 = 0xae;
pub const DOOM_KEY_ESCAPE: u8 = 27;
pub const DOOM_KEY_ENTER: u8 = 13;
pub const DOOM_KEY_TAB: u8 = 9;
pub const DOOM_KEY_BACKSPACE: u8 = 0x7f;
pub const DOOM_KEY_MINUS: u8 = 0x2d;
pub const DOOM_KEY_EQUALS: u8 = 0x3d;
pub const DOOM_KEY_STRAFE_L: u8 = 0xa0;
pub const DOOM_KEY_STRAFE_R: u8 = 0xa1;
pub const DOOM_KEY_USE: u8 = 0xa2;
pub const DOOM_KEY_FIRE: u8 = 0xa3;

/// Abstract key symbols, independent of the input backend.
#[derive(Clone, Copy, Debug, PartialEq, Eq, Structural)]
pub enum KeySymbol {
    Char(char),
    ArrowUp,
    ArrowDown,
    ArrowLeft,
    ArrowRight,
    Escape,
    Enter,
    Tab,
    Backspace,
    Home,
    End,
    PageUp,
    PageDown,
    Space,
    Minus,
    Equals,
}

/// `c` with an ASCII lower-case letter turned into its upper-case letter.
pub open spec fn ascii_upper(c: char) -> char {
    if 'a' <= c <= 'z' {
        ((c as u32) - 32) as char
    } else {
        c
    }
}

/// Whether `c` is an ASCII letter or digit.
pub open spec fn is_ascii_alnum(c: char) -> bool {
    ('0' <= c <= '9') || ('A' <= c <= 'Z') || ('a' <= c <= 'z')
}

/// Whether `c` is one of the punctuation keys Doom reads by their ASCII code.
pub open spec fn is_doom_punct(c: char) -> bool {
    c == ',' || c == '.' || c == '/' || c == ';' || c == '\'' || c == '[' || c == ']' || c == '\\'
}

/// The Doom scancode of a character key, matched without regard to ASCII case:
/// WASD and Q/R move and strafe, E, F and space use and fire, `-` and `=`
/// resize, and other ASCII letters, digits and the punctuation keys above
/// send their upper-case ASCII code. Anything else has no scancode.
pub open spec fn char_scancode(ch: char) -> Option<u8> {
    let upper = ascii_upper(ch);
    if upper == 'W' {
        Some(DOOM_KEY_UP)
    } else if upper == 'S' {
        Some(DOOM_KEY_DOWN)
    } else if upper == 'A' || upper == 'Q' {
        Some(DOOM_KEY_STRAFE_L)
    } else if upper == 'D' || upper == 'R' {
        Some(DOOM_KEY_STRAFE_R)
    } else if upper == 'E' || upper == ' ' {
        Some(DOOM_KEY_USE)
    } else if upper == 'F' {
        Some(DOOM_KEY_FIRE)
    } else if upper == '-' {
        Some(DOOM_KEY_MINUS)
    } else if upper == '=' {
        Some(DOOM_KEY_EQUALS)
    } else if is_doom_punct(upper) || is_ascii_alnum(upper) {
        Some(upper as u8)
    } else {
        None
    }
}

/// The Doom scancode of a key symbol.
pub open spec fn symbol_scancode(symbol: KeySymbol) -> Option<u8> {
    match symbol {
        KeySymbol::Char(c) => char_scancode(c),
        KeySymbol::ArrowUp => Some(DOOM_KEY_UP),
        KeySymbol::ArrowDown => Some(DOOM_KEY_DOWN),
        KeySymbol::ArrowLeft => Some(DOOM_KEY_LEFT),
        KeySymbol::ArrowRight => Some(DOOM_KEY_RIGHT),
        KeySymbol::Escape => Some(DOOM_KEY_ESCAPE),
        KeySymbol::Enter => Some(DOOM_KEY_ENTER),
        KeySymbol::Tab => Some(DOOM_KEY_TAB),
        KeySymbol::Backspace => Some(DOOM_KEY_BACKSPACE),
        KeySymbol::Home => Some(0x48u8),
        KeySymbol::End => Some(0x46u8),
        KeySymbol::PageUp => Some(0x35u8),
        KeySymbol::PageDown => Some(0x36u8),
        KeySymbol::Space => Some(DOOM_KEY_USE),
        KeySymbol::Minus => Some(DOOM_KEY_MINUS),
        KeySymbol::Equals => Some(DOOM_KEY_EQUALS),
    }
}

/// Scancodes ignore ASCII case: a character maps where its upper-case form
/// does.
pub proof fn law_scancode_ignores_case(c: char)
    ensures
        char_scancode(c) == char_scancode(ascii_upper(c)),
{
    if 'a' <= c <= 'z' {
        let u = ((c as u32) - 32) as char;
        assert('A' <= u <= 'Z');
        assert(ascii_upper(u) == u);
    }
}

/// The game keys, in either case: W walks forward and S backward, A and Q
/// strafe left, D and R strafe right, E and space use, F fires. Each game
/// scancode comes from exactly these keys, so no other character, and in
/// particular no letter's ASCII code, stands for a move or an action.
pub proof fn law_game_keys(c: char)
    ensures
        char_scancode(c) == Some(DOOM_KEY_UP) <==> (c == 'w' || c == 'W'),
        char_scancode(c) == Some(DOOM_KEY_DOWN) <==> (c == 's' || c == 'S'),
        char_scancode(c) == Some(DOOM_KEY_STRAFE_L) <==> (c == 'a' || c == 'A' || c == 'q' || c
            == 'Q'),
        char_scancode(c) == Some(DOOM_KEY_STRAFE_R) <==> (c == 'd' || c == 'D' || c == 'r' || c
            == 'R'),
        char_scancode(c) == Some(DOOM_KEY_USE) <==> (c == 'e' || c == 'E' || c == ' '),
        char_scancode(c) == Some(DOOM_KEY_FIRE) <==> (c == 'f' || c == 'F'),
        c == '-' ==> char_scancode(c) == Some(DOOM_KEY_MINUS),
        c == '=' ==> char_scancode(c) == Some(DOOM_KEY_EQUALS),
{
    if 'a' <= c <= 'z' {
        let u = ((c as u32) - 32) as char;
        assert(u as u32 == c as u32 - 32);
    }
}

/// The other keys Doom reads: every other ASCII letter sends the code of its
/// upper-case form, a digit or one of `, . / ; ' [ ] \\` its own code, and a
/// character outside ASCII nothing.
pub proof fn law_other_keys(c: char)
    ensures
        ('A' <= c <= 'Z') && c != 'W' && c != 'S' && c != 'A' && c != 'Q' && c != 'D' && c != 'R'
            && c != 'E' && c != 'F' ==> char_scancode(c) == Some(c as u32 as u8),
        ('a' <= c <= 'z') && c != 'w' && c != 's' && c != 'a' && c != 'q' && c != 'd' && c != 'r'
            && c != 'e' && c != 'f' ==> char_scancode(c) == Some((c as u32 - 32) as u8),
        ('0' <= c <= '9') ==> char_scancode(c) == Some(c as u32 as u8),
        (c == ',' || c == '.' || c == '/' || c == ';' || c == '\'' || c == '[' || c == ']' || c
            == '\\') ==> char_scancode(c) == Some(c as u32 as u8),
        c as u32 >= 128 ==> char_scancode(c) is None,
{
    if 'a' <= c <= 'z' {
        let u = ((c as u32) - 32) as char;
        assert(u as u32 == c as u32 - 32);
    }
}

/// The movement letters and the arrow keys are the same keys to Doom: W and
/// the up arrow, S and the down arrow send one scancode each; the space bar
/// key and the space character and E all use; the minus and equals keys send
/// what their characters send.
pub proof fn law_symbol_aliases()
    ensures
        symbol_scancode(KeySymbol::Char('w')) == symbol_scancode(KeySymbol::ArrowUp),
        symbol_scancode(KeySymbol::Char('W')) == symbol_scancode(KeySymbol::ArrowUp),
        symbol_scancode(KeySymbol::Char('s')) == symbol_scancode(KeySymbol::ArrowDown),
        symbol_scancode(KeySymbol::Char('S')) == symbol_scancode(KeySymbol::ArrowDown),
        symbol_scancode(KeySymbol::Space) == symbol_scancode(KeySymbol::Char(' ')),
        symbol_scancode(KeySymbol::Space) == symbol_scancode(KeySymbol::Char('e')),
        symbol_scancode(KeySymbol::Minus) == symbol_scancode(KeySymbol::Char('-')),
        symbol_scancode(KeySymbol::Equals) == symbol_scancode(KeySymbol::Char('=')),
        symbol_scancode(KeySymbol::ArrowLeft) != symbol_scancode(KeySymbol::ArrowRight),
        symbol_scancode(KeySymbol::ArrowLeft) is Some && symbol_scancode(KeySymbol::ArrowRight) is Some,
{
    law_game_keys('w');
    law_game_keys('W');
    law_game_keys('s');
    law_game_keys('S');
    law_game_keys(' ');
    law_game_keys('e');
    law_game_keys('-');
    law_game_keys('=');
}

/// Upper-cases an ASCII lower-case letter and leaves every other character.
pub fn ascii_uppercase(c: char) -> (r: char)
    ensures
        r == ascii_upper(c),
{
    if 'a' <= c && c <= 'z' {
        ((c as u8) - 32) as char
    } else {
        c
    }
}

/// Map a `KeySymbol` to the Doom scancode expected by doomgeneric.
pub fn scancode_from_symbol(symbol: KeySymbol) -> (r: Option<u8>)
    ensures
        r == symbol_scancode(symbol),
{
    match symbol {
        KeySymbol::Char(c) => scancode_from_char(c),
        KeySymbol::ArrowUp => Some(DOOM_KEY_UP),
        KeySymbol::ArrowDown => Some(DOOM_KEY_DOWN),
        KeySymbol::ArrowLeft => Some(DOOM_KEY_LEFT),
        KeySymbol::ArrowRight => Some(DOOM_KEY_RIGHT),
        KeySymbol::Escape => Some(DOOM_KEY_ESCAPE),
        KeySymbol::Enter => Some(DOOM_KEY_ENTER),
        KeySymbol::Tab => Some(DOOM_KEY_TAB),
        KeySymbol::Backspace => Some(DOOM_KEY_BACKSPACE),
        KeySymbol::Home => Some(0x48u8),
        KeySymbol::End => Some(0x46u8),
        KeySymbol::PageUp => Some(0x35u8),
        KeySymbol::PageDown => Some(0x36u8),
        KeySymbol::Space => Some(DOOM_KEY_USE),
        KeySymbol::Minus => Some(DOOM_KEY_MINUS),
        KeySymbol::Equals => Some(DOOM_KEY_EQUALS),
    }
}

/// Map Doom-relevant characters (letters/digits/punctuation) to scancodes.
pub fn scancode_from_char(ch: char) -> (r: Option<u8>)
    ensures
        r == char_scancode(ch),
{
    let upper = ascii_uppercase(ch);
    if upper == 'W' {
        Some(DOOM_KEY_UP)
    } else if upper == 'S' {
        Some(DOOM_KEY_DOWN)
    } else if upper == 'A' || upper == 'Q' {
        Some(DOOM_KEY_STRAFE_L)
    } else if upper == 'D' || upper == 'R' {
        Some(DOOM_KEY_STRAFE_R)
    } else if upper == 'E' || upper == ' ' {
        Some(DOOM_KEY_USE)
    } else if upper == 'F' {
        Some(DOOM_KEY_FIRE)
    } else if upper == '-' {
        Some(DOOM_KEY_MINUS)
    } else if upper == '=' {
        Some(DOOM_KEY_EQUALS)
    } else if upper == ',' || upper == '.' || upper == '/' || upper == ';' || upper == '\''
        || upper == '[' || upper == ']' || upper == '\\' || ('0' <= upper && upper <= '9') || (
    'A' <= upper && upper <= 'Z') || ('a' <= upper && upper <= 'z') {
        Some(upper as u8)
    } else {
        None
    }
}

} // verus!

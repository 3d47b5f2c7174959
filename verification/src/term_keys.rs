//! Terminal key events and the byte sequences a terminal expects for them.

use vstd::prelude::*;
use vstd::utf8::encode_scalar;
use crate::keys::{scancode_from_symbol, symbol_scancode, KeySymbol};

verus! {

/// The key of a terminal key event.
#[derive(Clone, Copy, Debug, PartialEq, Eq, Structural)]
pub enum TermKeyCode {
    Backspace,
    Enter,
    Left,
    Right,
    Up,
    Down,
    Home,
    End,
    PageUp,
    PageDown,
    Tab,
    BackTab,
    Delete,
    Insert,
    F(u8),
    Char(char),
    Null,
    Esc,
    /// Any other key (lock keys, media keys, lone modifiers and the like).
    Other,
}

/// Whether a key went down, repeated or came up.
#[derive(Clone, Copy, Debug, PartialEq, Eq, Structural)]
pub enum TermKeyKind {
    Press,
    Repeat,
    Release,
}

/// The modifier keys held during a key event.
#[derive(Clone, Copy, Debug, PartialEq, Eq, Structural)]
pub struct TermModifiers {
    pub shift: bool,
    pub control: bool,
    pub alt: bool,
    pub super_key: bool,
    pub hyper: bool,
    pub meta: bool,
}

impl TermModifiers {
    pub open spec fn spec_is_empty(self) -> bool {
        !self.shift && !self.control && !self.alt && !self.super_key && !self.hyper && !self.meta
    }

    /// Whether no modifier is held.
    pub fn is_empty(&self) -> (r: bool)
        ensures
            r == self.spec_is_empty(),
    {
        !self.shift && !self.control && !self.alt && !self.super_key && !self.hyper && !self.meta
    }
}

/// A terminal key event.
#[derive(Clone, Copy, Debug, PartialEq, Eq, Structural)]
pub struct TermKey {
    pub code: TermKeyCode,
    pub kind: TermKeyKind,
    pub modifiers: TermModifiers,
}

/// The UTF-8 bytes of `c`.
pub fn encode_char_utf8(c: char) -> (r: Vec<u8>)
    ensures
        r@ == encode_scalar(c as u32),
{
    let v = c as u32;
    let mut r: Vec<u8> = Vec::new();
    if v <= 0x7f {
        r.push((v & 0x7f) as u8);
    } else if v <= 0x7ff {
        r.push(0xc0 | ((v >> 6) & 0x1f) as u8);
        r.push(0x80 | (v & 0x3f) as u8);
    } else if v <= 0xffff {
        r.push(0xe0 | ((v >> 12) & 0x0f) as u8);
        r.push(0x80 | ((v >> 6) & 0x3f) as u8);
        r.push(0x80 | (v & 0x3f) as u8);
    } else {
        r.push(0xf0 | ((v >> 18) & 0x7) as u8);
        r.push(0x80 | ((v >> 12) & 0x3f) as u8);
        r.push(0x80 | ((v >> 6) & 0x3f) as u8);
        r.push(0x80 | (v & 0x3f) as u8);
    }
    assert(r@ =~= encode_scalar(v));
    r
}

fn bytes1(a: u8) -> (r: Vec<u8>)
    ensures
        r@ == seq![a],
{
    let mut r: Vec<u8> = Vec::new();
    r.push(a);
    assert(r@ =~= seq![a]);
    r
}

fn bytes3(a: u8, b: u8, c: u8) -> (r: Vec<u8>)
    ensures
        r@ == seq![a, b, c],
{
    let mut r: Vec<u8> = Vec::new();
    r.push(a);
    r.push(b);
    r.push(c);
    assert(r@ =~= seq![a, b, c]);
    r
}

fn bytes4(a: u8, b: u8, c: u8, d: u8) -> (r: Vec<u8>)
    ensures
        r@ == seq![a, b, c, d],
{
    let mut r: Vec<u8> = Vec::new();
    r.push(a);
    r.push(b);
    r.push(c);
    r.push(d);
    assert(r@ =~= seq![a, b, c, d]);
    r
}

fn bytes5(a: u8, b: u8, c: u8, d: u8, e: u8) -> (r: Vec<u8>)
    ensures
        r@ == seq![a, b, c, d, e],
{
    let mut r: Vec<u8> = Vec::new();
    r.push(a);
    r.push(b);
    r.push(c);
    r.push(d);
    r.push(e);
    assert(r@ =~= seq![a, b, c, d, e]);
    r
}

/// The escape sequence of a key that is not a character, as VT terminals
/// send it: cursor keys `ESC [ A`..`D`, Home/End `ESC [ H`/`F`, page keys
/// `ESC [ 5 ~`/`6 ~`, Insert/Delete `ESC [ 2 ~`/`3 ~`.
pub open spec fn navigation_sequence(code: TermKeyCode) -> Option<Seq<u8>> {
    match code {
        TermKeyCode::Up => Some(seq![0x1bu8, 0x5b, 0x41]),
        TermKeyCode::Down => Some(seq![0x1bu8, 0x5b, 0x42]),
        TermKeyCode::Right => Some(seq![0x1bu8, 0x5b, 0x43]),
        TermKeyCode::Left => Some(seq![0x1bu8, 0x5b, 0x44]),
        TermKeyCode::Home => Some(seq![0x1bu8, 0x5b, 0x48]),
        TermKeyCode::End => Some(seq![0x1bu8, 0x5b, 0x46]),
        TermKeyCode::PageUp => Some(seq![0x1bu8, 0x5b, 0x35, 0x7e]),
        TermKeyCode::PageDown => Some(seq![0x1bu8, 0x5b, 0x36, 0x7e]),
        TermKeyCode::Insert => Some(seq![0x1bu8, 0x5b, 0x32, 0x7e]),
        TermKeyCode::Delete => Some(seq![0x1bu8, 0x5b, 0x33, 0x7e]),
        _ => None,
    }
}

fn navigation_bytes(code: TermKeyCode) -> (r: Option<Vec<u8>>)
    ensures
        match r {
            Some(v) => navigation_sequence(code) == Some(v@),
            None => navigation_sequence(code) is None,
        },
{
    match code {
        TermKeyCode::Up => Some(bytes3(0x1b, 0x5b, 0x41)),
        TermKeyCode::Down => Some(bytes3(0x1b, 0x5b, 0x42)),
        TermKeyCode::Right => Some(bytes3(0x1b, 0x5b, 0x43)),
        TermKeyCode::Left => Some(bytes3(0x1b, 0x5b, 0x44)),
        TermKeyCode::Home => Some(bytes3(0x1b, 0x5b, 0x48)),
        TermKeyCode::End => Some(bytes3(0x1b, 0x5b, 0x46)),
        TermKeyCode::PageUp => Some(bytes4(0x1b, 0x5b, 0x35, 0x7e)),
        TermKeyCode::PageDown => Some(bytes4(0x1b, 0x5b, 0x36, 0x7e)),
        TermKeyCode::Insert => Some(bytes4(0x1b, 0x5b, 0x32, 0x7e)),
        TermKeyCode::Delete => Some(bytes4(0x1b, 0x5b, 0x33, 0x7e)),
        _ => None,
    }
}

/// The escape sequence of function key `n` (F1 to F12), if any.
pub open spec fn f_key_spec(n: u8) -> Option<Seq<u8>> {
    if n == 1 {
        Some(seq![0x1bu8, 0x4f, 0x50])
    } else if n == 2 {
        Some(seq![0x1bu8, 0x4f, 0x51])
    } else if n == 3 {
        Some(seq![0x1bu8, 0x4f, 0x52])
    } else if n == 4 {
        Some(seq![0x1bu8, 0x4f, 0x53])
    } else if n == 5 {
        Some(seq![0x1bu8, 0x5b, 0x31, 0x35, 0x7e])
    } else if n == 6 {
        Some(seq![0x1bu8, 0x5b, 0x31, 0x37, 0x7e])
    } else if n == 7 {
        Some(seq![0x1bu8, 0x5b, 0x31, 0x38, 0x7e])
    } else if n == 8 {
        Some(seq![0x1bu8, 0x5b, 0x31, 0x39, 0x7e])
    } else if n == 9 {
        Some(seq![0x1bu8, 0x5b, 0x32, 0x30, 0x7e])
    } else if n == 10 {
        Some(seq![0x1bu8, 0x5b, 0x32, 0x31, 0x7e])
    } else if n == 11 {
        Some(seq![0x1bu8, 0x5b, 0x32, 0x33, 0x7e])
    } else if n == 12 {
        Some(seq![0x1bu8, 0x5b, 0x32, 0x34, 0x7e])
    } else {
        None
    }
}

/// The escape sequence of function key `index`: `ESC O P`..`S` for F1-F4 and
/// `ESC [ nn ~` for F5-F12.
pub fn f_key_sequence(index: u8) -> (r: Option<Vec<u8>>)
    ensures
        match r {
            Some(v) => f_key_spec(index) == Some(v@),
            None => f_key_spec(index) is None,
        },
{
    if index == 1 {
        Some(bytes3(0x1b, 0x4f, 0x50))
    } else if index == 2 {
        Some(bytes3(0x1b, 0x4f, 0x51))
    } else if index == 3 {
        Some(bytes3(0x1b, 0x4f, 0x52))
    } else if index == 4 {
        Some(bytes3(0x1b, 0x4f, 0x53))
    } else if index == 5 {
        Some(bytes5(0x1b, 0x5b, 0x31, 0x35, 0x7e))
    } else if index == 6 {
        Some(bytes5(0x1b, 0x5b, 0x31, 0x37, 0x7e))
    } else if index == 7 {
        Some(bytes5(0x1b, 0x5b, 0x31, 0x38, 0x7e))
    } else if index == 8 {
        Some(bytes5(0x1b, 0x5b, 0x31, 0x39, 0x7e))
    } else if index == 9 {
        Some(bytes5(0x1b, 0x5b, 0x32, 0x30, 0x7e))
    } else if index == 10 {
        Some(bytes5(0x1b, 0x5b, 0x32, 0x31, 0x7e))
    } else if index == 11 {
        Some(bytes5(0x1b, 0x5b, 0x32, 0x33, 0x7e))
    } else if index == 12 {
        Some(bytes5(0x1b, 0x5b, 0x32, 0x34, 0x7e))
    } else {
        None
    }
}

/// The bytes a character key sends: `ESC` first when Alt is held; with
/// Control held, an ASCII character becomes its control code (its lower-case
/// form masked to five bits); otherwise the character's UTF-8 bytes.
pub open spec fn term_char_spec(ch: char, modifiers: TermModifiers) -> Seq<u8> {
    let prefix = if modifiers.alt {
        seq![0x1bu8]
    } else {
        Seq::empty()
    };
    let lower = if 'A' <= ch <= 'Z' {
        (ch as u32 + 32) as u8
    } else {
        ch as u32 as u8
    };
    if modifiers.control && (ch as u32) < 128 {
        prefix.push(lower & 0x1fu8)
    } else {
        prefix + encode_scalar(ch as u32)
    }
}

/// Encodes a character key with its modifiers.
pub fn encode_term_char(ch: char, modifiers: TermModifiers) -> (r: Vec<u8>)
    ensures
        r@ == term_char_spec(ch, modifiers),
{
    let mut bytes: Vec<u8> = Vec::new();
    if modifiers.alt {
        bytes.push(0x1b);
    }
    if modifiers.control && (ch as u32) < 128 {
        let lower: u8 = if 'A' <= ch && ch <= 'Z' {
            (ch as u8) + 32
        } else {
            ch as u8
        };
        bytes.push(lower & 0x1f);
    } else {
        let encoded = encode_char_utf8(ch);
        let mut i: usize = 0;
        let ghost start = bytes@;
        while i < encoded.len()
            invariant
                i <= encoded@.len(),
                bytes@ == start + encoded@.take(i as int),
            decreases encoded@.len() - i,
        {
            bytes.push(encoded[i]);
            i = i + 1;
            assert(bytes@ =~= start + encoded@.take(i as int));
        }
        assert(encoded@.take(encoded@.len() as int) =~= encoded@);
    }
    assert(bytes@ =~= term_char_spec(ch, modifiers));
    bytes
}

/// The bytes a key event sends to a terminal program.
pub open spec fn term_key_event_spec(key: TermKey) -> Option<Seq<u8>> {
    match key.code {
        TermKeyCode::Char(ch) => Some(term_char_spec(ch, key.modifiers)),
        TermKeyCode::Enter => Some(seq![0x0du8]),
        TermKeyCode::Backspace => Some(seq![0x7fu8]),
        TermKeyCode::Tab => Some(seq![0x09u8]),
        TermKeyCode::BackTab => Some(seq![0x1bu8, 0x5b, 0x5a]),
        TermKeyCode::Esc => Some(seq![0x1bu8]),
        TermKeyCode::F(n) => f_key_spec(n),
        _ => navigation_sequence(key.code),
    }
}

/// Control with a letter sends the letter's control code, its place in the
/// alphabet (Control-A is 1, Control-C is 3, Control-Z is 26), the same for
/// either case, after an ESC when Alt is held too. Without Control or Alt an
/// ASCII character sends its own code.
pub proof fn law_control_letters(key: TermKey, ch: char)
    requires
        key.code == TermKeyCode::Char(ch),
    ensures
        'a' <= ch <= 'z' && key.modifiers.control && !key.modifiers.alt ==> term_key_event_spec(key)
            == Some(seq![(ch as u32 - 'a' as u32 + 1) as u8]),
        'A' <= ch <= 'Z' && key.modifiers.control && !key.modifiers.alt ==> term_key_event_spec(key)
            == Some(seq![(ch as u32 - 'A' as u32 + 1) as u8]),
        ('a' <= ch <= 'z' || 'A' <= ch <= 'Z') && key.modifiers.control && key.modifiers.alt
            ==> (term_key_event_spec(key) matches Some(b) && b.len() == 2 && b[0] == 0x1b && 1
            <= b[1] <= 26),
        (ch as u32) < 128 && !key.modifiers.control && !key.modifiers.alt ==> term_key_event_spec(
            key,
        ) == Some(seq![ch as u32 as u8]),
{
    if let TermKeyCode::Char(ch) = key.code {
        let v = ch as u32;
        if 'a' <= ch <= 'z' {
            let b = v as u8;
            assert(b == v);
            assert(b & 0x1f == b - 96) by (bit_vector)
                requires
                    97 <= b <= 122,
            ;
        } else if 'A' <= ch <= 'Z' {
            let b = (v + 32) as u8;
            assert(b == v + 32);
            assert(b & 0x1f == b - 96) by (bit_vector)
                requires
                    97 <= b <= 122,
            ;
        }
        if v < 128 && !key.modifiers.control && !key.modifiers.alt {
            assert((v & 0x7f) as u8 == v as u8) by (bit_vector)
                requires
                    v < 128,
            ;
            assert(encode_scalar(v) == seq![v as u8]);
            assert(Seq::<u8>::empty() + encode_scalar(v) =~= encode_scalar(v));
        }
        if ('a' <= ch <= 'z' || 'A' <= ch <= 'Z') && key.modifiers.control && key.modifiers.alt {
            let b = term_char_spec(ch, key.modifiers);
            assert(b =~= seq![0x1bu8].push(b[1]));
        }
    }
}

/// A key pressed with no modifier held.
pub open spec fn plain_key(code: TermKeyCode) -> TermKey {
    TermKey {
        code,
        kind: TermKeyKind::Press,
        modifiers: TermModifiers {
            shift: false,
            control: false,
            alt: false,
            super_key: false,
            hyper: false,
            meta: false,
        },
    }
}

/// A key pressed with only Control held.
pub open spec fn control_key(code: TermKeyCode) -> TermKey {
    TermKey {
        code,
        kind: TermKeyKind::Press,
        modifiers: TermModifiers {
            shift: false,
            control: true,
            alt: false,
            super_key: false,
            hyper: false,
            meta: false,
        },
    }
}

/// Alt sends ESC before whatever the character key sends without it.
pub proof fn law_alt_prefixes_escape(key: TermKey, other: TermKey, ch: char)
    requires
        key.code == TermKeyCode::Char(ch),
        other.code == key.code,
        key.modifiers.alt,
        !other.modifiers.alt,
        other.modifiers.control == key.modifiers.control,
    ensures
        term_key_event_spec(key) == Some(seq![0x1bu8] + term_key_event_spec(other)->0),
{
    let v = ch as u32;
    if key.modifiers.control && v < 128 {
        assert(seq![0x1bu8] + Seq::<u8>::empty().push(term_char_spec(ch, other.modifiers).last())
            =~= seq![0x1bu8].push(term_char_spec(ch, other.modifiers).last()));
        assert(Seq::<u8>::empty().push(term_char_spec(ch, other.modifiers).last()) =~= term_char_spec(
            ch,
            other.modifiers,
        ));
    } else {
        assert(Seq::<u8>::empty() + encode_scalar(v) =~= encode_scalar(v));
    }
}

/// The named keys send their control characters: Enter is carriage return
/// (Control-M), Tab is horizontal tab (Control-I), Esc is escape
/// (Control-[), and Backspace is DEL.
pub proof fn law_named_keys_are_control_characters()
    ensures
        term_key_event_spec(plain_key(TermKeyCode::Enter)) == term_key_event_spec(
            plain_key(TermKeyCode::Char('\r')),
        ),
        term_key_event_spec(plain_key(TermKeyCode::Enter)) == term_key_event_spec(
            control_key(TermKeyCode::Char('m')),
        ),
        term_key_event_spec(plain_key(TermKeyCode::Tab)) == term_key_event_spec(
            plain_key(TermKeyCode::Char('\t')),
        ),
        term_key_event_spec(plain_key(TermKeyCode::Tab)) == term_key_event_spec(
            control_key(TermKeyCode::Char('i')),
        ),
        term_key_event_spec(plain_key(TermKeyCode::Esc)) == term_key_event_spec(
            plain_key(TermKeyCode::Char('\x1b')),
        ),
        term_key_event_spec(plain_key(TermKeyCode::Esc)) == term_key_event_spec(
            control_key(TermKeyCode::Char('[')),
        ),
        term_key_event_spec(plain_key(TermKeyCode::Backspace)) == term_key_event_spec(
            plain_key(TermKeyCode::Char('\x7f')),
        ),
{
    assert(13u32 & 0x7f == 13 && 9u32 & 0x7f == 9 && 27u32 & 0x7f == 27 && 127u32 & 0x7f == 127
        && 0x6du8 & 0x1f == 13 && 0x69u8 & 0x1f == 9 && 0x5bu8 & 0x1f == 27) by (bit_vector);
    assert(Seq::<u8>::empty() + seq![13u8] =~= seq![13u8]);
    assert(Seq::<u8>::empty() + seq![9u8] =~= seq![9u8]);
    assert(Seq::<u8>::empty() + seq![27u8] =~= seq![27u8]);
    assert(Seq::<u8>::empty() + seq![127u8] =~= seq![127u8]);
    assert(Seq::<u8>::empty().push(13u8) =~= seq![13u8]);
    assert(Seq::<u8>::empty().push(9u8) =~= seq![9u8]);
    assert(Seq::<u8>::empty().push(27u8) =~= seq![27u8]);
}

/// The function keys F1 to F12, and no others, have sequences. F1-F4 are
/// `ESC O` and a letter counting up from `P`; F5-F12 are `ESC [`, a two-digit
/// code, `~`, and the code grows with the key's number.
pub proof fn law_function_keys(n: u8, m: u8)
    ensures
        f_key_spec(n) is Some <==> 1 <= n <= 12,
        1 <= n <= 4 ==> (f_key_spec(n) matches Some(b) && b.len() == 3 && b[0] == 0x1b && b[1]
            == 0x4f && b[2] == 0x50 + n - 1),
        5 <= n <= 12 ==> (f_key_spec(n) matches Some(b) && b.len() == 5 && b[0] == 0x1b && b[1]
            == 0x5b && 0x30 <= b[2] <= 0x39 && 0x30 <= b[3] <= 0x39 && b[4] == 0x7e),
        5 <= n < m <= 12 ==> (f_key_spec(n) matches Some(a) && f_key_spec(m) matches Some(b) && 10
            * a[2] + a[3] < 10 * b[2] + b[3]),
{
}

/// Encodes a key event for a terminal program.
pub fn encode_term_key_event(key: TermKey) -> (r: Option<Vec<u8>>)
    ensures
        match r {
            Some(v) => term_key_event_spec(key) == Some(v@),
            None => term_key_event_spec(key) is None,
        },
{
    match key.code {
        TermKeyCode::Char(ch) => Some(encode_term_char(ch, key.modifiers)),
        TermKeyCode::Enter => Some(bytes1(0x0d)),
        TermKeyCode::Backspace => Some(bytes1(0x7f)),
        TermKeyCode::Tab => Some(bytes1(0x09)),
        TermKeyCode::BackTab => Some(bytes3(0x1b, 0x5b, 0x5a)),
        TermKeyCode::Esc => Some(bytes1(0x1b)),
        TermKeyCode::F(n) => f_key_sequence(n),
        _ => navigation_bytes(key.code),
    }
}

/// The bytes a key sends to the external input feed: navigation and editing
/// keys as their escape sequences, a character as its code truncated to a byte.
pub open spec fn feed_key_spec(key: TermKey) -> Option<Seq<u8>> {
    match key.code {
        TermKeyCode::Enter => Some(seq![0x0du8]),
        TermKeyCode::Backspace => Some(seq![0x7fu8]),
        TermKeyCode::Esc => Some(seq![0x1bu8]),
        TermKeyCode::Tab => Some(seq![0x09u8]),
        TermKeyCode::Char(c) => Some(seq![c as u32 as u8]),
        _ => navigation_sequence(key.code),
    }
}

/// Encodes a key for the external input feed.
pub fn term_key_to_bytes(key: TermKey) -> (r: Option<Vec<u8>>)
    ensures
        match r {
            Some(v) => feed_key_spec(key) == Some(v@),
            None => feed_key_spec(key) is None,
        },
{
    match key.code {
        TermKeyCode::Enter => Some(bytes1(0x0d)),
        TermKeyCode::Backspace => Some(bytes1(0x7f)),
        TermKeyCode::Esc => Some(bytes1(0x1b)),
        TermKeyCode::Tab => Some(bytes1(0x09)),
        TermKeyCode::Char(c) => Some(bytes1(c as u32 as u8)),
        _ => navigation_bytes(key.code),
    }
}

/// Whether the key toggles keyboard focus between terminal and feed (F9).
pub fn is_term_focus_toggle(key: TermKey) -> (r: bool)
    ensures
        r == (key.code == TermKeyCode::F(9)),
{
    match key.code {
        TermKeyCode::F(n) => n == 9,
        _ => false,
    }
}

/// The key symbol of a terminal key, for the keys Doom understands.
pub open spec fn term_symbol(code: TermKeyCode) -> Option<KeySymbol> {
    match code {
        TermKeyCode::Char(c) => Some(KeySymbol::Char(c)),
        TermKeyCode::Up => Some(KeySymbol::ArrowUp),
        TermKeyCode::Down => Some(KeySymbol::ArrowDown),
        TermKeyCode::Left => Some(KeySymbol::ArrowLeft),
        TermKeyCode::Right => Some(KeySymbol::ArrowRight),
        TermKeyCode::Esc => Some(KeySymbol::Escape),
        TermKeyCode::Enter => Some(KeySymbol::Enter),
        TermKeyCode::Tab => Some(KeySymbol::Tab),
        TermKeyCode::Backspace => Some(KeySymbol::Backspace),
        TermKeyCode::Home => Some(KeySymbol::Home),
        TermKeyCode::End => Some(KeySymbol::End),
        TermKeyCode::PageUp => Some(KeySymbol::PageUp),
        TermKeyCode::PageDown => Some(KeySymbol::PageDown),
        _ => None,
    }
}

/// The Doom scancode of a terminal key.
pub fn doom_scancode_from_term_key(key: TermKey) -> (r: Option<u8>)
    ensures
        r == match term_symbol(key.code) {
            Some(s) => symbol_scancode(s),
            None => None,
        },
{
    let symbol = match key.code {
        TermKeyCode::Char(c) => KeySymbol::Char(c),
        TermKeyCode::Up => KeySymbol::ArrowUp,
        TermKeyCode::Down => KeySymbol::ArrowDown,
        TermKeyCode::Left => KeySymbol::ArrowLeft,
        TermKeyCode::Right => KeySymbol::ArrowRight,
        TermKeyCode::Esc => KeySymbol::Escape,
        TermKeyCode::Enter => KeySymbol::Enter,
        TermKeyCode::Tab => KeySymbol::Tab,
        TermKeyCode::Backspace => KeySymbol::Backspace,
        TermKeyCode::Home => KeySymbol::Home,
        TermKeyCode::End => KeySymbol::End,
        TermKeyCode::PageUp => KeySymbol::PageUp,
        TermKeyCode::PageDown => KeySymbol::PageDown,
        _ => {
            return None;
        },
    };
    scancode_from_symbol(symbol)
}

/// Whether a key ends an RGB demo: `q`, `Q` or Esc without modifiers, or
/// Control with `c` or `C`.
pub fn rgb_demo_should_exit(key: TermKey) -> (r: bool)
    ensures
        r == ((key.modifiers.spec_is_empty() && (key.code == TermKeyCode::Char('q') || key.code
            == TermKeyCode::Char('Q') || key.code == TermKeyCode::Esc)) || (key.modifiers.control
            && (key.code == TermKeyCode::Char('c') || key.code == TermKeyCode::Char('C')))),
{
    if key.modifiers.is_empty() {
        match key.code {
            TermKeyCode::Char(c) => {
                if c == 'q' || c == 'Q' {
                    return true;
                }
            },
            TermKeyCode::Esc => {
                return true;
            },
            _ => {},
        }
    }
    if key.modifiers.control {
        match key.code {
            TermKeyCode::Char(c) => {
                return c == 'c' || c == 'C';
            },
            _ => {},
        }
    }
    false
}

/// What a key does in the terminal view.
#[derive(Debug, Clone, PartialEq, Eq)]
pub enum TerminalKeyAction {
    /// The key is ignored (a release).
    Ignore,
    /// Control-Q: leave the terminal view.
    Exit,
    /// Send these bytes to the shell.
    Write(Vec<u8>),
}

/// What a key event does in the terminal view: releases are ignored, Control-Q
/// exits, and every other key sends its encoding to the shell if it has one.
pub open spec fn terminal_key_spec(key: TermKey) -> Option<Option<Seq<u8>>> {
    if key.kind == TermKeyKind::Release {
        None
    } else if key.modifiers.control && (key.code == TermKeyCode::Char('q') || key.code
        == TermKeyCode::Char('Q')) {
        Some(None)
    } else {
        Some(term_key_event_spec(key))
    }
}

/// Decides what a key event does in the terminal view.
pub fn handle_tui_key_event(key: TermKey) -> (r: TerminalKeyAction)
    ensures
        key.kind == TermKeyKind::Release ==> r == TerminalKeyAction::Ignore,
        key.kind != TermKeyKind::Release && key.modifiers.control && (key.code == TermKeyCode::Char(
            'q',
        ) || key.code == TermKeyCode::Char('Q')) ==> r == TerminalKeyAction::Exit,
        terminal_key_spec(key) matches Some(Some(b)) ==> (r matches TerminalKeyAction::Write(v)
            && v@ == b),
        terminal_key_spec(key) == Some(None::<Seq<u8>>) && !(key.modifiers.control && (key.code
            == TermKeyCode::Char('q') || key.code == TermKeyCode::Char('Q'))) ==> r
            == TerminalKeyAction::Ignore,
{
    match key.kind {
        TermKeyKind::Release => {
            return TerminalKeyAction::Ignore;
        },
        _ => {},
    }
    if key.modifiers.control {
        match key.code {
            TermKeyCode::Char(c) => {
                if c == 'q' || c == 'Q' {
                    return TerminalKeyAction::Exit;
                }
            },
            _ => {},
        }
    }
    match encode_term_key_event(key) {
        Some(bytes) => TerminalKeyAction::Write(bytes),
        None => TerminalKeyAction::Ignore,
    }
}

} // verus!

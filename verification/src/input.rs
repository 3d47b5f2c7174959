//! Keyboard routing: keys go either to the shell in the terminal pane or to
//! the external input feed that a raw RGB producer (such as Doom) reads, and
//! F9 switches between the two when the feed is available.

use vstd::prelude::*;
use crate::config::DemoKind;
use crate::keys::{law_game_keys, scancode_from_symbol, symbol_scancode, KeySymbol, DOOM_KEY_DOWN, DOOM_KEY_UP};
use crate::term_keys::{
    doom_scancode_from_term_key, feed_key_spec, is_term_focus_toggle, term_key_to_bytes,
    term_symbol, TermKey, TermKeyKind,
};

verus! {

/// Where keystrokes go.
#[derive(Clone, Copy, Debug, PartialEq, Eq, Structural)]
pub enum InputFocus {
    Terminal,
    Feed,
}

/// The other focus.
pub open spec fn flipped(f: InputFocus) -> InputFocus {
    match f {
        InputFocus::Terminal => InputFocus::Feed,
        InputFocus::Feed => InputFocus::Terminal,
    }
}

/// The focus the renderer starts with: the feed for Doom when its feed could
/// be opened, the terminal otherwise.
pub open spec fn initial_focus(demo: DemoKind, feed_open: bool) -> InputFocus {
    if demo == DemoKind::Doom && feed_open {
        InputFocus::Feed
    } else {
        InputFocus::Terminal
    }
}

/// The result of routing one key.
#[derive(Debug, Clone, PartialEq, Eq)]
pub struct KeyRouting {
    /// Whether the key was used up by the routing.
    pub consumed: bool,
    /// The event bytes to publish on the input feed.
    pub feed_event: Option<Vec<u8>>,
}

/// The feed event of a key for `demo`: for Doom, a key with a scancode sends
/// its press flag (1, or 0 for a release) and scancode; otherwise a pressed or
/// repeated key sends its terminal bytes.
pub open spec fn feed_event_spec(demo: DemoKind, key: TermKey) -> Option<Seq<u8>> {
    let code = match term_symbol(key.code) {
        Some(s) => symbol_scancode(s),
        None => None,
    };
    if demo == DemoKind::Doom && code is Some {
        Some(seq![if key.kind == TermKeyKind::Release { 0u8 } else { 1u8 }, code->0])
    } else if key.kind != TermKeyKind::Release {
        feed_key_spec(key)
    } else {
        None
    }
}

/// In Doom the terminal renderer publishes a key with a scancode on both
/// edges: two bytes, a flag that is 0 exactly when the key comes up, then the
/// scancode. The same key going down and coming up gives the same scancode
/// with opposite flags; a repeat reads as another press.
pub proof fn law_tui_doom_key_edges(key: TermKey, other: TermKey, symbol: KeySymbol, code: u8)
    requires
        term_symbol(key.code) == Some(symbol),
        symbol_scancode(symbol) == Some(code),
        other.code == key.code,
        (other.kind == TermKeyKind::Release) != (key.kind == TermKeyKind::Release),
    ensures
        feed_event_spec(DemoKind::Doom, key) matches Some(e) && e.len() == 2 && e[1] == code && (
        e[0] == 0u8 <==> key.kind == TermKeyKind::Release) && (e[0] == 1u8 <==> key.kind
            != TermKeyKind::Release),
        feed_event_spec(DemoKind::Doom, other) matches Some(f) && feed_event_spec(
            DemoKind::Doom,
            key,
        ) matches Some(e) && f[1] == e[1] && f[0] + e[0] == 1,
{
}

/// Keyboard routing of the terminal (TUI) renderer.
pub struct TuiInputState {
    demo: DemoKind,
    focus: InputFocus,
    feed_open: bool,
}

/// The routing state as plain values: demo, focus and whether the feed is open.
pub struct RoutingView {
    pub demo: DemoKind,
    pub focus: InputFocus,
    pub feed_open: bool,
}

impl View for TuiInputState {
    type V = RoutingView;

    closed spec fn view(&self) -> RoutingView {
        RoutingView { demo: self.demo, focus: self.focus, feed_open: self.feed_open }
    }
}

/// The routing invariant: without an open feed, keys stay with the terminal.
pub open spec fn routing_wf(v: RoutingView) -> bool {
    !v.feed_open ==> v.focus == InputFocus::Terminal
}

impl TuiInputState {
    /// The routing for `demo`, given whether its input feed could be opened.
    pub fn new(demo: DemoKind, feed_open: bool) -> (r: Self)
        ensures
            routing_wf(r@),
            r@.demo == demo,
            r@.feed_open == feed_open,
            r@.focus == initial_focus(demo, feed_open),
    {
        let focus = match demo {
            DemoKind::Doom => if feed_open {
                InputFocus::Feed
            } else {
                InputFocus::Terminal
            },
            _ => InputFocus::Terminal,
        };
        TuiInputState { demo, focus, feed_open }
    }

    /// The current focus.
    pub fn focus(&self) -> (r: InputFocus)
        ensures
            r == self@.focus,
    {
        self.focus
    }

    /// Flips the focus when the feed is open; reports whether it did.
    pub fn toggle(&mut self) -> (r: bool)
        ensures
            routing_wf(old(self)@) ==> routing_wf(final(self)@),
            r == old(self)@.feed_open,
            final(self)@.demo == old(self)@.demo,
            final(self)@.feed_open == old(self)@.feed_open,
            final(self)@.focus == if r {
                flipped(old(self)@.focus)
            } else {
                old(self)@.focus
            },
    {
        if !self.feed_open {
            return false;
        }
        self.focus = match self.focus {
            InputFocus::Terminal => InputFocus::Feed,
            InputFocus::Feed => InputFocus::Terminal,
        };
        true
    }

    fn dispatch_feed_key(&self, key: TermKey) -> (r: KeyRouting)
        ensures
            !self@.feed_open ==> !r.consumed && r.feed_event is None,
            self@.feed_open ==> match feed_event_spec(self@.demo, key) {
                Some(b) => r.consumed && (r.feed_event matches Some(v) && v@ == b),
                None => !r.consumed && r.feed_event is None,
            },
    {
        if !self.feed_open {
            return KeyRouting { consumed: false, feed_event: None };
        }
        match self.demo {
            DemoKind::Doom => {
                match doom_scancode_from_term_key(key) {
                    Some(code) => {
                        let flag: u8 = match key.kind {
                            TermKeyKind::Release => 0,
                            _ => 1,
                        };
                        let mut bytes: Vec<u8> = Vec::new();
                        bytes.push(flag);
                        bytes.push(code);
                        assert(bytes@ =~= feed_event_spec(self@.demo, key)->0);
                        return KeyRouting { consumed: true, feed_event: Some(bytes) };
                    },
                    None => {},
                }
            },
            _ => {},
        }
        match key.kind {
            TermKeyKind::Release => KeyRouting { consumed: false, feed_event: None },
            _ => match term_key_to_bytes(key) {
                Some(bytes) => KeyRouting { consumed: true, feed_event: Some(bytes) },
                None => KeyRouting { consumed: false, feed_event: None },
            },
        }
    }

    /// Routes one key: F9 toggles the focus; with the feed focused, the key's
    /// feed event is produced; with the terminal focused, nothing is consumed.
    pub fn handle_key(&mut self, key: TermKey) -> (r: KeyRouting)
        ensures
            routing_wf(old(self)@) ==> routing_wf(final(self)@),
            final(self)@.demo == old(self)@.demo,
            final(self)@.feed_open == old(self)@.feed_open,
            is_term_focus_toggle_spec(key) ==> r.consumed == old(self)@.feed_open
                && r.feed_event is None && final(self)@.focus == if old(self)@.feed_open {
                flipped(old(self)@.focus)
            } else {
                old(self)@.focus
            },
            !is_term_focus_toggle_spec(key) ==> final(self)@.focus == old(self)@.focus,
            !is_term_focus_toggle_spec(key) && old(self)@.focus == InputFocus::Terminal ==> !r.consumed
                && r.feed_event is None,
            !is_term_focus_toggle_spec(key) && old(self)@.focus == InputFocus::Feed
                && old(self)@.feed_open ==> match feed_event_spec(old(self)@.demo, key) {
                Some(b) => r.consumed && (r.feed_event matches Some(v) && v@ == b),
                None => !r.consumed && r.feed_event is None,
            },
            !old(self)@.feed_open ==> r.feed_event is None,
    {
        if is_term_focus_toggle(key) {
            let toggled = self.toggle();
            return KeyRouting { consumed: toggled, feed_event: None };
        }
        match self.focus {
            InputFocus::Terminal => KeyRouting { consumed: false, feed_event: None },
            InputFocus::Feed => self.dispatch_feed_key(key),
        }
    }
}

/// Pressing F9 twice gives the keyboard back to where it was: each press with
/// an open feed flips the focus, and flipping twice is the identity.
pub proof fn law_focus_toggle_twice(v: RoutingView)
    requires
        v.feed_open,
    ensures
        flipped(flipped(v.focus)) == v.focus,
        flipped(v.focus) != v.focus,
{
}

/// A key delivered to the input feed carries the bytes the shell would have
/// received for it: every navigation or editing key the feed knows, and every
/// ASCII character typed without Control or Alt.
pub proof fn law_feed_bytes_match_shell(key: TermKey)
    requires
        match key.code {
            crate::term_keys::TermKeyCode::Char(c) => (c as u32) < 128 && !key.modifiers.alt
                && !key.modifiers.control,
            _ => feed_key_spec(key) is Some,
        },
    ensures
        feed_key_spec(key) == crate::term_keys::term_key_event_spec(key),
{
    match key.code {
        crate::term_keys::TermKeyCode::Char(c) => {
            let x: u32 = c as u32;
            assert((x & 0x7F) as u8 == x as u8) by (bit_vector)
                requires
                    x < 128,
            ;
            assert(crate::term_keys::term_char_spec(c, key.modifiers) =~= seq![c as u32 as u8]);
        },
        _ => {},
    }
}

/// Whether a terminal key is the focus toggle, F9.
pub open spec fn is_term_focus_toggle_spec(key: TermKey) -> bool {
    key.code == crate::term_keys::TermKeyCode::F(9)
}

// ----------------------------------------------------------------------------
// Window keys

/// The named keys of a window key event that the renderer distinguishes.
#[derive(Clone, Copy, Debug, PartialEq, Eq, Structural)]
pub enum NamedKey {
    F9,
    Escape,
    ArrowUp,
    ArrowDown,
    ArrowLeft,
    ArrowRight,
    Enter,
    Tab,
    Backspace,
    Home,
    End,
    PageUp,
    PageDown,
    Space,
    Other,
}

/// The meaning of a window key: a named key or the text it types.
#[derive(Clone, Debug, PartialEq, Eq)]
pub enum LogicalKey {
    Named(NamedKey),
    Character(String),
    Other,
}

/// The physical key of a window key event, for the keys with escape sequences.
#[derive(Clone, Copy, Debug, PartialEq, Eq, Structural)]
pub enum PhysicalKey {
    Backspace,
    Enter,
    Tab,
    Escape,
    ArrowUp,
    ArrowDown,
    ArrowRight,
    ArrowLeft,
    Home,
    End,
    PageUp,
    PageDown,
    Insert,
    Delete,
    Other,
}

/// A window key event.
#[derive(Clone, Debug, PartialEq, Eq)]
pub struct WindowKey {
    pub logical: LogicalKey,
    pub physical: PhysicalKey,
    pub pressed: bool,
    pub text: Option<String>,
}

/// The escape sequence a physical key sends to a terminal.
pub open spec fn special_key_spec(k: PhysicalKey) -> Option<Seq<u8>> {
    match k {
        PhysicalKey::Backspace => Some(seq![0x7fu8]),
        PhysicalKey::Enter => Some(seq![0x0du8]),
        PhysicalKey::Tab => Some(seq![0x09u8]),
        PhysicalKey::Escape => Some(seq![0x1bu8]),
        PhysicalKey::ArrowUp => Some(seq![0x1bu8, 0x5b, 0x41]),
        PhysicalKey::ArrowDown => Some(seq![0x1bu8, 0x5b, 0x42]),
        PhysicalKey::ArrowRight => Some(seq![0x1bu8, 0x5b, 0x43]),
        PhysicalKey::ArrowLeft => Some(seq![0x1bu8, 0x5b, 0x44]),
        PhysicalKey::Home => Some(seq![0x1bu8, 0x5b, 0x48]),
        PhysicalKey::End => Some(seq![0x1bu8, 0x5b, 0x46]),
        PhysicalKey::PageUp => Some(seq![0x1bu8, 0x5b, 0x35, 0x7e]),
        PhysicalKey::PageDown => Some(seq![0x1bu8, 0x5b, 0x36, 0x7e]),
        PhysicalKey::Insert => Some(seq![0x1bu8, 0x5b, 0x32, 0x7e]),
        PhysicalKey::Delete => Some(seq![0x1bu8, 0x5b, 0x33, 0x7e]),
        PhysicalKey::Other => None,
    }
}

fn seq_bytes(a: u8, b: u8, c: u8, d: u8, len: usize) -> (r: Vec<u8>)
    requires
        1 <= len <= 4,
    ensures
        r@ == seq![a, b, c, d].take(len as int),
{
    let mut r: Vec<u8> = Vec::new();
    r.push(a);
    if len > 1 {
        r.push(b);
    }
    if len > 2 {
        r.push(c);
    }
    if len > 3 {
        r.push(d);
    }
    assert(r@ =~= seq![a, b, c, d].take(len as int));
    r
}

/// The escape sequence a window key sends to a terminal.
pub fn special_key_sequence(k: PhysicalKey) -> (r: Option<Vec<u8>>)
    ensures
        match r {
            Some(v) => special_key_spec(k) == Some(v@),
            None => special_key_spec(k) is None,
        },
{
    let r = match k {
        PhysicalKey::Backspace => Some(seq_bytes(0x7f, 0, 0, 0, 1)),
        PhysicalKey::Enter => Some(seq_bytes(0x0d, 0, 0, 0, 1)),
        PhysicalKey::Tab => Some(seq_bytes(0x09, 0, 0, 0, 1)),
        PhysicalKey::Escape => Some(seq_bytes(0x1b, 0, 0, 0, 1)),
        PhysicalKey::ArrowUp => Some(seq_bytes(0x1b, 0x5b, 0x41, 0, 3)),
        PhysicalKey::ArrowDown => Some(seq_bytes(0x1b, 0x5b, 0x42, 0, 3)),
        PhysicalKey::ArrowRight => Some(seq_bytes(0x1b, 0x5b, 0x43, 0, 3)),
        PhysicalKey::ArrowLeft => Some(seq_bytes(0x1b, 0x5b, 0x44, 0, 3)),
        PhysicalKey::Home => Some(seq_bytes(0x1b, 0x5b, 0x48, 0, 3)),
        PhysicalKey::End => Some(seq_bytes(0x1b, 0x5b, 0x46, 0, 3)),
        PhysicalKey::PageUp => Some(seq_bytes(0x1b, 0x5b, 0x35, 0x7e, 4)),
        PhysicalKey::PageDown => Some(seq_bytes(0x1b, 0x5b, 0x36, 0x7e, 4)),
        PhysicalKey::Insert => Some(seq_bytes(0x1b, 0x5b, 0x32, 0x7e, 4)),
        PhysicalKey::Delete => Some(seq_bytes(0x1b, 0x5b, 0x33, 0x7e, 4)),
        PhysicalKey::Other => None,
    };
    proof {
        match k {
            PhysicalKey::Backspace | PhysicalKey::Enter | PhysicalKey::Tab | PhysicalKey::Escape => {
                assert(special_key_spec(k)->0 =~= r->0@);
            },
            PhysicalKey::Other => {},
            _ => {
                assert(special_key_spec(k)->0 =~= r->0@);
            },
        }
    }
    r
}

/// The key symbol of a window key, for the keys Doom understands; a
/// character key stands for the first character of its text.
pub open spec fn window_symbol(k: LogicalKey) -> Option<KeySymbol> {
    match k {
        LogicalKey::Character(text) => if text@.len() > 0 {
            Some(KeySymbol::Char(text@[0]))
        } else {
            None
        },
        LogicalKey::Named(n) => match n {
            NamedKey::ArrowUp => Some(KeySymbol::ArrowUp),
            NamedKey::ArrowDown => Some(KeySymbol::ArrowDown),
            NamedKey::ArrowLeft => Some(KeySymbol::ArrowLeft),
            NamedKey::ArrowRight => Some(KeySymbol::ArrowRight),
            NamedKey::Escape => Some(KeySymbol::Escape),
            NamedKey::Enter => Some(KeySymbol::Enter),
            NamedKey::Tab => Some(KeySymbol::Tab),
            NamedKey::Backspace => Some(KeySymbol::Backspace),
            NamedKey::Home => Some(KeySymbol::Home),
            NamedKey::End => Some(KeySymbol::End),
            NamedKey::PageUp => Some(KeySymbol::PageUp),
            NamedKey::PageDown => Some(KeySymbol::PageDown),
            NamedKey::Space => Some(KeySymbol::Space),
            _ => None,
        },
        LogicalKey::Other => None,
    }
}

/// The Doom scancode of a window key.
pub fn doom_scancode_from_window_key(key: &WindowKey) -> (r: Option<u8>)
    ensures
        r == match window_symbol(key.logical) {
            Some(s) => symbol_scancode(s),
            None => None,
        },
{
    let symbol = match &key.logical {
        LogicalKey::Character(text) => {
            let chars = crate::text::chars_of(text.as_str());
            if chars.len() == 0 {
                return None;
            }
            KeySymbol::Char(chars[0])
        },
        LogicalKey::Named(n) => match n {
            NamedKey::ArrowUp => KeySymbol::ArrowUp,
            NamedKey::ArrowDown => KeySymbol::ArrowDown,
            NamedKey::ArrowLeft => KeySymbol::ArrowLeft,
            NamedKey::ArrowRight => KeySymbol::ArrowRight,
            NamedKey::Escape => KeySymbol::Escape,
            NamedKey::Enter => KeySymbol::Enter,
            NamedKey::Tab => KeySymbol::Tab,
            NamedKey::Backspace => KeySymbol::Backspace,
            NamedKey::Home => KeySymbol::Home,
            NamedKey::End => KeySymbol::End,
            NamedKey::PageUp => KeySymbol::PageUp,
            NamedKey::PageDown => KeySymbol::PageDown,
            NamedKey::Space => KeySymbol::Space,
            _ => {
                return None;
            },
        },
        LogicalKey::Other => {
            return None;
        },
    };
    scancode_from_symbol(symbol)
}

/// What a window key does.
#[derive(Debug, Clone, PartialEq, Eq)]
pub struct WindowKeyAction {
    /// Bytes for the shell in the terminal pane.
    pub terminal_write: Option<Vec<u8>>,
    /// Bytes to publish on the input feed.
    pub feed_event: Option<Vec<u8>>,
    /// Whether the window closes.
    pub exit: bool,
}

/// The terminal key a physical window key is.
pub open spec fn physical_term_code(k: PhysicalKey) -> Option<crate::term_keys::TermKeyCode> {
    match k {
        PhysicalKey::Backspace => Some(crate::term_keys::TermKeyCode::Backspace),
        PhysicalKey::Enter => Some(crate::term_keys::TermKeyCode::Enter),
        PhysicalKey::Tab => Some(crate::term_keys::TermKeyCode::Tab),
        PhysicalKey::Escape => Some(crate::term_keys::TermKeyCode::Esc),
        PhysicalKey::ArrowUp => Some(crate::term_keys::TermKeyCode::Up),
        PhysicalKey::ArrowDown => Some(crate::term_keys::TermKeyCode::Down),
        PhysicalKey::ArrowRight => Some(crate::term_keys::TermKeyCode::Right),
        PhysicalKey::ArrowLeft => Some(crate::term_keys::TermKeyCode::Left),
        PhysicalKey::Home => Some(crate::term_keys::TermKeyCode::Home),
        PhysicalKey::End => Some(crate::term_keys::TermKeyCode::End),
        PhysicalKey::PageUp => Some(crate::term_keys::TermKeyCode::PageUp),
        PhysicalKey::PageDown => Some(crate::term_keys::TermKeyCode::PageDown),
        PhysicalKey::Insert => Some(crate::term_keys::TermKeyCode::Insert),
        PhysicalKey::Delete => Some(crate::term_keys::TermKeyCode::Delete),
        PhysicalKey::Other => None,
    }
}

/// The window sends the shell what the terminal sends for the same key: a
/// special key without text gives the bytes that the terminal encoding gives
/// the same key pressed on its own, and a key the terminal does not know
/// gives nothing.
pub proof fn law_window_keys_match_terminal(k: PhysicalKey)
    ensures
        match physical_term_code(k) {
            Some(code) => special_key_spec(k) == crate::term_keys::term_key_event_spec(
                crate::term_keys::plain_key(code),
            ),
            None => special_key_spec(k) is None,
        },
{
}

/// The UTF-8 bytes of a key's typed text, when it is not empty.
pub open spec fn typed_bytes(key: WindowKey) -> Option<Seq<u8>> {
    match key.text {
        Some(t) => if t@.len() > 0 {
            Some(vstd::utf8::encode_utf8(t@))
        } else {
            None
        },
        None => None,
    }
}

/// The bytes of a window key for a terminal or the feed: its text when it
/// has some, the escape sequence of its physical key when it has no text.
pub open spec fn window_key_bytes(key: WindowKey) -> Option<Seq<u8>> {
    match key.text {
        Some(t) => typed_bytes(key),
        None => special_key_spec(key.physical),
    }
}

fn utf8_bytes(s: &str) -> (r: Vec<u8>)
    ensures
        r@ == vstd::utf8::encode_utf8(s@),
{
    let b = s.as_bytes();
    let mut r: Vec<u8> = Vec::new();
    let mut i: usize = 0;
    while i < b.len()
        invariant
            i <= b@.len(),
            b@ == vstd::utf8::encode_utf8(s@),
            r@ == b@.take(i as int),
        decreases b@.len() - i,
    {
        r.push(b[i]);
        i = i + 1;
        assert(r@ =~= b@.take(i as int));
    }
    assert(b@.take(b@.len() as int) =~= b@);
    r
}

fn window_key_to_bytes(key: &WindowKey) -> (r: Option<Vec<u8>>)
    ensures
        match r {
            Some(v) => window_key_bytes(*key) == Some(v@),
            None => window_key_bytes(*key) is None,
        },
{
    match &key.text {
        Some(t) => {
            if t.as_str().is_empty() {
                None
            } else {
                Some(utf8_bytes(t.as_str()))
            }
        },
        None => special_key_sequence(key.physical),
    }
}

/// Keyboard routing of the window (GUI) renderer.
pub struct WindowInputState {
    demo: DemoKind,
    focus: InputFocus,
    feed_open: bool,
}

impl View for WindowInputState {
    type V = RoutingView;

    closed spec fn view(&self) -> RoutingView {
        RoutingView { demo: self.demo, focus: self.focus, feed_open: self.feed_open }
    }
}

/// The feed event of a window key: for Doom a key with a scancode sends its
/// press flag and scancode, otherwise a pressed key sends its bytes.
pub open spec fn window_feed_event(demo: DemoKind, key: WindowKey) -> Option<Seq<u8>> {
    let code = match window_symbol(key.logical) {
        Some(s) => symbol_scancode(s),
        None => None,
    };
    if demo == DemoKind::Doom && code is Some {
        Some(seq![if key.pressed { 1u8 } else { 0u8 }, code->0])
    } else if key.pressed {
        window_key_bytes(key)
    } else {
        None
    }
}

/// In Doom a key with a scancode is published on both edges: its event is
/// two bytes, a flag that is 1 when the key goes down and 0 when it comes up,
/// then the scancode. So the same key pressed and then released gives two
/// events with the same scancode and opposite flags, and the game sees every
/// key that went down come up again.
pub proof fn law_doom_key_edges(key: WindowKey, other: WindowKey, symbol: KeySymbol, code: u8)
    requires
        window_symbol(key.logical) == Some(symbol),
        symbol_scancode(symbol) == Some(code),
        other.logical == key.logical,
        other.pressed != key.pressed,
    ensures
        window_feed_event(DemoKind::Doom, key) matches Some(e) && e.len() == 2 && e[1] == code && (
        e[0] == 1u8 <==> key.pressed) && (e[0] == 0u8 <==> !key.pressed),
        window_feed_event(DemoKind::Doom, other) matches Some(f) && window_feed_event(
            DemoKind::Doom,
            key,
        ) matches Some(e) && f[1] == e[1] && f[0] != e[0] && f[0] + e[0] == 1,
        symbol == KeySymbol::Char('w') || symbol == KeySymbol::Char('W') ==> (window_feed_event(
            DemoKind::Doom,
            key,
        ) matches Some(e) && e[1] == DOOM_KEY_UP),
        symbol == KeySymbol::Char('s') || symbol == KeySymbol::Char('S') ==> (window_feed_event(
            DemoKind::Doom,
            key,
        ) matches Some(e) && e[1] == DOOM_KEY_DOWN),
{
    if let KeySymbol::Char(c) = symbol {
        law_game_keys(c);
    }
}

/// The terminal renderer and the window send Doom the same event for the
/// same key: a terminal key and a window key that stand for the same symbol
/// with a scancode, one coming up exactly when the other does, give equal
/// feed events.
pub proof fn law_doom_events_agree(tkey: TermKey, wkey: WindowKey, symbol: KeySymbol)
    requires
        term_symbol(tkey.code) == Some(symbol),
        window_symbol(wkey.logical) == Some(symbol),
        symbol_scancode(symbol) is Some,
        (tkey.kind == TermKeyKind::Release) == !wkey.pressed,
    ensures
        feed_event_spec(DemoKind::Doom, tkey) == window_feed_event(DemoKind::Doom, wkey),
{
}

impl WindowInputState {
    /// The routing for `demo`, given whether its input feed could be opened.
    pub fn new(demo: DemoKind, feed_open: bool) -> (r: Self)
        ensures
            routing_wf(r@),
            r@.demo == demo,
            r@.feed_open == feed_open,
            r@.focus == initial_focus(demo, feed_open),
    {
        let focus = match demo {
            DemoKind::Doom => if feed_open {
                InputFocus::Feed
            } else {
                InputFocus::Terminal
            },
            _ => InputFocus::Terminal,
        };
        WindowInputState { demo, focus, feed_open }
    }

    /// The current focus.
    pub fn focus(&self) -> (r: InputFocus)
        ensures
            r == self@.focus,
    {
        self.focus
    }

    /// Flips the focus when the feed is open; reports whether it did.
    pub fn toggle_input_focus(&mut self) -> (r: bool)
        ensures
            routing_wf(old(self)@) ==> routing_wf(final(self)@),
            r == old(self)@.feed_open,
            final(self)@.demo == old(self)@.demo,
            final(self)@.feed_open == old(self)@.feed_open,
            final(self)@.focus == if r {
                flipped(old(self)@.focus)
            } else {
                old(self)@.focus
            },
    {
        if !self.feed_open {
            return false;
        }
        self.focus = match self.focus {
            InputFocus::Terminal => InputFocus::Feed,
            InputFocus::Feed => InputFocus::Terminal,
        };
        true
    }

    /// Routes one window key. F9 toggles the focus when the feed is open.
    /// With the terminal focused a pressed key writes its bytes to the shell;
    /// with the feed focused the key's feed event is published, and a key
    /// without one falls through. A pressed Escape that is not consumed by
    /// the feed closes the window.
    pub fn handle_key(&mut self, key: &WindowKey) -> (r: WindowKeyAction)
        ensures
            routing_wf(old(self)@) ==> routing_wf(final(self)@),
            final(self)@.demo == old(self)@.demo,
            final(self)@.feed_open == old(self)@.feed_open,
            ({
                let toggle = key.logical == LogicalKey::Named(NamedKey::F9) && old(self)@.feed_open;
                let feed = old(self)@.focus == InputFocus::Feed && old(self)@.feed_open;
                let event = window_feed_event(old(self)@.demo, *key);
                let escape = key.pressed && key.logical == LogicalKey::Named(NamedKey::Escape);
                &&& toggle ==> final(self)@.focus == flipped(old(self)@.focus) && r.terminal_write
                    is None && r.feed_event is None && !r.exit
                &&& !toggle ==> final(self)@.focus == old(self)@.focus
                &&& !toggle && old(self)@.focus == InputFocus::Terminal ==> r.feed_event is None
                    && r.exit == escape && (if key.pressed {
                    match window_key_bytes(*key) {
                        Some(b) => r.terminal_write matches Some(v) && v@ == b,
                        None => r.terminal_write is None,
                    }
                } else {
                    r.terminal_write is None
                })
                &&& !toggle && old(self)@.focus == InputFocus::Feed ==> r.terminal_write is None
                    && (if feed && event is Some {
                    r.feed_event matches Some(v) && v@ == event->0 && !r.exit
                } else {
                    r.feed_event is None && r.exit == escape
                })
            }),
    {
        let is_toggle = match &key.logical {
            LogicalKey::Named(n) => *n == NamedKey::F9,
            _ => false,
        };
        if is_toggle && self.toggle_input_focus() {
            return WindowKeyAction { terminal_write: None, feed_event: None, exit: false };
        }
        let mut terminal_write: Option<Vec<u8>> = None;
        match self.focus {
            InputFocus::Terminal => {
                if key.pressed {
                    terminal_write = window_key_to_bytes(key);
                }
            },
            InputFocus::Feed => {
                let event = self.dispatch_feed_event(key);
                if event.is_some() {
                    return WindowKeyAction { terminal_write: None, feed_event: event, exit: false };
                }
            },
        }
        let escape = key.pressed && match &key.logical {
            LogicalKey::Named(n) => *n == NamedKey::Escape,
            _ => false,
        };
        WindowKeyAction { terminal_write, feed_event: None, exit: escape }
    }

    fn dispatch_feed_event(&self, key: &WindowKey) -> (r: Option<Vec<u8>>)
        ensures
            !self@.feed_open ==> r is None,
            self@.feed_open ==> match window_feed_event(self@.demo, *key) {
                Some(b) => r matches Some(v) && v@ == b,
                None => r is None,
            },
    {
        if !self.feed_open {
            return None;
        }
        match self.demo {
            DemoKind::Doom => {
                match doom_scancode_from_window_key(key) {
                    Some(code) => {
                        let flag: u8 = if key.pressed {
                            1
                        } else {
                            0
                        };
                        let mut bytes: Vec<u8> = Vec::new();
                        bytes.push(flag);
                        bytes.push(code);
                        assert(bytes@ =~= window_feed_event(self@.demo, *key)->0);
                        return Some(bytes);
                    },
                    None => {},
                }
            },
            _ => {},
        }
        if key.pressed {
            window_key_to_bytes(key)
        } else {
            None
        }
    }
}

} // verus!

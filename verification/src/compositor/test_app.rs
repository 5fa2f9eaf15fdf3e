//! The built-in test application's logic: the key-to-character map and the
//! buffer of typed characters, and its window contents.
use vstd::prelude::*;

use crate::font::{Font, FontFace};
use crate::input::{InputEvent, KeyCode, KeyState};
use super::text::{draw_text_clipped, drawn_text, TITLE_GLYPH_WIDTH};

verus! {

/// Window width of the test application.
pub const APP_WIDTH: u32 = 400;
/// Window height of the test application.
pub const APP_HEIGHT: u32 = 300;
/// Background colour.
pub const APP_BG: u32 = 0xFF88_98C8;
/// Text colour.
pub const APP_FG: u32 = 0xFFFF_FFFF;
/// Characters the typed buffer holds.
pub const MAX_TYPED_CHARS: usize = 64;

/// The character a key types: letters (lower case), digits, space, period
/// and comma; other keys type nothing.
pub open spec fn key_char(code: u16) -> Option<u8> {
    match code {
        30 => Some(97u8),
        48 => Some(98u8),
        46 => Some(99u8),
        32 => Some(100u8),
        18 => Some(101u8),
        33 => Some(102u8),
        34 => Some(103u8),
        35 => Some(104u8),
        23 => Some(105u8),
        36 => Some(106u8),
        37 => Some(107u8),
        38 => Some(108u8),
        50 => Some(109u8),
        49 => Some(110u8),
        24 => Some(111u8),
        25 => Some(112u8),
        16 => Some(113u8),
        19 => Some(114u8),
        31 => Some(115u8),
        20 => Some(116u8),
        22 => Some(117u8),
        47 => Some(118u8),
        17 => Some(119u8),
        45 => Some(120u8),
        21 => Some(121u8),
        44 => Some(122u8),
        11 => Some(48u8),
        2 => Some(49u8),
        3 => Some(50u8),
        4 => Some(51u8),
        5 => Some(52u8),
        6 => Some(53u8),
        7 => Some(54u8),
        8 => Some(55u8),
        9 => Some(56u8),
        10 => Some(57u8),
        57 => Some(32u8),
        52 => Some(46u8),
        51 => Some(44u8),
        _ => None,
    }
}

/// The character `key` types.
pub fn keycode_to_ascii(key: KeyCode) -> (c: Option<u8>)
    ensures
        c == key_char(key.0),
{
    match key.0 {
        30 => Some(97),
        48 => Some(98),
        46 => Some(99),
        32 => Some(100),
        18 => Some(101),
        33 => Some(102),
        34 => Some(103),
        35 => Some(104),
        23 => Some(105),
        36 => Some(106),
        37 => Some(107),
        38 => Some(108),
        50 => Some(109),
        49 => Some(110),
        24 => Some(111),
        25 => Some(112),
        16 => Some(113),
        19 => Some(114),
        31 => Some(115),
        20 => Some(116),
        22 => Some(117),
        47 => Some(118),
        17 => Some(119),
        45 => Some(120),
        21 => Some(121),
        44 => Some(122),
        11 => Some(48),
        2 => Some(49),
        3 => Some(50),
        4 => Some(51),
        5 => Some(52),
        6 => Some(53),
        7 => Some(54),
        8 => Some(55),
        9 => Some(56),
        10 => Some(57),
        57 => Some(32),
        52 => Some(46),
        51 => Some(44),
        _ => None,
    }
}

/// What the user typed, up to `MAX_TYPED_CHARS` characters.
pub struct TypedBuffer {
    bytes: Vec<u8>,
}

impl View for TypedBuffer {
    type V = Seq<u8>;

    closed spec fn view(&self) -> Seq<u8> {
        self.bytes@
    }
}

impl TypedBuffer {
    /// Nothing typed.
    pub fn new() -> (t: TypedBuffer)
        ensures
            t@ == Seq::<u8>::empty(),
    {
        TypedBuffer { bytes: Vec::new() }
    }

    /// Append `byte`; `false` (unchanged) when the buffer is full.
    pub fn push(&mut self, byte: u8) -> (ok: bool)
        requires
            old(self)@.len() <= MAX_TYPED_CHARS,
        ensures
            ok == (old(self)@.len() < MAX_TYPED_CHARS),
            ok ==> final(self)@ == old(self)@.push(byte),
            !ok ==> final(self)@ == old(self)@,
            final(self)@.len() <= MAX_TYPED_CHARS,
    {
        if self.bytes.len() >= MAX_TYPED_CHARS {
            return false;
        }
        self.bytes.push(byte);
        true
    }

    /// The typed characters.
    pub fn as_slice(&self) -> (s: &[u8])
        ensures
            s@ == self@,
    {
        self.bytes.as_slice()
    }

    /// Number of typed characters.
    pub fn len(&self) -> (n: usize)
        ensures
            n == self@.len(),
    {
        self.bytes.len()
    }
}

/// The test application's window: its background, a centred greeting at
/// row 80, the label "You typed:" at (16, 140) and, when something was
/// typed, the typed text at (16, 164).
pub fn render_buffer(font: &mut Option<Font>, buffer: &mut Vec<u32>, typed: &TypedBuffer)
    requires
        *old(font) matches Some(f) ==> f.spec_face() == FontFace::Spleen8x16,
        old(buffer)@.len() == APP_WIDTH * APP_HEIGHT,
    ensures
        *final(font) is Some,
        *final(font) matches Some(f) ==> f.spec_face() == FontFace::Spleen8x16,
        final(buffer)@ == app_window(typed@),
{
    let n = buffer.len();
    let mut i: usize = 0;
    while i < n
        invariant
            i <= n,
            buffer@.len() == n,
            forall|j: int| 0 <= j < i ==> buffer@[j] == APP_BG,
        decreases n - i,
    {
        buffer.set(i, APP_BG);
        i = i + 1;
    }
    proof {
        assert(buffer@ =~= app_background());
    }
    let welcome: [u8; 16] = [72, 101, 108, 108, 111, 32, 102, 114, 111, 109, 32, 65, 73, 79, 83, 33];
    let text_w: i32 = 16 * TITLE_GLYPH_WIDTH;
    let welcome_x: i32 = ((APP_WIDTH as i32) - text_w) / 2;
    proof {
        assert(welcome@ =~= welcome_text());
        assert(welcome_x == 136);
    }
    draw_text_clipped(font, buffer, APP_WIDTH, APP_HEIGHT, welcome_x, 80, APP_WIDTH as i32, &welcome, APP_FG, APP_BG);
    let label: [u8; 10] = [89, 111, 117, 32, 116, 121, 112, 101, 100, 58];
    proof {
        assert(label@ =~= typed_label());
    }
    draw_text_clipped(font, buffer, APP_WIDTH, APP_HEIGHT, 16, 140, APP_WIDTH as i32, &label, APP_FG, APP_BG);
    if typed.len() > 0 {
        draw_text_clipped(font, buffer, APP_WIDTH, APP_HEIGHT, 16, 164, APP_WIDTH as i32, typed.as_slice(), APP_FG, APP_BG);
    }
}

/// `Hello from AIOS!`.
pub open spec fn welcome_text() -> Seq<u8> {
    seq![72u8, 101, 108, 108, 111, 32, 102, 114, 111, 109, 32, 65, 73, 79, 83, 33]
}

/// `You typed:`.
pub open spec fn typed_label() -> Seq<u8> {
    seq![89u8, 111, 117, 32, 116, 121, 112, 101, 100, 58]
}

/// The window filled with the background colour.
pub open spec fn app_background() -> Seq<u32> {
    Seq::new((APP_WIDTH * APP_HEIGHT) as nat, |i: int| APP_BG)
}

/// The test application's window for typed text `typed`: the background,
/// the greeting centred at row 80, the label at (16, 140) and, when
/// something was typed, the typed text at (16, 164), all clipped at the
/// window's right edge.
pub open spec fn app_window(typed: Seq<u8>) -> Seq<u32> {
    let w = APP_WIDTH as int;
    let h = APP_HEIGHT as int;
    let s1 = drawn_text(app_background(), w, h, 136, 80, w, welcome_text(), APP_FG, APP_BG, 16);
    let s2 = drawn_text(s1, w, h, 16, 140, w, typed_label(), APP_FG, APP_BG, 10);
    if typed.len() > 0 {
        drawn_text(s2, w, h, 16, 164, w, typed, APP_FG, APP_BG, typed.len() as int)
    } else {
        s2
    }
}

/// An event the test application receives from the compositor.
#[derive(Debug, Clone, Copy, PartialEq, Eq, Structural)]
pub enum AppEvent {
    /// An input event routed to its window.
    Input(InputEvent),
    /// The user asked to close the window.
    CloseRequested,
    /// Configure, focus, buffer-release and frame events: ignored.
    Other,
}

/// What the test application does after an event.
#[derive(Debug, Clone, Copy, PartialEq, Eq, Structural)]
pub enum AppAction {
    /// Nothing.
    Idle,
    /// Redraw the window and attach the buffer again.
    Redraw,
    /// Destroy the surface and stop.
    Close,
}

/// The character a key press in `ev` types, if it is one.
pub open spec fn typed_char(ev: AppEvent) -> Option<u8> {
    match ev {
        AppEvent::Input(InputEvent::Keyboard { key, state, .. }) => if state == KeyState::Pressed {
            key_char(key.0)
        } else {
            None
        },
        _ => None,
    }
}

/// One step of the test application's event loop: a key press of a
/// printable key appends its character (when there is room) and asks for
/// a redraw; a close request closes; everything else is ignored.
pub fn test_app_step(typed: &mut TypedBuffer, ev: AppEvent) -> (a: AppAction)
    requires
        old(typed)@.len() <= MAX_TYPED_CHARS,
    ensures
        final(typed)@.len() <= MAX_TYPED_CHARS,
        ev == AppEvent::CloseRequested ==> a == AppAction::Close && final(typed)@ == old(typed)@,
        typed_char(ev) is Some && old(typed)@.len() < MAX_TYPED_CHARS
            ==> a == AppAction::Redraw && final(typed)@ == old(typed)@.push(typed_char(ev)->0),
        ev != AppEvent::CloseRequested && !(typed_char(ev) is Some && old(typed)@.len() < MAX_TYPED_CHARS)
            ==> a == AppAction::Idle && final(typed)@ == old(typed)@,
{
    match ev {
        AppEvent::CloseRequested => AppAction::Close,
        AppEvent::Input(InputEvent::Keyboard { key, state: KeyState::Pressed, .. }) => {
            match keycode_to_ascii(key) {
                Some(byte) => {
                    if typed.push(byte) {
                        AppAction::Redraw
                    } else {
                        AppAction::Idle
                    }
                },
                None => AppAction::Idle,
            }
        },
        _ => AppAction::Idle,
    }
}

} // verus!

use vstd::prelude::*;
use crate::utils::{OFstate, TextType};

verus! {

/// One line of the on-screen log.
pub struct TextData {
    text_type: TextType,
    value: String,
}

impl TextData {
    /// The category of the line.
    pub closed spec fn spec_text_type(&self) -> TextType {
        self.text_type
    }

    /// The characters of the line.
    pub closed spec fn spec_value(&self) -> Seq<char> {
        self.value@
    }

    /// A line of the given category.
    pub fn new(text_type: TextType, value: String) -> (t: TextData)
        ensures
            t.spec_text_type() == text_type,
            t.spec_value() == value@,
    {
        TextData { text_type, value }
    }

    /// The category of the line.
    #[verifier::when_used_as_spec(spec_text_type)]
    pub fn text_type(&self) -> (t: TextType)
        ensures
            t == self.spec_text_type(),
    {
        self.text_type
    }

    /// The characters of the line.
    pub fn value(&self) -> (s: &str)
        ensures
            s@ == self.spec_value(),
    {
        self.value.as_str()
    }
}

/// The state that the machine shares with its display and keypad: the
/// framebuffer, the key latch and the on-screen log.
pub struct PeripheralMemory {
    pub vram: [[OFstate; 64]; 32],
    pub key_list: [bool; 16],
    pub text: Vec<TextData>,
}

impl PeripheralMemory {
    /// The shared state made of its three parts.
    pub fn new(vram: [[OFstate; 64]; 32], key_list: [bool; 16], text: Vec<TextData>) -> (p:
        PeripheralMemory)
        ensures
            p.vram == vram,
            p.key_list == key_list,
            p.text == text,
    {
        PeripheralMemory { vram, key_list, text }
    }
}

/// Side of the square that stands for one pixel on the screen.
pub const PIXEL_SIZE: u32 = 12;

/// Number of lines of the log that are shown.
pub const LOG_LINES: usize = 20;

/// Height of a line of the log on the screen.
pub const LINE_HEIGHT: i32 = 12;

/// Top of the newest line of the log on the screen.
pub const LOG_BOTTOM: i32 = 616;

/// A key of the keyboard, as far as the keypad knows it.
#[derive(Clone, Copy, Debug, PartialEq, Eq, Structural)]
pub enum Key {
    Num1,
    Num2,
    Num3,
    Num4,
    Q,
    W,
    E,
    R,
    A,
    S,
    D,
    F,
    Z,
    X,
    C,
    V,
    Escape,
    Other,
}

/// What the window reports.
#[derive(Clone, Copy, Debug, PartialEq, Eq, Structural)]
pub enum InputEvent {
    /// The window was closed.
    Quit,
    KeyDown(Key),
    KeyUp(Key),
    /// Anything else.
    Other,
}

/// The key of the keypad that a key of the keyboard stands for: the
/// block 1234 / QWER / ASDF / ZXCV is the keypad 123C / 456D / 789E / A0BF.
pub open spec fn keypad_of(key: Key) -> Option<u8> {
    match key {
        Key::Num1 => Some(0x1u8),
        Key::Num2 => Some(0x2u8),
        Key::Num3 => Some(0x3u8),
        Key::Num4 => Some(0xCu8),
        Key::Q => Some(0x4u8),
        Key::W => Some(0x5u8),
        Key::E => Some(0x6u8),
        Key::R => Some(0xDu8),
        Key::A => Some(0x7u8),
        Key::S => Some(0x8u8),
        Key::D => Some(0x9u8),
        Key::F => Some(0xEu8),
        Key::Z => Some(0xAu8),
        Key::X => Some(0x0u8),
        Key::C => Some(0xBu8),
        Key::V => Some(0xFu8),
        Key::Escape => None,
        Key::Other => None,
    }
}

/// What a run over the events leaves behind.
pub struct Handled {
    /// The key latch after the events.
    pub keys: Seq<bool>,
    /// Whether the user asked to quit.
    pub quit: bool,
}

/// The effect of the events from `from` on, taken in order. A key of the
/// keypad that goes down or up sets or clears its entry of the latch.
/// Closing the window or pressing Escape asks to quit. Any other key that
/// goes down or up ends the run: the events after it are dropped.
pub open spec fn handle_from(keys: Seq<bool>, events: Seq<InputEvent>, from: int) -> Handled
    decreases events.len() - from,
{
    if from < 0 || from >= events.len() {
        Handled { keys, quit: false }
    } else {
        match events[from] {
            InputEvent::Quit => Handled { keys, quit: true },
            InputEvent::KeyDown(Key::Escape) => Handled { keys, quit: true },
            InputEvent::KeyDown(key) => match keypad_of(key) {
                Some(k) => handle_from(keys.update(k as int, true), events, from + 1),
                None => Handled { keys, quit: false },
            },
            InputEvent::KeyUp(key) => match keypad_of(key) {
                Some(k) => handle_from(keys.update(k as int, false), events, from + 1),
                None => Handled { keys, quit: false },
            },
            InputEvent::Other => handle_from(keys, events, from + 1),
        }
    }
}

/// Tells which key of the keypad a key of the keyboard stands for.
pub fn keypad(key: Key) -> (k: Option<u8>)
    ensures
        k == keypad_of(key),
        k matches Some(i) ==> i < 16,
{
    match key {
        Key::Num1 => Some(0x01),
        Key::Num2 => Some(0x02),
        Key::Num3 => Some(0x03),
        Key::Num4 => Some(0x0c),
        Key::Q => Some(0x04),
        Key::W => Some(0x05),
        Key::E => Some(0x06),
        Key::R => Some(0x0d),
        Key::A => Some(0x07),
        Key::S => Some(0x08),
        Key::D => Some(0x09),
        Key::F => Some(0x0e),
        Key::Z => Some(0x0a),
        Key::X => Some(0x00),
        Key::C => Some(0x0b),
        Key::V => Some(0x0f),
        Key::Escape => None,
        Key::Other => None,
    }
}

/// Applies the events to the key latch, in order, and tells whether to
/// go on: `false` means that the user asked to quit.
pub fn handle_events(key_list: &mut [bool; 16], events: &Vec<InputEvent>) -> (go_on: bool)
    ensures
        final(key_list)@ == handle_from(old(key_list)@, events@, 0).keys,
        go_on == !handle_from(old(key_list)@, events@, 0).quit,
{
    let mut i: usize = 0;
    while i < events.len()
        invariant
            i <= events.len(),
            handle_from(key_list@, events@, i as int) == handle_from(old(key_list)@, events@, 0),
        decreases events.len() - i,
    {
        match events[i] {
            InputEvent::Quit => {
                return false;
            },
            InputEvent::KeyDown(Key::Escape) => {
                return false;
            },
            InputEvent::KeyDown(key) => match keypad(key) {
                Some(k) => {
                    key_list[k as usize] = true;
                },
                None => {
                    return true;
                },
            },
            InputEvent::KeyUp(key) => match keypad(key) {
                Some(k) => {
                    key_list[k as usize] = false;
                },
                None => {
                    return true;
                },
            },
            InputEvent::Other => {},
        }
        i += 1;
    }
    true
}

/// A line of the log on the screen: which line it is and where its top is.
#[derive(Clone, Copy, Debug, PartialEq, Eq, Structural)]
pub struct LogLine {
    /// Position of the line in the log.
    pub index: usize,
    /// Distance of the line's top from the top of the screen.
    pub y: i32,
}

/// The lines of a log of `len` lines that are shown: the newest twenty,
/// the newest first and lowest on the screen, each older one a line higher.
pub open spec fn call_log_spec(len: nat) -> Seq<LogLine> {
    Seq::new(
        if len < LOG_LINES {
            len
        } else {
            LOG_LINES as nat
        },
        |i: int| LogLine { index: (len - 1 - i) as usize, y: (LOG_BOTTOM - i * LINE_HEIGHT) as i32 },
    )
}

/// Picks the lines of the log that are shown and places them.
pub fn call_log(text: &Vec<TextData>) -> (lines: Vec<LogLine>)
    ensures
        lines@ == call_log_spec(text@.len()),
{
    let mut lines: Vec<LogLine> = Vec::new();
    let len = text.len();
    let mut i: usize = 0;
    while i < len && i < LOG_LINES
        invariant
            i <= len,
            i <= LOG_LINES,
            len == text@.len(),
            lines@.len() == i,
            forall|j: int| 0 <= j < i ==> lines@[j] == call_log_spec(len as nat)[j],
        decreases LOG_LINES - i,
    {
        match text[len - 1 - i].text_type {
            TextType::Function => {
                lines.push(LogLine { index: len - 1 - i, y: LOG_BOTTOM - (i as i32) * LINE_HEIGHT });
            },
        }
        i += 1;
    }
    assert(lines@ =~= call_log_spec(len as nat));
    lines
}

/// A square to fill on the screen.
#[derive(Clone, Copy, Debug, PartialEq, Eq, Structural)]
pub struct Square {
    pub x: i32,
    pub y: i32,
    pub side: u32,
    pub lit: bool,
}

/// The squares that show a framebuffer, row by row from the top, each row
/// from the left: the pixel in row `r` and column `c` is a square of twelve
/// by twelve at twelve times its column and row.
pub open spec fn draw_list_spec(vram: [[OFstate; 64]; 32]) -> Seq<Square> {
    Seq::new(
        2048,
        |i: int|
            Square {
                x: ((i % 64) * PIXEL_SIZE) as i32,
                y: ((i / 64) * PIXEL_SIZE) as i32,
                side: PIXEL_SIZE,
                lit: vram@[i / 64]@[i % 64].lit(),
            },
    )
}

/// Lists the squares that show a framebuffer.
pub fn draw_list(vram: &[[OFstate; 64]; 32]) -> (squares: Vec<Square>)
    ensures
        squares@ == draw_list_spec(*vram),
{
    let mut squares: Vec<Square> = Vec::new();
    let mut y: usize = 0;
    while y < 32
        invariant
            y <= 32,
            squares@.len() == y * 64,
            forall|i: int| 0 <= i < y * 64 ==> squares@[i] == draw_list_spec(*vram)[i],
        decreases 32 - y,
    {
        let screen_y = y as u32 * PIXEL_SIZE;
        let mut x: usize = 0;
        while x < 64
            invariant
                x <= 64,
                y < 32,
                screen_y == y * PIXEL_SIZE,
                squares@.len() == y * 64 + x,
                forall|i: int| 0 <= i < y * 64 + x ==> squares@[i] == draw_list_spec(*vram)[i],
            decreases 64 - x,
        {
            let screen_x = x as u32 * PIXEL_SIZE;
            let lit = vram[y][x].is_on();
            squares.push(Square { x: screen_x as i32, y: screen_y as i32, side: PIXEL_SIZE, lit });
            x += 1;
        }
        y += 1;
    }
    assert(squares@ =~= draw_list_spec(*vram));
    squares
}

} // verus!

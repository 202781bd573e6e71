//! Keys, and the bytes or scancodes they stand for.
//!
//! Nothing here reads or writes application state. A chord that is recognised
//! here is one the terminal never gets to see, so the predicates stay narrow.

use vstd::prelude::*;
use vstd::slice::*;
use vstd::string::*;
use vstd::utf8::encode_utf8;

use crate::terminal::TerminalScrollAction;
use crate::text::{
    ascii_lower, chars_of, law_lowering_forgets_case_alone, same_letter, to_ascii_lower,
};

verus! {

/// A physical key. `Other` stands for every key that has no name here.
#[derive(Debug, Clone, Copy, PartialEq, Eq, Structural)]
pub enum Code {
    Escape,
    Digit1,
    Digit2,
    Digit3,
    Digit4,
    Digit5,
    Digit6,
    Digit7,
    Digit8,
    Digit9,
    Digit0,
    Minus,
    Equal,
    Backspace,
    Tab,
    KeyQ,
    KeyW,
    KeyE,
    KeyR,
    KeyT,
    KeyY,
    KeyU,
    KeyI,
    KeyO,
    KeyP,
    BracketLeft,
    BracketRight,
    Enter,
    ControlLeft,
    KeyA,
    KeyS,
    KeyD,
    KeyF,
    KeyG,
    KeyH,
    KeyJ,
    KeyK,
    KeyL,
    Semicolon,
    Quote,
    Backquote,
    ShiftLeft,
    Backslash,
    KeyZ,
    KeyX,
    KeyC,
    KeyV,
    KeyB,
    KeyN,
    KeyM,
    Comma,
    Period,
    Slash,
    ShiftRight,
    NumpadMultiply,
    AltLeft,
    Space,
    CapsLock,
    F1,
    F2,
    F3,
    F4,
    F5,
    F6,
    F7,
    F8,
    F9,
    F10,
    NumLock,
    ScrollLock,
    Numpad7,
    Numpad8,
    Numpad9,
    NumpadSubtract,
    Numpad4,
    Numpad5,
    Numpad6,
    NumpadAdd,
    Numpad1,
    Numpad2,
    Numpad3,
    Numpad0,
    NumpadDecimal,
    IntlBackslash,
    F11,
    F12,
    NumpadEnter,
    ControlRight,
    NumpadDivide,
    AltRight,
    Home,
    ArrowUp,
    PageUp,
    ArrowLeft,
    ArrowRight,
    End,
    ArrowDown,
    PageDown,
    Insert,
    Delete,
    SuperLeft,
    SuperRight,
    ContextMenu,
    PrintScreen,
    Other,
}

/// A key with an established name. `Other` stands for every such key that has
/// no name here.
#[derive(Debug, Clone, Copy, PartialEq, Eq, Structural)]
pub enum Named {
    Enter,
    Tab,
    Backspace,
    Escape,
    ArrowUp,
    ArrowDown,
    ArrowRight,
    ArrowLeft,
    Home,
    End,
    Insert,
    Delete,
    PageUp,
    PageDown,
    F1,
    F2,
    F3,
    F4,
    F5,
    F6,
    F7,
    F8,
    F9,
    F10,
    F11,
    F12,
    Other,
}

/// A key as the layout names it.
#[derive(Debug, Clone)]
pub enum Key {
    Named(Named),
    Character(String),
    Unidentified,
}

/// Which modifier keys are held.
#[derive(Debug, Clone, Copy, PartialEq, Eq, Structural)]
pub struct Modifiers {
    pub shift: bool,
    pub control: bool,
    pub alt: bool,
    pub logo: bool,
}

/// A physical key as the windowing library reports it.
#[verifier::external_type_specification]
#[verifier::external_body]
pub struct ExPhysical(iced::keyboard::key::Physical);

/// A key that went down.
#[derive(Debug)]
pub struct KeyPress {
    pub key: Key,
    pub modified_key: Key,
    pub physical: iced::keyboard::key::Physical,
    pub code: Option<Code>,
    pub modifiers: Modifiers,
    pub text: Option<String>,
}

/// What the keyboard reports.
#[derive(Debug)]
pub enum KeyEvent {
    Pressed(KeyPress),
    Released(Option<Code>),
    ModifiersChanged(Modifiers),
}

// Latin letters on any layout.

/// The Latin character that `iced::keyboard::Key::to_latin` gives a character key
/// with this text on this physical key.
pub uninterp spec fn latin_on(text: Seq<char>, physical: iced::keyboard::key::Physical) -> Option<
    char,
>;

/// Calls `iced::keyboard::Key::to_latin` on the character key with this text. The
/// result is the named character. No text gives nothing; a single character below
/// U+0370 gives itself; any other text gives the lower-case letter or the digit that
/// the physical key bears on a US keyboard, or nothing where it bears neither. Which of
/// these it is depends on the physical key alone.
#[verifier::external_body]
fn latin_of(text: &str, physical: &iced::keyboard::key::Physical) -> (r: Option<char>)
    ensures
        r == latin_on(text@, *physical),
        text@.len() == 0 ==> r is None,
        text@.len() == 1 && '\u{370}' > text@[0] ==> r == Some(text@[0]),
        text@.len() > 1 || (text@.len() == 1 && text@[0] >= '\u{370}') ==> (r matches Some(c)
            ==> 'a' <= c <= 'z' || '0' <= c <= '9'),
{
    iced::keyboard::Key::Character(text.into()).to_latin(*physical)
}

/// The Latin character of a key on any layout; one that is not a character has none.
pub open spec fn latin_character(key: Key, physical: iced::keyboard::key::Physical) -> Option<
    char,
> {
    match key {
        Key::Character(text) => latin_on(text@, physical),
        _ => None,
    }
}

/// The character of a key that is a single one of a Latin layout.
pub open spec fn own_latin(key: Key) -> Option<char> {
    match key {
        Key::Character(text) => if text@.len() == 1 && '\u{370}' > text@[0] {
            Some(text@[0])
        } else {
            None
        },
        _ => None,
    }
}

/// The Latin character of a key, on any layout. On a Latin one it is the key's own;
/// on another it is a lower-case letter or a digit, where there is one.
pub fn key_latin(key: &Key, physical: &iced::keyboard::key::Physical) -> (r: Option<char>)
    ensures
        r == latin_character(*key, *physical),
        match own_latin(*key) {
            Some(c) => r == Some(c),
            None => r matches Some(c) ==> 'a' <= c <= 'z' || '0' <= c <= '9',
        },
{
    match key {
        Key::Character(text) => latin_of(text.as_str(), physical),
        _ => None,
    }
}

// Application chords.

/// Whether a key event is the Enter key going down.
pub fn is_enter_key(event: &KeyEvent) -> (r: bool)
    ensures
        r == (event matches KeyEvent::Pressed(press) && press.key == Key::Named(Named::Enter)),
{
    match event {
        KeyEvent::Pressed(press) => match press.key {
            Key::Named(Named::Enter) => true,
            _ => false,
        },
        _ => false,
    }
}

/// Whether a key event is the Escape key going down.
pub fn is_escape_key(event: &KeyEvent) -> (r: bool)
    ensures
        r == (event matches KeyEvent::Pressed(press) && press.key == Key::Named(Named::Escape)),
{
    match event {
        KeyEvent::Pressed(press) => match press.key {
            Key::Named(Named::Escape) => true,
            _ => false,
        },
        _ => false,
    }
}

/// Whether the Latin character of a key is this one, up to ASCII case.
pub open spec fn latin_is(latin: Option<char>, key: char) -> bool {
    latin matches Some(c) && ascii_lower(c) == ascii_lower(key)
}

fn is_latin(latin: Option<char>, key: char) -> (r: bool)
    ensures
        r == latin_is(latin, key),
{
    match latin {
        Some(c) => to_ascii_lower(c) == to_ascii_lower(key),
        None => false,
    }
}

/// Whether Ctrl, Shift and the key with this Latin character form the chord.
pub open spec fn ctrl_shift_chord(modifiers: Modifiers, latin: Option<char>, key: char) -> bool {
    modifiers.control && modifiers.shift && latin_is(latin, key)
}

/// Whether Alt alone and the key with this Latin character form the chord.
pub open spec fn alt_chord(modifiers: Modifiers, latin: Option<char>, key: char) -> bool {
    modifiers.alt && !modifiers.control && !modifiers.shift && latin_is(latin, key)
}

/// Whether Ctrl+Shift and the key whose Latin character is `latin` form the
/// chord on `key`.
pub fn ctrl_shift_pressed(modifiers: Modifiers, latin: Option<char>, key: char) -> (r: bool)
    ensures
        r == ctrl_shift_chord(modifiers, latin, key),
{
    modifiers.control && modifiers.shift && is_latin(latin, key)
}

/// Whether Alt alone and the key whose Latin character is `latin` form the
/// chord on `key`.
pub fn alt_pressed(modifiers: Modifiers, latin: Option<char>, key: char) -> (r: bool)
    ensures
        r == alt_chord(modifiers, latin, key),
{
    modifiers.alt && !modifiers.control && !modifiers.shift && is_latin(latin, key)
}

/// Whether a key event is Ctrl+Shift and this key, on any layout.
pub fn terminal_shortcut(event: &KeyEvent, key: char) -> (r: bool)
    ensures
        match event {
            KeyEvent::Pressed(press) => r == ctrl_shift_chord(
                press.modifiers,
                latin_character(press.key, press.physical),
                key,
            ),
            _ => !r,
        },
{
    match event {
        KeyEvent::Pressed(press) => {
            let latin: Option<char> = key_latin(&press.key, &press.physical);
            ctrl_shift_pressed(press.modifiers, latin, key)
        },
        _ => false,
    }
}

/// Whether a key event is Alt alone and this key, on any layout. Alt otherwise
/// prefixes terminal input with an escape, so such a chord is claimed before
/// the terminal sees it.
pub fn alt_shortcut(event: &KeyEvent, key: char) -> (r: bool)
    ensures
        match event {
            KeyEvent::Pressed(press) => r == alt_chord(
                press.modifiers,
                latin_character(press.key, press.physical),
                key,
            ),
            _ => !r,
        },
{
    match event {
        KeyEvent::Pressed(press) => {
            let latin: Option<char> = key_latin(&press.key, &press.physical);
            alt_pressed(press.modifiers, latin, key)
        },
        _ => false,
    }
}

/// Whether a key event is the chord that copies the selection.
pub fn is_terminal_copy_shortcut(event: &KeyEvent) -> (r: bool)
    ensures
        match event {
            KeyEvent::Pressed(press) => r == ctrl_shift_chord(
                press.modifiers,
                latin_character(press.key, press.physical),
                'c',
            ),
            _ => !r,
        },
{
    terminal_shortcut(event, 'c')
}

/// Whether a key event is the chord that pastes.
pub fn is_terminal_paste_shortcut(event: &KeyEvent) -> (r: bool)
    ensures
        match event {
            KeyEvent::Pressed(press) => r == ctrl_shift_chord(
                press.modifiers,
                latin_character(press.key, press.physical),
                'v',
            ),
            _ => !r,
        },
{
    terminal_shortcut(event, 'v')
}

/// How far one page scrolls a viewport of this many rows: one row less, and at
/// least one.
pub open spec fn page_rows(visible_rows: u16) -> int {
    if visible_rows > 2 {
        visible_rows - 1
    } else {
        1
    }
}

/// The scroll that a key event asks for: Shift with a page key moves a page,
/// and Ctrl and Shift with Home or End go to either end.
pub open spec fn scroll_chord(event: KeyEvent, visible_rows: u16) -> Option<TerminalScrollAction> {
    match event {
        KeyEvent::Pressed(press) => if !press.modifiers.shift {
            None
        } else if press.key == Key::Named(Named::PageUp) {
            Some(TerminalScrollAction::Lines(page_rows(visible_rows) as i32))
        } else if press.key == Key::Named(Named::PageDown) {
            Some(TerminalScrollAction::Lines((-page_rows(visible_rows)) as i32))
        } else if press.key == Key::Named(Named::Home) && press.modifiers.control {
            Some(TerminalScrollAction::Top)
        } else if press.key == Key::Named(Named::End) && press.modifiers.control {
            Some(TerminalScrollAction::Bottom)
        } else {
            None
        },
        _ => None,
    }
}

/// The scroll that a key event asks for.
pub fn terminal_scroll_shortcut(event: &KeyEvent, visible_rows: u16) -> (r: Option<
    TerminalScrollAction,
>)
    ensures
        r == scroll_chord(*event, visible_rows),
{
    let press: &KeyPress = match event {
        KeyEvent::Pressed(press) => press,
        _ => {
            return None;
        },
    };
    if !press.modifiers.shift {
        return None;
    }
    let named: Named = match &press.key {
        Key::Named(named) => *named,
        _ => {
            return None;
        },
    };
    let page: i32 = if visible_rows > 2 {
        visible_rows as i32 - 1
    } else {
        1
    };
    match named {
        Named::PageUp => Some(TerminalScrollAction::Lines(page)),
        Named::PageDown => Some(TerminalScrollAction::Lines(-page)),
        Named::Home => if press.modifiers.control {
            Some(TerminalScrollAction::Top)
        } else {
            None
        },
        Named::End => if press.modifiers.control {
            Some(TerminalScrollAction::Bottom)
        } else {
            None
        },
        _ => None,
    }
}

// Bytes for a terminal.

/// The control byte of a character: a letter's position in the alphabet, or
/// what tradition gives a few punctuation marks.
pub open spec fn control_of(c: char) -> Option<u8> {
    let c = ascii_lower(c);
    if 'a' <= c <= 'z' {
        Some((c as int - 'a' as int + 1) as u8)
    } else if c == ' ' || c == '@' {
        Some(0x00u8)
    } else if c == '[' {
        Some(0x1bu8)
    } else if c == '\\' {
        Some(0x1cu8)
    } else if c == ']' {
        Some(0x1du8)
    } else if c == '^' {
        Some(0x1eu8)
    } else if c == '_' {
        Some(0x1fu8)
    } else if c == '?' {
        Some(0x7fu8)
    } else {
        None
    }
}

/// The character that a key's control byte is taken from: its Latin character,
/// else the first character it types.
pub open spec fn control_character(key: Key, latin: Option<char>) -> Option<char> {
    match latin {
        Some(c) => Some(c),
        None => match key {
            Key::Character(text) => if text@.len() > 0 {
                Some(text@[0])
            } else {
                None
            },
            _ => None,
        },
    }
}

/// The control byte of a key whose Latin character is `latin`.
pub open spec fn key_control(key: Key, latin: Option<char>) -> Option<u8> {
    match control_character(key, latin) {
        Some(c) => control_of(c),
        None => None,
    }
}

/// The control byte of a key whose Latin character is `latin`.
pub fn control_byte(key: &Key, latin: Option<char>) -> (r: Option<u8>)
    ensures
        r == key_control(*key, latin),
{
    let picked: Option<char> = match latin {
        Some(c) => Some(c),
        None => match key {
            Key::Character(text) => {
                let chars: Vec<char> = chars_of(text.as_str());
                if chars.len() > 0 {
                    Some(chars[0])
                } else {
                    None
                }
            },
            _ => None,
        },
    };
    let character: char = match picked {
        Some(c) => to_ascii_lower(c),
        None => {
            return None;
        },
    };
    if 'a' <= character && character <= 'z' {
        Some((character as u8) - 96)
    } else if character == ' ' || character == '@' {
        Some(0x00)
    } else if character == '[' {
        Some(0x1b)
    } else if character == '\\' {
        Some(0x1c)
    } else if character == ']' {
        Some(0x1d)
    } else if character == '^' {
        Some(0x1e)
    } else if character == '_' {
        Some(0x1f)
    } else if character == '?' {
        Some(0x7f)
    } else {
        None
    }
}

/// The sequence that a named key sends.
pub open spec fn named_sequence(named: Named, shift: bool) -> Option<Seq<char>> {
    match named {
        Named::Enter => Some("\r"@),
        Named::Tab => if shift {
            Some("\x1b[Z"@)
        } else {
            Some("\t"@)
        },
        Named::Backspace => Some("\x7f"@),
        Named::Escape => Some("\x1b"@),
        Named::ArrowUp => Some("\x1b[A"@),
        Named::ArrowDown => Some("\x1b[B"@),
        Named::ArrowRight => Some("\x1b[C"@),
        Named::ArrowLeft => Some("\x1b[D"@),
        Named::Home => Some("\x1b[H"@),
        Named::End => Some("\x1b[F"@),
        Named::Insert => Some("\x1b[2~"@),
        Named::Delete => Some("\x1b[3~"@),
        Named::PageUp => Some("\x1b[5~"@),
        Named::PageDown => Some("\x1b[6~"@),
        Named::F1 => Some("\x1bOP"@),
        Named::F2 => Some("\x1bOQ"@),
        Named::F3 => Some("\x1bOR"@),
        Named::F4 => Some("\x1bOS"@),
        Named::F5 => Some("\x1b[15~"@),
        Named::F6 => Some("\x1b[17~"@),
        Named::F7 => Some("\x1b[18~"@),
        Named::F8 => Some("\x1b[19~"@),
        Named::F9 => Some("\x1b[20~"@),
        Named::F10 => Some("\x1b[21~"@),
        Named::F11 => Some("\x1b[23~"@),
        Named::F12 => Some("\x1b[24~"@),
        Named::Other => None,
    }
}

/// The sequence that a named key sends.
pub fn named_key_sequence(named: Named, modifiers: Modifiers) -> (r: Option<&'static str>)
    ensures
        r is Some == named_sequence(named, modifiers.shift) is Some,
        r matches Some(s) ==> named_sequence(named, modifiers.shift) == Some(s@),
{
    let shift: bool = modifiers.shift;
    match named {
        Named::Enter => Some("\r"),
        Named::Tab => if shift {
            Some("\x1b[Z")
        } else {
            Some("\t")
        },
        Named::Backspace => Some("\x7f"),
        Named::Escape => Some("\x1b"),
        Named::ArrowUp => Some("\x1b[A"),
        Named::ArrowDown => Some("\x1b[B"),
        Named::ArrowRight => Some("\x1b[C"),
        Named::ArrowLeft => Some("\x1b[D"),
        Named::Home => Some("\x1b[H"),
        Named::End => Some("\x1b[F"),
        Named::Insert => Some("\x1b[2~"),
        Named::Delete => Some("\x1b[3~"),
        Named::PageUp => Some("\x1b[5~"),
        Named::PageDown => Some("\x1b[6~"),
        Named::F1 => Some("\x1bOP"),
        Named::F2 => Some("\x1bOQ"),
        Named::F3 => Some("\x1bOR"),
        Named::F4 => Some("\x1bOS"),
        Named::F5 => Some("\x1b[15~"),
        Named::F6 => Some("\x1b[17~"),
        Named::F7 => Some("\x1b[18~"),
        Named::F8 => Some("\x1b[19~"),
        Named::F9 => Some("\x1b[20~"),
        Named::F10 => Some("\x1b[21~"),
        Named::F11 => Some("\x1b[23~"),
        Named::F12 => Some("\x1b[24~"),
        Named::Other => None,
    }
}

/// Typed text as bytes, after an escape where Alt is held.
pub open spec fn typed(text: Seq<char>, alt: bool) -> Seq<u8> {
    if alt {
        seq![0x1bu8] + encode_utf8(text)
    } else {
        encode_utf8(text)
    }
}

/// The bytes that a key press whose Latin character is `latin` sends: its
/// control byte or its sequence, else the text it types; with Ctrl, nothing
/// else.
pub open spec fn encoded(press: KeyPress, latin: Option<char>) -> Option<Seq<u8>> {
    let control = press.modifiers.control;
    let sequence = match press.key {
        Key::Named(named) => named_sequence(named, press.modifiers.shift),
        _ => None,
    };
    if control && key_control(press.key, latin) is Some {
        Some(seq![key_control(press.key, latin)->0])
    } else if sequence is Some {
        Some(encode_utf8(sequence->0))
    } else if control {
        None
    } else if press.text is Some && (press.text->0)@.len() > 0 {
        Some(typed((press.text->0)@, press.modifiers.alt))
    } else {
        match press.modified_key {
            Key::Character(text) => if text@.len() > 0 {
                Some(typed(text@, press.modifiers.alt))
            } else {
                None
            },
            _ => None,
        }
    }
}

/// Typed text as bytes, after an escape where Alt is held.
fn typed_bytes(text: &str, alt: bool) -> (r: Vec<u8>)
    ensures
        r@ == typed(text@, alt),
{
    let mut bytes: Vec<u8> = Vec::new();
    if alt {
        bytes.push(0x1b);
    }
    let mut rest: Vec<u8> = text.as_bytes_vec();
    bytes.append(&mut rest);
    assert(bytes@ =~= typed(text@, alt));
    bytes
}

/// Whether these are the bytes that a key press whose Latin character is `latin`
/// sends, or rightly none.
pub open spec fn sends(bytes: Option<Vec<u8>>, press: KeyPress, latin: Option<char>) -> bool {
    match bytes {
        Some(bytes) => encoded(press, latin) == Some(bytes@),
        None => encoded(press, latin) is None,
    }
}

/// The bytes that a key press whose Latin character is `latin` sends.
pub fn encode_key_press(press: &KeyPress, latin: Option<char>) -> (r: Option<Vec<u8>>)
    ensures
        sends(r, *press, latin),
{
    let control: bool = press.modifiers.control;
    if control {
        if let Some(byte) = control_byte(&press.key, latin) {
            let mut bytes: Vec<u8> = Vec::new();
            bytes.push(byte);
            assert(bytes@ =~= seq![byte]);
            return Some(bytes);
        }
    }
    if let Key::Named(named) = &press.key {
        if let Some(sequence) = named_key_sequence(*named, press.modifiers) {
            return Some(sequence.as_bytes_vec());
        }
    }
    if control {
        return None;
    }
    if let Some(text) = &press.text {
        if !text.as_str().is_empty() {
            return Some(typed_bytes(text.as_str(), press.modifiers.alt));
        }
    }
    if let Key::Character(text) = &press.modified_key {
        if !text.as_str().is_empty() {
            return Some(typed_bytes(text.as_str(), press.modifiers.alt));
        }
    }
    None
}

/// The bytes that a key event sends, on any layout. On a Latin one the physical key
/// makes no difference.
pub fn encode_keyboard_event(event: &KeyEvent) -> (r: Option<Vec<u8>>)
    ensures
        match event {
            KeyEvent::Pressed(press) => {
                &&& sends(r, *press, latin_character(press.key, press.physical))
                &&& own_latin(press.key) is Some ==> sends(r, *press, own_latin(press.key))
            },
            _ => r is None,
        },
{
    match event {
        KeyEvent::Pressed(press) => {
            let latin: Option<char> = key_latin(&press.key, &press.physical);
            encode_key_press(press, latin)
        },
        _ => None,
    }
}

// Scancodes for a remote desktop.

/// The PC/AT set 1 make code of a physical key, and whether it belongs to the
/// set prefixed with E0.
pub open spec fn scancode(code: Code) -> Option<(u8, bool)> {
    match code {
        Code::Escape => Some((0x01u8, false)),
        Code::Digit1 => Some((0x02u8, false)),
        Code::Digit2 => Some((0x03u8, false)),
        Code::Digit3 => Some((0x04u8, false)),
        Code::Digit4 => Some((0x05u8, false)),
        Code::Digit5 => Some((0x06u8, false)),
        Code::Digit6 => Some((0x07u8, false)),
        Code::Digit7 => Some((0x08u8, false)),
        Code::Digit8 => Some((0x09u8, false)),
        Code::Digit9 => Some((0x0Au8, false)),
        Code::Digit0 => Some((0x0Bu8, false)),
        Code::Minus => Some((0x0Cu8, false)),
        Code::Equal => Some((0x0Du8, false)),
        Code::Backspace => Some((0x0Eu8, false)),
        Code::Tab => Some((0x0Fu8, false)),
        Code::KeyQ => Some((0x10u8, false)),
        Code::KeyW => Some((0x11u8, false)),
        Code::KeyE => Some((0x12u8, false)),
        Code::KeyR => Some((0x13u8, false)),
        Code::KeyT => Some((0x14u8, false)),
        Code::KeyY => Some((0x15u8, false)),
        Code::KeyU => Some((0x16u8, false)),
        Code::KeyI => Some((0x17u8, false)),
        Code::KeyO => Some((0x18u8, false)),
        Code::KeyP => Some((0x19u8, false)),
        Code::BracketLeft => Some((0x1Au8, false)),
        Code::BracketRight => Some((0x1Bu8, false)),
        Code::Enter => Some((0x1Cu8, false)),
        Code::ControlLeft => Some((0x1Du8, false)),
        Code::KeyA => Some((0x1Eu8, false)),
        Code::KeyS => Some((0x1Fu8, false)),
        Code::KeyD => Some((0x20u8, false)),
        Code::KeyF => Some((0x21u8, false)),
        Code::KeyG => Some((0x22u8, false)),
        Code::KeyH => Some((0x23u8, false)),
        Code::KeyJ => Some((0x24u8, false)),
        Code::KeyK => Some((0x25u8, false)),
        Code::KeyL => Some((0x26u8, false)),
        Code::Semicolon => Some((0x27u8, false)),
        Code::Quote => Some((0x28u8, false)),
        Code::Backquote => Some((0x29u8, false)),
        Code::ShiftLeft => Some((0x2Au8, false)),
        Code::Backslash => Some((0x2Bu8, false)),
        Code::KeyZ => Some((0x2Cu8, false)),
        Code::KeyX => Some((0x2Du8, false)),
        Code::KeyC => Some((0x2Eu8, false)),
        Code::KeyV => Some((0x2Fu8, false)),
        Code::KeyB => Some((0x30u8, false)),
        Code::KeyN => Some((0x31u8, false)),
        Code::KeyM => Some((0x32u8, false)),
        Code::Comma => Some((0x33u8, false)),
        Code::Period => Some((0x34u8, false)),
        Code::Slash => Some((0x35u8, false)),
        Code::ShiftRight => Some((0x36u8, false)),
        Code::NumpadMultiply => Some((0x37u8, false)),
        Code::AltLeft => Some((0x38u8, false)),
        Code::Space => Some((0x39u8, false)),
        Code::CapsLock => Some((0x3Au8, false)),
        Code::F1 => Some((0x3Bu8, false)),
        Code::F2 => Some((0x3Cu8, false)),
        Code::F3 => Some((0x3Du8, false)),
        Code::F4 => Some((0x3Eu8, false)),
        Code::F5 => Some((0x3Fu8, false)),
        Code::F6 => Some((0x40u8, false)),
        Code::F7 => Some((0x41u8, false)),
        Code::F8 => Some((0x42u8, false)),
        Code::F9 => Some((0x43u8, false)),
        Code::F10 => Some((0x44u8, false)),
        Code::NumLock => Some((0x45u8, false)),
        Code::ScrollLock => Some((0x46u8, false)),
        Code::Numpad7 => Some((0x47u8, false)),
        Code::Numpad8 => Some((0x48u8, false)),
        Code::Numpad9 => Some((0x49u8, false)),
        Code::NumpadSubtract => Some((0x4Au8, false)),
        Code::Numpad4 => Some((0x4Bu8, false)),
        Code::Numpad5 => Some((0x4Cu8, false)),
        Code::Numpad6 => Some((0x4Du8, false)),
        Code::NumpadAdd => Some((0x4Eu8, false)),
        Code::Numpad1 => Some((0x4Fu8, false)),
        Code::Numpad2 => Some((0x50u8, false)),
        Code::Numpad3 => Some((0x51u8, false)),
        Code::Numpad0 => Some((0x52u8, false)),
        Code::NumpadDecimal => Some((0x53u8, false)),
        Code::IntlBackslash => Some((0x56u8, false)),
        Code::F11 => Some((0x57u8, false)),
        Code::F12 => Some((0x58u8, false)),
        Code::NumpadEnter => Some((0x1Cu8, true)),
        Code::ControlRight => Some((0x1Du8, true)),
        Code::NumpadDivide => Some((0x35u8, true)),
        Code::AltRight => Some((0x38u8, true)),
        Code::Home => Some((0x47u8, true)),
        Code::ArrowUp => Some((0x48u8, true)),
        Code::PageUp => Some((0x49u8, true)),
        Code::ArrowLeft => Some((0x4Bu8, true)),
        Code::ArrowRight => Some((0x4Du8, true)),
        Code::End => Some((0x4Fu8, true)),
        Code::ArrowDown => Some((0x50u8, true)),
        Code::PageDown => Some((0x51u8, true)),
        Code::Insert => Some((0x52u8, true)),
        Code::Delete => Some((0x53u8, true)),
        Code::SuperLeft => Some((0x5Bu8, true)),
        Code::SuperRight => Some((0x5Cu8, true)),
        Code::ContextMenu => Some((0x5Du8, true)),
        Code::PrintScreen => None,
        Code::Other => None,
    }
}

/// The PC/AT set 1 make code of a physical key, and whether it belongs to the
/// set prefixed with E0: right-hand modifiers, the navigation cluster, the
/// arrows, two keys of the numeric pad, and the system keys.
pub fn rdp_scancode_for_code(code: Code) -> (r: Option<(u8, bool)>)
    ensures
        r == scancode(code),
{
    let mapped: (u8, bool) = match code {
        Code::Escape => (0x01, false),
        Code::Digit1 => (0x02, false),
        Code::Digit2 => (0x03, false),
        Code::Digit3 => (0x04, false),
        Code::Digit4 => (0x05, false),
        Code::Digit5 => (0x06, false),
        Code::Digit6 => (0x07, false),
        Code::Digit7 => (0x08, false),
        Code::Digit8 => (0x09, false),
        Code::Digit9 => (0x0A, false),
        Code::Digit0 => (0x0B, false),
        Code::Minus => (0x0C, false),
        Code::Equal => (0x0D, false),
        Code::Backspace => (0x0E, false),
        Code::Tab => (0x0F, false),
        Code::KeyQ => (0x10, false),
        Code::KeyW => (0x11, false),
        Code::KeyE => (0x12, false),
        Code::KeyR => (0x13, false),
        Code::KeyT => (0x14, false),
        Code::KeyY => (0x15, false),
        Code::KeyU => (0x16, false),
        Code::KeyI => (0x17, false),
        Code::KeyO => (0x18, false),
        Code::KeyP => (0x19, false),
        Code::BracketLeft => (0x1A, false),
        Code::BracketRight => (0x1B, false),
        Code::Enter => (0x1C, false),
        Code::ControlLeft => (0x1D, false),
        Code::KeyA => (0x1E, false),
        Code::KeyS => (0x1F, false),
        Code::KeyD => (0x20, false),
        Code::KeyF => (0x21, false),
        Code::KeyG => (0x22, false),
        Code::KeyH => (0x23, false),
        Code::KeyJ => (0x24, false),
        Code::KeyK => (0x25, false),
        Code::KeyL => (0x26, false),
        Code::Semicolon => (0x27, false),
        Code::Quote => (0x28, false),
        Code::Backquote => (0x29, false),
        Code::ShiftLeft => (0x2A, false),
        Code::Backslash => (0x2B, false),
        Code::KeyZ => (0x2C, false),
        Code::KeyX => (0x2D, false),
        Code::KeyC => (0x2E, false),
        Code::KeyV => (0x2F, false),
        Code::KeyB => (0x30, false),
        Code::KeyN => (0x31, false),
        Code::KeyM => (0x32, false),
        Code::Comma => (0x33, false),
        Code::Period => (0x34, false),
        Code::Slash => (0x35, false),
        Code::ShiftRight => (0x36, false),
        Code::NumpadMultiply => (0x37, false),
        Code::AltLeft => (0x38, false),
        Code::Space => (0x39, false),
        Code::CapsLock => (0x3A, false),
        Code::F1 => (0x3B, false),
        Code::F2 => (0x3C, false),
        Code::F3 => (0x3D, false),
        Code::F4 => (0x3E, false),
        Code::F5 => (0x3F, false),
        Code::F6 => (0x40, false),
        Code::F7 => (0x41, false),
        Code::F8 => (0x42, false),
        Code::F9 => (0x43, false),
        Code::F10 => (0x44, false),
        Code::NumLock => (0x45, false),
        Code::ScrollLock => (0x46, false),
        Code::Numpad7 => (0x47, false),
        Code::Numpad8 => (0x48, false),
        Code::Numpad9 => (0x49, false),
        Code::NumpadSubtract => (0x4A, false),
        Code::Numpad4 => (0x4B, false),
        Code::Numpad5 => (0x4C, false),
        Code::Numpad6 => (0x4D, false),
        Code::NumpadAdd => (0x4E, false),
        Code::Numpad1 => (0x4F, false),
        Code::Numpad2 => (0x50, false),
        Code::Numpad3 => (0x51, false),
        Code::Numpad0 => (0x52, false),
        Code::NumpadDecimal => (0x53, false),
        Code::IntlBackslash => (0x56, false),
        Code::F11 => (0x57, false),
        Code::F12 => (0x58, false),
        Code::NumpadEnter => (0x1C, true),
        Code::ControlRight => (0x1D, true),
        Code::NumpadDivide => (0x35, true),
        Code::AltRight => (0x38, true),
        Code::Home => (0x47, true),
        Code::ArrowUp => (0x48, true),
        Code::PageUp => (0x49, true),
        Code::ArrowLeft => (0x4B, true),
        Code::ArrowRight => (0x4D, true),
        Code::End => (0x4F, true),
        Code::ArrowDown => (0x50, true),
        Code::PageDown => (0x51, true),
        Code::Insert => (0x52, true),
        Code::Delete => (0x53, true),
        Code::SuperLeft => (0x5B, true),
        Code::SuperRight => (0x5C, true),
        Code::ContextMenu => (0x5D, true),
        Code::PrintScreen => {
            return None;
        },
        Code::Other => {
            return None;
        },
    };
    Some(mapped)
}

/// The scancode that a key event sends to a remote desktop, whether it is of
/// the E0 set, and whether the key went down. It goes by the physical key, so
/// the remote end applies its own layout.
pub open spec fn scancode_event(event: KeyEvent) -> Option<(u8, bool, bool)> {
    let (code, pressed) = match event {
        KeyEvent::Pressed(press) => (press.code, true),
        KeyEvent::Released(code) => (code, false),
        KeyEvent::ModifiersChanged(_) => (None, false),
    };
    match code {
        Some(code) => match scancode(code) {
            Some((make, extended)) => Some((make, extended, pressed)),
            None => None,
        },
        None => None,
    }
}

/// The scancode that a key event sends to a remote desktop.
pub fn encode_rdp_scancode(event: &KeyEvent) -> (r: Option<(u8, bool, bool)>)
    ensures
        r == scancode_event(*event),
{
    let (code, pressed): (Option<Code>, bool) = match event {
        KeyEvent::Pressed(press) => (press.code, true),
        KeyEvent::Released(code) => (*code, false),
        KeyEvent::ModifiersChanged(_) => {
            return None;
        },
    };
    match code {
        Some(code) => match rdp_scancode_for_code(code) {
            Some((make, extended)) => Some((make, extended, pressed)),
            None => None,
        },
        None => None,
    }
}

/// No two keys share a scancode, so a remote desktop can tell them all apart.
pub proof fn law_scancodes_are_distinct(a: Code, b: Code)
    requires
        scancode(a) is Some,
        scancode(a) == scancode(b),
    ensures
        a == b,
{
}

/// A key sends the same scancode when it goes down and when it comes up, so
/// nothing stays held at the remote end.
pub proof fn law_release_matches_press(press: KeyPress)
    ensures
        match (scancode_event(KeyEvent::Pressed(press)), scancode_event(
            KeyEvent::Released(press.code),
        )) {
            (Some((a, x, down)), Some((b, y, up))) => a == b && x == y && down && !up,
            (None, None) => true,
            _ => false,
        },
{
}

// What the keys send, byte by byte.

proof fn lemma_ascii_bytes(s: Seq<char>, bytes: Seq<u8>)
    requires
        s.len() == bytes.len(),
        forall|i: int|
            0 <= i < s.len() ==> '\0' <= #[trigger] s[i] <= '\u{7f}' && s[i] as u8 == bytes[i],
    ensures
        encode_utf8(s) == bytes,
{
    assert(vstd::utf8::is_ascii_chars(s));
    vstd::utf8::is_ascii_chars_encode_utf8(s);
    assert(encode_utf8(s) =~= bytes);
}

/// The cursor keys send `ESC [` and a letter from A to D for up, down, right and left, Home
/// and End send H and F, and the editing keys their numbers before a tilde. Enter sends a
/// carriage return and Backspace a delete. No modifier makes a difference.
pub proof fn law_cursor_and_editing_keys_send_these_bytes(press: KeyPress)
    ensures
        press.key == Key::Named(Named::Enter) ==> encoded(press, None) == Some(
            seq![0x0du8],
        ),
        press.key == Key::Named(Named::Backspace) ==> encoded(press, None) == Some(
            seq![0x7fu8],
        ),
        press.key == Key::Named(Named::Escape) ==> encoded(press, None) == Some(
            seq![0x1bu8],
        ),
        press.key == Key::Named(Named::ArrowUp) ==> encoded(press, None) == Some(
            seq![0x1bu8, 0x5bu8, 0x41u8],
        ),
        press.key == Key::Named(Named::ArrowDown) ==> encoded(press, None) == Some(
            seq![0x1bu8, 0x5bu8, 0x42u8],
        ),
        press.key == Key::Named(Named::ArrowRight) ==> encoded(press, None) == Some(
            seq![0x1bu8, 0x5bu8, 0x43u8],
        ),
        press.key == Key::Named(Named::ArrowLeft) ==> encoded(press, None) == Some(
            seq![0x1bu8, 0x5bu8, 0x44u8],
        ),
        press.key == Key::Named(Named::Home) ==> encoded(press, None) == Some(
            seq![0x1bu8, 0x5bu8, 0x48u8],
        ),
        press.key == Key::Named(Named::End) ==> encoded(press, None) == Some(
            seq![0x1bu8, 0x5bu8, 0x46u8],
        ),
        press.key == Key::Named(Named::Insert) ==> encoded(press, None) == Some(
            seq![0x1bu8, 0x5bu8, 0x32u8, 0x7eu8],
        ),
        press.key == Key::Named(Named::Delete) ==> encoded(press, None) == Some(
            seq![0x1bu8, 0x5bu8, 0x33u8, 0x7eu8],
        ),
        press.key == Key::Named(Named::PageUp) ==> encoded(press, None) == Some(
            seq![0x1bu8, 0x5bu8, 0x35u8, 0x7eu8],
        ),
        press.key == Key::Named(Named::PageDown) ==> encoded(press, None) == Some(
            seq![0x1bu8, 0x5bu8, 0x36u8, 0x7eu8],
        ),
{
    reveal_strlit("\r");
    lemma_ascii_bytes("\r"@, seq![0x0du8]);
    reveal_strlit("\x7f");
    lemma_ascii_bytes("\x7f"@, seq![0x7fu8]);
    reveal_strlit("\x1b");
    lemma_ascii_bytes("\x1b"@, seq![0x1bu8]);
    reveal_strlit("\x1b[A");
    lemma_ascii_bytes("\x1b[A"@, seq![0x1bu8, 0x5bu8, 0x41u8]);
    reveal_strlit("\x1b[B");
    lemma_ascii_bytes("\x1b[B"@, seq![0x1bu8, 0x5bu8, 0x42u8]);
    reveal_strlit("\x1b[C");
    lemma_ascii_bytes("\x1b[C"@, seq![0x1bu8, 0x5bu8, 0x43u8]);
    reveal_strlit("\x1b[D");
    lemma_ascii_bytes("\x1b[D"@, seq![0x1bu8, 0x5bu8, 0x44u8]);
    reveal_strlit("\x1b[H");
    lemma_ascii_bytes("\x1b[H"@, seq![0x1bu8, 0x5bu8, 0x48u8]);
    reveal_strlit("\x1b[F");
    lemma_ascii_bytes("\x1b[F"@, seq![0x1bu8, 0x5bu8, 0x46u8]);
    reveal_strlit("\x1b[2~");
    lemma_ascii_bytes("\x1b[2~"@, seq![0x1bu8, 0x5bu8, 0x32u8, 0x7eu8]);
    reveal_strlit("\x1b[3~");
    lemma_ascii_bytes("\x1b[3~"@, seq![0x1bu8, 0x5bu8, 0x33u8, 0x7eu8]);
    reveal_strlit("\x1b[5~");
    lemma_ascii_bytes("\x1b[5~"@, seq![0x1bu8, 0x5bu8, 0x35u8, 0x7eu8]);
    reveal_strlit("\x1b[6~");
    lemma_ascii_bytes("\x1b[6~"@, seq![0x1bu8, 0x5bu8, 0x36u8, 0x7eu8]);
}

/// The first four function keys send `ESC O` and a letter from P to S, and the others their
/// numbers between `ESC [` and a tilde.
pub proof fn law_function_keys_send_these_bytes(press: KeyPress)
    ensures
        press.key == Key::Named(Named::F1) ==> encoded(press, None) == Some(
            seq![0x1bu8, 0x4fu8, 0x50u8],
        ),
        press.key == Key::Named(Named::F2) ==> encoded(press, None) == Some(
            seq![0x1bu8, 0x4fu8, 0x51u8],
        ),
        press.key == Key::Named(Named::F3) ==> encoded(press, None) == Some(
            seq![0x1bu8, 0x4fu8, 0x52u8],
        ),
        press.key == Key::Named(Named::F4) ==> encoded(press, None) == Some(
            seq![0x1bu8, 0x4fu8, 0x53u8],
        ),
        press.key == Key::Named(Named::F5) ==> encoded(press, None) == Some(
            seq![0x1bu8, 0x5bu8, 0x31u8, 0x35u8, 0x7eu8],
        ),
        press.key == Key::Named(Named::F6) ==> encoded(press, None) == Some(
            seq![0x1bu8, 0x5bu8, 0x31u8, 0x37u8, 0x7eu8],
        ),
        press.key == Key::Named(Named::F7) ==> encoded(press, None) == Some(
            seq![0x1bu8, 0x5bu8, 0x31u8, 0x38u8, 0x7eu8],
        ),
        press.key == Key::Named(Named::F8) ==> encoded(press, None) == Some(
            seq![0x1bu8, 0x5bu8, 0x31u8, 0x39u8, 0x7eu8],
        ),
        press.key == Key::Named(Named::F9) ==> encoded(press, None) == Some(
            seq![0x1bu8, 0x5bu8, 0x32u8, 0x30u8, 0x7eu8],
        ),
        press.key == Key::Named(Named::F10) ==> encoded(press, None) == Some(
            seq![0x1bu8, 0x5bu8, 0x32u8, 0x31u8, 0x7eu8],
        ),
        press.key == Key::Named(Named::F11) ==> encoded(press, None) == Some(
            seq![0x1bu8, 0x5bu8, 0x32u8, 0x33u8, 0x7eu8],
        ),
        press.key == Key::Named(Named::F12) ==> encoded(press, None) == Some(
            seq![0x1bu8, 0x5bu8, 0x32u8, 0x34u8, 0x7eu8],
        ),
{
    reveal_strlit("\x1bOP");
    lemma_ascii_bytes("\x1bOP"@, seq![0x1bu8, 0x4fu8, 0x50u8]);
    reveal_strlit("\x1bOQ");
    lemma_ascii_bytes("\x1bOQ"@, seq![0x1bu8, 0x4fu8, 0x51u8]);
    reveal_strlit("\x1bOR");
    lemma_ascii_bytes("\x1bOR"@, seq![0x1bu8, 0x4fu8, 0x52u8]);
    reveal_strlit("\x1bOS");
    lemma_ascii_bytes("\x1bOS"@, seq![0x1bu8, 0x4fu8, 0x53u8]);
    reveal_strlit("\x1b[15~");
    lemma_ascii_bytes("\x1b[15~"@, seq![0x1bu8, 0x5bu8, 0x31u8, 0x35u8, 0x7eu8]);
    reveal_strlit("\x1b[17~");
    lemma_ascii_bytes("\x1b[17~"@, seq![0x1bu8, 0x5bu8, 0x31u8, 0x37u8, 0x7eu8]);
    reveal_strlit("\x1b[18~");
    lemma_ascii_bytes("\x1b[18~"@, seq![0x1bu8, 0x5bu8, 0x31u8, 0x38u8, 0x7eu8]);
    reveal_strlit("\x1b[19~");
    lemma_ascii_bytes("\x1b[19~"@, seq![0x1bu8, 0x5bu8, 0x31u8, 0x39u8, 0x7eu8]);
    reveal_strlit("\x1b[20~");
    lemma_ascii_bytes("\x1b[20~"@, seq![0x1bu8, 0x5bu8, 0x32u8, 0x30u8, 0x7eu8]);
    reveal_strlit("\x1b[21~");
    lemma_ascii_bytes("\x1b[21~"@, seq![0x1bu8, 0x5bu8, 0x32u8, 0x31u8, 0x7eu8]);
    reveal_strlit("\x1b[23~");
    lemma_ascii_bytes("\x1b[23~"@, seq![0x1bu8, 0x5bu8, 0x32u8, 0x33u8, 0x7eu8]);
    reveal_strlit("\x1b[24~");
    lemma_ascii_bytes("\x1b[24~"@, seq![0x1bu8, 0x5bu8, 0x32u8, 0x34u8, 0x7eu8]);
}

/// Tab sends a tab, and with Shift the sequence that goes back.
pub proof fn law_tab_sends_these_bytes(press: KeyPress)
    requires
        press.key == Key::Named(Named::Tab),
    ensures
        !press.modifiers.shift ==> encoded(press, None) == Some(seq![0x09u8]),
        press.modifiers.shift ==> encoded(press, None) == Some(seq![0x1bu8, 0x5bu8, 0x5au8]),
{
    reveal_strlit("\t");
    reveal_strlit("\x1b[Z");
    lemma_ascii_bytes("\t"@, seq![0x09u8]);
    lemma_ascii_bytes("\x1b[Z"@, seq![0x1bu8, 0x5bu8, 0x5au8]);
}

/// With Ctrl, the characters from `@` to `_` stand for the 32 control bytes in their order,
/// the small letters for the same as the capitals, a space for the first of them and a
/// question mark for delete. No other character has a control byte.
pub proof fn law_control_bytes_follow_the_alphabet(c: char)
    ensures
        '@' <= c <= '_' ==> control_of(c) == Some((c as u32 - 64) as u8),
        'a' <= c <= 'z' ==> control_of(c) == Some((c as u32 - 96) as u8),
        c == ' ' ==> control_of(c) == Some(0u8),
        c == '?' ==> control_of(c) == Some(127u8),
        !('@' <= c <= '_') && !('a' <= c <= 'z') && c != ' ' && c != '?' ==> control_of(c) is None,
{
}

/// Ctrl and a key that has a control byte send that byte and nothing else; the Latin
/// character of the key decides, and where it has none the first character that it types.
pub proof fn law_ctrl_sends_the_control_byte(press: KeyPress, latin: Option<char>)
    requires
        press.modifiers.control,
    ensures
        latin matches Some(c) ==> (control_of(c) matches Some(byte) ==> encoded(press, latin)
            == Some(seq![byte])),
        latin is None ==> (press.key matches Key::Character(text) ==> text@.len() > 0 ==> (
        control_of(text@[0]) matches Some(byte) ==> encoded(press, latin) == Some(seq![byte]))),
        latin is None && (press.key matches Key::Character(text) && (text@.len() == 0
            || control_of(text@[0]) is None)) ==> encoded(press, latin) is None,
        press.key is Unidentified && latin is None ==> encoded(press, latin) is None,
{
}

/// Without Ctrl a key that types a text sends that text in UTF-8, and with Alt the same
/// after an escape.
pub proof fn law_typed_text_is_sent_as_it_is(press: KeyPress, latin: Option<char>)
    requires
        !press.modifiers.control,
        !(press.key is Named),
        press.text matches Some(text) && text@.len() > 0,
    ensures
        ({
            let text = (press.text->0)@;
            &&& encoded(press, latin) == Some(
                if press.modifiers.alt {
                    seq![0x1bu8] + encode_utf8(text)
                } else {
                    encode_utf8(text)
                },
            )
            &&& vstd::utf8::decode_utf8(encode_utf8(text)) == text
        }),
{
    vstd::utf8::encode_utf8_decode_utf8((press.text->0)@);
}

/// A key that types nothing sends the character that it stands for with the modifiers that
/// are held, where it stands for one, and otherwise nothing.
pub proof fn law_a_key_without_text_sends_its_character(press: KeyPress, latin: Option<char>)
    requires
        !press.modifiers.control,
        !(press.key is Named),
        press.text matches Some(text) ==> text@.len() == 0,
    ensures
        match press.modified_key {
            Key::Character(text) => if text@.len() > 0 {
                encoded(press, latin) == Some(
                    if press.modifiers.alt {
                        seq![0x1bu8] + encode_utf8(text@)
                    } else {
                        encode_utf8(text@)
                    },
                )
            } else {
                encoded(press, latin) is None
            },
            _ => encoded(press, latin) is None,
        },
{
}

/// Shift and a page key scroll by one row less than the window shows, up to the older rows
/// or down to the newer, and by one row where that would be none. Ctrl, Shift and Home or
/// End go to either end. Nothing else scrolls.
pub proof fn law_these_chords_scroll(press: KeyPress, rows: u16)
    ensures
        ({
            let asked = scroll_chord(KeyEvent::Pressed(press), rows);
            let shift = press.modifiers.shift;
            let page: int = if rows >= 2 {
                rows - 1
            } else {
                1
            };
            &&& !shift ==> asked is None
            &&& shift && press.key == Key::Named(Named::PageUp) ==> (asked matches Some(
                TerminalScrollAction::Lines(n),
            ) && n == page)
            &&& shift && press.key == Key::Named(Named::PageDown) ==> (asked matches Some(
                TerminalScrollAction::Lines(n),
            ) && n == -page)
            &&& (asked == Some(TerminalScrollAction::Top) <==> shift && press.modifiers.control
                && press.key == Key::Named(Named::Home))
            &&& (asked == Some(TerminalScrollAction::Bottom) <==> shift && press.modifiers.control
                && press.key == Key::Named(Named::End))
            &&& (asked is Some ==> press.key == Key::Named(Named::PageUp) || press.key
                == Key::Named(Named::PageDown) || press.key == Key::Named(Named::Home) || press.key
                == Key::Named(Named::End))
        }),
{
}

/// A chord needs exactly its modifiers and its letter, in either case: Ctrl and Shift for
/// the terminal's own, Alt and neither of the two for the window's.
pub proof fn law_chords_need_their_modifiers(modifiers: Modifiers, c: char, key: char)
    ensures
        ctrl_shift_chord(modifiers, Some(c), key) <==> modifiers.control && modifiers.shift
            && same_letter(c, key),
        alt_chord(modifiers, Some(c), key) <==> modifiers.alt && !modifiers.control
            && !modifiers.shift && same_letter(c, key),
        !ctrl_shift_chord(modifiers, None, key),
        !alt_chord(modifiers, None, key),
{
    law_lowering_forgets_case_alone(c, key);
}

// Where the keys are.

/// The key that bears a character on a US keyboard.
pub open spec fn key_bearing(c: char) -> Code {
    match c {
        '1' => Code::Digit1,
        '2' => Code::Digit2,
        '3' => Code::Digit3,
        '4' => Code::Digit4,
        '5' => Code::Digit5,
        '6' => Code::Digit6,
        '7' => Code::Digit7,
        '8' => Code::Digit8,
        '9' => Code::Digit9,
        '0' => Code::Digit0,
        '-' => Code::Minus,
        '=' => Code::Equal,
        'q' => Code::KeyQ,
        'w' => Code::KeyW,
        'e' => Code::KeyE,
        'r' => Code::KeyR,
        't' => Code::KeyT,
        'y' => Code::KeyY,
        'u' => Code::KeyU,
        'i' => Code::KeyI,
        'o' => Code::KeyO,
        'p' => Code::KeyP,
        '[' => Code::BracketLeft,
        ']' => Code::BracketRight,
        'a' => Code::KeyA,
        's' => Code::KeyS,
        'd' => Code::KeyD,
        'f' => Code::KeyF,
        'g' => Code::KeyG,
        'h' => Code::KeyH,
        'j' => Code::KeyJ,
        'k' => Code::KeyK,
        'l' => Code::KeyL,
        ';' => Code::Semicolon,
        '\'' => Code::Quote,
        '`' => Code::Backquote,
        '\\' => Code::Backslash,
        'z' => Code::KeyZ,
        'x' => Code::KeyX,
        'c' => Code::KeyC,
        'v' => Code::KeyV,
        'b' => Code::KeyB,
        'n' => Code::KeyN,
        'm' => Code::KeyM,
        ',' => Code::Comma,
        '.' => Code::Period,
        '/' => Code::Slash,
        _ => Code::Other,
    }
}

/// The keys of each row of a US keyboard have scancodes that follow each other, from the
/// left to the right: the digits from 2 on, the rows of letters from 16, 30 and 43 on.
pub proof fn law_scancodes_follow_the_rows(i: int)
    ensures
        0 <= i < 12 ==> scancode(key_bearing("1234567890-="@[i])) == Some(((2 + i) as u8, false)),
        0 <= i < 12 ==> scancode(key_bearing("qwertyuiop[]"@[i])) == Some(((16 + i) as u8, false)),
        0 <= i < 12 ==> scancode(key_bearing("asdfghjkl;'`"@[i])) == Some(((30 + i) as u8, false)),
        0 <= i < 11 ==> scancode(key_bearing("\\zxcvbnm,./"@[i])) == Some(((43 + i) as u8, false)),
{
    reveal_strlit("1234567890-=");
    reveal_strlit("qwertyuiop[]");
    reveal_strlit("asdfghjkl;'`");
    reveal_strlit("\\zxcvbnm,./");
}

/// The keys that stand alone have these scancodes.
pub proof fn law_these_keys_have_these_scancodes()
    ensures
        scancode(Code::Escape) == Some((1u8, false)),
        scancode(Code::Backspace) == Some((14u8, false)),
        scancode(Code::Tab) == Some((15u8, false)),
        scancode(Code::Enter) == Some((28u8, false)),
        scancode(Code::ControlLeft) == Some((29u8, false)),
        scancode(Code::ShiftLeft) == Some((42u8, false)),
        scancode(Code::ShiftRight) == Some((54u8, false)),
        scancode(Code::NumpadMultiply) == Some((55u8, false)),
        scancode(Code::AltLeft) == Some((56u8, false)),
        scancode(Code::Space) == Some((57u8, false)),
        scancode(Code::CapsLock) == Some((58u8, false)),
        scancode(Code::F1) == Some((59u8, false)),
        scancode(Code::F2) == Some((60u8, false)),
        scancode(Code::F3) == Some((61u8, false)),
        scancode(Code::F4) == Some((62u8, false)),
        scancode(Code::F5) == Some((63u8, false)),
        scancode(Code::F6) == Some((64u8, false)),
        scancode(Code::F7) == Some((65u8, false)),
        scancode(Code::F8) == Some((66u8, false)),
        scancode(Code::F9) == Some((67u8, false)),
        scancode(Code::F10) == Some((68u8, false)),
        scancode(Code::NumLock) == Some((69u8, false)),
        scancode(Code::ScrollLock) == Some((70u8, false)),
        scancode(Code::Numpad7) == Some((71u8, false)),
        scancode(Code::Numpad8) == Some((72u8, false)),
        scancode(Code::Numpad9) == Some((73u8, false)),
        scancode(Code::NumpadSubtract) == Some((74u8, false)),
        scancode(Code::Numpad4) == Some((75u8, false)),
        scancode(Code::Numpad5) == Some((76u8, false)),
        scancode(Code::Numpad6) == Some((77u8, false)),
        scancode(Code::NumpadAdd) == Some((78u8, false)),
        scancode(Code::Numpad1) == Some((79u8, false)),
        scancode(Code::Numpad2) == Some((80u8, false)),
        scancode(Code::Numpad3) == Some((81u8, false)),
        scancode(Code::Numpad0) == Some((82u8, false)),
        scancode(Code::NumpadDecimal) == Some((83u8, false)),
        scancode(Code::IntlBackslash) == Some((86u8, false)),
        scancode(Code::F11) == Some((87u8, false)),
        scancode(Code::F12) == Some((88u8, false)),
        scancode(Code::SuperLeft) == Some((91u8, true)),
        scancode(Code::SuperRight) == Some((92u8, true)),
        scancode(Code::ContextMenu) == Some((93u8, true)),
        scancode(Code::PrintScreen) is None,
        scancode(Code::Other) is None,
{
}

/// A key that was added to the keyboard later has the scancode of the older key that does
/// the same, in the extended set.
pub proof fn law_later_keys_extend_the_older_ones(later: Code, older: Code)
    requires
        (later == Code::Home && older == Code::Numpad7)
            || (later == Code::ArrowUp && older == Code::Numpad8)
            || (later == Code::PageUp && older == Code::Numpad9)
            || (later == Code::ArrowLeft && older == Code::Numpad4)
            || (later == Code::ArrowRight && older == Code::Numpad6)
            || (later == Code::End && older == Code::Numpad1)
            || (later == Code::ArrowDown && older == Code::Numpad2)
            || (later == Code::PageDown && older == Code::Numpad3)
            || (later == Code::Insert && older == Code::Numpad0)
            || (later == Code::Delete && older == Code::NumpadDecimal)
            || (later == Code::NumpadEnter && older == Code::Enter)
            || (later == Code::ControlRight && older == Code::ControlLeft)
            || (later == Code::AltRight && older == Code::AltLeft)
            || (later == Code::NumpadDivide && older == Code::Slash),
    ensures
        scancode(older) matches Some((code, false)) && scancode(later) == Some((code, true)),
{
}

/// A key that goes down or comes up sends the scancode of its physical key and which of the
/// two it was; a change of the modifiers sends nothing.
pub proof fn law_a_key_sends_its_own_scancode(press: KeyPress, code: Code, modifiers: Modifiers)
    ensures
        press.code == Some(code) ==> (scancode_event(KeyEvent::Pressed(press)) is Some <==> scancode(
            code,
        ) is Some),
        press.code == Some(code) ==> (scancode(code) matches Some((make, extended))
            ==> scancode_event(KeyEvent::Pressed(press)) == Some((make, extended, true))),
        scancode(code) matches Some((make, extended)) ==> scancode_event(
            KeyEvent::Released(Some(code)),
        ) == Some((make, extended, false)),
        press.code is None ==> scancode_event(KeyEvent::Pressed(press)) is None,
        scancode_event(KeyEvent::Released(None)) is None,
        scancode_event(KeyEvent::ModifiersChanged(modifiers)) is None,
{
}

/// A key that types a single character of a Latin layout bears that character, and no
/// other key bears one of its own.
pub proof fn law_a_latin_key_bears_its_character(key: Key)
    ensures
        own_latin(key) is Some <==> (key matches Key::Character(text) && text@.len() == 1
            && (text@[0] as int) < 0x370),
        own_latin(key) matches Some(c) ==> key->Character_0@ == seq![c],
{
    if let Key::Character(text) = key {
        if text@.len() == 1 {
            assert(text@ =~= seq![text@[0]]);
        }
    }
}

} // verus!

use adit_ui::keyboard_hook::{HookEvent, KeyHook, KeyMotion, Stroke, VK_RETURN};
use adit_ui::keys::{
    alt_shortcut, control_byte, encode_key_press, encode_keyboard_event, encode_rdp_scancode,
    is_enter_key, is_escape_key, is_terminal_copy_shortcut, is_terminal_paste_shortcut, key_latin,
    named_key_sequence, rdp_scancode_for_code, terminal_scroll_shortcut, terminal_shortcut, Code,
    Key, KeyEvent, KeyPress, Modifiers, Named,
};
use adit_ui::terminal::TerminalScrollAction;
use iced::keyboard::key::Physical;

const PLAIN: Modifiers = Modifiers { shift: false, control: false, alt: false, logo: false };

fn press(
    key: Key,
    modified_key: Key,
    physical: Physical,
    code: Code,
    modifiers: Modifiers,
    text: Option<&str>,
) -> KeyEvent {
    KeyEvent::Pressed(KeyPress {
        key,
        modified_key,
        physical,
        code: Some(code),
        modifiers,
        text: text.map(String::from),
    })
}

fn letter(text: &str) -> Key {
    Key::Character(String::from(text))
}

#[test]
fn rdp_scancodes_match_pc_at_set1() {
    assert_eq!(rdp_scancode_for_code(Code::KeyQ), Some((0x10, false)));
    assert_eq!(rdp_scancode_for_code(Code::KeyA), Some((0x1E, false)));
    assert_eq!(rdp_scancode_for_code(Code::KeyZ), Some((0x2C, false)));
    assert_eq!(rdp_scancode_for_code(Code::Enter), Some((0x1C, false)));
    assert_eq!(rdp_scancode_for_code(Code::Space), Some((0x39, false)));
    assert_eq!(rdp_scancode_for_code(Code::Digit1), Some((0x02, false)));
    assert_eq!(rdp_scancode_for_code(Code::F1), Some((0x3B, false)));
    assert_eq!(rdp_scancode_for_code(Code::F12), Some((0x58, false)));
    assert_eq!(rdp_scancode_for_code(Code::NumpadEnter), Some((0x1C, true)));
    assert_eq!(rdp_scancode_for_code(Code::ArrowUp), Some((0x48, true)));
    assert_eq!(rdp_scancode_for_code(Code::ArrowLeft), Some((0x4B, true)));
    assert_eq!(rdp_scancode_for_code(Code::ControlRight), Some((0x1D, true)));
    assert_eq!(rdp_scancode_for_code(Code::NumpadDivide), Some((0x35, true)));
    assert_eq!(rdp_scancode_for_code(Code::PrintScreen), None);
}

#[test]
fn a_release_sends_the_scancode_of_its_press() {
    let down = press(
        letter("q"),
        letter("q"),
        Physical::Code(iced::keyboard::key::Code::KeyQ),
        Code::KeyQ,
        PLAIN,
        None,
    );
    assert_eq!(encode_rdp_scancode(&down), Some((0x10, false, true)));
    assert_eq!(
        encode_rdp_scancode(&KeyEvent::Released(Some(Code::KeyQ))),
        Some((0x10, false, false))
    );
    assert_eq!(encode_rdp_scancode(&KeyEvent::Released(None)), None);
    assert_eq!(encode_rdp_scancode(&KeyEvent::Released(Some(Code::PrintScreen))), None);
    assert_eq!(encode_rdp_scancode(&KeyEvent::ModifiersChanged(PLAIN)), None);
}

#[test]
fn encodes_regular_text() {
    let event = press(
        letter("a"),
        letter("a"),
        Physical::Code(iced::keyboard::key::Code::KeyA),
        Code::KeyA,
        PLAIN,
        Some("a"),
    );
    assert_eq!(encode_keyboard_event(&event), Some(b"a".to_vec()));
}

#[test]
fn encodes_ctrl_c() {
    let event = press(
        letter("c"),
        letter("c"),
        Physical::Code(iced::keyboard::key::Code::KeyC),
        Code::KeyC,
        Modifiers { control: true, ..PLAIN },
        None,
    );
    assert_eq!(encode_keyboard_event(&event), Some(vec![0x03]));
}

#[test]
fn ctrl_shift_c_is_terminal_copy_shortcut() {
    let event = press(
        letter("c"),
        letter("C"),
        Physical::Code(iced::keyboard::key::Code::KeyC),
        Code::KeyC,
        Modifiers { control: true, shift: true, ..PLAIN },
        None,
    );
    assert!(is_terminal_copy_shortcut(&event));
    assert!(terminal_shortcut(&event, 'c'));
    assert!(!terminal_shortcut(&event, 'v'));
    assert!(!is_terminal_paste_shortcut(&event));
}

#[test]
fn shift_page_keys_are_local_terminal_scroll_shortcuts() {
    let shift = Modifiers { shift: true, ..PLAIN };
    let page_up = press(
        Key::Named(Named::PageUp),
        Key::Named(Named::PageUp),
        Physical::Code(iced::keyboard::key::Code::PageUp),
        Code::PageUp,
        shift,
        None,
    );
    let page_down = press(
        Key::Named(Named::PageDown),
        Key::Named(Named::PageDown),
        Physical::Code(iced::keyboard::key::Code::PageDown),
        Code::PageDown,
        shift,
        None,
    );
    assert_eq!(terminal_scroll_shortcut(&page_up, 28), Some(TerminalScrollAction::Lines(27)));
    assert_eq!(terminal_scroll_shortcut(&page_down, 28), Some(TerminalScrollAction::Lines(-27)));
}

#[test]
fn encodes_arrow_keys() {
    let event = press(
        Key::Named(Named::ArrowUp),
        Key::Named(Named::ArrowUp),
        Physical::Code(iced::keyboard::key::Code::ArrowUp),
        Code::ArrowUp,
        PLAIN,
        None,
    );
    assert_eq!(encode_keyboard_event(&event), Some(b"\x1b[A".to_vec()));
}

#[test]
fn encodes_alt_text_with_escape_prefix() {
    let event = press(
        letter("x"),
        letter("x"),
        Physical::Code(iced::keyboard::key::Code::KeyX),
        Code::KeyX,
        Modifiers { alt: true, ..PLAIN },
        Some("x"),
    );
    assert_eq!(encode_keyboard_event(&event), Some(b"\x1bx".to_vec()));
}

#[test]
fn a_cyrillic_layout_still_has_its_latin_shortcuts() {
    // The key that prints "с" stands where C does.
    let physical = Physical::Code(iced::keyboard::key::Code::KeyC);
    assert_eq!(key_latin(&letter("с"), &physical), Some('c'));
    assert_eq!(key_latin(&letter("a"), &physical), Some('a'));
    assert_eq!(key_latin(&Key::Named(Named::Enter), &physical), None);
    let event = press(
        letter("с"),
        letter("С"),
        Physical::Code(iced::keyboard::key::Code::KeyC),
        Code::KeyC,
        Modifiers { control: true, shift: true, ..PLAIN },
        None,
    );
    assert!(is_terminal_copy_shortcut(&event));
}

#[test]
fn control_letters_are_their_place_in_the_alphabet() {
    assert_eq!(control_byte(&letter("a"), Some('a')), Some(1));
    assert_eq!(control_byte(&letter("z"), Some('z')), Some(26));
}

#[test]
fn a_key_without_text_sends_nothing() {
    let bare = KeyPress {
        key: Key::Unidentified,
        modified_key: Key::Unidentified,
        physical: Physical::Code(iced::keyboard::key::Code::KeyA),
        code: Some(Code::KeyA),
        modifiers: PLAIN,
        text: None,
    };
    assert_eq!(encode_key_press(&bare, None), None);
    assert_eq!(encode_keyboard_event(&KeyEvent::Released(Some(Code::KeyA))), None);
}

#[test]
fn function_keys_have_their_sequences() {
    assert_eq!(named_key_sequence(Named::F1, PLAIN), Some("\x1bOP"));
    assert_eq!(named_key_sequence(Named::F5, PLAIN), Some("\x1b[15~"));
    assert_eq!(named_key_sequence(Named::F12, PLAIN), Some("\x1b[24~"));
    assert_eq!(named_key_sequence(Named::Other, PLAIN), None);
}

#[test]
fn enter_and_escape_are_told_apart() {
    let enter = press(
        Key::Named(Named::Enter),
        Key::Named(Named::Enter),
        Physical::Code(iced::keyboard::key::Code::Enter),
        Code::Enter,
        PLAIN,
        None,
    );
    let escape = press(
        Key::Named(Named::Escape),
        Key::Named(Named::Escape),
        Physical::Code(iced::keyboard::key::Code::Escape),
        Code::Escape,
        PLAIN,
        None,
    );
    assert!(is_enter_key(&enter) && !is_enter_key(&escape));
    assert!(is_escape_key(&escape) && !is_escape_key(&enter));
    assert!(!alt_shortcut(&enter, 'd'));
}

fn struck(virtual_key: u32, scan_code: u32, ctrl_alt: bool) -> HookEvent {
    HookEvent {
        action: true,
        injected: false,
        motion: KeyMotion::Down,
        virtual_key,
        scan_code,
        extended: false,
        ctrl_alt,
    }
}

#[test]
fn an_armed_hook_takes_keys_and_leaves_the_way_out() {
    let mut hook = KeyHook::queue();
    assert!(!hook.on_key(struck(0x41, 0x1E, false)));
    hook.arm(true);
    assert!(hook.on_key(struck(0x41, 0x1E, false)));
    assert!(!hook.on_key(struck(VK_RETURN, 0x1C, true)));
    let taken = hook.drain();
    assert_eq!(taken, vec![Stroke { scancode: 0x1E, extended: false, pressed: true }]);
    assert!(hook.drain().is_empty());
    hook.disarm();
    assert!(!hook.on_key(struck(0x41, 0x1E, false)));
}

#[test]
fn a_hook_that_could_not_be_installed_takes_nothing() {
    let mut hook = KeyHook::queue();
    hook.arm(false);
    assert!(!hook.on_key(struck(0x41, 0x1E, false)));
}

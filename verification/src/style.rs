//! Colours and the choices made with them. Each token has a value for light and
//! one for dark.

use vstd::prelude::*;
use vstd::string::*;

use crate::text::{chars_of, trim, trimmed};

verus! {

/// A colour with an opacity: 255 is opaque.
#[derive(Debug, Clone, Copy, PartialEq, Eq, Structural)]
pub struct Rgba {
    pub r: u8,
    pub g: u8,
    pub b: u8,
    pub a: u8,
}

/// An opaque colour.
pub open spec fn opaque(r: u8, g: u8, b: u8) -> Rgba {
    Rgba { r, g, b, a: 255 }
}

/// An opaque colour.
pub fn rgb(r: u8, g: u8, b: u8) -> (c: Rgba)
    ensures
        c == opaque(r, g, b),
{
    Rgba { r, g, b, a: 255 }
}

/// White.
pub open spec fn white_color() -> Rgba {
    opaque(255, 255, 255)
}

// Light and dark.

/// How the user wants the application to look.
#[derive(Debug, Clone, Copy, PartialEq, Eq, Structural)]
pub enum ThemeMode {
    Light,
    Dark,
    System,
}

/// Whether the application is dark: as the user chose, or as the system is.
/// A system of which nothing is known counts as dark.
pub fn resolve_dark(mode: ThemeMode, system_is_light: bool) -> (r: bool)
    ensures
        r == match mode {
            ThemeMode::Light => false,
            ThemeMode::Dark => true,
            ThemeMode::System => !system_is_light,
        },
{
    match mode {
        ThemeMode::Light => false,
        ThemeMode::Dark => true,
        ThemeMode::System => !system_is_light,
    }
}

/// Whether the stored mode, where there is one, is what the application starts
/// in; older settings know only dark and light.
pub fn initial_mode(stored: Option<ThemeMode>, dark: bool) -> (r: ThemeMode)
    ensures
        r == match stored {
            Some(mode) => mode,
            None => if dark {
                ThemeMode::Dark
            } else {
                ThemeMode::Light
            },
        },
{
    match stored {
        Some(mode) => mode,
        None => if dark {
            ThemeMode::Dark
        } else {
            ThemeMode::Light
        },
    }
}

/// The value of a token in the mode that is on.
pub open spec fn picked(dark: bool, light_value: Rgba, dark_value: Rgba) -> Rgba {
    if dark {
        dark_value
    } else {
        light_value
    }
}

/// The value of a token in the mode that is on.
pub fn pick(dark: bool, light_value: Rgba, dark_value: Rgba) -> (r: Rgba)
    ensures
        r == picked(dark, light_value, dark_value),
{
    if dark {
        dark_value
    } else {
        light_value
    }
}

/// Whether the application draws dark in this mode, given what the system says.
pub fn is_dark(mode: ThemeMode, system_is_light: bool) -> (r: bool)
    ensures
        r == (mode == ThemeMode::Dark || (mode == ThemeMode::System && !system_is_light)),
{
    resolve_dark(mode, system_is_light)
}

/// A token of the palette.
#[derive(Debug, Clone, Copy, PartialEq, Eq, Structural)]
pub enum Tone {
    Muted,
    Primary,
    AppBackground,
    Surface,
    SurfaceAlt,
    SurfaceSunken,
    PanelHover,
    Field,
    Border,
    BorderStrong,
    AccentSoft,
    Success,
    DangerBackground,
    Accent,
    Hyperlink,
    AccentHover,
    AccentPressed,
    Danger,
    Transparent,
    White,
}

/// The value of a token.
pub open spec fn tone(dark: bool, token: Tone) -> Rgba {
    match token {
        Tone::Muted => picked(dark, opaque(108, 113, 134), opaque(139, 144, 160)),
        Tone::Primary => picked(dark, opaque(28, 34, 48), opaque(230, 232, 238)),
        Tone::AppBackground => picked(dark, opaque(244, 246, 249), opaque(21, 22, 30)),
        Tone::Surface => picked(dark, opaque(255, 255, 255), opaque(27, 29, 41)),
        Tone::SurfaceAlt => picked(dark, opaque(238, 241, 246), opaque(27, 29, 41)),
        Tone::SurfaceSunken => picked(dark, opaque(231, 235, 241), opaque(18, 18, 25)),
        Tone::PanelHover => picked(dark, opaque(232, 242, 240), opaque(38, 42, 56)),
        Tone::Field => picked(dark, opaque(255, 255, 255), opaque(32, 35, 47)),
        Tone::Border => picked(dark, opaque(225, 230, 236), opaque(38, 42, 56)),
        Tone::BorderStrong => picked(dark, opaque(157, 217, 208), opaque(54, 64, 85)),
        Tone::AccentSoft => picked(dark, opaque(220, 242, 238), opaque(26, 48, 43)),
        Tone::Success => picked(dark, opaque(22, 143, 92), opaque(63, 185, 122)),
        Tone::DangerBackground => picked(dark, opaque(253, 237, 237), opaque(58, 36, 38)),
        Tone::Accent => opaque(15, 158, 140),
        Tone::Hyperlink => opaque(88, 166, 255),
        Tone::AccentHover => opaque(22, 182, 164),
        Tone::AccentPressed => opaque(11, 124, 110),
        Tone::Danger => opaque(229, 72, 77),
        Tone::Transparent => Rgba { r: 0, g: 0, b: 0, a: 0 },
        Tone::White => white_color(),
    }
}

/// Text that is less important.
pub fn muted_text(dark: bool) -> (r: Rgba)
    ensures
        r == tone(dark, Tone::Muted),
{
    pick(dark, rgb(108, 113, 134), rgb(139, 144, 160))
}

/// Ordinary text.
pub fn primary_text(dark: bool) -> (r: Rgba)
    ensures
        r == tone(dark, Tone::Primary),
{
    pick(dark, rgb(28, 34, 48), rgb(230, 232, 238))
}

/// Behind everything.
pub fn app_background(dark: bool) -> (r: Rgba)
    ensures
        r == tone(dark, Tone::AppBackground),
{
    pick(dark, rgb(244, 246, 249), rgb(21, 22, 30))
}

/// Raised: the sidebar, cards, dialogs, floating menus.
pub fn surface(dark: bool) -> (r: Rgba)
    ensures
        r == tone(dark, Tone::Surface),
{
    pick(dark, rgb(255, 255, 255), rgb(27, 29, 41))
}

/// Secondary chrome: the toolbar, the status bar, the tab strip.
pub fn surface_alt(dark: bool) -> (r: Rgba)
    ensures
        r == tone(dark, Tone::SurfaceAlt),
{
    pick(dark, rgb(238, 241, 246), rgb(27, 29, 41))
}

/// Recessed: what the terminal floats on.
pub fn surface_sunken(dark: bool) -> (r: Rgba)
    ensures
        r == tone(dark, Tone::SurfaceSunken),
{
    pick(dark, rgb(231, 235, 241), rgb(18, 18, 25))
}

/// A row under the pointer.
pub fn panel_background_hover(dark: bool) -> (r: Rgba)
    ensures
        r == tone(dark, Tone::PanelHover),
{
    pick(dark, rgb(232, 242, 240), rgb(38, 42, 56))
}

/// The inside of a text field.
pub fn field_background(dark: bool) -> (r: Rgba)
    ensures
        r == tone(dark, Tone::Field),
{
    pick(dark, rgb(255, 255, 255), rgb(32, 35, 47))
}

/// An ordinary edge.
pub fn border_color(dark: bool) -> (r: Rgba)
    ensures
        r == tone(dark, Tone::Border),
{
    pick(dark, rgb(225, 230, 236), rgb(38, 42, 56))
}

/// An edge that stands out.
pub fn border_strong(dark: bool) -> (r: Rgba)
    ensures
        r == tone(dark, Tone::BorderStrong),
{
    pick(dark, rgb(157, 217, 208), rgb(54, 64, 85))
}

/// A soft tint for what is selected.
pub fn accent_soft(dark: bool) -> (r: Rgba)
    ensures
        r == tone(dark, Tone::AccentSoft),
{
    pick(dark, rgb(220, 242, 238), rgb(26, 48, 43))
}

/// What is up. Distinct from the accent, which marks what is selected.
pub fn success(dark: bool) -> (r: Rgba)
    ensures
        r == tone(dark, Tone::Success),
{
    pick(dark, rgb(22, 143, 92), rgb(63, 185, 122))
}

/// Behind something dangerous.
pub fn danger_background(dark: bool) -> (r: Rgba)
    ensures
        r == tone(dark, Tone::DangerBackground),
{
    pick(dark, rgb(253, 237, 237), rgb(58, 36, 38))
}

/// The accent: deep enough that white text on it stays legible.
pub fn accent() -> (r: Rgba)
    ensures
        r == opaque(15, 158, 140),
        forall|dark: bool| r == #[trigger] tone(dark, Tone::Accent),
{
    rgb(15, 158, 140)
}

/// A link in the terminal: readable on light and on dark.
pub fn hyperlink_color() -> (r: Rgba)
    ensures
        r == opaque(88, 166, 255),
        forall|dark: bool| r == #[trigger] tone(dark, Tone::Hyperlink),
{
    rgb(88, 166, 255)
}

/// The accent under the pointer.
pub fn accent_hover() -> (r: Rgba)
    ensures
        r == opaque(22, 182, 164),
        forall|dark: bool| r == #[trigger] tone(dark, Tone::AccentHover),
{
    rgb(22, 182, 164)
}

/// The accent while pressed.
pub fn accent_pressed() -> (r: Rgba)
    ensures
        r == opaque(11, 124, 110),
        forall|dark: bool| r == #[trigger] tone(dark, Tone::AccentPressed),
{
    rgb(11, 124, 110)
}

/// What is dangerous or has failed.
pub fn danger() -> (r: Rgba)
    ensures
        r == opaque(229, 72, 77),
        forall|dark: bool| r == #[trigger] tone(dark, Tone::Danger),
{
    rgb(229, 72, 77)
}

/// Nothing at all.
pub fn transparent() -> (r: Rgba)
    ensures
        r == (Rgba { r: 0, g: 0, b: 0, a: 0 }),
        forall|dark: bool| r == #[trigger] tone(dark, Tone::Transparent),
{
    Rgba { r: 0, g: 0, b: 0, a: 0 }
}

/// The value of a token.
pub fn tone_color(dark: bool, token: Tone) -> (r: Rgba)
    ensures
        r == tone(dark, token),
{
    match token {
        Tone::Muted => muted_text(dark),
        Tone::Primary => primary_text(dark),
        Tone::AppBackground => app_background(dark),
        Tone::Surface => surface(dark),
        Tone::SurfaceAlt => surface_alt(dark),
        Tone::SurfaceSunken => surface_sunken(dark),
        Tone::PanelHover => panel_background_hover(dark),
        Tone::Field => field_background(dark),
        Tone::Border => border_color(dark),
        Tone::BorderStrong => border_strong(dark),
        Tone::AccentSoft => accent_soft(dark),
        Tone::Success => success(dark),
        Tone::DangerBackground => danger_background(dark),
        Tone::Accent => accent(),
        Tone::Hyperlink => hyperlink_color(),
        Tone::AccentHover => accent_hover(),
        Tone::AccentPressed => accent_pressed(),
        Tone::Danger => danger(),
        Tone::Transparent => transparent(),
        Tone::White => rgb(255, 255, 255),
    }
}

/// A shadow. Its colour and opacity are in hundredths, its reach in pixels.
#[derive(Debug, Clone, Copy, PartialEq, Eq, Structural)]
pub struct Shadow {
    pub red: u8,
    pub green: u8,
    pub blue: u8,
    pub opacity: u8,
    pub down: u8,
    pub blur: u8,
}

/// The pronounced shadow of a dialog.
pub fn soft_shadow() -> (r: Shadow)
    ensures
        r == (Shadow { red: 5, green: 9, blue: 16, opacity: 18, down: 10, blur: 28 }),
{
    Shadow { red: 5, green: 9, blue: 16, opacity: 18, down: 10, blur: 28 }
}

/// The light shadow of a menu.
pub fn subtle_shadow() -> (r: Shadow)
    ensures
        r == (Shadow { red: 5, green: 9, blue: 16, opacity: 12, down: 4, blur: 14 }),
{
    Shadow { red: 5, green: 9, blue: 16, opacity: 12, down: 4, blur: 14 }
}

// Where colours come from.

/// The value of a hexadecimal digit.
pub open spec fn hex_digit(c: char) -> Option<int> {
    if '0' <= c <= '9' {
        Some(c as int - '0' as int)
    } else if 'a' <= c <= 'f' {
        Some(c as int - 'a' as int + 10)
    } else if 'A' <= c <= 'F' {
        Some(c as int - 'A' as int + 10)
    } else {
        None
    }
}

fn hex_value(c: char) -> (r: Option<u8>)
    ensures
        match r {
            Some(v) => hex_digit(c) == Some(v as int) && v < 16,
            None => hex_digit(c) is None,
        },
{
    if '0' <= c && c <= '9' {
        Some(c as u8 - 48)
    } else if 'a' <= c && c <= 'f' {
        Some(c as u8 - 97 + 10)
    } else if 'A' <= c && c <= 'F' {
        Some(c as u8 - 65 + 10)
    } else {
        None
    }
}

/// A text without the number signs it starts with.
pub open spec fn without_hashes(s: Seq<char>) -> Seq<char>
    decreases s.len(),
{
    if s.len() > 0 && s[0] == '#' {
        without_hashes(s.drop_first())
    } else {
        s
    }
}

proof fn lemma_without_hashes(s: Seq<char>, k: int)
    requires
        0 <= k <= s.len(),
        forall|i: int| 0 <= i < k ==> s[i] == '#',
        k < s.len() ==> s[k] != '#',
    ensures
        without_hashes(s) == s.skip(k),
    decreases k,
{
    if k > 0 {
        let t = s.drop_first();
        assert forall|i: int| 0 <= i < k - 1 implies t[i] == '#' by {
            assert(s[i + 1] == '#');
        }
        lemma_without_hashes(t, k - 1);
        assert(t.skip(k - 1) =~= s.skip(k));
    } else {
        assert(s.skip(0) =~= s);
    }
}

/// The colour that six hexadecimal digits write, with or without number signs
/// before them and blanks around them.
pub open spec fn hex_color(text: Seq<char>) -> Option<Rgba> {
    let hex = without_hashes(trimmed(text));
    if hex.len() == 6 && forall|i: int| 0 <= i < 6 ==> hex_digit(#[trigger] hex[i]) is Some {
        Some(
            opaque(
                (hex_digit(hex[0])->0 * 16 + hex_digit(hex[1])->0) as u8,
                (hex_digit(hex[2])->0 * 16 + hex_digit(hex[3])->0) as u8,
                (hex_digit(hex[4])->0 * 16 + hex_digit(hex[5])->0) as u8,
            ),
        )
    } else {
        None
    }
}

/// The colour that six hexadecimal digits write.
pub fn parse_hex_color(hex: &str) -> (r: Option<Rgba>)
    ensures
        r == hex_color(hex@),
{
    let text: String = trim(hex);
    let chars: Vec<char> = chars_of(text.as_str());
    let mut start: usize = 0;
    while start < chars.len() && chars[start] == '#'
        invariant
            start <= chars.len(),
            forall|i: int| 0 <= i < start ==> chars@[i] == '#',
        decreases chars.len() - start,
    {
        start += 1;
    }
    proof {
        lemma_without_hashes(chars@, start as int);
    }
    let ghost digits = without_hashes(trimmed(hex@));
    assert(digits == chars@.skip(start as int));
    if chars.len() - start != 6 {
        return None;
    }
    let mut values: Vec<u8> = Vec::new();
    let mut i: usize = 0;
    while i < 6
        invariant
            i <= 6,
            chars.len() == start + 6,
            digits == chars@.skip(start as int),
            digits == without_hashes(trimmed(hex@)),
            values.len() == i,
            forall|j: int|
                0 <= j < i ==> hex_digit(#[trigger] digits[j]) == Some(values@[j] as int)
                    && values@[j] < 16,
        decreases 6 - i,
    {
        assert(digits[i as int] == chars@[start + i]);
        match hex_value(chars[start + i]) {
            Some(v) => {
                values.push(v);
            },
            None => {
                return None;
            },
        }
        i += 1;
    }
    assert(hex_digit(digits[0]) is Some && hex_digit(digits[1]) is Some && hex_digit(
        digits[2],
    ) is Some && hex_digit(digits[3]) is Some && hex_digit(digits[4]) is Some && hex_digit(
        digits[5],
    ) is Some);
    Some(
        rgb(
            values[0] * 16 + values[1],
            values[2] * 16 + values[3],
            values[4] * 16 + values[5],
        ),
    )
}

/// The state of a session.
#[derive(Debug, Clone, Copy, PartialEq, Eq, Structural)]
pub enum SessionStatus {
    Connecting,
    Connected,
    Disconnected,
    Error,
}

/// The colour of a session's state.
pub fn status_color(dark: bool, status: SessionStatus) -> (r: Rgba)
    ensures
        r == match status {
            SessionStatus::Connecting => opaque(245, 158, 11),
            SessionStatus::Connected => opaque(34, 197, 94),
            SessionStatus::Disconnected => tone(dark, Tone::Muted),
            SessionStatus::Error => tone(dark, Tone::Danger),
        },
{
    match status {
        SessionStatus::Connecting => rgb(245, 158, 11),
        SessionStatus::Connected => rgb(34, 197, 94),
        SessionStatus::Disconnected => muted_text(dark),
        SessionStatus::Error => danger(),
    }
}

/// Whether the modifier that opens links is held. A plain click always goes to
/// the terminal.
pub fn link_open_modifier(control: bool, logo: bool) -> (r: bool)
    ensures
        r == (control || logo),
{
    control || logo
}

// Avatars.

/// The hash of a name that its colour goes by: its bytes in order, each added to
/// 31 times what came before, in 32 bits.
pub open spec fn name_hash(bytes: Seq<u8>) -> u32
    decreases bytes.len(),
{
    if bytes.len() == 0 {
        0
    } else {
        ((name_hash(bytes.drop_last()) * 31 + bytes.last()) % 0x1_0000_0000) as u32
    }
}

/// The colour of a hash.
pub open spec fn avatar_palette(hash: u32) -> Rgba {
    let k = hash % 6;
    if k == 0 {
        opaque(15, 158, 140)
    } else if k == 1 {
        opaque(44, 123, 214)
    } else if k == 2 {
        opaque(124, 116, 221)
    } else if k == 3 {
        opaque(216, 90, 48)
    } else if k == 4 {
        opaque(196, 78, 122)
    } else {
        opaque(78, 140, 46)
    }
}

/// The colour of a name's avatar: always the same for the same name.
pub fn avatar_color(name: &str) -> (r: Rgba)
    ensures
        r == avatar_palette(name_hash(name.spec_bytes())),
{
    let bytes: Vec<u8> = name.as_bytes_vec();
    let mut hash: u32 = 0;
    let mut i: usize = 0;
    while i < bytes.len()
        invariant
            i <= bytes.len(),
            bytes@ == name.spec_bytes(),
            hash == name_hash(bytes@.take(i as int)),
        decreases bytes.len() - i,
    {
        assert(bytes@.take(i + 1).drop_last() =~= bytes@.take(i as int));
        let wide: u64 = hash as u64 * 31 + bytes[i] as u64;
        hash = (wide % 0x1_0000_0000) as u32;
        i += 1;
    }
    assert(bytes@.take(i as int) =~= bytes@);
    let k: u32 = hash % 6;
    if k == 0 {
        rgb(15, 158, 140)
    } else if k == 1 {
        rgb(44, 123, 214)
    } else if k == 2 {
        rgb(124, 116, 221)
    } else if k == 3 {
        rgb(216, 90, 48)
    } else if k == 4 {
        rgb(196, 78, 122)
    } else {
        rgb(78, 140, 46)
    }
}

// Buttons and rows.

/// What the pointer does with a button.
#[derive(Debug, Clone, Copy, PartialEq, Eq, Structural)]
pub enum ButtonState {
    Active,
    Hovered,
    Pressed,
    Disabled,
}

/// The colours of a button.
#[derive(Debug, Clone, Copy, PartialEq, Eq, Structural)]
pub struct ButtonColors {
    pub background: Rgba,
    pub text: Rgba,
    pub border: Rgba,
}

/// The colours of a framed area.
#[derive(Debug, Clone, Copy, PartialEq, Eq, Structural)]
pub struct AreaColors {
    pub background: Rgba,
    pub border: Rgba,
}

/// The colours of the button that does the thing.
pub fn primary_button_style(dark: bool, state: ButtonState) -> (r: ButtonColors)
    ensures
        r == (ButtonColors {
            background: match state {
                ButtonState::Hovered => tone(dark, Tone::AccentHover),
                ButtonState::Pressed => tone(dark, Tone::AccentPressed),
                ButtonState::Disabled => opaque(206, 213, 224),
                ButtonState::Active => tone(dark, Tone::Accent),
            },
            text: tone(dark, Tone::White),
            border: match state {
                ButtonState::Hovered => tone(dark, Tone::AccentHover),
                ButtonState::Pressed => tone(dark, Tone::AccentPressed),
                ButtonState::Disabled => opaque(206, 213, 224),
                ButtonState::Active => tone(dark, Tone::Accent),
            },
        }),
{
    ButtonColors {
        background: match state {
                ButtonState::Hovered => accent_hover(),
                ButtonState::Pressed => accent_pressed(),
                ButtonState::Disabled => rgb(206, 213, 224),
                ButtonState::Active => accent(),
            },
        text: rgb(255, 255, 255),
        border: match state {
                ButtonState::Hovered => accent_hover(),
                ButtonState::Pressed => accent_pressed(),
                ButtonState::Disabled => rgb(206, 213, 224),
                ButtonState::Active => accent(),
            },
    }
}

/// The colours of an ordinary button.
pub fn secondary_button_style(dark: bool, state: ButtonState) -> (r: ButtonColors)
    ensures
        r == (ButtonColors {
            background: match state {
                ButtonState::Hovered => tone(dark, Tone::PanelHover),
                ButtonState::Pressed => tone(dark, Tone::AccentSoft),
                ButtonState::Disabled => tone(dark, Tone::SurfaceAlt),
                ButtonState::Active => tone(dark, Tone::Surface),
            },
            text: tone(dark, Tone::Primary),
            border: tone(dark, Tone::Border),
        }),
{
    ButtonColors {
        background: match state {
                ButtonState::Hovered => panel_background_hover(dark),
                ButtonState::Pressed => accent_soft(dark),
                ButtonState::Disabled => surface_alt(dark),
                ButtonState::Active => surface(dark),
            },
        text: primary_text(dark),
        border: border_color(dark),
    }
}

/// The colours of a destructive button: tinted, and filled under the pointer.
pub fn danger_button_style(dark: bool, state: ButtonState) -> (r: ButtonColors)
    ensures
        r == (ButtonColors {
            background: match state {
                ButtonState::Hovered => tone(dark, Tone::Danger),
                ButtonState::Pressed => tone(dark, Tone::Danger),
                ButtonState::Disabled => tone(dark, Tone::SurfaceAlt),
                ButtonState::Active => tone(dark, Tone::DangerBackground),
            },
            text: match state {
                ButtonState::Hovered => tone(dark, Tone::White),
                ButtonState::Pressed => tone(dark, Tone::White),
                ButtonState::Disabled => tone(dark, Tone::Muted),
                ButtonState::Active => tone(dark, Tone::Danger),
            },
            border: tone(dark, Tone::Danger),
        }),
{
    ButtonColors {
        background: match state {
                ButtonState::Hovered => danger(),
                ButtonState::Pressed => danger(),
                ButtonState::Disabled => surface_alt(dark),
                ButtonState::Active => danger_background(dark),
            },
        text: match state {
                ButtonState::Hovered => rgb(255, 255, 255),
                ButtonState::Pressed => rgb(255, 255, 255),
                ButtonState::Disabled => muted_text(dark),
                ButtonState::Active => danger(),
            },
        border: danger(),
    }
}

/// The colours of the mark that closes a tab.
pub fn tab_close_button_style(dark: bool, state: ButtonState) -> (r: ButtonColors)
    ensures
        r == (ButtonColors {
            background: match state {
                ButtonState::Hovered => tone(dark, Tone::PanelHover),
                ButtonState::Pressed => tone(dark, Tone::PanelHover),
                ButtonState::Disabled => tone(dark, Tone::Transparent),
                ButtonState::Active => tone(dark, Tone::Transparent),
            },
            text: match state {
                ButtonState::Hovered => tone(dark, Tone::Primary),
                ButtonState::Pressed => tone(dark, Tone::Primary),
                ButtonState::Disabled => tone(dark, Tone::Muted),
                ButtonState::Active => tone(dark, Tone::Muted),
            },
            border: tone(dark, Tone::Transparent),
        }),
{
    ButtonColors {
        background: match state {
                ButtonState::Hovered => panel_background_hover(dark),
                ButtonState::Pressed => panel_background_hover(dark),
                ButtonState::Disabled => transparent(),
                ButtonState::Active => transparent(),
            },
        text: match state {
                ButtonState::Hovered => primary_text(dark),
                ButtonState::Pressed => primary_text(dark),
                ButtonState::Disabled => muted_text(dark),
                ButtonState::Active => muted_text(dark),
            },
        border: transparent(),
    }
}

/// The colours of the mark that closes a dialog.
pub fn close_button_style(dark: bool, state: ButtonState) -> (r: ButtonColors)
    ensures
        r == (ButtonColors {
            background: match state {
                ButtonState::Hovered => tone(dark, Tone::DangerBackground),
                ButtonState::Pressed => opaque(250, 220, 220),
                ButtonState::Disabled => tone(dark, Tone::Transparent),
                ButtonState::Active => tone(dark, Tone::Transparent),
            },
            text: match state {
                ButtonState::Hovered => tone(dark, Tone::Danger),
                ButtonState::Pressed => tone(dark, Tone::Danger),
                ButtonState::Disabled => tone(dark, Tone::Muted),
                ButtonState::Active => tone(dark, Tone::Muted),
            },
            border: tone(dark, Tone::Transparent),
        }),
{
    ButtonColors {
        background: match state {
                ButtonState::Hovered => danger_background(dark),
                ButtonState::Pressed => rgb(250, 220, 220),
                ButtonState::Disabled => transparent(),
                ButtonState::Active => transparent(),
            },
        text: match state {
                ButtonState::Hovered => danger(),
                ButtonState::Pressed => danger(),
                ButtonState::Disabled => muted_text(dark),
                ButtonState::Active => muted_text(dark),
            },
        border: transparent(),
    }
}

/// The colours of a button that is only a mark.
pub fn toolbar_icon_button_style(dark: bool, state: ButtonState) -> (r: ButtonColors)
    ensures
        r == (ButtonColors {
            background: match state {
                ButtonState::Hovered => tone(dark, Tone::PanelHover),
                ButtonState::Pressed => tone(dark, Tone::AccentSoft),
                ButtonState::Disabled => tone(dark, Tone::Transparent),
                ButtonState::Active => tone(dark, Tone::Transparent),
            },
            text: tone(dark, Tone::Primary),
            border: tone(dark, Tone::Transparent),
        }),
{
    ButtonColors {
        background: match state {
                ButtonState::Hovered => panel_background_hover(dark),
                ButtonState::Pressed => accent_soft(dark),
                ButtonState::Disabled => transparent(),
                ButtonState::Active => transparent(),
            },
        text: primary_text(dark),
        border: transparent(),
    }
}

/// The colours of a column's heading.
pub fn sort_header_button_style(dark: bool, state: ButtonState) -> (r: ButtonColors)
    ensures
        r == (ButtonColors {
            background: match state {
                ButtonState::Hovered => tone(dark, Tone::PanelHover),
                ButtonState::Pressed => tone(dark, Tone::Transparent),
                ButtonState::Disabled => tone(dark, Tone::Transparent),
                ButtonState::Active => tone(dark, Tone::Transparent),
            },
            text: tone(dark, Tone::Muted),
            border: tone(dark, Tone::Transparent),
        }),
{
    ButtonColors {
        background: match state {
                ButtonState::Hovered => panel_background_hover(dark),
                ButtonState::Pressed => transparent(),
                ButtonState::Disabled => transparent(),
                ButtonState::Active => transparent(),
            },
        text: muted_text(dark),
        border: transparent(),
    }
}

/// The colours of an entry of a file list.
pub fn sftp_entry_button_style(dark: bool, state: ButtonState) -> (r: ButtonColors)
    ensures
        r == (ButtonColors {
            background: match state {
                ButtonState::Hovered => tone(dark, Tone::PanelHover),
                ButtonState::Pressed => tone(dark, Tone::AccentSoft),
                ButtonState::Disabled => tone(dark, Tone::Transparent),
                ButtonState::Active => tone(dark, Tone::Transparent),
            },
            text: tone(dark, Tone::Primary),
            border: tone(dark, Tone::Transparent),
        }),
{
    ButtonColors {
        background: match state {
                ButtonState::Hovered => panel_background_hover(dark),
                ButtonState::Pressed => accent_soft(dark),
                ButtonState::Disabled => transparent(),
                ButtonState::Active => transparent(),
            },
        text: primary_text(dark),
        border: transparent(),
    }
}

/// The colours of one of several choices.
pub fn method_button_style(dark: bool, selected: bool, state: ButtonState) -> (r: ButtonColors)
    ensures
        r == (ButtonColors {
            background: if selected {
                match state {
                    ButtonState::Pressed => tone(dark, Tone::AccentPressed),
                    ButtonState::Hovered => tone(dark, Tone::AccentHover),
                    _ => tone(dark, Tone::Accent),
                }
            } else {
                match state {
                    ButtonState::Hovered => tone(dark, Tone::PanelHover),
                    ButtonState::Pressed => tone(dark, Tone::AccentSoft),
                    _ => tone(dark, Tone::Surface),
                }
            },
            text: if selected {
                white_color()
            } else {
                tone(dark, Tone::Primary)
            },
            border: if selected {
                tone(dark, Tone::Accent)
            } else {
                tone(dark, Tone::Border)
            },
        }),
{
    let background: Rgba = if selected {
        match state {
            ButtonState::Pressed => accent_pressed(),
            ButtonState::Hovered => accent_hover(),
            _ => accent(),
        }
    } else {
        match state {
            ButtonState::Hovered => panel_background_hover(dark),
            ButtonState::Pressed => accent_soft(dark),
            _ => surface(dark),
        }
    };
    ButtonColors {
        background,
        text: if selected {
            rgb(255, 255, 255)
        } else {
            primary_text(dark)
        },
        border: if selected {
            accent()
        } else {
            border_color(dark)
        },
    }
}

/// The colours of a menu's heading.
pub fn menu_button_style(dark: bool, active: bool, state: ButtonState) -> (r: ButtonColors)
    ensures
        r == (ButtonColors {
            background: if active {
                tone(dark, Tone::AccentSoft)
            } else {
                match state {
                    ButtonState::Hovered => tone(dark, Tone::PanelHover),
                    ButtonState::Pressed => tone(dark, Tone::AccentSoft),
                    _ => tone(dark, Tone::Transparent),
                }
            },
            text: tone(dark, Tone::Primary),
            border: tone(dark, Tone::Transparent),
        }),
{
    ButtonColors {
        background: if active {
            accent_soft(dark)
        } else {
            match state {
                ButtonState::Hovered => panel_background_hover(dark),
                ButtonState::Pressed => accent_soft(dark),
                _ => transparent(),
            }
        },
        text: primary_text(dark),
        border: transparent(),
    }
}

/// The colours of an item of a context menu: red where it destroys something.
pub fn profile_menu_item_style(dark: bool, state: ButtonState, destructive: bool) -> (r:
    ButtonColors)
    ensures
        r == (ButtonColors {
            background: if state == ButtonState::Hovered || state == ButtonState::Pressed {
                if destructive {
                    tone(dark, Tone::DangerBackground)
                } else {
                    tone(dark, Tone::PanelHover)
                }
            } else {
                tone(dark, Tone::Transparent)
            },
            text: if destructive {
                tone(dark, Tone::Danger)
            } else {
                tone(dark, Tone::Primary)
            },
            border: tone(dark, Tone::Transparent),
        }),
{
    ButtonColors {
        background: if state == ButtonState::Hovered || state == ButtonState::Pressed {
            if destructive {
                danger_background(dark)
            } else {
                panel_background_hover(dark)
            }
        } else {
            transparent()
        },
        text: if destructive {
            danger()
        } else {
            primary_text(dark)
        },
        border: transparent(),
    }
}

/// The edge of a text field.
pub fn text_input_border(dark: bool, focused: bool, hovered: bool) -> (r: Rgba)
    ensures
        r == if focused {
            tone(dark, Tone::Accent)
        } else if hovered {
            tone(dark, Tone::BorderStrong)
        } else {
            tone(dark, Tone::Border)
        },
{
    if focused {
        accent()
    } else if hovered {
        border_strong(dark)
    } else {
        border_color(dark)
    }
}

/// The look of something that can be dragged: its colours, the width of its edge in
/// pixels, and the shadow that lifts it off the rest.
#[derive(Debug, Clone, Copy, PartialEq, Eq, Structural)]
pub struct ItemLook {
    pub colors: AreaColors,
    pub edge: u8,
    pub shadow: Option<Shadow>,
}

/// The look of a tab: one that is dragged looks picked up.
pub fn tab_container_style_dnd(dark: bool, active: bool, dragging: bool) -> (r: ItemLook)
    ensures
        r.edge == if dragging {
            2
        } else {
            1int
        },
        r.shadow == if dragging {
            Some(Shadow { red: 5, green: 9, blue: 16, opacity: 12, down: 4, blur: 14 })
        } else {
            None
        },
        r.colors == (AreaColors {
            background: if dragging {
                tone(dark, Tone::AccentSoft)
            } else if active {
                tone(dark, Tone::Surface)
            } else {
                tone(dark, Tone::SurfaceAlt)
            },
            border: if active || dragging {
                tone(dark, Tone::Accent)
            } else {
                tone(dark, Tone::Border)
            },
        }),
{
    let colors: AreaColors = AreaColors {
        background: if dragging {
            accent_soft(dark)
        } else if active {
            surface(dark)
        } else {
            surface_alt(dark)
        },
        border: if active || dragging {
            accent()
        } else {
            border_color(dark)
        },
    };
    ItemLook {
        colors,
        edge: if dragging {
            2
        } else {
            1
        },
        shadow: if dragging {
            Some(subtle_shadow())
        } else {
            None
        },
    }
}

/// The look of a row of the tree: one that is dragged or selected stands out, one
/// under the pointer a little, and one that is dragged looks picked up.
pub fn tree_item_container_style(dark: bool, selected: bool, hovered: bool, dragging: bool) -> (r:
    ItemLook)
    ensures
        r.edge == if dragging {
            2
        } else {
            1int
        },
        r.shadow == if dragging {
            Some(Shadow { red: 5, green: 9, blue: 16, opacity: 18, down: 10, blur: 28 })
        } else {
            None
        },
        r.colors == (AreaColors {
            background: if dragging || selected {
                tone(dark, Tone::AccentSoft)
            } else if hovered {
                tone(dark, Tone::PanelHover)
            } else {
                tone(dark, Tone::Transparent)
            },
            border: if dragging || selected {
                tone(dark, Tone::Accent)
            } else {
                tone(dark, Tone::Transparent)
            },
        }),
{
    let colors: AreaColors = AreaColors {
        background: if dragging || selected {
            accent_soft(dark)
        } else if hovered {
            panel_background_hover(dark)
        } else {
            transparent()
        },
        border: if dragging || selected {
            accent()
        } else {
            transparent()
        },
    };
    ItemLook {
        colors,
        edge: if dragging {
            2
        } else {
            1
        },
        shadow: if dragging {
            Some(soft_shadow())
        } else {
            None
        },
    }
}

/// The colours of a card of the settings, or of a pane's heading: the one that
/// is chosen stands out.
pub fn settings_card_style(dark: bool, selected: bool) -> (r: AreaColors)
    ensures
        r == (AreaColors {
            background: if selected {
                tone(dark, Tone::AccentSoft)
            } else {
                tone(dark, Tone::SurfaceAlt)
            },
            border: if selected {
                tone(dark, Tone::Accent)
            } else {
                tone(dark, Tone::Border)
            },
        }),
{
    AreaColors {
        background: if selected {
            accent_soft(dark)
        } else {
            surface_alt(dark)
        },
        border: if selected {
            accent()
        } else {
            border_color(dark)
        },
    }
}

/// The colours of a folder's row: one that a session is dragged over stands out.
pub fn group_row_style(dark: bool, drop_target: bool) -> (r: AreaColors)
    ensures
        r == (AreaColors {
            background: if drop_target {
                tone(dark, Tone::AccentSoft)
            } else {
                tone(dark, Tone::Transparent)
            },
            border: if drop_target {
                tone(dark, Tone::Accent)
            } else {
                tone(dark, Tone::Transparent)
            },
        }),
{
    AreaColors {
        background: if drop_target {
            accent_soft(dark)
        } else {
            transparent()
        },
        border: if drop_target {
            accent()
        } else {
            transparent()
        },
    }
}

/// An area of the window that always looks the same.
#[derive(Debug, Clone, Copy, PartialEq, Eq, Structural)]
pub enum Area {
    App,
    TopBar,
    Dropdown,
    Toolbar,
    Sidebar,
    SidebarHeader,
    Workspace,
    Dialog,
    StatusBar,
    ErrorPanel,
    ContextMenu,
    EditMenu,
}

/// The tokens of an area: of its ground, its words and its edge.
pub open spec fn area_look(area: Area) -> (Tone, Tone, Tone) {
    match area {
        Area::App => (Tone::AppBackground, Tone::Primary, Tone::Transparent),
        Area::Workspace => (Tone::SurfaceSunken, Tone::Primary, Tone::Transparent),
        Area::TopBar | Area::Dropdown | Area::Sidebar | Area::Dialog | Area::ContextMenu
        | Area::EditMenu => (Tone::Surface, Tone::Primary, Tone::Border),
        Area::Toolbar => (Tone::SurfaceAlt, Tone::Primary, Tone::Border),
        Area::SidebarHeader | Area::StatusBar => (Tone::SurfaceAlt, Tone::Muted, Tone::Border),
        Area::ErrorPanel => (Tone::DangerBackground, Tone::Primary, Tone::Danger),
    }
}

/// The tokens of an area: of its ground, its words and its edge.
pub fn area_tones(area: Area) -> (r: (Tone, Tone, Tone))
    ensures
        r == area_look(area),
{
    match area {
        Area::App => (Tone::AppBackground, Tone::Primary, Tone::Transparent),
        Area::Workspace => (Tone::SurfaceSunken, Tone::Primary, Tone::Transparent),
        Area::TopBar | Area::Dropdown | Area::Sidebar | Area::Dialog | Area::ContextMenu
        | Area::EditMenu => (Tone::Surface, Tone::Primary, Tone::Border),
        Area::Toolbar => (Tone::SurfaceAlt, Tone::Primary, Tone::Border),
        Area::SidebarHeader | Area::StatusBar => (Tone::SurfaceAlt, Tone::Muted, Tone::Border),
        Area::ErrorPanel => (Tone::DangerBackground, Tone::Primary, Tone::Danger),
    }
}

/// The edge of a terminal: the one that has the keyboard stands out.
pub fn terminal_panel_edge(focused: bool) -> (r: Rgba)
    ensures
        r == if focused {
            tone(true, Tone::Accent)
        } else {
            opaque(38, 43, 54)
        },
{
    if focused {
        accent()
    } else {
        rgb(38, 43, 54)
    }
}

// Laws.

/// The tokens have these values where the application draws light and where it draws
/// dark.
pub proof fn law_tokens_have_these_values()
    ensures
        tone(false, Tone::Muted) == (Rgba { r: 108, g: 113, b: 134, a: 255 }),
        tone(true, Tone::Muted) == (Rgba { r: 139, g: 144, b: 160, a: 255 }),
        tone(false, Tone::Primary) == (Rgba { r: 28, g: 34, b: 48, a: 255 }),
        tone(true, Tone::Primary) == (Rgba { r: 230, g: 232, b: 238, a: 255 }),
        tone(false, Tone::AppBackground) == (Rgba { r: 244, g: 246, b: 249, a: 255 }),
        tone(true, Tone::AppBackground) == (Rgba { r: 21, g: 22, b: 30, a: 255 }),
        tone(false, Tone::Surface) == (Rgba { r: 255, g: 255, b: 255, a: 255 }),
        tone(true, Tone::Surface) == (Rgba { r: 27, g: 29, b: 41, a: 255 }),
        tone(false, Tone::SurfaceAlt) == (Rgba { r: 238, g: 241, b: 246, a: 255 }),
        tone(true, Tone::SurfaceAlt) == (Rgba { r: 27, g: 29, b: 41, a: 255 }),
        tone(false, Tone::SurfaceSunken) == (Rgba { r: 231, g: 235, b: 241, a: 255 }),
        tone(true, Tone::SurfaceSunken) == (Rgba { r: 18, g: 18, b: 25, a: 255 }),
        tone(false, Tone::PanelHover) == (Rgba { r: 232, g: 242, b: 240, a: 255 }),
        tone(true, Tone::PanelHover) == (Rgba { r: 38, g: 42, b: 56, a: 255 }),
        tone(false, Tone::Field) == (Rgba { r: 255, g: 255, b: 255, a: 255 }),
        tone(true, Tone::Field) == (Rgba { r: 32, g: 35, b: 47, a: 255 }),
        tone(false, Tone::Border) == (Rgba { r: 225, g: 230, b: 236, a: 255 }),
        tone(true, Tone::Border) == (Rgba { r: 38, g: 42, b: 56, a: 255 }),
        tone(false, Tone::BorderStrong) == (Rgba { r: 157, g: 217, b: 208, a: 255 }),
        tone(true, Tone::BorderStrong) == (Rgba { r: 54, g: 64, b: 85, a: 255 }),
        tone(false, Tone::AccentSoft) == (Rgba { r: 220, g: 242, b: 238, a: 255 }),
        tone(true, Tone::AccentSoft) == (Rgba { r: 26, g: 48, b: 43, a: 255 }),
        tone(false, Tone::Success) == (Rgba { r: 22, g: 143, b: 92, a: 255 }),
        tone(true, Tone::Success) == (Rgba { r: 63, g: 185, b: 122, a: 255 }),
        tone(false, Tone::DangerBackground) == (Rgba { r: 253, g: 237, b: 237, a: 255 }),
        tone(true, Tone::DangerBackground) == (Rgba { r: 58, g: 36, b: 38, a: 255 }),
{
}

/// These tokens have one value in both.
pub proof fn law_these_tokens_do_not_follow_the_mode(dark: bool)
    ensures
        tone(dark, Tone::Accent) == (Rgba { r: 15, g: 158, b: 140, a: 255 }),
        tone(dark, Tone::Hyperlink) == (Rgba { r: 88, g: 166, b: 255, a: 255 }),
        tone(dark, Tone::AccentHover) == (Rgba { r: 22, g: 182, b: 164, a: 255 }),
        tone(dark, Tone::AccentPressed) == (Rgba { r: 11, g: 124, b: 110, a: 255 }),
        tone(dark, Tone::Danger) == (Rgba { r: 229, g: 72, b: 77, a: 255 }),
        tone(dark, Tone::White) == (Rgba { r: 255, g: 255, b: 255, a: 255 }),
        tone(dark, Tone::Transparent).a == 0,
{
}

/// The digits of numbers below sixteen, small and capital.
pub proof fn law_hexadecimal_digits_have_these_values()
    ensures
        forall|i: int|
            0 <= i < 16 ==> #[trigger] hex_digit("0123456789abcdef"@[i]) == Some(i) && hex_digit(
                "0123456789ABCDEF"@[i],
            ) == Some(i),
{
    reveal_strlit("0123456789abcdef");
    reveal_strlit("0123456789ABCDEF");
}

/// What is no such digit has no value.
pub proof fn law_nothing_else_is_a_hexadecimal_digit(c: char)
    ensures
        hex_digit(c) matches Some(v) ==> 0 <= v < 16 && ("0123456789abcdef"@[v] == c
            || "0123456789ABCDEF"@[v] == c),
{
    reveal_strlit("0123456789abcdef");
    reveal_strlit("0123456789ABCDEF");
}

/// Six digits write the red, the green and the blue of a colour that is opaque, sixteen
/// times the first digit of each and the second; number signs before them change nothing.
pub proof fn law_six_digits_write_a_color(text: Seq<char>, digits: Seq<char>)
    requires
        exists|k: int|
            0 <= k <= trimmed(text).len() && #[trigger] trimmed(text).skip(k) == digits && forall|
                i: int,
            |
                0 <= i < k ==> #[trigger] trimmed(text)[i] == '#',
        digits.len() == 6,
        forall|i: int| 0 <= i < 6 ==> hex_digit(#[trigger] digits[i]) is Some,
    ensures
        hex_color(text) matches Some(color) && {
            &&& color.r == 16 * hex_digit(digits[0])->0 + hex_digit(digits[1])->0
            &&& color.g == 16 * hex_digit(digits[2])->0 + hex_digit(digits[3])->0
            &&& color.b == 16 * hex_digit(digits[4])->0 + hex_digit(digits[5])->0
            &&& color.a == 255
        },
{
    let t = trimmed(text);
    let k = choose|k: int|
        0 <= k <= t.len() && #[trigger] t.skip(k) == digits && forall|i: int|
            0 <= i < k ==> #[trigger] t[i] == '#';
    assert(t[k] == digits[0]);
    lemma_without_hashes(t, k);
    assert forall|i: int| 0 <= i < 6 implies 0 <= hex_digit(#[trigger] digits[i])->0 < 16 by {
        law_nothing_else_is_a_hexadecimal_digit(digits[i]);
    }
    assert(0 <= hex_digit(digits[0])->0 < 16 && 0 <= hex_digit(digits[1])->0 < 16);
    assert(0 <= hex_digit(digits[2])->0 < 16 && 0 <= hex_digit(digits[3])->0 < 16);
    assert(0 <= hex_digit(digits[4])->0 < 16 && 0 <= hex_digit(digits[5])->0 < 16);
}

/// Nothing but six digits, behind number signs and between blanks, writes a colour.
pub proof fn law_nothing_else_writes_a_color(text: Seq<char>)
    requires
        hex_color(text) is Some,
    ensures
        trimmed(text).len() >= 6,
        forall|i: int| 0 <= i < trimmed(text).len() - 6 ==> #[trigger] trimmed(text)[i] == '#',
        forall|i: int|
            trimmed(text).len() - 6 <= i < trimmed(text).len() ==> hex_digit(
                #[trigger] trimmed(text)[i],
            ) is Some,
{
    let t = trimmed(text);
    lemma_hashes_are_first(t);
    let k = t.len() - without_hashes(t).len();
    assert forall|i: int| k <= i < k + 6 implies hex_digit(#[trigger] t[i]) is Some by {
        assert(without_hashes(t)[i - k] == t[i]);
    }
}

proof fn lemma_hashes_are_first(s: Seq<char>)
    ensures
        without_hashes(s).len() <= s.len(),
        without_hashes(s) == s.skip(s.len() - without_hashes(s).len()),
        forall|i: int| 0 <= i < s.len() - without_hashes(s).len() ==> #[trigger] s[i] == '#',
    decreases s.len(),
{
    if s.len() > 0 && s[0] == '#' {
        let rest = s.drop_first();
        lemma_hashes_are_first(rest);
        let k = rest.len() - without_hashes(rest).len();
        assert(rest.skip(k) =~= s.skip(k + 1));
        assert forall|i: int| 0 <= i < k + 1 implies #[trigger] s[i] == '#' by {
            if i > 0 {
                assert(rest[i - 1] == s[i]);
            }
        }
    } else {
        assert(s.skip(0) =~= s);
    }
}

/// The sum that a byte string stands for in base 31.
pub open spec fn in_base_31(bytes: Seq<u8>) -> nat
    decreases bytes.len(),
{
    if bytes.len() == 0 {
        0
    } else {
        in_base_31(bytes.drop_last()) * 31 + bytes.last() as nat
    }
}

/// The hash is the number that the bytes write in base 31, in 32 bits.
pub proof fn law_the_hash_is_a_number_in_base_31(bytes: Seq<u8>)
    ensures
        name_hash(bytes) == in_base_31(bytes) % 0x1_0000_0000,
    decreases bytes.len(),
{
    if bytes.len() > 0 {
        law_the_hash_is_a_number_in_base_31(bytes.drop_last());
        let x = in_base_31(bytes.drop_last()) as int;
        let m = 0x1_0000_0000int;
        let b = bytes.last() as int;
        assert((x % m * 31 + b) % m == (x * 31 + b) % m) by (nonlinear_arith)
            requires
                m == 0x1_0000_0000int,
        {
            assert(x == x / m * m + x % m);
            assert(x * 31 + b == (x % m * 31 + b) + (x / m * 31) * m);
            vstd::arithmetic::div_mod::lemma_mod_multiples_vanish(x / m * 31, x % m * 31 + b, m);
        }
    }
}

/// An avatar has one of six colours.
pub proof fn law_avatars_have_these_colors(hash: u32)
    ensures
        hash % 6 == 0 ==> avatar_palette(hash) == (Rgba { r: 15, g: 158, b: 140, a: 255 }),
        hash % 6 == 1 ==> avatar_palette(hash) == (Rgba { r: 44, g: 123, b: 214, a: 255 }),
        hash % 6 == 2 ==> avatar_palette(hash) == (Rgba { r: 124, g: 116, b: 221, a: 255 }),
        hash % 6 == 3 ==> avatar_palette(hash) == (Rgba { r: 216, g: 90, b: 48, a: 255 }),
        hash % 6 == 4 ==> avatar_palette(hash) == (Rgba { r: 196, g: 78, b: 122, a: 255 }),
        hash % 6 == 5 ==> avatar_palette(hash) == (Rgba { r: 78, g: 140, b: 46, a: 255 }),
{
}

} // verus!

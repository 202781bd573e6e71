//! The terminal's fonts and colour schemes, and how a saved name is found again
//! among them.

use vstd::prelude::*;
use vstd::string::*;

use crate::style::{opaque, rgb, Rgba};
use crate::text::same;

verus! {

/// How many fonts there are to choose from.
pub const FONT_COUNT: u8 = 6;

/// What a font is called. The first is the system's own.
pub open spec fn font_name(index: int) -> Seq<char> {
    if index == 0 {
        "系统等宽"@
    } else if index == 1 {
        "Consolas"@
    } else if index == 2 {
        "Cascadia Mono"@
    } else if index == 3 {
        "Cascadia Code"@
    } else if index == 4 {
        "Courier New"@
    } else {
        "Lucida Console"@
    }
}

/// What a font is called.
pub fn font_label(index: u8) -> (r: &'static str)
    requires
        index < FONT_COUNT,
    ensures
        r@ == font_name(index as int),
{
    if index == 0 {
        "系统等宽"
    } else if index == 1 {
        "Consolas"
    } else if index == 2 {
        "Cascadia Mono"
    } else if index == 3 {
        "Cascadia Code"
    } else if index == 4 {
        "Courier New"
    } else {
        "Lucida Console"
    }
}

/// Whether this is the family of a font: none for the system's own and for a number
/// that no font has.
pub open spec fn is_family(family: Option<&'static str>, index: int) -> bool {
    &&& family is Some == (0 < index < FONT_COUNT)
    &&& family matches Some(name) ==> name@ == font_name(index)
}

/// The family of a font, or none for the system's own and for a number that no
/// font has.
pub fn font_family(index: u8) -> (r: Option<&'static str>)
    ensures
        is_family(r, index as int),
{
    if index == 0 || index >= FONT_COUNT {
        None
    } else {
        Some(font_label(index))
    }
}

/// Whether `index` is the first of `count` names that is `name`, or the first
/// one where none is.
pub open spec fn first_named(
    names: spec_fn(int) -> Seq<char>,
    count: int,
    name: Seq<char>,
    index: int,
) -> bool {
    if exists|i: int| 0 <= i < count && #[trigger] names(i) == name {
        &&& 0 <= index < count
        &&& names(index) == name
        &&& forall|i: int| 0 <= i < index ==> #[trigger] names(i) != name
    } else {
        index == 0
    }
}

/// The names of the fonts.
pub open spec fn font_names() -> spec_fn(int) -> Seq<char> {
    |i: int| font_name(i)
}

/// The font that a saved name means: the system's own where no other has it.
pub fn font_preset_index(name: &str) -> (r: u8)
    ensures
        first_named(font_names(), FONT_COUNT as int, name@, r as int),
{
    let mut i: u8 = 0;
    while i < FONT_COUNT
        invariant
            i <= FONT_COUNT,
            forall|j: int| 0 <= j < i ==> #[trigger] font_names()(j) != name@,
        decreases FONT_COUNT - i,
    {
        assert(font_names()(i as int) == font_name(i as int));
        if same(font_label(i), name) {
            return i;
        }
        i += 1;
    }
    0
}

/// The colours of a terminal: its ground, its text, what is selected, and the
/// sixteen that programs name by number.
#[derive(Debug, Clone)]
pub struct ColorScheme {
    pub name: &'static str,
    pub background: Rgba,
    pub foreground: Rgba,
    pub selection: Rgba,
    pub ansi: Vec<Rgba>,
}

/// How many colour schemes there are.
pub const SCHEME_COUNT: u8 = 7;

/// What a colour scheme is called.
pub open spec fn scheme_name(index: int) -> Seq<char> {
    if index == 0 {
        "默认"@
    } else if index == 1 {
        "Dracula"@
    } else if index == 2 {
        "One Dark"@
    } else if index == 3 {
        "Nord"@
    } else if index == 4 {
        "Gruvbox Dark"@
    } else if index == 5 {
        "Solarized Dark"@
    } else {
        "Solarized Light"@
    }
}

/// The ground of a scheme.
pub open spec fn scheme_background(index: int) -> Rgba {
    if index == 0 {
        opaque(20, 21, 28)
    } else if index == 1 {
        opaque(40, 42, 54)
    } else if index == 2 {
        opaque(40, 44, 52)
    } else if index == 3 {
        opaque(46, 52, 64)
    } else if index == 4 {
        opaque(40, 40, 40)
    } else if index == 5 {
        opaque(0, 43, 54)
    } else {
        opaque(253, 246, 227)
    }
}

/// The text of a scheme.
pub open spec fn scheme_foreground(index: int) -> Rgba {
    if index == 0 {
        opaque(220, 226, 235)
    } else if index == 1 {
        opaque(248, 248, 242)
    } else if index == 2 {
        opaque(171, 178, 191)
    } else if index == 3 {
        opaque(216, 222, 233)
    } else if index == 4 {
        opaque(235, 219, 178)
    } else if index == 5 {
        opaque(131, 148, 150)
    } else {
        opaque(101, 123, 131)
    }
}

/// What is selected in a scheme.
pub open spec fn scheme_selection(index: int) -> Rgba {
    if index == 0 {
        opaque(22, 92, 84)
    } else if index == 1 {
        opaque(68, 71, 90)
    } else if index == 2 {
        opaque(62, 68, 81)
    } else if index == 3 {
        opaque(67, 76, 94)
    } else if index == 4 {
        opaque(80, 73, 69)
    } else if index == 5 {
        opaque(7, 54, 66)
    } else {
        opaque(238, 232, 213)
    }
}

/// The sixteen colours of a scheme.
pub open spec fn scheme_ansi(index: int) -> Seq<Rgba> {
    if index == 0 {
        seq![
            opaque(0, 0, 0),
            opaque(205, 0, 0),
            opaque(0, 205, 0),
            opaque(205, 205, 0),
            opaque(0, 0, 238),
            opaque(205, 0, 205),
            opaque(0, 205, 205),
            opaque(229, 229, 229),
            opaque(127, 127, 127),
            opaque(255, 0, 0),
            opaque(0, 255, 0),
            opaque(255, 255, 0),
            opaque(92, 92, 255),
            opaque(255, 0, 255),
            opaque(0, 255, 255),
            opaque(255, 255, 255),
        ]
    } else if index == 1 {
        seq![
            opaque(33, 34, 44),
            opaque(255, 85, 85),
            opaque(80, 250, 123),
            opaque(241, 250, 140),
            opaque(189, 147, 249),
            opaque(255, 121, 198),
            opaque(139, 233, 253),
            opaque(248, 248, 242),
            opaque(98, 114, 164),
            opaque(255, 110, 110),
            opaque(105, 255, 148),
            opaque(255, 255, 165),
            opaque(214, 172, 255),
            opaque(255, 146, 223),
            opaque(164, 255, 255),
            opaque(255, 255, 255),
        ]
    } else if index == 2 {
        seq![
            opaque(40, 44, 52),
            opaque(224, 108, 117),
            opaque(152, 195, 121),
            opaque(229, 192, 123),
            opaque(97, 175, 239),
            opaque(198, 120, 221),
            opaque(86, 182, 194),
            opaque(171, 178, 191),
            opaque(92, 99, 112),
            opaque(224, 108, 117),
            opaque(152, 195, 121),
            opaque(229, 192, 123),
            opaque(97, 175, 239),
            opaque(198, 120, 221),
            opaque(86, 182, 194),
            opaque(255, 255, 255),
        ]
    } else if index == 3 {
        seq![
            opaque(59, 66, 82),
            opaque(191, 97, 106),
            opaque(163, 190, 140),
            opaque(235, 203, 139),
            opaque(129, 161, 193),
            opaque(180, 142, 173),
            opaque(136, 192, 208),
            opaque(229, 233, 240),
            opaque(76, 86, 106),
            opaque(191, 97, 106),
            opaque(163, 190, 140),
            opaque(235, 203, 139),
            opaque(129, 161, 193),
            opaque(180, 142, 173),
            opaque(143, 188, 187),
            opaque(236, 239, 244),
        ]
    } else if index == 4 {
        seq![
            opaque(40, 40, 40),
            opaque(204, 36, 29),
            opaque(152, 151, 26),
            opaque(215, 153, 33),
            opaque(69, 133, 136),
            opaque(177, 98, 134),
            opaque(104, 157, 106),
            opaque(168, 153, 132),
            opaque(146, 131, 116),
            opaque(251, 73, 52),
            opaque(184, 187, 38),
            opaque(250, 189, 47),
            opaque(131, 165, 152),
            opaque(211, 134, 155),
            opaque(142, 192, 124),
            opaque(235, 219, 178),
        ]
    } else if index == 5 {
        seq![
            opaque(7, 54, 66),
            opaque(220, 50, 47),
            opaque(133, 153, 0),
            opaque(181, 137, 0),
            opaque(38, 139, 210),
            opaque(211, 54, 130),
            opaque(42, 161, 152),
            opaque(238, 232, 213),
            opaque(0, 43, 54),
            opaque(203, 75, 22),
            opaque(88, 110, 117),
            opaque(101, 123, 131),
            opaque(131, 148, 150),
            opaque(108, 113, 196),
            opaque(147, 161, 161),
            opaque(253, 246, 227),
        ]
    } else {
        seq![
            opaque(7, 54, 66),
            opaque(220, 50, 47),
            opaque(133, 153, 0),
            opaque(181, 137, 0),
            opaque(38, 139, 210),
            opaque(211, 54, 130),
            opaque(42, 161, 152),
            opaque(238, 232, 213),
            opaque(0, 43, 54),
            opaque(203, 75, 22),
            opaque(88, 110, 117),
            opaque(101, 123, 131),
            opaque(131, 148, 150),
            opaque(108, 113, 196),
            opaque(147, 161, 161),
            opaque(253, 246, 227),
        ]
    }
}

/// Whether this is the scheme with a number.
pub open spec fn is_scheme(scheme: &ColorScheme, index: int) -> bool {
    &&& scheme.name@ == scheme_name(index)
    &&& scheme.background == scheme_background(index)
    &&& scheme.foreground == scheme_foreground(index)
    &&& scheme.selection == scheme_selection(index)
    &&& scheme.ansi@ == scheme_ansi(index)
}

fn scheme_label(index: u8) -> (r: &'static str)
    ensures
        r@ == scheme_name(index as int),
{
    if index == 0 {
        "默认"
    } else if index == 1 {
        "Dracula"
    } else if index == 2 {
        "One Dark"
    } else if index == 3 {
        "Nord"
    } else if index == 4 {
        "Gruvbox Dark"
    } else if index == 5 {
        "Solarized Dark"
    } else {
        "Solarized Light"
    }
}

fn ansi_colors(index: u8) -> (r: Vec<Rgba>)
    ensures
        r@ == scheme_ansi(index as int),
{
    let colors: Vec<Rgba> =
    if index == 0 {
        vec![
            rgb(0, 0, 0),
            rgb(205, 0, 0),
            rgb(0, 205, 0),
            rgb(205, 205, 0),
            rgb(0, 0, 238),
            rgb(205, 0, 205),
            rgb(0, 205, 205),
            rgb(229, 229, 229),
            rgb(127, 127, 127),
            rgb(255, 0, 0),
            rgb(0, 255, 0),
            rgb(255, 255, 0),
            rgb(92, 92, 255),
            rgb(255, 0, 255),
            rgb(0, 255, 255),
            rgb(255, 255, 255),
        ]
    } else if index == 1 {
        vec![
            rgb(33, 34, 44),
            rgb(255, 85, 85),
            rgb(80, 250, 123),
            rgb(241, 250, 140),
            rgb(189, 147, 249),
            rgb(255, 121, 198),
            rgb(139, 233, 253),
            rgb(248, 248, 242),
            rgb(98, 114, 164),
            rgb(255, 110, 110),
            rgb(105, 255, 148),
            rgb(255, 255, 165),
            rgb(214, 172, 255),
            rgb(255, 146, 223),
            rgb(164, 255, 255),
            rgb(255, 255, 255),
        ]
    } else if index == 2 {
        vec![
            rgb(40, 44, 52),
            rgb(224, 108, 117),
            rgb(152, 195, 121),
            rgb(229, 192, 123),
            rgb(97, 175, 239),
            rgb(198, 120, 221),
            rgb(86, 182, 194),
            rgb(171, 178, 191),
            rgb(92, 99, 112),
            rgb(224, 108, 117),
            rgb(152, 195, 121),
            rgb(229, 192, 123),
            rgb(97, 175, 239),
            rgb(198, 120, 221),
            rgb(86, 182, 194),
            rgb(255, 255, 255),
        ]
    } else if index == 3 {
        vec![
            rgb(59, 66, 82),
            rgb(191, 97, 106),
            rgb(163, 190, 140),
            rgb(235, 203, 139),
            rgb(129, 161, 193),
            rgb(180, 142, 173),
            rgb(136, 192, 208),
            rgb(229, 233, 240),
            rgb(76, 86, 106),
            rgb(191, 97, 106),
            rgb(163, 190, 140),
            rgb(235, 203, 139),
            rgb(129, 161, 193),
            rgb(180, 142, 173),
            rgb(143, 188, 187),
            rgb(236, 239, 244),
        ]
    } else if index == 4 {
        vec![
            rgb(40, 40, 40),
            rgb(204, 36, 29),
            rgb(152, 151, 26),
            rgb(215, 153, 33),
            rgb(69, 133, 136),
            rgb(177, 98, 134),
            rgb(104, 157, 106),
            rgb(168, 153, 132),
            rgb(146, 131, 116),
            rgb(251, 73, 52),
            rgb(184, 187, 38),
            rgb(250, 189, 47),
            rgb(131, 165, 152),
            rgb(211, 134, 155),
            rgb(142, 192, 124),
            rgb(235, 219, 178),
        ]
    } else if index == 5 {
        vec![
            rgb(7, 54, 66),
            rgb(220, 50, 47),
            rgb(133, 153, 0),
            rgb(181, 137, 0),
            rgb(38, 139, 210),
            rgb(211, 54, 130),
            rgb(42, 161, 152),
            rgb(238, 232, 213),
            rgb(0, 43, 54),
            rgb(203, 75, 22),
            rgb(88, 110, 117),
            rgb(101, 123, 131),
            rgb(131, 148, 150),
            rgb(108, 113, 196),
            rgb(147, 161, 161),
            rgb(253, 246, 227),
        ]
    } else {
        vec![
            rgb(7, 54, 66),
            rgb(220, 50, 47),
            rgb(133, 153, 0),
            rgb(181, 137, 0),
            rgb(38, 139, 210),
            rgb(211, 54, 130),
            rgb(42, 161, 152),
            rgb(238, 232, 213),
            rgb(0, 43, 54),
            rgb(203, 75, 22),
            rgb(88, 110, 117),
            rgb(101, 123, 131),
            rgb(131, 148, 150),
            rgb(108, 113, 196),
            rgb(147, 161, 161),
            rgb(253, 246, 227),
        ]
    };
    assert(colors@ =~= scheme_ansi(index as int));
    colors
}

/// The scheme that a number stands for; a stale one stands for the first.
pub open spec fn scheme_in_use(index: u8) -> int {
    if index < SCHEME_COUNT {
        index as int
    } else {
        0
    }
}

fn valid_scheme(index: u8) -> (r: u8)
    ensures
        r == scheme_in_use(index),
        r < SCHEME_COUNT,
{
    if index < SCHEME_COUNT {
        index
    } else {
        0
    }
}

/// The ground of the terminal in a scheme.
pub fn terminal_background(index: u8) -> (r: Rgba)
    ensures
        r == scheme_background(scheme_in_use(index)),
{
    let index: u8 = valid_scheme(index);
    if index == 0 {
        rgb(20, 21, 28)
    } else if index == 1 {
        rgb(40, 42, 54)
    } else if index == 2 {
        rgb(40, 44, 52)
    } else if index == 3 {
        rgb(46, 52, 64)
    } else if index == 4 {
        rgb(40, 40, 40)
    } else if index == 5 {
        rgb(0, 43, 54)
    } else {
        rgb(253, 246, 227)
    }
}

/// The text of the terminal in a scheme.
pub fn default_foreground(index: u8) -> (r: Rgba)
    ensures
        r == scheme_foreground(scheme_in_use(index)),
{
    let index: u8 = valid_scheme(index);
    if index == 0 {
        rgb(220, 226, 235)
    } else if index == 1 {
        rgb(248, 248, 242)
    } else if index == 2 {
        rgb(171, 178, 191)
    } else if index == 3 {
        rgb(216, 222, 233)
    } else if index == 4 {
        rgb(235, 219, 178)
    } else if index == 5 {
        rgb(131, 148, 150)
    } else {
        rgb(101, 123, 131)
    }
}

/// What is selected in the terminal in a scheme.
pub fn selection_background(index: u8) -> (r: Rgba)
    ensures
        r == scheme_selection(scheme_in_use(index)),
{
    let index: u8 = valid_scheme(index);
    if index == 0 {
        rgb(22, 92, 84)
    } else if index == 1 {
        rgb(68, 71, 90)
    } else if index == 2 {
        rgb(62, 68, 81)
    } else if index == 3 {
        rgb(67, 76, 94)
    } else if index == 4 {
        rgb(80, 73, 69)
    } else if index == 5 {
        rgb(7, 54, 66)
    } else {
        rgb(238, 232, 213)
    }
}

/// The scheme that is on; a stale number means the first one.
pub fn active_scheme(index: u8) -> (r: ColorScheme)
    ensures
        is_scheme(&r, scheme_in_use(index)),
{
    let index: u8 = valid_scheme(index);
    ColorScheme {
        name: scheme_label(index),
        background: terminal_background(index),
        foreground: default_foreground(index),
        selection: selection_background(index),
        ansi: ansi_colors(index),
    }
}

/// A step of the colour cube: nothing, and from there five even steps to the full.
pub open spec fn cube_level(step: int) -> int {
    if step <= 0 {
        0
    } else {
        55 + 40 * step
    }
}

/// The colour that a program names by number: the scheme's own sixteen, then the cube of
/// six steps of red, green and blue, then a ramp of twenty-four greys.
pub open spec fn numbered_color(scheme: int, number: int) -> Rgba {
    if number < 16 {
        scheme_ansi(scheme)[number]
    } else if number < 232 {
        let at = number - 16;
        opaque(
            cube_level(at / 36) as u8,
            cube_level(at / 6 % 6) as u8,
            cube_level(at % 6) as u8,
        )
    } else {
        let level = (8 + 10 * (number - 232)) as u8;
        opaque(level, level, level)
    }
}

fn cube_step(step: u8) -> (r: u8)
    requires
        step <= 5,
    ensures
        r == cube_level(step as int),
{
    if step == 0 {
        0
    } else {
        55 + 40 * step
    }
}

/// The colour that a program names by number, in a scheme.
pub fn palette_color(scheme: u8, number: u8) -> (r: Rgba)
    ensures
        r == numbered_color(scheme_in_use(scheme), number as int),
{
    if number < 16 {
        proof {
            law_every_scheme_has_sixteen_colors(scheme_in_use(scheme));
        }
        return active_scheme(scheme).ansi[number as usize];
    }
    if number < 232 {
        let at: u8 = number - 16;
        rgb(cube_step(at / 36), cube_step(at / 6 % 6), cube_step(at % 6))
    } else {
        let level: u8 = 8 + 10 * (number - 232);
        rgb(level, level, level)
    }
}

/// The numbers from sixteen on mean the same colours in every scheme.
pub proof fn law_only_the_first_sixteen_follow_the_scheme(one: int, other: int, number: int)
    requires
        16 <= number <= 255,
    ensures
        numbered_color(one, number) == numbered_color(other, number),
{
}

/// The names of the schemes.
pub open spec fn scheme_names() -> spec_fn(int) -> Seq<char> {
    |i: int| scheme_name(i)
}

/// The scheme that a saved name means: the default where no other has it.
pub fn color_scheme_index(name: &str) -> (r: u8)
    ensures
        first_named(scheme_names(), SCHEME_COUNT as int, name@, r as int),
{
    let mut i: u8 = 0;
    while i < SCHEME_COUNT
        invariant
            i <= SCHEME_COUNT,
            forall|j: int| 0 <= j < i ==> #[trigger] scheme_names()(j) != name@,
        decreases SCHEME_COUNT - i,
    {
        assert(scheme_names()(i as int) == scheme_name(i as int));
        if same(scheme_label(i), name) {
            return i;
        }
        i += 1;
    }
    0
}

/// Every scheme has exactly sixteen numbered colours.
pub proof fn law_every_scheme_has_sixteen_colors(index: int)
    ensures
        scheme_ansi(index).len() == 16,
{
}

/// Where the font size may go.
pub const MIN_FONT_SIZE: i32 = 9;

pub const MAX_FONT_SIZE: i32 = 28;

/// The font size after a step, kept in its range.
pub fn step_font_size(size: i32, delta: i32) -> (r: i32)
    ensures
        r == if size + delta < MIN_FONT_SIZE {
            MIN_FONT_SIZE as int
        } else if size + delta > MAX_FONT_SIZE {
            MAX_FONT_SIZE as int
        } else {
            size + delta
        },
{
    let next: i64 = size as i64 + delta as i64;
    if next < MIN_FONT_SIZE as i64 {
        MIN_FONT_SIZE
    } else if next > MAX_FONT_SIZE as i64 {
        MAX_FONT_SIZE
    } else {
        next as i32
    }
}

/// Behind the sixteen colours of the scheme stands the cube, red slowest and blue
/// fastest, in steps of 0, 95, 135, 175, 215 and 255.
pub proof fn law_the_cube_counts_red_green_and_blue(scheme: int, red: int, green: int, blue: int)
    requires
        0 <= red < 6,
        0 <= green < 6,
        0 <= blue < 6,
    ensures
        numbered_color(scheme, 16 + 36 * red + 6 * green + blue) == (Rgba {
            r: seq![0u8, 95, 135, 175, 215, 255][red],
            g: seq![0u8, 95, 135, 175, 215, 255][green],
            b: seq![0u8, 95, 135, 175, 215, 255][blue],
            a: 255,
        }),
{
    let at = 36 * red + 6 * green + blue;
    assert(at / 36 == red);
    assert(at / 6 == 6 * red + green);
    assert(at / 6 % 6 == green);
    assert(at % 6 == blue);
    let levels = seq![0u8, 95, 135, 175, 215, 255];
    assert(cube_level(red) == levels[red]);
    assert(cube_level(green) == levels[green]);
    assert(cube_level(blue) == levels[blue]);
}

/// The last twenty-four are greys, each ten lighter than the one before, from 8 to 238;
/// the first sixteen are those of the scheme.
pub proof fn law_the_last_numbers_are_greys(scheme: int, number: int)
    requires
        0 <= number < 256,
    ensures
        number < 16 ==> numbered_color(scheme, number) == scheme_ansi(scheme)[number],
        number == 232 ==> numbered_color(scheme, number) == opaque(8, 8, 8),
        number == 255 ==> numbered_color(scheme, number) == opaque(238, 238, 238),
        number > 232 ==> numbered_color(scheme, number).r == numbered_color(scheme, number - 1).r
            + 10,
        number >= 232 ==> numbered_color(scheme, number).g == numbered_color(scheme, number).r
            && numbered_color(scheme, number).b == numbered_color(scheme, number).r,
        numbered_color(scheme, number).a == 255 || number < 16,
{
}

/// A number that no scheme has stands for the first.
pub proof fn law_a_stale_scheme_is_the_first(index: u8)
    ensures
        0 <= scheme_in_use(index) < SCHEME_COUNT,
        index < SCHEME_COUNT ==> scheme_in_use(index) == index,
        index >= SCHEME_COUNT ==> scheme_in_use(index) == 0,
{
}

/// The schemes have these names, grounds, texts and selections.
pub proof fn law_schemes_look_like_this()
    ensures
        scheme_name(0) == "默认"@,
        scheme_background(0) == opaque(20, 21, 28),
        scheme_foreground(0) == opaque(220, 226, 235),
        scheme_selection(0) == opaque(22, 92, 84),
        scheme_name(1) == "Dracula"@,
        scheme_background(1) == opaque(40, 42, 54),
        scheme_foreground(1) == opaque(248, 248, 242),
        scheme_selection(1) == opaque(68, 71, 90),
        scheme_name(2) == "One Dark"@,
        scheme_background(2) == opaque(40, 44, 52),
        scheme_foreground(2) == opaque(171, 178, 191),
        scheme_selection(2) == opaque(62, 68, 81),
        scheme_name(3) == "Nord"@,
        scheme_background(3) == opaque(46, 52, 64),
        scheme_foreground(3) == opaque(216, 222, 233),
        scheme_selection(3) == opaque(67, 76, 94),
        scheme_name(4) == "Gruvbox Dark"@,
        scheme_background(4) == opaque(40, 40, 40),
        scheme_foreground(4) == opaque(235, 219, 178),
        scheme_selection(4) == opaque(80, 73, 69),
        scheme_name(5) == "Solarized Dark"@,
        scheme_background(5) == opaque(0, 43, 54),
        scheme_foreground(5) == opaque(131, 148, 150),
        scheme_selection(5) == opaque(7, 54, 66),
        scheme_name(6) == "Solarized Light"@,
        scheme_background(6) == opaque(253, 246, 227),
        scheme_foreground(6) == opaque(101, 123, 131),
        scheme_selection(6) == opaque(238, 232, 213),
{
}

/// The sixteen colours of the scheme with the number 0.
pub proof fn law_the_colors_of_the_default_scheme()
    ensures
        scheme_ansi(0) == seq![
            opaque(0, 0, 0),
            opaque(205, 0, 0),
            opaque(0, 205, 0),
            opaque(205, 205, 0),
            opaque(0, 0, 238),
            opaque(205, 0, 205),
            opaque(0, 205, 205),
            opaque(229, 229, 229),
            opaque(127, 127, 127),
            opaque(255, 0, 0),
            opaque(0, 255, 0),
            opaque(255, 255, 0),
            opaque(92, 92, 255),
            opaque(255, 0, 255),
            opaque(0, 255, 255),
            opaque(255, 255, 255),
        ],
{
}

/// The sixteen colours of the scheme with the number 1.
pub proof fn law_the_colors_of_dracula()
    ensures
        scheme_ansi(1) == seq![
            opaque(33, 34, 44),
            opaque(255, 85, 85),
            opaque(80, 250, 123),
            opaque(241, 250, 140),
            opaque(189, 147, 249),
            opaque(255, 121, 198),
            opaque(139, 233, 253),
            opaque(248, 248, 242),
            opaque(98, 114, 164),
            opaque(255, 110, 110),
            opaque(105, 255, 148),
            opaque(255, 255, 165),
            opaque(214, 172, 255),
            opaque(255, 146, 223),
            opaque(164, 255, 255),
            opaque(255, 255, 255),
        ],
{
}

/// The sixteen colours of the scheme with the number 2.
pub proof fn law_the_colors_of_one_dark()
    ensures
        scheme_ansi(2) == seq![
            opaque(40, 44, 52),
            opaque(224, 108, 117),
            opaque(152, 195, 121),
            opaque(229, 192, 123),
            opaque(97, 175, 239),
            opaque(198, 120, 221),
            opaque(86, 182, 194),
            opaque(171, 178, 191),
            opaque(92, 99, 112),
            opaque(224, 108, 117),
            opaque(152, 195, 121),
            opaque(229, 192, 123),
            opaque(97, 175, 239),
            opaque(198, 120, 221),
            opaque(86, 182, 194),
            opaque(255, 255, 255),
        ],
{
}

/// The sixteen colours of the scheme with the number 3.
pub proof fn law_the_colors_of_nord()
    ensures
        scheme_ansi(3) == seq![
            opaque(59, 66, 82),
            opaque(191, 97, 106),
            opaque(163, 190, 140),
            opaque(235, 203, 139),
            opaque(129, 161, 193),
            opaque(180, 142, 173),
            opaque(136, 192, 208),
            opaque(229, 233, 240),
            opaque(76, 86, 106),
            opaque(191, 97, 106),
            opaque(163, 190, 140),
            opaque(235, 203, 139),
            opaque(129, 161, 193),
            opaque(180, 142, 173),
            opaque(143, 188, 187),
            opaque(236, 239, 244),
        ],
{
}

/// The sixteen colours of the scheme with the number 4.
pub proof fn law_the_colors_of_gruvbox_dark()
    ensures
        scheme_ansi(4) == seq![
            opaque(40, 40, 40),
            opaque(204, 36, 29),
            opaque(152, 151, 26),
            opaque(215, 153, 33),
            opaque(69, 133, 136),
            opaque(177, 98, 134),
            opaque(104, 157, 106),
            opaque(168, 153, 132),
            opaque(146, 131, 116),
            opaque(251, 73, 52),
            opaque(184, 187, 38),
            opaque(250, 189, 47),
            opaque(131, 165, 152),
            opaque(211, 134, 155),
            opaque(142, 192, 124),
            opaque(235, 219, 178),
        ],
{
}

/// The sixteen colours of the scheme with the number 5.
pub proof fn law_the_colors_of_solarized_dark()
    ensures
        scheme_ansi(5) == seq![
            opaque(7, 54, 66),
            opaque(220, 50, 47),
            opaque(133, 153, 0),
            opaque(181, 137, 0),
            opaque(38, 139, 210),
            opaque(211, 54, 130),
            opaque(42, 161, 152),
            opaque(238, 232, 213),
            opaque(0, 43, 54),
            opaque(203, 75, 22),
            opaque(88, 110, 117),
            opaque(101, 123, 131),
            opaque(131, 148, 150),
            opaque(108, 113, 196),
            opaque(147, 161, 161),
            opaque(253, 246, 227),
        ],
{
}

/// The sixteen colours of the scheme with the number 6.
pub proof fn law_the_colors_of_solarized_light()
    ensures
        scheme_ansi(6) == seq![
            opaque(7, 54, 66),
            opaque(220, 50, 47),
            opaque(133, 153, 0),
            opaque(181, 137, 0),
            opaque(38, 139, 210),
            opaque(211, 54, 130),
            opaque(42, 161, 152),
            opaque(238, 232, 213),
            opaque(0, 43, 54),
            opaque(203, 75, 22),
            opaque(88, 110, 117),
            opaque(101, 123, 131),
            opaque(131, 148, 150),
            opaque(108, 113, 196),
            opaque(147, 161, 161),
            opaque(253, 246, 227),
        ],
{
}

/// The name of a scheme or a font that was saved means that scheme or font again.
pub proof fn law_a_saved_name_is_found_again(k: int, index: int)
    ensures
        0 <= k < SCHEME_COUNT && first_named(
            scheme_names(),
            SCHEME_COUNT as int,
            scheme_name(k),
            index,
        ) ==> index == k,
        0 <= k < FONT_COUNT && first_named(font_names(), FONT_COUNT as int, font_name(k), index)
            ==> index == k,
{
    reveal_strlit("默认");
    reveal_strlit("Dracula");
    reveal_strlit("One Dark");
    reveal_strlit("Nord");
    reveal_strlit("Gruvbox Dark");
    reveal_strlit("Solarized Dark");
    reveal_strlit("Solarized Light");
    reveal_strlit("系统等宽");
    reveal_strlit("Consolas");
    reveal_strlit("Cascadia Mono");
    reveal_strlit("Cascadia Code");
    reveal_strlit("Courier New");
    reveal_strlit("Lucida Console");
    assert("Cascadia Mono"@[9] != "Cascadia Code"@[9]);
    assert(scheme_names()(k) == scheme_name(k));
    assert(scheme_names()(index) == scheme_name(index));
    assert(font_names()(k) == font_name(k));
    assert(font_names()(index) == font_name(index));
    assert("默认"@.len() == 2);
    assert("Dracula"@.len() == 7);
    assert("One Dark"@.len() == 8);
    assert("Nord"@.len() == 4);
    assert("Gruvbox Dark"@.len() == 12);
    assert("Solarized Dark"@.len() == 14);
    assert("Solarized Light"@.len() == 15);
    assert("系统等宽"@.len() == 4);
    assert("Consolas"@.len() == 8);
    assert("Cascadia Mono"@.len() == 13);
    assert("Cascadia Code"@.len() == 13);
    assert("Courier New"@.len() == 11);
    assert("Lucida Console"@.len() == 14);
}

/// A name that nothing has means the first.
pub proof fn law_an_unknown_name_is_the_first(name: Seq<char>, index: int)
    ensures
        (forall|i: int| 0 <= i < SCHEME_COUNT ==> #[trigger] scheme_names()(i) != name)
            && first_named(scheme_names(), SCHEME_COUNT as int, name, index) ==> index == 0,
        (forall|i: int| 0 <= i < FONT_COUNT ==> #[trigger] font_names()(i) != name) && first_named(
            font_names(),
            FONT_COUNT as int,
            name,
            index,
        ) ==> index == 0,
{
}

} // verus!

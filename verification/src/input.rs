//! Mouse reports and pasted text, as bytes the remote end understands.

use vstd::prelude::*;
use vstd::string::*;
use vstd::utf8::{decode_utf8, encode_utf8};

use crate::terminal::TerminalPoint;
use crate::text::{chars_of, decimal, decimal_of, joined, trim, trimmed};

verus! {

// Mouse reports.

/// A number in decimal, as ASCII bytes.
pub open spec fn decimal_bytes(n: nat) -> Seq<u8> {
    Seq::new(decimal(n).len(), |i: int| decimal(n)[i] as u8)
}

/// The button code of a report; a drag adds 32.
pub open spec fn button_code(button: u8, motion: bool) -> int {
    if motion {
        button + 32
    } else {
        button as int
    }
}

/// One coordinate of a legacy report: counted from one, capped at 223, plus 32.
pub open spec fn legacy_coordinate(cell: int) -> u8 {
    (32 + if cell + 1 < 223 {
        cell + 1
    } else {
        223
    }) as u8
}

/// A mouse event as an xterm report.
pub open spec fn mouse_report(
    sgr: bool,
    button: u8,
    col: int,
    row: int,
    press: bool,
    motion: bool,
) -> Seq<u8> {
    let cb = button_code(button, motion);
    if sgr {
        seq![0x1bu8, 0x5bu8, 0x3cu8] + decimal_bytes(cb as nat) + seq![0x3bu8] + decimal_bytes(
            (col + 1) as nat,
        ) + seq![0x3bu8] + decimal_bytes((row + 1) as nat) + seq![
            if press {
                0x4du8
            } else {
                0x6du8
            },
        ]
    } else {
        seq![
            0x1bu8,
            0x5bu8,
            0x4du8,
            if cb + 32 < 255 {
                (cb + 32) as u8
            } else {
                255u8
            },
            legacy_coordinate(col),
            legacy_coordinate(row),
        ]
    }
}

proof fn lemma_decimal_ascii(n: nat)
    ensures
        forall|i: int| 0 <= i < decimal(n).len() ==> (#[trigger] decimal(n)[i]) <= '9',
    decreases n,
{
    if n >= 10 {
        lemma_decimal_ascii(n / 10);
        assert forall|i: int| 0 <= i < decimal(n).len() implies (#[trigger] decimal(n)[i])
            <= '9' by {
            if i < decimal(n / 10).len() {
                assert(decimal(n)[i] == decimal(n / 10)[i]);
            }
        }
    }
}

fn push_decimal(out: &mut Vec<u8>, n: u64)
    ensures
        final(out)@ == old(out)@ + decimal_bytes(n as nat),
{
    let digits: String = decimal_of(n);
    let chars: Vec<char> = chars_of(digits.as_str());
    proof {
        lemma_decimal_ascii(n as nat);
    }
    let mut i: usize = 0;
    while i < chars.len()
        invariant
            i <= chars.len(),
            chars@ == decimal(n as nat),
            forall|j: int| 0 <= j < chars.len() ==> (#[trigger] chars@[j]) <= '9',
            out@ == old(out)@ + decimal_bytes(n as nat).take(i as int),
        decreases chars.len() - i,
    {
        out.push(chars[i] as u8);
        i += 1;
        assert(decimal_bytes(n as nat).take(i as int) =~= decimal_bytes(n as nat).take(
            i - 1,
        ).push(chars@[i - 1] as u8));
    }
    assert(decimal_bytes(n as nat).take(i as int) =~= decimal_bytes(n as nat));
}

fn legacy_cell(cell: usize) -> (r: u8)
    ensures
        r == legacy_coordinate(cell as int),
{
    if cell < 222 {
        33 + cell as u8
    } else {
        255
    }
}

/// A mouse event as an xterm report. The button is 0 for left, 1 for middle, 2
/// for right, 3 for none, 64 and 65 for the wheel; the cell counts from zero;
/// `press` marks the button going down, and `motion` a drag.
pub fn encode_mouse_event(
    sgr: bool,
    button: u8,
    col: usize,
    row: usize,
    press: bool,
    motion: bool,
) -> (r: Vec<u8>)
    requires
        col < usize::MAX,
        row < usize::MAX,
    ensures
        r@ == mouse_report(sgr, button, col as int, row as int, press, motion),
{
    let mut cb: u32 = button as u32;
    if motion {
        cb = cb + 32;
    }
    let mut out: Vec<u8> = Vec::new();
    out.push(0x1b);
    out.push(0x5b);
    if sgr {
        out.push(0x3c);
        push_decimal(&mut out, cb as u64);
        out.push(0x3b);
        push_decimal(&mut out, (col + 1) as u64);
        out.push(0x3b);
        push_decimal(&mut out, (row + 1) as u64);
        out.push(
            if press {
                0x4d
            } else {
                0x6d
            },
        );
    } else {
        out.push(0x4d);
        out.push(
            if cb + 32 < 255 {
                (cb + 32) as u8
            } else {
                255
            },
        );
        out.push(legacy_cell(col));
        out.push(legacy_cell(row));
    }
    assert(out@ =~= mouse_report(sgr, button, col as int, row as int, press, motion));
    out
}

/// Which mouse events the program in the terminal has asked for.
#[derive(Debug, Clone, Copy, PartialEq, Eq, Structural)]
pub enum MouseMode {
    Off,
    Buttons,
    Drag,
    Motion,
}

impl MouseMode {
    /// Whether moving with a button held is reported.
    pub open spec fn drags(self) -> bool {
        self == MouseMode::Drag || self == MouseMode::Motion
    }

    /// Whether moving with a button held is reported.
    pub fn reports_drag(self) -> (r: bool)
        ensures
            r == self.drags(),
    {
        self == MouseMode::Drag || self == MouseMode::Motion
    }

    /// Whether moving with no button held is reported.
    pub fn reports_any_motion(self) -> (r: bool)
        ensures
            r == (self == MouseMode::Motion),
    {
        self == MouseMode::Motion
    }
}

/// What to do about a pointer that moved over the terminal.
#[derive(Debug, Clone, Copy, PartialEq, Eq, Structural)]
pub struct MotionReport {
    /// The program takes mouse events, so nothing is selected locally.
    pub consumed: bool,
    /// The button code of the report to send at the pointer's cell.
    pub button: Option<u8>,
    /// The cell that was last reported, from here on.
    pub reported: Option<TerminalPoint>,
}

/// What to do about a pointer that moved: a program that asked for mouse events
/// hears of each new cell once, with the held button or with none.
pub open spec fn motion_report(
    mode: MouseMode,
    pointer: Option<TerminalPoint>,
    reported: Option<TerminalPoint>,
    button_down: bool,
) -> MotionReport {
    if mode == MouseMode::Off {
        MotionReport { consumed: false, button: None, reported }
    } else if pointer == reported {
        MotionReport { consumed: true, button: None, reported }
    } else if button_down && mode.drags() {
        MotionReport { consumed: true, button: Some(0u8), reported: pointer }
    } else if !button_down && mode == MouseMode::Motion {
        MotionReport { consumed: true, button: Some(3u8), reported: pointer }
    } else {
        MotionReport { consumed: true, button: None, reported }
    }
}

fn same_cell(a: Option<TerminalPoint>, b: Option<TerminalPoint>) -> (r: bool)
    ensures
        r == (a == b),
{
    match (a, b) {
        (Some(p), Some(q)) => p == q,
        (None, None) => true,
        _ => false,
    }
}

/// What to do about a pointer that moved over the terminal.
pub fn maybe_report_mouse_motion(
    mode: MouseMode,
    pointer: Option<TerminalPoint>,
    reported: Option<TerminalPoint>,
    button_down: bool,
) -> (r: MotionReport)
    ensures
        r == motion_report(mode, pointer, reported, button_down),
{
    if mode == MouseMode::Off {
        return MotionReport { consumed: false, button: None, reported };
    }
    if same_cell(pointer, reported) {
        return MotionReport { consumed: true, button: None, reported };
    }
    if button_down && mode.reports_drag() {
        MotionReport { consumed: true, button: Some(0), reported: pointer }
    } else if !button_down && mode.reports_any_motion() {
        MotionReport { consumed: true, button: Some(3), reported: pointer }
    } else {
        MotionReport { consumed: true, button: None, reported }
    }
}

/// No cell is reported twice in a row: once a motion was reported, the same
/// pointer is not reported again.
pub proof fn law_each_cell_is_reported_once(
    mode: MouseMode,
    pointer: Option<TerminalPoint>,
    reported: Option<TerminalPoint>,
    button_down: bool,
    still_down: bool,
)
    requires
        motion_report(mode, pointer, reported, button_down).button is Some,
    ensures
        motion_report(
            mode,
            pointer,
            motion_report(mode, pointer, reported, button_down).reported,
            still_down,
        ).button is None,
{
}

// Pasting.

/// Pasted text with every line ending turned into the carriage return that the
/// Enter key sends.
pub open spec fn pasted(s: Seq<char>) -> Seq<char>
    decreases s.len(),
{
    if s.len() == 0 {
        Seq::empty()
    } else if s[0] == '\r' && s.len() > 1 && s[1] == '\n' {
        seq!['\r'] + pasted(s.skip(2))
    } else if s[0] == '\n' {
        seq!['\r'] + pasted(s.skip(1))
    } else {
        seq![s[0]] + pasted(s.skip(1))
    }
}

/// Pasted text with every line ending turned into a carriage return, as bytes.
pub fn normalize_paste(contents: &str) -> (r: Vec<u8>)
    ensures
        r@ == encode_utf8(pasted(contents@)),
{
    let chars: Vec<char> = chars_of(contents);
    let mut out: String = String::new();
    let mut i: usize = 0;
    assert(chars@.skip(0) =~= chars@);
    while i < chars.len()
        invariant
            i <= chars.len(),
            chars@ == contents@,
            out@ + pasted(chars@.skip(i as int)) == pasted(chars@),
        decreases chars.len() - i,
    {
        let ghost rest = chars@.skip(i as int);
        let ghost before = out@;
        let c: char = chars[i];
        assert(rest[0] == c);
        if c == '\r' && i + 1 < chars.len() && chars[i + 1] == '\n' {
            out.push('\r');
            i += 2;
            assert(rest.skip(2) =~= chars@.skip(i as int));
            assert(out@ + pasted(chars@.skip(i as int)) =~= before + pasted(rest));
        } else if c == '\n' {
            out.push('\r');
            i += 1;
            assert(rest.skip(1) =~= chars@.skip(i as int));
            assert(out@ + pasted(chars@.skip(i as int)) =~= before + pasted(rest));
        } else {
            out.push(c);
            i += 1;
            assert(rest.skip(1) =~= chars@.skip(i as int));
            assert(out@ + pasted(chars@.skip(i as int)) =~= before + pasted(rest));
        }
    }
    assert(chars@.skip(i as int) =~= Seq::empty());
    assert(out@ =~= pasted(chars@));
    out.as_str().as_bytes_vec()
}

/// Whether a paste is asked about first: where that is wanted, one of more than a line.
/// Blanks and line ends around it do not count.
pub fn paste_asks(confirm: bool, contents: &str) -> (r: bool)
    ensures
        r == (confirm && trimmed(contents@).contains('\n')),
{
    if !confirm {
        return false;
    }
    let chars: Vec<char> = chars_of(trim(contents).as_str());
    let mut i: usize = 0;
    while i < chars.len()
        invariant
            i <= chars.len(),
            confirm,
            chars@ == trimmed(contents@),
            forall|j: int| 0 <= j < i ==> #[trigger] chars@[j] != '\n',
        decreases chars.len() - i,
    {
        if chars[i] == '\n' {
            assert(chars@[i as int] == '\n');
            return true;
        }
        i += 1;
    }
    false
}

/// What a paste sends: the normalised text, between the bracketed-paste markers
/// where the program asked for them. Nothing is sent for nothing.
pub open spec fn paste_bytes(contents: Seq<char>, bracketed: bool) -> Seq<u8> {
    let bytes = encode_utf8(pasted(contents));
    if bracketed && bytes.len() > 0 {
        seq![0x1bu8, 0x5bu8, 0x32u8, 0x30u8, 0x30u8, 0x7eu8] + bytes + seq![
            0x1bu8,
            0x5bu8,
            0x32u8,
            0x30u8,
            0x31u8,
            0x7eu8,
        ]
    } else {
        bytes
    }
}

/// What a paste sends; empty where there is nothing to send.
pub fn perform_paste(contents: &str, bracketed: bool) -> (r: Vec<u8>)
    ensures
        r@ == paste_bytes(contents@, bracketed),
{
    let mut bytes: Vec<u8> = normalize_paste(contents);
    if bytes.len() == 0 || !bracketed {
        return bytes;
    }
    let mut wrapped: Vec<u8> = Vec::new();
    wrapped.push(0x1b);
    wrapped.push(0x5b);
    wrapped.push(0x32);
    wrapped.push(0x30);
    wrapped.push(0x30);
    wrapped.push(0x7e);
    wrapped.append(&mut bytes);
    wrapped.push(0x1b);
    wrapped.push(0x5b);
    wrapped.push(0x32);
    wrapped.push(0x30);
    wrapped.push(0x31);
    wrapped.push(0x7e);
    assert(wrapped@ =~= paste_bytes(contents@, bracketed));
    wrapped
}

/// A normalised paste holds no line feed.
pub proof fn law_paste_has_no_line_feed(s: Seq<char>)
    ensures
        forall|i: int| 0 <= i < pasted(s).len() ==> pasted(s)[i] != '\n',
    decreases s.len(),
{
    if s.len() > 0 {
        let k = if s[0] == '\r' && s.len() > 1 && s[1] == '\n' {
            2int
        } else {
            1int
        };
        law_paste_has_no_line_feed(s.skip(k));
        assert forall|i: int| 0 <= i < pasted(s).len() implies pasted(s)[i] != '\n' by {
            if i > 0 {
                assert(pasted(s)[i] == pasted(s.skip(k))[i - 1]);
            }
        }
    }
}

proof fn lemma_pasted_without_line_feed(s: Seq<char>)
    requires
        forall|i: int| 0 <= i < s.len() ==> s[i] != '\n',
    ensures
        pasted(s) == s,
    decreases s.len(),
{
    if s.len() > 0 {
        lemma_pasted_without_line_feed(s.skip(1));
        assert(seq![s[0]] + s.skip(1) =~= s);
    } else {
        assert(pasted(s) =~= s);
    }
}

/// Normalising a paste twice is normalising it once.
pub proof fn law_paste_normalises_once(s: Seq<char>)
    ensures
        pasted(pasted(s)) == pasted(s),
{
    law_paste_has_no_line_feed(s);
    lemma_pasted_without_line_feed(pasted(s));
}

/// A paste is normalised piece by piece: what stands in one piece makes no difference to
/// another, as long as no line ending is cut in two.
pub proof fn law_a_paste_is_the_paste_of_its_pieces(a: Seq<char>, b: Seq<char>)
    requires
        !(a.len() > 0 && b.len() > 0 && a.last() == '\r' && b[0] == '\n'),
    ensures
        pasted(a + b) == pasted(a) + pasted(b),
    decreases a.len(),
{
    let whole = a + b;
    if a.len() == 0 {
        assert(whole =~= b);
        assert(pasted(a) + pasted(b) =~= pasted(b));
    } else if a[0] == '\r' && a.len() > 1 && a[1] == '\n' {
        law_a_paste_is_the_paste_of_its_pieces(a.skip(2), b);
        assert(whole.skip(2) =~= a.skip(2) + b);
        assert(pasted(whole) =~= pasted(a) + pasted(b));
    } else {
        law_a_paste_is_the_paste_of_its_pieces(a.skip(1), b);
        assert(whole.skip(1) =~= a.skip(1) + b);
        assert(pasted(whole) =~= pasted(a) + pasted(b));
    }
}

/// Every line ending, be it a line feed, a carriage return or both together, becomes one
/// carriage return, and every other character stays what it is.
pub proof fn law_a_paste_turns_line_endings_into_returns(c: char)
    ensures
        pasted(Seq::<char>::empty()) == Seq::<char>::empty(),
        pasted(seq!['\r', '\n']) == seq!['\r'],
        pasted(seq!['\n']) == seq!['\r'],
        pasted(seq!['\r']) == seq!['\r'],
        c != '\n' ==> pasted(seq![c]) == seq![c],
{
    let both = seq!['\r', '\n'];
    assert(pasted(Seq::<char>::empty()) =~= Seq::empty());
    assert(both[0] == '\r' && both[1] == '\n' && both.len() == 2);
    assert(both.skip(2) =~= Seq::<char>::empty());
    assert(pasted(both) == seq!['\r'] + pasted(both.skip(2)));
    assert(pasted(both) =~= seq!['\r']);
    assert(seq!['\n'].skip(1) =~= Seq::empty());
    assert(pasted(seq!['\n']) =~= seq!['\r']);
    assert(seq!['\r'].skip(1) =~= Seq::empty());
    assert(pasted(seq!['\r']) =~= seq!['\r']);
    assert(seq![c].skip(1) =~= Seq::empty());
    if c != '\n' {
        assert(pasted(seq![c]) =~= seq![c]);
    }
}

/// Of a text without carriage returns a paste keeps every character in its place, but for
/// the line feeds, each of which becomes a carriage return.
pub proof fn law_a_paste_keeps_every_character_in_its_place(s: Seq<char>)
    requires
        forall|i: int| 0 <= i < s.len() ==> s[i] != '\r',
    ensures
        pasted(s).len() == s.len(),
        forall|i: int|
            0 <= i < s.len() ==> #[trigger] pasted(s)[i] == if s[i] == '\n' {
                '\r'
            } else {
                s[i]
            },
    decreases s.len(),
{
    if s.len() > 0 {
        let rest = s.skip(1);
        assert forall|i: int| 0 <= i < rest.len() implies rest[i] != '\r' by {
            assert(rest[i] == s[i + 1]);
        }
        law_a_paste_keeps_every_character_in_its_place(rest);
        assert forall|i: int| 0 <= i < s.len() implies #[trigger] pasted(s)[i] == if s[i] == '\n' {
            '\r'
        } else {
            s[i]
        } by {
            if i > 0 {
                assert(pasted(s)[i] == pasted(rest)[i - 1]);
                assert(rest[i - 1] == s[i]);
            }
        }
    }
}

/// Whether a text holds no line ending.
pub open spec fn one_line(s: Seq<char>) -> bool {
    forall|i: int| 0 <= i < s.len() ==> s[i] != '\r' && s[i] != '\n'
}

/// A text whose lines end in a carriage return and a line feed is pasted as the same text
/// whose lines end in a line feed alone: no line is lost, and no line is added.
pub proof fn law_both_line_endings_paste_alike(lines: Seq<Seq<char>>)
    requires
        forall|k: int| 0 <= k < lines.len() ==> one_line(#[trigger] lines[k]),
    ensures
        pasted(joined(lines, seq!['\r', '\n'])) == joined(lines, seq!['\r']),
        pasted(joined(lines, seq!['\n'])) == joined(lines, seq!['\r']),
        pasted(joined(lines, seq!['\r'])) == joined(lines, seq!['\r']),
    decreases lines.len(),
{
    let (both, feed, back) = (seq!['\r', '\n'], seq!['\n'], seq!['\r']);
    law_a_paste_turns_line_endings_into_returns('a');
    if lines.len() > 0 {
        let last = lines.last();
        assert(one_line(lines[lines.len() - 1]));
        lemma_pasted_without_line_feed(last);
        if lines.len() > 1 {
            let head = lines.drop_last();
            assert forall|k: int| 0 <= k < head.len() implies one_line(#[trigger] head[k]) by {
                assert(one_line(lines[k]));
            }
            law_both_line_endings_paste_alike(head);
            let (x, y, z) = (joined(head, both), joined(head, feed), joined(head, back));
            lemma_last_of_joined(head, both);
            lemma_last_of_joined(head, feed);
            lemma_last_of_joined(head, back);
            law_a_paste_is_the_paste_of_its_pieces(x, both);
            law_a_paste_is_the_paste_of_its_pieces(x + both, last);
            law_a_paste_is_the_paste_of_its_pieces(y, feed);
            law_a_paste_is_the_paste_of_its_pieces(y + feed, last);
            law_a_paste_is_the_paste_of_its_pieces(z, back);
            law_a_paste_is_the_paste_of_its_pieces(z + back, last);
        }
    }
}

proof fn lemma_last_of_joined(lines: Seq<Seq<char>>, sep: Seq<char>)
    requires
        sep.len() > 0,
        forall|k: int| 0 <= k < lines.len() ==> one_line(#[trigger] lines[k]),
    ensures
        ({
            let all = joined(lines, sep);
            all.len() > 0 && all.last() == '\r' ==> lines.len() > 1 && lines.last().len() == 0
                && sep.last() == '\r'
        }),
{
    if lines.len() > 0 {
        let last = lines.last();
        assert(one_line(lines[lines.len() - 1]));
    }
}

proof fn lemma_encoded_is_something(s: Seq<char>)
    ensures
        encode_utf8(s).len() == 0 <==> s.len() == 0,
{
    if s.len() > 0 {
        vstd::utf8::encode_utf8_first_scalar(s);
    }
}

proof fn lemma_pasted_is_something(s: Seq<char>)
    ensures
        pasted(s).len() == 0 <==> s.len() == 0,
{
}

/// A paste into a program that asked for brackets is the plain paste between `ESC [200~`
/// and `ESC [201~`; where there is nothing to paste nothing is sent, and no bracket either.
pub proof fn law_a_bracketed_paste_is_the_paste_between_brackets(contents: Seq<char>)
    ensures
        contents.len() == 0 ==> paste_bytes(contents, true).len() == 0,
        contents.len() == 0 <==> paste_bytes(contents, false).len() == 0,
        contents.len() > 0 ==> paste_bytes(contents, true) == seq![
            0x1bu8,
            0x5bu8,
            0x32u8,
            0x30u8,
            0x30u8,
            0x7eu8,
        ] + paste_bytes(contents, false) + seq![0x1bu8, 0x5bu8, 0x32u8, 0x30u8, 0x31u8, 0x7eu8],
        decode_utf8(paste_bytes(contents, false)) == pasted(contents),
{
    lemma_pasted_is_something(contents);
    lemma_encoded_is_something(pasted(contents));
    vstd::utf8::encode_utf8_decode_utf8(pasted(contents));
}

// Reports that read back.

/// The number that ASCII digits write.
pub open spec fn ascii_value(bytes: Seq<u8>) -> nat
    decreases bytes.len(),
{
    if bytes.len() == 0 {
        0
    } else {
        (ascii_value(bytes.drop_last()) * 10 + (bytes.last() - 0x30)) as nat
    }
}

/// Whether these bytes write a number in decimal digits and nothing else.
pub open spec fn writes(bytes: Seq<u8>, n: int) -> bool {
    &&& bytes.len() > 0
    &&& forall|i: int| 0 <= i < bytes.len() ==> 0x30 <= #[trigger] bytes[i] <= 0x39
    &&& ascii_value(bytes) == n
}

proof fn lemma_decimal_bytes_write(n: nat)
    ensures
        writes(decimal_bytes(n), n as int),
    decreases n,
{
    let bytes = decimal_bytes(n);
    if n < 10 {
        assert(bytes.len() == 1);
        assert(bytes.drop_last() =~= Seq::empty());
        assert(ascii_value(bytes.drop_last()) == 0);
        assert(bytes[0] == 48 + n);
    } else {
        let head = decimal_bytes(n / 10);
        lemma_decimal_bytes_write(n / 10);
        assert(bytes.drop_last() =~= head);
        assert(bytes.last() == 48 + n % 10);
        assert forall|i: int| 0 <= i < bytes.len() implies 0x30 <= #[trigger] bytes[i] <= 0x39 by {
            if i < head.len() {
                assert(bytes[i] == head[i]);
            }
        }
    }
}

/// Whether these bytes are `ESC [ <`, three numbers with semicolons between them, and an
/// `M` for a press or an `m` for a release.
pub open spec fn reads_as(
    bytes: Seq<u8>,
    button: u8,
    motion: bool,
    col: nat,
    row: nat,
    press: bool,
    a: Seq<u8>,
    b: Seq<u8>,
    c: Seq<u8>,
) -> bool {
    &&& writes(
        a,
        if motion {
            button + 32
        } else {
            button as int
        },
    )
    &&& writes(b, col as int)
    &&& writes(c, row as int)
    &&& bytes == seq![0x1bu8, 0x5bu8, 0x3cu8] + a + seq![0x3bu8] + b + seq![0x3bu8] + c + seq![
        if press {
            0x4du8
        } else {
            0x6du8
        },
    ]
}

/// An extended report reads back as the button, with 32 added for a drag, and the column
/// and the row counted from one.
pub proof fn law_an_extended_report_reads_back(
    button: u8,
    col: nat,
    row: nat,
    press: bool,
    motion: bool,
)
    ensures
        exists|a: Seq<u8>, b: Seq<u8>, c: Seq<u8>| #[trigger]
            reads_as(
                mouse_report(true, button, col as int, row as int, press, motion),
                button,
                motion,
                col + 1,
                row + 1,
                press,
                a,
                b,
                c,
            ),
{
    let code = if motion {
        button + 32
    } else {
        button as int
    };
    lemma_decimal_bytes_write(code as nat);
    lemma_decimal_bytes_write(col + 1);
    lemma_decimal_bytes_write(row + 1);
    let (a, b, c) = (
        decimal_bytes(code as nat),
        decimal_bytes(col + 1),
        decimal_bytes(row + 1),
    );
    assert(reads_as(
        mouse_report(true, button, col as int, row as int, press, motion),
        button,
        motion,
        col + 1,
        row + 1,
        press,
        a,
        b,
        c,
    ));
}

/// A plain report is six bytes: `ESC [ M`, the button with 32 added, and the column and
/// the row counted from 33 on, as far as a byte reaches. A drag adds 32 to the button.
pub proof fn law_a_plain_report_is_six_bytes(
    button: u8,
    col: nat,
    row: nat,
    press: bool,
    motion: bool,
)
    ensures
        ({
            let bytes = mouse_report(false, button, col as int, row as int, press, motion);
            let code = button + if motion {
                64int
            } else {
                32
            };
            &&& bytes.len() == 6
            &&& bytes[0] == 0x1b && bytes[1] == 0x5b && bytes[2] == 0x4d
            &&& code <= 255 ==> bytes[3] == code
            &&& code > 255 ==> bytes[3] == 255
            &&& col <= 222 ==> bytes[4] == col + 33
            &&& col > 222 ==> bytes[4] == 255
            &&& row <= 222 ==> bytes[5] == row + 33
            &&& row > 222 ==> bytes[5] == 255
        }),
{
}

/// A motion is reported exactly where the pointer is on a new cell and the program asked
/// for every motion, or asked for drags and the button is held. It is reported as the held
/// button or as none, and from then on that cell counts as reported. A program that asked
/// for nothing leaves the pointer to the selection.
pub proof fn law_motions_are_reported_as_asked(
    mode: MouseMode,
    pointer: Option<TerminalPoint>,
    reported: Option<TerminalPoint>,
    held: bool,
)
    ensures
        ({
            let report = motion_report(mode, pointer, reported, held);
            let told = pointer != reported && (mode == MouseMode::Motion || (mode
                == MouseMode::Drag && held));
            &&& report.consumed <==> mode != MouseMode::Off
            &&& report.button is Some <==> told
            &&& told && held ==> report.button == Some(0u8)
            &&& told && !held ==> report.button == Some(3u8)
            &&& told ==> report.reported == pointer
            &&& !told ==> report.reported == reported
        }),
{
}

} // verus!

//! Colouring output that the server sent uncoloured.
//!
//! A cell the server coloured is never repainted: its colour classifies things
//! that cannot be reconstructed here. And spans are columns, not byte offsets,
//! so that wide glyphs stay aligned.

use vstd::prelude::*;
use vstd::string::*;
use vstd::utf8::{encode_scalar, encode_utf8};

use crate::pattern::{regex_compiles, regex_matches, Pattern};
use crate::terminal::{cells_text, TermColor, TerminalCell, TerminalLine};
use crate::text::chars_of;

verus! {

/// The number of columns that `unicode_width::UnicodeWidthChar::width` gives a
/// character, or none for a control character.
pub uninterp spec fn char_width(c: char) -> Option<usize>;

/// Calls `unicode_width::UnicodeWidthChar::width`. The result is the named
/// width, which the crate keeps in one byte.
#[verifier::external_body]
fn width_of(c: char) -> (r: Option<usize>)
    ensures
        r == char_width(c),
        r matches Some(w) ==> w <= 255,
{
    unicode_width::UnicodeWidthChar::width(c)
}

/// How many columns the renderer advances for a character: its width, and at
/// least one.
pub open spec fn advance(c: char) -> int {
    match char_width(c) {
        Some(w) => if w < 1 {
            1
        } else if w > 255 {
            255
        } else {
            w as int
        },
        None => 1,
    }
}

fn advance_of(c: char) -> (r: usize)
    ensures
        r == advance(c),
        1 <= r <= 255,
{
    match width_of(c) {
        Some(w) => if w < 1 {
            1
        } else {
            w
        },
        None => 1,
    }
}

/// How many bytes a character takes in UTF-8.
pub open spec fn utf8_len(c: char) -> int {
    if c <= '\u{7f}' {
        1
    } else if c <= '\u{7ff}' {
        2
    } else if c <= '\u{ffff}' {
        3
    } else {
        4
    }
}

fn utf8_len_of(c: char) -> (r: usize)
    ensures
        r == utf8_len(c),
        1 <= r <= 4,
{
    if '\u{7f}' >= c {
        1
    } else if '\u{7ff}' >= c {
        2
    } else if '\u{ffff}' >= c {
        3
    } else {
        4
    }
}

/// The byte offset of a character.
pub open spec fn byte_at(text: Seq<char>, i: int) -> int
    decreases i,
{
    if i <= 0 {
        0
    } else {
        byte_at(text, i - 1) + utf8_len(text[i - 1])
    }
}

/// The column of a character.
pub open spec fn column_at(text: Seq<char>, i: int) -> int
    decreases i,
{
    if i <= 0 {
        0
    } else {
        column_at(text, i - 1) + advance(text[i - 1])
    }
}

/// Whether a cell may be recoloured: the server left it uncoloured, and it is
/// neither under the cursor nor a link, which have colours of their own.
pub open spec fn cell_paintable(cell: &TerminalCell) -> bool {
    cell.fg == TermColor::Default && !cell.cursor && cell.hyperlink is None
}

/// For each character of the cells, whether its cell may be recoloured.
pub open spec fn paintable(cells: Seq<TerminalCell>) -> Seq<bool>
    decreases cells.len(),
{
    if cells.len() == 0 {
        Seq::empty()
    } else {
        let last = cells.last();
        paintable(cells.drop_last()) + Seq::new(last.text@.len(), |i: int| cell_paintable(&last))
    }
}

/// Whether any cell may be recoloured.
pub open spec fn any_paintable(cells: Seq<TerminalCell>) -> bool {
    exists|i: int| 0 <= i < cells.len() && cell_paintable(&#[trigger] cells[i])
}

/// A line flattened to text, with the place of each character.
struct ColumnMap {
    text: Vec<char>,
    bytes: Vec<usize>,
    columns: Vec<usize>,
    flags: Vec<bool>,
}

impl ColumnMap {
    spec fn wf(&self) -> bool {
        &&& self.bytes@.len() == self.text@.len()
        &&& self.columns@.len() == self.text@.len()
        &&& self.flags@.len() == self.text@.len()
        &&& self.text@.len() <= usize::MAX / 255
        &&& forall|i: int|
            0 <= i < self.text@.len() ==> #[trigger] self.bytes@[i] == byte_at(self.text@, i)
        &&& forall|i: int|
            0 <= i < self.text@.len() ==> #[trigger] self.columns@[i] == column_at(self.text@, i)
    }
}

proof fn lemma_prefix(text: Seq<char>, more: Seq<char>, i: int)
    requires
        0 <= i <= text.len(),
    ensures
        byte_at(text + more, i) == byte_at(text, i),
        column_at(text + more, i) == column_at(text, i),
    decreases i,
{
    if i > 0 {
        lemma_prefix(text, more, i - 1);
    }
}

proof fn lemma_bounds(text: Seq<char>, i: int)
    requires
        0 <= i <= text.len(),
    ensures
        0 <= byte_at(text, i) <= 4 * i,
        0 <= column_at(text, i) <= 255 * i,
    decreases i,
{
    if i > 0 {
        lemma_bounds(text, i - 1);
    }
}

proof fn lemma_columns_grow(text: Seq<char>, a: int, b: int)
    requires
        0 <= a < b <= text.len(),
    ensures
        column_at(text, a) < column_at(text, b),
    decreases b - a,
{
    if a < b - 1 {
        lemma_columns_grow(text, a, b - 1);
    }
}

fn map_columns(line: &TerminalLine) -> (r: (ColumnMap, bool))
    requires
        line.text().len() <= usize::MAX / 255,
    ensures
        r.0.wf(),
        r.0.text@ == line.text(),
        r.0.flags@ == paintable(line.cells@),
        r.1 == any_paintable(line.cells@),
{
    let mut map = ColumnMap {
        text: Vec::new(),
        bytes: Vec::new(),
        columns: Vec::new(),
        flags: Vec::new(),
    };
    let mut byte: usize = 0;
    let mut column: usize = 0;
    let mut any: bool = false;
    let mut i: usize = 0;
    while i < line.cells.len()
        invariant
            i <= line.cells.len(),
            line.text().len() <= usize::MAX / 255,
            map.wf(),
            map.text@ == cells_text(line.cells@.take(i as int)),
            map.flags@ == paintable(line.cells@.take(i as int)),
            byte == byte_at(map.text@, map.text@.len() as int),
            column == column_at(map.text@, map.text@.len() as int),
            any == exists|k: int| 0 <= k < i && cell_paintable(&#[trigger] line.cells@[k]),
        decreases line.cells.len() - i,
    {
        let ghost head = line.cells@.take(i + 1);
        assert(head.drop_last() =~= line.cells@.take(i as int));
        let ghost before_text = map.text@;
        let ghost before_flags = map.flags@;
        let cell: &TerminalCell = &line.cells[i];
        assert(head.last() == *cell);
        let flag: bool = cell.fg == TermColor::Default && !cell.cursor && cell.hyperlink.is_none();
        if flag {
            any = true;
            assert(cell_paintable(&line.cells@[i as int]));
        }
        let chars: Vec<char> = chars_of(cell.text.as_str());
        proof {
            lemma_cells_len(line.cells@, i + 1);
        }
        let mut k: usize = 0;
        assert(before_text + chars@.take(0) =~= before_text);
        assert(before_flags + Seq::new(0nat, |j: int| flag) =~= before_flags);
        while k < chars.len()
            invariant
                k <= chars.len(),
                before_text.len() + chars@.len() <= usize::MAX / 255,
                map.wf(),
                map.text@ == before_text + chars@.take(k as int),
                map.flags@ == before_flags + Seq::new(k as nat, |j: int| flag),
                byte == byte_at(map.text@, map.text@.len() as int),
                column == column_at(map.text@, map.text@.len() as int),
            decreases chars.len() - k,
        {
            let c: char = chars[k];
            let ghost old_text = map.text@;
            let ghost old_bytes = map.bytes@;
            let ghost old_columns = map.columns@;
            let n: usize = map.text.len();
            proof {
                lemma_bounds(old_text, n as int);
            }
            map.text.push(c);
            map.bytes.push(byte);
            map.columns.push(column);
            map.flags.push(flag);
            proof {
                let one = seq![c];
                assert(map.text@ =~= old_text + one);
                lemma_prefix(old_text, one, n as int);
                assert forall|j: int| 0 <= j < map.text@.len() implies #[trigger] map.bytes@[j]
                    == byte_at(map.text@, j) by {
                    if j < n {
                        lemma_prefix(old_text, one, j);
                        assert(old_bytes[j] == byte_at(old_text, j));
                    }
                }
                assert forall|j: int| 0 <= j < map.text@.len() implies #[trigger] map.columns@[j]
                    == column_at(map.text@, j) by {
                    if j < n {
                        lemma_prefix(old_text, one, j);
                        assert(old_columns[j] == column_at(old_text, j));
                    }
                }
                assert(chars@.take(k + 1) =~= chars@.take(k as int).push(c));
                assert(map.text@ =~= before_text + chars@.take(k + 1));
                assert(map.flags@ =~= before_flags + Seq::new((k + 1) as nat, |j: int| flag));
            }
            byte += utf8_len_of(c);
            column += advance_of(c);
            k += 1;
        }
        proof {
            assert(chars@.take(k as int) =~= chars@);
            assert(map.flags@ =~= paintable(head));
        }
        i += 1;
    }
    assert(line.cells@.take(i as int) =~= line.cells@);
    (map, any)
}

proof fn lemma_cells_len(cells: Seq<TerminalCell>, k: int)
    requires
        0 <= k <= cells.len(),
    ensures
        cells_text(cells.take(k)).len() <= cells_text(cells).len(),
    decreases cells.len() - k,
{
    if k < cells.len() {
        lemma_cells_len(cells, k + 1);
        assert(cells.take(k + 1).drop_last() =~= cells.take(k));
    } else {
        assert(cells.take(k) =~= cells);
    }
}

// Runs.

/// Whether a character lies in a byte range and may be recoloured.
pub open spec fn takes(text: Seq<char>, flags: Seq<bool>, from: int, to: int, i: int) -> bool {
    from <= byte_at(text, i) < to && flags[i]
}

/// The columns of the longest runs of characters, among the first `n`, that lie
/// in a byte range and may be recoloured, and the run that ends with the last
/// of them.
pub open spec fn runs(text: Seq<char>, flags: Seq<bool>, from: int, to: int, n: int) -> (
    Seq<(usize, usize)>,
    Option<(usize, usize)>,
)
    decreases n,
{
    if n <= 0 {
        (Seq::empty(), None)
    } else {
        let (done, open) = runs(text, flags, from, to, n - 1);
        let i = n - 1;
        if takes(text, flags, from, to, i) {
            let end = column_at(text, i + 1) as usize;
            match open {
                Some(run) => (done, Some((run.0, end))),
                None => (done, Some((column_at(text, i) as usize, end))),
            }
        } else {
            match open {
                Some(run) => (done.push(run), None),
                None => (done, None),
            }
        }
    }
}

/// The columns of all the longest runs of characters that lie in a byte range
/// and may be recoloured.
pub open spec fn paintable_runs(text: Seq<char>, flags: Seq<bool>, from: int, to: int) -> Seq<
    (usize, usize),
> {
    let (done, open) = runs(text, flags, from, to, text.len() as int);
    match open {
        Some(run) => done.push(run),
        None => done,
    }
}

fn find_runs(map: &ColumnMap, from: usize, to: usize) -> (r: Vec<(usize, usize)>)
    requires
        map.wf(),
    ensures
        r@ == paintable_runs(map.text@, map.flags@, from as int, to as int),
{
    let mut done: Vec<(usize, usize)> = Vec::new();
    let mut open: Option<(usize, usize)> = None;
    let mut i: usize = 0;
    while i < map.text.len()
        invariant
            i <= map.text.len(),
            map.wf(),
            (done@, open) == runs(map.text@, map.flags@, from as int, to as int, i as int),
        decreases map.text.len() - i,
    {
        let byte: usize = map.bytes[i];
        let column: usize = map.columns[i];
        proof {
            lemma_bounds(map.text@, i + 1);
        }
        if from <= byte && byte < to && map.flags[i] {
            let end: usize = column + advance_of(map.text[i]);
            open = match open {
                Some(run) => Some((run.0, end)),
                None => Some((column, end)),
            };
        } else {
            if let Some(run) = open {
                done.push(run);
            }
            open = None;
        }
        i += 1;
    }
    if let Some(run) = open {
        done.push(run);
    }
    done
}

// Spans.

/// A span to recolour: from one column up to another, in this colour.
#[derive(Debug, Clone, Copy, PartialEq, Eq, Structural)]
pub struct Span {
    pub start: usize,
    pub end: usize,
    pub color: TermColor,
}

/// Whether a run overlaps one of the spans.
pub open spec fn overlaps(spans: Seq<Span>, start: int, end: int) -> bool {
    exists|i: int|
        0 <= i < spans.len() && start < (#[trigger] spans[i]).end && spans[i].start < end
}

/// The spans with those of the first `n` runs added that overlap none before
/// them.
pub open spec fn with_runs(
    spans: Seq<Span>,
    found: Seq<(usize, usize)>,
    color: TermColor,
    n: int,
) -> Seq<Span>
    decreases n,
{
    if n <= 0 {
        spans
    } else {
        let before = with_runs(spans, found, color, n - 1);
        let (start, end) = found[n - 1];
        if overlaps(before, start as int, end as int) {
            before
        } else {
            before.push(Span { start, end, color })
        }
    }
}

/// The spans with those of the first `n` matches added.
pub open spec fn with_matches(
    spans: Seq<Span>,
    text: Seq<char>,
    flags: Seq<bool>,
    matches: Seq<(usize, usize)>,
    color: TermColor,
    n: int,
) -> Seq<Span>
    decreases n,
{
    if n <= 0 {
        spans
    } else {
        let found = paintable_runs(
            text,
            flags,
            matches[n - 1].0 as int,
            matches[n - 1].1 as int,
        );
        with_runs(
            with_matches(spans, text, flags, matches, color, n - 1),
            found,
            color,
            found.len() as int,
        )
    }
}

/// A rule: a pattern, the colour its matches take, and whether it is on.
pub struct HighlightRule {
    pub pattern: Pattern,
    pub color: TermColor,
    pub enabled: bool,
}

/// The spans of the first `n` rules. Where two want the same column, the rule
/// that comes first has it.
pub open spec fn rule_spans(
    rules: Seq<HighlightRule>,
    text: Seq<char>,
    flags: Seq<bool>,
    n: int,
) -> Seq<Span>
    decreases n,
{
    if n <= 0 {
        Seq::empty()
    } else {
        let before = rule_spans(rules, text, flags, n - 1);
        let rule = rules[n - 1];
        if rule.enabled {
            let matches = regex_matches(rule.pattern.text(), text);
            with_matches(before, text, flags, matches, rule.color, matches.len() as int)
        } else {
            before
        }
    }
}

/// The columns of a line to recolour.
pub open spec fn line_spans(rules: Seq<HighlightRule>, cells: Seq<TerminalCell>) -> Seq<Span> {
    if cells_text(cells).len() == 0 || !any_paintable(cells) {
        Seq::empty()
    } else {
        rule_spans(rules, cells_text(cells), paintable(cells), rules.len() as int)
    }
}

fn is_overlapping(spans: &Vec<Span>, start: usize, end: usize) -> (r: bool)
    ensures
        r == overlaps(spans@, start as int, end as int),
{
    let mut i: usize = 0;
    while i < spans.len()
        invariant
            i <= spans.len(),
            forall|j: int|
                0 <= j < i ==> !(start < (#[trigger] spans@[j]).end && spans@[j].start < end),
        decreases spans.len() - i,
    {
        if start < spans[i].end && spans[i].start < end {
            return true;
        }
        i += 1;
    }
    false
}

fn add_runs(spans: &mut Vec<Span>, found: &Vec<(usize, usize)>, color: TermColor)
    ensures
        final(spans)@ == with_runs(old(spans)@, found@, color, found@.len() as int),
{
    let mut i: usize = 0;
    while i < found.len()
        invariant
            i <= found.len(),
            spans@ == with_runs(old(spans)@, found@, color, i as int),
        decreases found.len() - i,
    {
        let (start, end) = found[i];
        if !is_overlapping(spans, start, end) {
            spans.push(Span { start, end, color });
        }
        i += 1;
    }
}

fn spans_for(
    spans: &mut Vec<Span>,
    map: &ColumnMap,
    matches: &Vec<(usize, usize)>,
    color: TermColor,
)
    requires
        map.wf(),
    ensures
        final(spans)@ == with_matches(
            old(spans)@,
            map.text@,
            map.flags@,
            matches@,
            color,
            matches@.len() as int,
        ),
{
    let mut i: usize = 0;
    while i < matches.len()
        invariant
            i <= matches.len(),
            map.wf(),
            spans@ == with_matches(
                old(spans)@,
                map.text@,
                map.flags@,
                matches@,
                color,
                i as int,
            ),
        decreases matches.len() - i,
    {
        let (from, to) = matches[i];
        let found: Vec<(usize, usize)> = find_runs(map, from, to);
        add_runs(spans, &found, color);
        i += 1;
    }
}

/// The columns of a line to recolour for one rule's matches, given as byte
/// ranges of the line's text.
pub fn spans_of_matches(line: &TerminalLine, matches: &Vec<(usize, usize)>, color: TermColor) -> (r:
    Vec<Span>)
    requires
        line.text().len() <= usize::MAX / 255,
    ensures
        r@ == with_matches(
            Seq::empty(),
            line.text(),
            paintable(line.cells@),
            matches@,
            color,
            matches@.len() as int,
        ),
{
    let (map, _) = map_columns(line);
    let mut spans: Vec<Span> = Vec::new();
    spans_for(&mut spans, &map, matches, color);
    spans
}

/// The rules that colour what the server did not.
pub struct Highlighter {
    pub rules: Vec<HighlightRule>,
}

/// A rule that ships with the program.
#[derive(Debug, Clone, Copy)]
pub struct RuleSpec {
    pub id: &'static str,
    pub pattern: &'static str,
    /// A slot of the 16-colour palette, so that a highlight follows the colour
    /// scheme; never one of the bright ones, which shout over the text.
    pub ansi: u8,
    pub enabled: bool,
}

/// Whether these are the rules that ship with the program.
pub open spec fn shipped(specs: Seq<RuleSpec>) -> bool {
    &&& specs.len() == 4
    &&& specs[0].id@ == "error"@
    &&& specs[0].pattern@ == r"\b(?:ERROR|FATAL|CRITICAL)\b"@
    &&& specs[0].ansi == 1
    &&& specs[1].id@ == "warning"@
    &&& specs[1].pattern@ == r"\b(?:WARN|WARNING)\b"@
    &&& specs[1].ansi == 3
    &&& specs[2].id@ == "ipv4"@
    &&& specs[2].pattern@ == r"\b\d{1,3}(?:\.\d{1,3}){3}\b"@
    &&& specs[2].ansi == 6
    &&& specs[3].id@ == "url"@
    &&& specs[3].pattern@ == r"\bhttps?://\S+"@
    &&& specs[3].ansi == 4
    &&& forall|i: int| 0 <= i < 4 ==> (#[trigger] specs[i]).enabled
}

/// The rules that ship with the program. A default is on for everyone, so there
/// are few, and none that fires by coincidence.
pub fn rules() -> (r: Vec<RuleSpec>)
    ensures
        shipped(r@),
{
    let mut out: Vec<RuleSpec> = Vec::new();
    out.push(
        RuleSpec {
            id: "error",
            pattern: r"\b(?:ERROR|FATAL|CRITICAL)\b",
            ansi: 1,
            enabled: true,
        },
    );
    out.push(
        RuleSpec { id: "warning", pattern: r"\b(?:WARN|WARNING)\b", ansi: 3, enabled: true },
    );
    out.push(
        RuleSpec { id: "ipv4", pattern: r"\b\d{1,3}(?:\.\d{1,3}){3}\b", ansi: 6, enabled: true },
    );
    out.push(RuleSpec { id: "url", pattern: r"\bhttps?://\S+", ansi: 4, enabled: true });
    out
}

/// Whether compiled rules are, in order, those of the first `n` shipped rules
/// that compile.
pub open spec fn compiled(rules: Seq<HighlightRule>, specs: Seq<RuleSpec>, n: int) -> bool
    decreases n,
{
    if n <= 0 {
        rules.len() == 0
    } else {
        let spec_rule = specs[n - 1];
        if regex_compiles(spec_rule.pattern@) {
            &&& rules.len() > 0
            &&& rules.last().pattern.text() == spec_rule.pattern@
            &&& rules.last().color == TermColor::Indexed(spec_rule.ansi)
            &&& rules.last().enabled == spec_rule.enabled
            &&& compiled(rules.drop_last(), specs, n - 1)
        } else {
            compiled(rules, specs, n - 1)
        }
    }
}

impl Highlighter {
    /// The highlighter with these rules; one that does not compile is left out.
    pub fn with_rules(specs: &Vec<RuleSpec>) -> (r: Highlighter)
        ensures
            compiled(r.rules@, specs@, specs@.len() as int),
    {
        let mut out: Vec<HighlightRule> = Vec::new();
        let mut i: usize = 0;
        while i < specs.len()
            invariant
                i <= specs.len(),
                compiled(out@, specs@, i as int),
            decreases specs.len() - i,
        {
            let ghost before = out@;
            if let Some(pattern) = Pattern::compile(specs[i].pattern) {
                out.push(
                    HighlightRule {
                        pattern,
                        color: TermColor::Indexed(specs[i].ansi),
                        enabled: specs[i].enabled,
                    },
                );
                assert(out@.drop_last() =~= before);
            }
            i += 1;
        }
        Highlighter { rules: out }
    }

    /// The columns of a line to recolour: what the rules match of the text that
    /// the server left uncoloured.
    pub fn spans(&self, line: &TerminalLine) -> (r: Vec<Span>)
        requires
            line.text().len() <= usize::MAX / 255,
        ensures
            r@ == line_spans(self.rules@, line.cells@),
            painting_of(
                layers_of(self.rules@, line.text()),
                line.text(),
                paintable(line.cells@),
                r@,
            ),
    {
        proof {
            law_every_match_is_painted(self.rules@, line.cells@);
        }
        let (map, any) = map_columns(line);
        let mut spans: Vec<Span> = Vec::new();
        if map.text.len() == 0 || !any {
            return spans;
        }
        let text: String = crate::text::string_of(&map.text);
        let mut i: usize = 0;
        while i < self.rules.len()
            invariant
                i <= self.rules.len(),
                map.wf(),
                map.text@ == line.text(),
                map.flags@ == paintable(line.cells@),
                text@ == line.text(),
                spans@ == rule_spans(self.rules@, line.text(), paintable(line.cells@), i as int),
            decreases self.rules.len() - i,
        {
            if self.rules[i].enabled {
                let matches: Vec<(usize, usize)> = self.rules[i].pattern.find_all(text.as_str());
                spans_for(&mut spans, &map, &matches, self.rules[i].color);
            }
            i += 1;
        }
        spans
    }
}

impl Default for Highlighter {
    /// The highlighter with the rules that ship with the program.
    fn default() -> (r: Highlighter)
        ensures
            exists|specs: Seq<RuleSpec>| #[trigger]
                shipped(specs) && compiled(r.rules@, specs, 4),
    {
        let specs: Vec<RuleSpec> = rules();
        Highlighter::with_rules(&specs)
    }
}

// What the highlighter never does.

/// Whether a run covers exactly the columns of some characters that may all be
/// recoloured.
pub open spec fn covers(
    text: Seq<char>,
    flags: Seq<bool>,
    start: int,
    end: int,
    a: int,
    b: int,
) -> bool {
    &&& 0 <= a < b <= text.len()
    &&& start == column_at(text, a)
    &&& end == column_at(text, b)
    &&& forall|i: int| a <= i < b ==> #[trigger] flags[i]
}

/// Whether a run is one of characters that may all be recoloured.
pub open spec fn clean(text: Seq<char>, flags: Seq<bool>, start: int, end: int) -> bool {
    exists|a: int, b: int| #[trigger] covers(text, flags, start, end, a, b)
}

proof fn lemma_runs_clean(text: Seq<char>, flags: Seq<bool>, from: int, to: int, n: int)
    requires
        0 <= n <= text.len(),
        flags.len() == text.len(),
        text.len() <= usize::MAX / 255,
    ensures
        ({
            let (done, open) = runs(text, flags, from, to, n);
            &&& forall|k: int|
                0 <= k < done.len() ==> clean(
                    text,
                    flags,
                    (#[trigger] done[k]).0 as int,
                    done[k].1 as int,
                )
            &&& open matches Some(run) ==> exists|a: int| #[trigger]
                covers(text, flags, run.0 as int, run.1 as int, a, n)
        }),
    decreases n,
{
    if n > 0 {
        let i = n - 1;
        lemma_runs_clean(text, flags, from, to, i);
        lemma_bounds(text, i);
        lemma_bounds(text, n);
        let (done, open) = runs(text, flags, from, to, i);
        let (done2, open2) = runs(text, flags, from, to, n);
        match open {
            Some(run) => {
                let a = choose|a: int| #[trigger]
                    covers(text, flags, run.0 as int, run.1 as int, a, i);
                if takes(text, flags, from, to, i) {
                    let now = open2->0;
                    assert(covers(text, flags, now.0 as int, now.1 as int, a, n));
                } else {
                    assert(clean(text, flags, run.0 as int, run.1 as int));
                    assert forall|k: int| 0 <= k < done2.len() implies clean(
                        text,
                        flags,
                        (#[trigger] done2[k]).0 as int,
                        done2[k].1 as int,
                    ) by {
                        if k < done.len() {
                            assert(done2[k] == done[k]);
                        }
                    }
                }
            },
            None => {
                if takes(text, flags, from, to, i) {
                    let now = open2->0;
                    assert(covers(text, flags, now.0 as int, now.1 as int, i, n));
                }
            },
        }
    }
}

/// Whether every span covers characters that may all be recoloured, and no two
/// overlap.
pub open spec fn harmless(spans: Seq<Span>, text: Seq<char>, flags: Seq<bool>) -> bool {
    &&& forall|k: int|
        0 <= k < spans.len() ==> clean(
            text,
            flags,
            (#[trigger] spans[k]).start as int,
            spans[k].end as int,
        )
    &&& forall|i: int, j: int|
        0 <= i < j < spans.len() ==> (#[trigger] spans[i]).end <= (#[trigger] spans[j]).start
            || spans[j].end <= spans[i].start
}

proof fn lemma_with_runs_harmless(
    spans: Seq<Span>,
    text: Seq<char>,
    flags: Seq<bool>,
    found: Seq<(usize, usize)>,
    color: TermColor,
    n: int,
)
    requires
        harmless(spans, text, flags),
        0 <= n <= found.len(),
        forall|k: int|
            0 <= k < found.len() ==> clean(
                text,
                flags,
                (#[trigger] found[k]).0 as int,
                found[k].1 as int,
            ),
    ensures
        harmless(with_runs(spans, found, color, n), text, flags),
    decreases n,
{
    if n > 0 {
        lemma_with_runs_harmless(spans, text, flags, found, color, n - 1);
        let before = with_runs(spans, found, color, n - 1);
        let all = with_runs(spans, found, color, n);
        let (start, end) = found[n - 1];
        if !overlaps(before, start as int, end as int) {
            assert forall|k: int| 0 <= k < all.len() implies clean(
                text,
                flags,
                (#[trigger] all[k]).start as int,
                all[k].end as int,
            ) by {
                if k < before.len() {
                    assert(all[k] == before[k]);
                } else {
                    assert(clean(text, flags, found[n - 1].0 as int, found[n - 1].1 as int));
                }
            }
            assert forall|i: int, j: int| 0 <= i < j < all.len() implies (
            #[trigger] all[i]).end <= (#[trigger] all[j]).start || all[j].end <= all[i].start by {
                if j == before.len() {
                    assert(!(start < before[i].end && before[i].start < end));
                } else {
                    assert(all[i] == before[i] && all[j] == before[j]);
                }
            }
        }
    }
}

proof fn lemma_with_matches_harmless(
    spans: Seq<Span>,
    text: Seq<char>,
    flags: Seq<bool>,
    matches: Seq<(usize, usize)>,
    color: TermColor,
    n: int,
)
    requires
        harmless(spans, text, flags),
        0 <= n <= matches.len(),
        flags.len() == text.len(),
        text.len() <= usize::MAX / 255,
    ensures
        harmless(with_matches(spans, text, flags, matches, color, n), text, flags),
    decreases n,
{
    if n > 0 {
        lemma_with_matches_harmless(spans, text, flags, matches, color, n - 1);
        let (from, to) = (matches[n - 1].0 as int, matches[n - 1].1 as int);
        let found = paintable_runs(text, flags, from, to);
        lemma_runs_clean(text, flags, from, to, text.len() as int);
        let (done, open) = runs(text, flags, from, to, text.len() as int);
        assert forall|k: int| 0 <= k < found.len() implies clean(
            text,
            flags,
            (#[trigger] found[k]).0 as int,
            found[k].1 as int,
        ) by {
            if k < done.len() {
                assert(found[k] == done[k]);
            } else {
                let run = open->0;
                let a = choose|a: int| #[trigger]
                    covers(text, flags, run.0 as int, run.1 as int, a, text.len() as int);
                assert(covers(text, flags, run.0 as int, run.1 as int, a, text.len() as int));
            }
        }
        lemma_with_runs_harmless(
            with_matches(spans, text, flags, matches, color, n - 1),
            text,
            flags,
            found,
            color,
            found.len() as int,
        );
    }
}

proof fn lemma_rule_spans_harmless(
    rules: Seq<HighlightRule>,
    text: Seq<char>,
    flags: Seq<bool>,
    n: int,
)
    requires
        0 <= n <= rules.len(),
        flags.len() == text.len(),
        text.len() <= usize::MAX / 255,
    ensures
        harmless(rule_spans(rules, text, flags, n), text, flags),
    decreases n,
{
    if n > 0 {
        lemma_rule_spans_harmless(rules, text, flags, n - 1);
        let rule = rules[n - 1];
        if rule.enabled {
            let matches = regex_matches(rule.pattern.text(), text);
            lemma_with_matches_harmless(
                rule_spans(rules, text, flags, n - 1),
                text,
                flags,
                matches,
                rule.color,
                matches.len() as int,
            );
        }
    }
}

proof fn lemma_flags_len(cells: Seq<TerminalCell>)
    ensures
        paintable(cells).len() == cells_text(cells).len(),
    decreases cells.len(),
{
    if cells.len() > 0 {
        lemma_flags_len(cells.drop_last());
    }
}

/// Whatever the rules are and whatever they match, no character that the server
/// coloured, no link and nothing under the cursor is ever recoloured: every
/// character whose column lies in a span may be recoloured. And no column is
/// painted twice.
pub proof fn law_only_uncoloured_text_is_painted(
    rules: Seq<HighlightRule>,
    cells: Seq<TerminalCell>,
)
    requires
        cells_text(cells).len() <= usize::MAX / 255,
    ensures
        ({
            let spans = line_spans(rules, cells);
            let text = cells_text(cells);
            &&& forall|k: int, i: int|
                0 <= k < spans.len() && 0 <= i < text.len() && (#[trigger] spans[k]).start
                    <= #[trigger] column_at(text, i) < spans[k].end ==> paintable(cells)[i]
            &&& forall|i: int, j: int|
                0 <= i < j < spans.len() ==> (#[trigger] spans[i]).end <= (
                #[trigger] spans[j]).start || spans[j].end <= spans[i].start
        }),
{
    let spans = line_spans(rules, cells);
    let text = cells_text(cells);
    let flags = paintable(cells);
    lemma_flags_len(cells);
    lemma_rule_spans_harmless(rules, text, flags, rules.len() as int);
    assert(harmless(spans, text, flags));
    assert forall|k: int, i: int|
        0 <= k < spans.len() && 0 <= i < text.len() && (#[trigger] spans[k]).start
            <= #[trigger] column_at(text, i) < spans[k].end implies flags[i] by {
        let (s, e) = (spans[k].start as int, spans[k].end as int);
        assert(clean(text, flags, s, e));
        let (a, b) = choose|a: int, b: int| #[trigger] covers(text, flags, s, e, a, b);
        if i < a {
            lemma_columns_grow(text, i, a);
        }
        if i >= b {
            if i > b {
                lemma_columns_grow(text, b, i);
            }
        }
        assert(a <= i < b);
    }
}

// What the highlighter always does.

/// What one rule wants painted: the byte ranges that it matches, and their colour.
pub ghost struct Layer {
    pub matches: Seq<(usize, usize)>,
    pub color: TermColor,
}

/// What each rule wants painted of a text; one that is off wants nothing.
pub open spec fn layers_of(rules: Seq<HighlightRule>, text: Seq<char>) -> Seq<Layer> {
    Seq::new(
        rules.len(),
        |r: int|
            Layer {
                matches: if rules[r].enabled {
                    regex_matches(rules[r].pattern.text(), text)
                } else {
                    Seq::empty()
                },
                color: rules[r].color,
            },
    )
}

/// A run of characters that a match of a layer wants painted.
pub ghost struct Source {
    pub layer: int,
    pub hit: int,
    pub from: int,
    pub to: int,
}

/// Whether a match wants a character: the character's bytes in UTF-8 begin inside the
/// match, and the character may be painted.
pub open spec fn wants(
    layers: Seq<Layer>,
    text: Seq<char>,
    flags: Seq<bool>,
    layer: int,
    hit: int,
    i: int,
) -> bool {
    &&& 0 <= layer < layers.len()
    &&& 0 <= hit < layers[layer].matches.len()
    &&& 0 <= i < text.len()
    &&& layers[layer].matches[hit].0 <= encode_utf8(text.take(i)).len()
    &&& encode_utf8(text.take(i)).len() < layers[layer].matches[hit].1
    &&& flags[i]
}

/// Whether a match wants all of a run, and neither of the characters beside it.
pub open spec fn is_run(
    layers: Seq<Layer>,
    text: Seq<char>,
    flags: Seq<bool>,
    s: Source,
) -> bool {
    &&& s.from < s.to
    &&& forall|i: int|
        s.from <= i < s.to ==> #[trigger] wants(layers, text, flags, s.layer, s.hit, i)
    &&& !wants(layers, text, flags, s.layer, s.hit, s.from - 1)
    &&& !wants(layers, text, flags, s.layer, s.hit, s.to)
}

/// Whether one run has its turn before a place: an earlier rule, an earlier match of the
/// same rule, or further left in the same match.
pub open spec fn turn_before(s: Source, layer: int, hit: int, from: int) -> bool {
    ||| s.layer < layer
    ||| s.layer == layer && s.hit < hit
    ||| s.layer == layer && s.hit == hit && s.from < from
}

/// Whether a span is the painting of a run: its columns, in the colour of its rule.
pub open spec fn paints(layers: Seq<Layer>, text: Seq<char>, span: Span, s: Source) -> bool {
    &&& span.start == column_at(text, s.from)
    &&& span.end == column_at(text, s.to)
    &&& span.color == layers[s.layer].color
}

/// Whether a span and a run share a column.
pub open spec fn meets(text: Seq<char>, span: Span, s: Source) -> bool {
    span.start < column_at(text, s.to) && column_at(text, s.from) < span.end
}

/// Whether each span paints a run, in the order of their turns, and every run before a
/// place is painted, unless a run that had its turn before is in its way.
pub open spec fn painted_up_to(
    layers: Seq<Layer>,
    text: Seq<char>,
    flags: Seq<bool>,
    spans: Seq<Span>,
    sources: Seq<Source>,
    layer: int,
    hit: int,
    from: int,
) -> bool {
    &&& sources.len() == spans.len()
    &&& forall|k: int|
        0 <= k < spans.len() ==> {
            &&& is_run(layers, text, flags, #[trigger] sources[k])
            &&& paints(layers, text, spans[k], sources[k])
            &&& turn_before(sources[k], layer, hit, from)
        }
    &&& forall|j: int, k: int|
        0 <= j < k < spans.len() ==> turn_before(
            #[trigger] sources[j],
            (#[trigger] sources[k]).layer,
            sources[k].hit,
            sources[k].from,
        )
    &&& forall|s: Source| #[trigger]
        is_run(layers, text, flags, s) && turn_before(s, layer, hit, from) ==> settled(
            text,
            spans,
            sources,
            s,
        )
}

/// Whether a run is painted, or a run that had its turn before is in its way.
pub open spec fn settled(
    text: Seq<char>,
    spans: Seq<Span>,
    sources: Seq<Source>,
    s: Source,
) -> bool {
    exists|k: int|
        0 <= k < sources.len() && {
            ||| #[trigger] sources[k] == s
            ||| turn_before(sources[k], s.layer, s.hit, s.from) && meets(text, spans[k], s)
        }
}

proof fn lemma_scalar_len(c: char)
    ensures
        encode_scalar(c as u32).len() == utf8_len(c),
{
    vstd::utf8::char_is_scalar(c);
}

proof fn lemma_encode_push(text: Seq<char>, i: int)
    requires
        0 <= i < text.len(),
    ensures
        encode_utf8(text.take(i + 1)).len() == encode_utf8(text.take(i)).len() + utf8_len(text[i]),
    decreases i,
{
    let longer = text.take(i + 1);
    lemma_scalar_len(text[i]);
    if i == 0 {
        assert(longer.drop_first() =~= Seq::empty());
        assert(text.take(0) =~= Seq::empty());
        assert(longer[0] == text[0]);
        assert(encode_utf8(Seq::<char>::empty()).len() == 0);
    } else {
        let rest = text.drop_first();
        lemma_encode_push(rest, i - 1);
        assert(longer.drop_first() =~= rest.take(i));
        assert(text.take(i).drop_first() =~= rest.take(i - 1));
        assert(rest[i - 1] == text[i]);
        assert(longer[0] == text[0] && text.take(i)[0] == text[0]);
    }
}

/// A character's byte offset is the length of what stands before it in UTF-8.
pub proof fn law_offsets_count_the_bytes_before(text: Seq<char>, i: int)
    requires
        0 <= i <= text.len(),
    ensures
        byte_at(text, i) == encode_utf8(text.take(i)).len(),
    decreases i,
{
    if i > 0 {
        law_offsets_count_the_bytes_before(text, i - 1);
        lemma_encode_push(text, i - 1);
    } else {
        assert(text.take(0) =~= Seq::empty());
    }
}

/// The first character stands in the first column, and each one further right by the
/// width of the one before: one column for a character without a width or of width zero.
pub proof fn law_columns_add_up_the_widths(text: Seq<char>, i: int)
    requires
        0 <= i < text.len(),
    ensures
        column_at(text, 0) == 0,
        char_width(text[i]) is None ==> column_at(text, i + 1) == column_at(text, i) + 1,
        char_width(text[i]) == Some(0usize) ==> column_at(text, i + 1) == column_at(text, i) + 1,
        char_width(text[i]) matches Some(w) ==> 1 <= w <= 255 ==> column_at(text, i + 1)
            == column_at(text, i) + w,
{
}

/// Each character of a line is one of its cell's own, and may be painted exactly where
/// the server gave the cell no colour, the cursor is not on it and it is no link.
pub proof fn law_a_character_is_painted_as_its_cell_allows(
    cells: Seq<TerminalCell>,
    c: int,
    k: int,
)
    requires
        0 <= c < cells.len(),
        0 <= k < cells[c].text@.len(),
    ensures
        ({
            let i = cells_text(cells.take(c)).len() + k;
            &&& i < cells_text(cells).len()
            &&& cells_text(cells)[i] == cells[c].text@[k]
            &&& paintable(cells).len() == cells_text(cells).len()
            &&& paintable(cells)[i] <==> cells[c].fg == TermColor::Default && !cells[c].cursor
                && cells[c].hyperlink is None
        }),
    decreases cells.len(),
{
    lemma_flags_len(cells);
    let head = cells.drop_last();
    lemma_flags_len(head);
    if c < cells.len() - 1 {
        law_a_character_is_painted_as_its_cell_allows(head, c, k);
        assert(head.take(c) =~= cells.take(c));
    } else {
        assert(cells.take(c) =~= head);
    }
}

proof fn lemma_wants_is_takes(
    layers: Seq<Layer>,
    text: Seq<char>,
    flags: Seq<bool>,
    layer: int,
    hit: int,
    i: int,
)
    requires
        0 <= layer < layers.len(),
        0 <= hit < layers[layer].matches.len(),
        0 <= i < text.len(),
    ensures
        wants(layers, text, flags, layer, hit, i) == takes(
            text,
            flags,
            layers[layer].matches[hit].0 as int,
            layers[layer].matches[hit].1 as int,
            i,
        ),
{
    law_offsets_count_the_bytes_before(text, i);
}

/// The characters of the runs among the first `n`, and where the run begins that ends
/// with the last of them.
spec fn run_chars(text: Seq<char>, flags: Seq<bool>, from: int, to: int, n: int) -> (
    Seq<(int, int)>,
    Option<int>,
)
    decreases n,
{
    if n <= 0 {
        (Seq::empty(), None)
    } else {
        let (done, open) = run_chars(text, flags, from, to, n - 1);
        if takes(text, flags, from, to, n - 1) {
            (
                done,
                Some(
                    match open {
                        Some(a) => a,
                        None => n - 1,
                    },
                ),
            )
        } else {
            match open {
                Some(a) => (done.push((a, n - 1)), None),
                None => (done, None),
            }
        }
    }
}

spec fn span_columns(text: Seq<char>, run: (int, int)) -> (usize, usize) {
    (column_at(text, run.0) as usize, column_at(text, run.1) as usize)
}

proof fn lemma_run_chars(text: Seq<char>, flags: Seq<bool>, from: int, to: int, n: int)
    requires
        0 <= n <= text.len(),
        text.len() <= usize::MAX / 255,
    ensures
        ({
            let (done, open) = runs(text, flags, from, to, n);
            let (chars, start) = run_chars(text, flags, from, to, n);
            &&& done == chars.map_values(|run: (int, int)| span_columns(text, run))
            &&& open is Some == start is Some
            &&& start matches Some(a) ==> {
                &&& 0 <= a < n
                &&& open == Some(span_columns(text, (a, n)))
                &&& forall|i: int| a <= i < n ==> takes(text, flags, from, to, i)
                &&& a > 0 ==> !takes(text, flags, from, to, a - 1)
            }
            &&& start is None && n > 0 ==> !takes(text, flags, from, to, n - 1)
            &&& forall|k: int|
                0 <= k < chars.len() ==> {
                    let (a, b) = #[trigger] chars[k];
                    &&& 0 <= a < b < n
                    &&& forall|i: int| a <= i < b ==> takes(text, flags, from, to, i)
                    &&& a > 0 ==> !takes(text, flags, from, to, a - 1)
                    &&& !takes(text, flags, from, to, b)
                    &&& start matches Some(s) ==> b <= s
                }
            &&& forall|j: int, k: int|
                0 <= j < k < chars.len() ==> (#[trigger] chars[j]).1 <= (#[trigger] chars[k]).0
            &&& forall|a: int, b: int|
                0 <= a < b < n && (forall|i: int| a <= i < b ==> takes(text, flags, from, to, i))
                    && (a > 0 ==> !takes(text, flags, from, to, a - 1)) && !(#[trigger] takes(
                    text,
                    flags,
                    from,
                    to,
                    b,
                )) ==> chars.contains(#[trigger] pair(a, b))
        }),
    decreases n,
{
    let (done, open) = runs(text, flags, from, to, n);
    let (chars, start) = run_chars(text, flags, from, to, n);
    if n > 0 {
        lemma_run_chars(text, flags, from, to, n - 1);
        let (done0, open0) = runs(text, flags, from, to, n - 1);
        let (chars0, start0) = run_chars(text, flags, from, to, n - 1);
        lemma_bounds(text, n);
        lemma_bounds(text, n - 1);
        if !takes(text, flags, from, to, n - 1) {
            if let Some(a) = start0 {
                assert(chars =~= chars0.push((a, n - 1)));
                assert(done =~= chars.map_values(|run: (int, int)| span_columns(text, run)));
                assert forall|k: int| 0 <= k < chars.len() implies {
                    let (a, b) = #[trigger] chars[k];
                    &&& 0 <= a < b < n
                    &&& forall|i: int| a <= i < b ==> takes(text, flags, from, to, i)
                    &&& a > 0 ==> !takes(text, flags, from, to, a - 1)
                    &&& !takes(text, flags, from, to, b)
                    &&& start matches Some(s) ==> b <= s
                } by {
                    if k < chars0.len() {
                        assert(chars[k] == chars0[k]);
                    }
                }
                assert forall|j: int, k: int| 0 <= j < k < chars.len() implies (
                #[trigger] chars[j]).1 <= (#[trigger] chars[k]).0 by {
                    assert(chars[j] == chars0[j]);
                    if k < chars0.len() {
                        assert(chars[k] == chars0[k]);
                    }
                }
            }
        }
        assert forall|a: int, b: int|
            0 <= a < b < n && (forall|i: int| a <= i < b ==> takes(text, flags, from, to, i)) && (a
                > 0 ==> !takes(text, flags, from, to, a - 1)) && !(#[trigger] takes(
                text,
                flags,
                from,
                to,
                b,
            )) implies chars.contains(#[trigger] pair(a, b)) by {
            if b < n - 1 {
                assert(chars0.contains(pair(a, b)));
                let k = choose|k: int| 0 <= k < chars0.len() && chars0[k] == pair(a, b);
                assert(chars[k] == pair(a, b));
            } else {
                assert(takes(text, flags, from, to, b - 1));
                let s = start0->0;
                if a < s {
                    assert(takes(text, flags, from, to, s - 1));
                } else if s < a {
                    assert(takes(text, flags, from, to, a - 1));
                }
                assert(chars[chars.len() - 1] == pair(a, b));
            }
        }
    } else {
        assert(done =~= chars.map_values(|run: (int, int)| span_columns(text, run)));
    }
}

spec fn pair(a: int, b: int) -> (int, int) {
    (a, b)
}

/// The characters of all the runs of a match.
spec fn all_run_chars(text: Seq<char>, flags: Seq<bool>, from: int, to: int) -> Seq<(int, int)> {
    let (chars, start) = run_chars(text, flags, from, to, text.len() as int);
    match start {
        Some(a) => chars.push((a, text.len() as int)),
        None => chars,
    }
}

proof fn lemma_all_runs(
    layers: Seq<Layer>,
    text: Seq<char>,
    flags: Seq<bool>,
    layer: int,
    hit: int,
)
    requires
        text.len() <= usize::MAX / 255,
        0 <= layer < layers.len(),
        0 <= hit < layers[layer].matches.len(),
    ensures
        ({
            let (from, to) = layers[layer].matches[hit];
            let all = all_run_chars(text, flags, from as int, to as int);
            &&& paintable_runs(text, flags, from as int, to as int) == all.map_values(
                |run: (int, int)| span_columns(text, run),
            )
            &&& forall|k: int|
                0 <= k < all.len() ==> is_run(
                    layers,
                    text,
                    flags,
                    Source { layer, hit, from: (#[trigger] all[k]).0, to: all[k].1 },
                )
            &&& forall|j: int, k: int|
                0 <= j < k < all.len() ==> (#[trigger] all[j]).1 <= (#[trigger] all[k]).0
            &&& forall|k: int| 0 <= k < all.len() ==> 0 <= (#[trigger] all[k]).0 < all[k].1
                <= text.len()
            &&& forall|s: Source| #[trigger]
                is_run(layers, text, flags, s) && s.layer == layer && s.hit == hit
                    ==> all.contains(pair(s.from, s.to))
        }),
{
    let (from, to) = (
        layers[layer].matches[hit].0 as int,
        layers[layer].matches[hit].1 as int,
    );
    let n = text.len() as int;
    lemma_run_chars(text, flags, from, to, n);
    let (chars, start) = run_chars(text, flags, from, to, n);
    let all = all_run_chars(text, flags, from, to);
    assert(paintable_runs(text, flags, from, to) =~= all.map_values(
        |run: (int, int)| span_columns(text, run),
    ));
    assert forall|i: int| 0 <= i < n implies #[trigger] wants(layers, text, flags, layer, hit, i)
        == takes(text, flags, from, to, i) by {
        lemma_wants_is_takes(layers, text, flags, layer, hit, i);
    }
    assert forall|k: int| 0 <= k < all.len() implies is_run(
        layers,
        text,
        flags,
        Source { layer, hit, from: (#[trigger] all[k]).0, to: all[k].1 },
    ) by {
        if k < chars.len() {
            assert(all[k] == chars[k]);
        }
    }
    assert forall|j: int, k: int| 0 <= j < k < all.len() implies (#[trigger] all[j]).1 <= (
    #[trigger] all[k]).0 by {
        assert(all[j] == chars[j]);
        if k < chars.len() {
            assert(all[k] == chars[k]);
        }
    }
    assert forall|s: Source| #[trigger]
        is_run(layers, text, flags, s) && s.layer == layer && s.hit == hit implies all.contains(
        pair(s.from, s.to),
    ) by {
        assert(wants(layers, text, flags, layer, hit, s.from));
        assert(wants(layers, text, flags, layer, hit, s.to - 1));
        assert forall|i: int| s.from <= i < s.to implies takes(text, flags, from, to, i) by {
            assert(wants(layers, text, flags, layer, hit, i));
        }
        if s.to < n {
            assert(!takes(text, flags, from, to, s.to));
            assert(chars.contains(pair(s.from, s.to)));
            let k = choose|k: int| 0 <= k < chars.len() && chars[k] == pair(s.from, s.to);
            assert(all[k] == pair(s.from, s.to));
        } else {
            let a = start->0;
            assert(takes(text, flags, from, to, n - 1));
            if a < s.from {
                assert(takes(text, flags, from, to, s.from - 1));
            } else if s.from < a {
                assert(takes(text, flags, from, to, a - 1));
            }
            assert(all[all.len() - 1] == pair(s.from, s.to));
        }
    }
}

proof fn lemma_add_run(
    layers: Seq<Layer>,
    text: Seq<char>,
    flags: Seq<bool>,
    spans: Seq<Span>,
    sources: Seq<Source>,
    s: Source,
    from: int,
) -> (after: Seq<Source>)
    requires
        text.len() <= usize::MAX / 255,
        painted_up_to(layers, text, flags, spans, sources, s.layer, s.hit, from),
        is_run(layers, text, flags, s),
        0 <= from <= s.from,
        forall|t: Source| #[trigger]
            is_run(layers, text, flags, t) && t.layer == s.layer && t.hit == s.hit && from <= t.from
                < s.to ==> t == s,
    ensures
        ({
            let (start, end) = span_columns(text, (s.from, s.to));
            let color = layers[s.layer].color;
            let grown = if overlaps(spans, start as int, end as int) {
                spans
            } else {
                spans.push(Span { start, end, color })
            };
            painted_up_to(layers, text, flags, grown, after, s.layer, s.hit, s.to)
        }),
{
    let (start, end) = span_columns(text, (s.from, s.to));
    let color = layers[s.layer].color;
    assert(wants(layers, text, flags, s.layer, s.hit, s.from));
    assert(wants(layers, text, flags, s.layer, s.hit, s.to - 1));
    lemma_bounds(text, s.from);
    lemma_bounds(text, s.to);
    let (grown, after) = if overlaps(spans, start as int, end as int) {
        (spans, sources)
    } else {
        (spans.push(Span { start, end, color }), sources.push(s))
    };
    assert forall|k: int| 0 <= k < grown.len() implies {
        &&& is_run(layers, text, flags, #[trigger] after[k])
        &&& paints(layers, text, grown[k], after[k])
        &&& turn_before(after[k], s.layer, s.hit, s.to)
    } by {
        if k < spans.len() {
            assert(after[k] == sources[k]);
        }
    }
    assert forall|j: int, k: int| 0 <= j < k < grown.len() implies turn_before(
        #[trigger] after[j],
        (#[trigger] after[k]).layer,
        after[k].hit,
        after[k].from,
    ) by {
        assert(after[j] == sources[j]);
        if k < spans.len() {
            assert(after[k] == sources[k]);
        }
    }
    assert forall|t: Source| #[trigger]
        is_run(layers, text, flags, t) && turn_before(t, s.layer, s.hit, s.to) implies settled(
        text,
        grown,
        after,
        t,
    ) by {
        if turn_before(t, s.layer, s.hit, from) {
            assert(settled(text, spans, sources, t));
            let k = choose|k: int|
                0 <= k < sources.len() && {
                    ||| #[trigger] sources[k] == t
                    ||| turn_before(sources[k], t.layer, t.hit, t.from) && meets(text, spans[k], t)
                };
            assert(after[k] == sources[k] && grown[k] == spans[k]);
        } else {
            assert(t == s);
            if overlaps(spans, start as int, end as int) {
                let k = choose|k: int|
                    0 <= k < spans.len() && (start as int) < (#[trigger] spans[k]).end
                        && spans[k].start < end as int;
                assert(turn_before(sources[k], s.layer, s.hit, from));
                assert(meets(text, spans[k], s));
                assert(after[k] == sources[k]);
            } else {
                assert(after[after.len() - 1] == s);
            }
        }
    }
    after
}

proof fn lemma_add_runs(
    layers: Seq<Layer>,
    text: Seq<char>,
    flags: Seq<bool>,
    spans: Seq<Span>,
    sources: Seq<Source>,
    layer: int,
    hit: int,
    n: int,
) -> (after: Seq<Source>)
    requires
        text.len() <= usize::MAX / 255,
        0 <= layer < layers.len(),
        0 <= hit < layers[layer].matches.len(),
        painted_up_to(layers, text, flags, spans, sources, layer, hit, 0),
        0 <= n <= paintable_runs(
            text,
            flags,
            layers[layer].matches[hit].0 as int,
            layers[layer].matches[hit].1 as int,
        ).len(),
    ensures
        ({
            let (from, to) = layers[layer].matches[hit];
            let found = paintable_runs(text, flags, from as int, to as int);
            let all = all_run_chars(text, flags, from as int, to as int);
            painted_up_to(
                layers,
                text,
                flags,
                with_runs(spans, found, layers[layer].color, n),
                after,
                layer,
                hit,
                if n == 0 {
                    0
                } else {
                    all[n - 1].1
                },
            )
        }),
    decreases n,
{
    if n == 0 {
        sources
    } else {
        let before = lemma_add_runs(layers, text, flags, spans, sources, layer, hit, n - 1);
        lemma_all_runs(layers, text, flags, layer, hit);
        let (from, to) = layers[layer].matches[hit];
        let found = paintable_runs(text, flags, from as int, to as int);
        let all = all_run_chars(text, flags, from as int, to as int);
        let reached = if n == 1 {
            0
        } else {
            all[n - 2].1
        };
        let (a, b) = all[n - 1];
        let s = Source { layer, hit, from: a, to: b };
        assert(found[n - 1] == span_columns(text, (a, b)));
        assert forall|t: Source| #[trigger]
            is_run(layers, text, flags, t) && t.layer == layer && t.hit == hit && reached <= t.from
                < b implies t == s by {
            assert(all.contains(pair(t.from, t.to)));
            let k = choose|k: int| 0 <= k < all.len() && all[k] == pair(t.from, t.to);
            if k < n - 1 {
                assert(all[k].1 <= reached) by {
                    if k < n - 2 {
                        assert(all[k].1 <= all[n - 2].0);
                    }
                }
            } else if k > n - 1 {
                assert(all[n - 1].1 <= all[k].0);
            }
        }
        lemma_add_run(
            layers,
            text,
            flags,
            with_runs(spans, found, layers[layer].color, n - 1),
            before,
            s,
            reached,
        )
    }
}

proof fn lemma_next_turn(
    layers: Seq<Layer>,
    text: Seq<char>,
    flags: Seq<bool>,
    spans: Seq<Span>,
    sources: Seq<Source>,
    layer: int,
    hit: int,
    from: int,
    layer2: int,
    hit2: int,
)
    requires
        painted_up_to(layers, text, flags, spans, sources, layer, hit, from),
        forall|s: Source| turn_before(s, layer, hit, from) ==> turn_before(s, layer2, hit2, 0),
        forall|s: Source| #[trigger]
            is_run(layers, text, flags, s) && turn_before(s, layer2, hit2, 0) ==> turn_before(
                s,
                layer,
                hit,
                from,
            ),
    ensures
        painted_up_to(layers, text, flags, spans, sources, layer2, hit2, 0),
{
}

proof fn lemma_matches_painted(
    layers: Seq<Layer>,
    text: Seq<char>,
    flags: Seq<bool>,
    spans: Seq<Span>,
    sources: Seq<Source>,
    layer: int,
    n: int,
) -> (after: Seq<Source>)
    requires
        text.len() <= usize::MAX / 255,
        0 <= layer < layers.len(),
        0 <= n <= layers[layer].matches.len(),
        painted_up_to(layers, text, flags, spans, sources, layer, 0, 0),
    ensures
        painted_up_to(
            layers,
            text,
            flags,
            with_matches(spans, text, flags, layers[layer].matches, layers[layer].color, n),
            after,
            layer,
            n,
            0,
        ),
    decreases n,
{
    if n == 0 {
        sources
    } else {
        let before = lemma_matches_painted(layers, text, flags, spans, sources, layer, n - 1);
        let matches = layers[layer].matches;
        let (from, to) = matches[n - 1];
        let found = paintable_runs(text, flags, from as int, to as int);
        let all = all_run_chars(text, flags, from as int, to as int);
        let spans0 = with_matches(spans, text, flags, matches, layers[layer].color, n - 1);
        let after = lemma_add_runs(
            layers,
            text,
            flags,
            spans0,
            before,
            layer,
            n - 1,
            found.len() as int,
        );
        lemma_all_runs(layers, text, flags, layer, n - 1);
        let reached = if found.len() == 0 {
            0
        } else {
            all[found.len() - 1].1
        };
        let spans1 = with_runs(spans0, found, layers[layer].color, found.len() as int);
        assert forall|s: Source| #[trigger]
            is_run(layers, text, flags, s) && turn_before(s, layer, n, 0) implies turn_before(
            s,
            layer,
            n - 1,
            reached,
        ) by {
            assert(wants(layers, text, flags, s.layer, s.hit, s.from));
            if s.layer == layer && s.hit == n - 1 {
                assert(all.len() == found.len());
                assert(all.contains(pair(s.from, s.to)));
                let k = choose|k: int| 0 <= k < all.len() && all[k] == pair(s.from, s.to);
                if k < all.len() - 1 {
                    assert(all[k].1 <= all[all.len() - 1].0);
                }
            }
        }
        lemma_next_turn(layers, text, flags, spans1, after, layer, n - 1, reached, layer, n);
        after
    }
}

proof fn lemma_layer_done(
    layers: Seq<Layer>,
    text: Seq<char>,
    flags: Seq<bool>,
    spans: Seq<Span>,
    sources: Seq<Source>,
    layer: int,
)
    requires
        0 <= layer < layers.len(),
        painted_up_to(
            layers,
            text,
            flags,
            spans,
            sources,
            layer,
            layers[layer].matches.len() as int,
            0,
        ),
    ensures
        painted_up_to(layers, text, flags, spans, sources, layer + 1, 0, 0),
{
    let count = layers[layer].matches.len() as int;
    assert forall|s: Source| #[trigger]
        is_run(layers, text, flags, s) && turn_before(s, layer + 1, 0, 0) implies turn_before(
        s,
        layer,
        count,
        0,
    ) by {
        assert(wants(layers, text, flags, s.layer, s.hit, s.from));
    }
    assert forall|k: int| 0 <= k < spans.len() implies {
        &&& is_run(layers, text, flags, #[trigger] sources[k])
        &&& paints(layers, text, spans[k], sources[k])
        &&& turn_before(sources[k], layer + 1, 0, 0)
    } by {
    }
}

proof fn lemma_nothing_before_the_first(layers: Seq<Layer>, text: Seq<char>, flags: Seq<bool>)
    ensures
        painted_up_to(layers, text, flags, Seq::empty(), Seq::empty(), 0, 0, 0),
{
    assert forall|s: Source| #[trigger]
        is_run(layers, text, flags, s) && turn_before(s, 0, 0, 0) implies settled(
        text,
        Seq::empty(),
        Seq::empty(),
        s,
    ) by {
        assert(wants(layers, text, flags, s.layer, s.hit, s.from));
    }
}

proof fn lemma_rules_painted(
    rules: Seq<HighlightRule>,
    text: Seq<char>,
    flags: Seq<bool>,
    n: int,
) -> (sources: Seq<Source>)
    requires
        text.len() <= usize::MAX / 255,
        0 <= n <= rules.len(),
    ensures
        painted_up_to(
            layers_of(rules, text),
            text,
            flags,
            rule_spans(rules, text, flags, n),
            sources,
            n,
            0,
            0,
        ),
    decreases n,
{
    let layers = layers_of(rules, text);
    if n == 0 {
        lemma_nothing_before_the_first(layers, text, flags);
        Seq::empty()
    } else {
        let before = lemma_rules_painted(rules, text, flags, n - 1);
        let spans = rule_spans(rules, text, flags, n - 1);
        let count = layers[n - 1].matches.len() as int;
        let after = lemma_matches_painted(layers, text, flags, spans, before, n - 1, count);
        lemma_layer_done(
            layers,
            text,
            flags,
            rule_spans(rules, text, flags, n),
            after,
            n - 1,
        );
        after
    }
}

/// Whether these spans are exactly what the layers paint of a line: each span is a longest
/// run of characters that one match wants and that may be painted, in the colour of its
/// rule; they come in the order of the rules and of the matches; and no run is left out,
/// unless one that came before is in its way.
pub open spec fn painting_of(
    layers: Seq<Layer>,
    text: Seq<char>,
    flags: Seq<bool>,
    spans: Seq<Span>,
) -> bool {
    exists|sources: Seq<Source>| #[trigger]
        painted_up_to(layers, text, flags, spans, sources, layers.len() as int, 0, 0)
}

proof fn lemma_no_flag_without_a_cell(cells: Seq<TerminalCell>, i: int)
    requires
        0 <= i < paintable(cells).len(),
        paintable(cells)[i],
    ensures
        any_paintable(cells),
    decreases cells.len(),
{
    if cells.len() > 0 {
        let head = cells.drop_last();
        if i < paintable(head).len() {
            lemma_no_flag_without_a_cell(head, i);
            let k = choose|k: int| 0 <= k < head.len() && cell_paintable(&#[trigger] head[k]);
            assert(cells[k] == head[k]);
        } else {
            assert(cell_paintable(&cells[cells.len() - 1]));
        }
    }
}

/// Nothing that a rule matches is forgotten: every match of every rule that is on is
/// painted wherever it may be, the first of two rules that want the same column has it,
/// and nothing else is painted.
pub proof fn law_every_match_is_painted(rules: Seq<HighlightRule>, cells: Seq<TerminalCell>)
    requires
        cells_text(cells).len() <= usize::MAX / 255,
    ensures
        painting_of(
            layers_of(rules, cells_text(cells)),
            cells_text(cells),
            paintable(cells),
            line_spans(rules, cells),
        ),
{
    let text = cells_text(cells);
    let flags = paintable(cells);
    let layers = layers_of(rules, text);
    lemma_flags_len(cells);
    if text.len() == 0 || !any_paintable(cells) {
        let none = Seq::<Source>::empty();
        assert forall|s: Source| #[trigger]
            is_run(layers, text, flags, s) && turn_before(
                s,
                layers.len() as int,
                0,
                0,
            ) implies settled(text, Seq::empty(), none, s) by {
            assert(wants(layers, text, flags, s.layer, s.hit, s.from));
            lemma_no_flag_without_a_cell(cells, s.from);
        }
        assert(painted_up_to(
            layers,
            text,
            flags,
            Seq::empty(),
            none,
            layers.len() as int,
            0,
            0,
        ));
    } else {
        let sources = lemma_rules_painted(rules, text, flags, rules.len() as int);
        assert(layers.len() == rules.len());
        assert(painted_up_to(
            layers,
            text,
            flags,
            line_spans(rules, cells),
            sources,
            layers.len() as int,
            0,
            0,
        ));
    }
}

/// The same of one rule whose matches are given.
pub proof fn law_every_given_match_is_painted(
    cells: Seq<TerminalCell>,
    matches: Seq<(usize, usize)>,
    color: TermColor,
)
    requires
        cells_text(cells).len() <= usize::MAX / 255,
    ensures
        painting_of(
            seq![Layer { matches, color }],
            cells_text(cells),
            paintable(cells),
            with_matches(
                Seq::empty(),
                cells_text(cells),
                paintable(cells),
                matches,
                color,
                matches.len() as int,
            ),
        ),
{
    let text = cells_text(cells);
    let flags = paintable(cells);
    let layers = seq![Layer { matches, color }];
    lemma_nothing_before_the_first(layers, text, flags);
    let sources = lemma_matches_painted(
        layers,
        text,
        flags,
        Seq::empty(),
        Seq::empty(),
        0,
        matches.len() as int,
    );
    let spans = with_matches(
        Seq::empty(),
        text,
        flags,
        matches,
        color,
        matches.len() as int,
    );
    lemma_layer_done(layers, text, flags, spans, sources, 0);
}

proof fn lemma_run_start(
    layers: Seq<Layer>,
    text: Seq<char>,
    flags: Seq<bool>,
    layer: int,
    hit: int,
    i: int,
) -> (a: int)
    requires
        wants(layers, text, flags, layer, hit, i),
    ensures
        0 <= a <= i,
        forall|k: int| a <= k <= i ==> #[trigger] wants(layers, text, flags, layer, hit, k),
        !wants(layers, text, flags, layer, hit, a - 1),
    decreases i,
{
    if wants(layers, text, flags, layer, hit, i - 1) {
        lemma_run_start(layers, text, flags, layer, hit, i - 1)
    } else {
        i
    }
}

proof fn lemma_run_end(
    layers: Seq<Layer>,
    text: Seq<char>,
    flags: Seq<bool>,
    layer: int,
    hit: int,
    i: int,
) -> (b: int)
    requires
        wants(layers, text, flags, layer, hit, i),
    ensures
        i < b <= text.len(),
        forall|k: int| i <= k < b ==> #[trigger] wants(layers, text, flags, layer, hit, k),
        !wants(layers, text, flags, layer, hit, b),
    decreases text.len() - i,
{
    if wants(layers, text, flags, layer, hit, i + 1) {
        lemma_run_end(layers, text, flags, layer, hit, i + 1)
    } else {
        i + 1
    }
}

/// Whether a character is painted in this colour, or its run shares a column with a span
/// that came first.
pub open spec fn painted_or_taken(
    layers: Seq<Layer>,
    text: Seq<char>,
    flags: Seq<bool>,
    spans: Seq<Span>,
    layer: int,
    hit: int,
    i: int,
) -> bool {
    exists|k: int|
        0 <= k < spans.len() && {
            ||| (#[trigger] spans[k]).start <= column_at(text, i) < spans[k].end && spans[k].color
                == layers[layer].color
            ||| exists|s: Source| #[trigger]
                is_run(layers, text, flags, s) && s.layer == layer && s.hit == hit && s.from <= i
                    < s.to && meets(text, spans[k], s)
        }
}

/// Every character that a rule which is on matches, and that may be painted, is painted
/// in the colour of that rule, or its run shares a column with a span that came first.
pub proof fn law_every_matched_character_is_painted(
    rules: Seq<HighlightRule>,
    cells: Seq<TerminalCell>,
    rule: int,
    hit: int,
    i: int,
)
    requires
        cells_text(cells).len() <= usize::MAX / 255,
        0 <= rule < rules.len(),
        rules[rule].enabled,
        0 <= hit < regex_matches(rules[rule].pattern.text(), cells_text(cells)).len(),
        0 <= i < cells_text(cells).len(),
        regex_matches(rules[rule].pattern.text(), cells_text(cells))[hit].0 <= encode_utf8(
            cells_text(cells).take(i),
        ).len(),
        encode_utf8(cells_text(cells).take(i)).len() < regex_matches(
            rules[rule].pattern.text(),
            cells_text(cells),
        )[hit].1,
        paintable(cells)[i],
    ensures
        painted_or_taken(
            layers_of(rules, cells_text(cells)),
            cells_text(cells),
            paintable(cells),
            line_spans(rules, cells),
            rule,
            hit,
            i,
        ),
{
    let text = cells_text(cells);
    let flags = paintable(cells);
    let layers = layers_of(rules, text);
    let spans = line_spans(rules, cells);
    law_every_match_is_painted(rules, cells);
    let sources = choose|sources: Seq<Source>| #[trigger]
        painted_up_to(layers, text, flags, spans, sources, layers.len() as int, 0, 0);
    assert(wants(layers, text, flags, rule, hit, i));
    let a = lemma_run_start(layers, text, flags, rule, hit, i);
    let b = lemma_run_end(layers, text, flags, rule, hit, i);
    let s = Source { layer: rule, hit, from: a, to: b };
    assert forall|k: int| a <= k < b implies #[trigger] wants(
        layers,
        text,
        flags,
        rule,
        hit,
        k,
    ) by {
    }
    assert(is_run(layers, text, flags, s));
    assert(turn_before(s, layers.len() as int, 0, 0));
    assert(settled(text, spans, sources, s));
    let k = choose|k: int|
        0 <= k < sources.len() && {
            ||| #[trigger] sources[k] == s
            ||| turn_before(sources[k], s.layer, s.hit, s.from) && meets(text, spans[k], s)
        };
    if sources[k] == s {
        assert(paints(layers, text, spans[k], s));
        if a < i {
            lemma_columns_grow(text, a, i);
        }
        lemma_columns_grow(text, i, b);
    }
    assert(spans[k] == spans[k]);
}

/// The rules in use are those of the given ones that compile, in their order, each with
/// its own pattern, colour and switch.
pub proof fn law_every_rule_that_compiles_is_used(
    rules: Seq<HighlightRule>,
    specs: Seq<RuleSpec>,
)
    requires
        compiled(rules, specs, specs.len() as int),
    ensures
        ({
            let good = specs.filter(|spec_rule: RuleSpec| regex_compiles(spec_rule.pattern@));
            &&& rules.len() == good.len()
            &&& forall|k: int|
                0 <= k < rules.len() ==> {
                    &&& (#[trigger] rules[k]).pattern.text() == good[k].pattern@
                    &&& rules[k].color == TermColor::Indexed(good[k].ansi)
                    &&& rules[k].enabled == good[k].enabled
                }
        }),
{
    assert(specs.take(specs.len() as int) =~= specs);
    lemma_compiled_filter(rules, specs, specs.len() as int);
}

proof fn lemma_compiled_filter(rules: Seq<HighlightRule>, specs: Seq<RuleSpec>, n: int)
    requires
        0 <= n <= specs.len(),
        compiled(rules, specs, n),
    ensures
        ({
            let good = specs.take(n).filter(
                |spec_rule: RuleSpec| regex_compiles(spec_rule.pattern@),
            );
            &&& rules.len() == good.len()
            &&& forall|k: int|
                0 <= k < rules.len() ==> {
                    &&& (#[trigger] rules[k]).pattern.text() == good[k].pattern@
                    &&& rules[k].color == TermColor::Indexed(good[k].ansi)
                    &&& rules[k].enabled == good[k].enabled
                }
        }),
    decreases n,
{
    reveal(Seq::filter);
    let good = |spec_rule: RuleSpec| regex_compiles(spec_rule.pattern@);
    let head = specs.take(n);
    if n > 0 {
        assert(head.drop_last() =~= specs.take(n - 1));
        assert(head.last() == specs[n - 1]);
        if regex_compiles(specs[n - 1].pattern@) {
            let before = rules.drop_last();
            lemma_compiled_filter(before, specs, n - 1);
            let kept = specs.take(n - 1).filter(good);
            assert(head.filter(good) == kept.push(specs[n - 1]));
            assert forall|k: int| 0 <= k < rules.len() implies {
                &&& (#[trigger] rules[k]).pattern.text() == head.filter(good)[k].pattern@
                &&& rules[k].color == TermColor::Indexed(head.filter(good)[k].ansi)
                &&& rules[k].enabled == head.filter(good)[k].enabled
            } by {
                if k < before.len() {
                    assert(rules[k] == before[k]);
                }
            }
        } else {
            lemma_compiled_filter(rules, specs, n - 1);
        }
    }
}

/// The rules that ship mark errors in red, warnings in yellow, addresses in cyan and
/// links in blue, in this order, and all of them are on.
pub proof fn law_these_rules_ship(specs: Seq<RuleSpec>)
    requires
        shipped(specs),
    ensures
        specs.len() == 4,
        specs[0].id@ == "error"@ && specs[0].pattern@ == r"\b(?:ERROR|FATAL|CRITICAL)\b"@
            && specs[0].ansi == 1,
        specs[1].id@ == "warning"@ && specs[1].pattern@ == r"\b(?:WARN|WARNING)\b"@
            && specs[1].ansi == 3,
        specs[2].id@ == "ipv4"@ && specs[2].pattern@ == r"\b\d{1,3}(?:\.\d{1,3}){3}\b"@
            && specs[2].ansi == 6,
        specs[3].id@ == "url"@ && specs[3].pattern@ == r"\bhttps?://\S+"@ && specs[3].ansi == 4,
        specs[0].enabled && specs[1].enabled && specs[2].enabled && specs[3].enabled,
{
}

} // verus!

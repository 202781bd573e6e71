//! Characters and strings: the small operations everything else is built on.

use vstd::prelude::*;
use vstd::string::*;

verus! {

/// `String::push` appends one character to the end of the string.
pub assume_specification[ String::push ](s: &mut String, ch: char)
    ensures
        final(s)@ == old(s)@.push(ch),
;

/// What `char::is_alphanumeric` answers for a character.
pub uninterp spec fn alphanumeric(c: char) -> bool;

/// What `str::to_lowercase` returns for a string.
pub uninterp spec fn lowercase_of(s: Seq<char>) -> Seq<char>;

/// What `str::to_uppercase` returns for a string.
pub uninterp spec fn uppercase_of(s: Seq<char>) -> Seq<char>;

/// Calls `char::is_alphanumeric`. The answer is the named property of the
/// character.
#[verifier::external_body]
pub(crate) fn is_alphanumeric(c: char) -> (r: bool)
    ensures
        r == alphanumeric(c),
{
    c.is_alphanumeric()
}

/// Calls `str::to_lowercase`. The result is the named lowercase form.
#[verifier::external_body]
pub(crate) fn lowercase(s: &str) -> (r: String)
    ensures
        r@ == lowercase_of(s@),
{
    s.to_lowercase()
}

/// Calls `str::to_uppercase`. The result is the named uppercase form.
#[verifier::external_body]
pub(crate) fn uppercase(s: &str) -> (r: String)
    ensures
        r@ == uppercase_of(s@),
{
    s.to_uppercase()
}

/// The characters of each string of a list.
pub open spec fn texts(v: Seq<String>) -> Seq<Seq<char>> {
    Seq::new(v.len(), |i: int| v[i]@)
}

/// The characters of a string, one by one.
pub fn chars_of(s: &str) -> (r: Vec<char>)
    ensures
        r@ == s@,
{
    let mut out: Vec<char> = Vec::new();
    for c in it: s.chars()
        invariant
            it.seq() == s@,
            out@ == it.seq().take(it.index()),
    {
        out.push(c);
    }
    assert(s@.take(s@.len() as int) =~= s@);
    out
}

/// The string made of these characters.
pub fn string_of(chars: &[char]) -> (r: String)
    ensures
        r@ == chars@,
{
    let mut out: String = String::new();
    let mut i: usize = 0;
    while i < chars.len()
        invariant
            i <= chars.len(),
            out@ == chars@.take(i as int),
        decreases chars.len() - i,
    {
        out.push(chars[i]);
        i += 1;
        assert(chars@.take(i as int) =~= chars@.take(i - 1).push(chars@[i - 1]));
    }
    assert(chars@.take(i as int) =~= chars@);
    out
}

/// The string made of `chars[from..to]`.
pub fn string_between(chars: &[char], from: usize, to: usize) -> (r: String)
    requires
        from <= to <= chars.len(),
    ensures
        r@ == chars@.subrange(from as int, to as int),
{
    let mut out: String = String::new();
    let mut i: usize = from;
    while i < to
        invariant
            from <= i <= to <= chars.len(),
            out@ == chars@.subrange(from as int, i as int),
        decreases to - i,
    {
        out.push(chars[i]);
        i += 1;
        assert(chars@.subrange(from as int, i as int) =~= chars@.subrange(
            from as int,
            i - 1,
        ).push(chars@[i - 1]));
    }
    out
}

/// A copy of a string slice.
pub fn owned(s: &str) -> (r: String)
    ensures
        r@ == s@,
{
    s.to_owned()
}

/// Whether two strings hold the same characters.
pub fn same(a: &str, b: &str) -> (r: bool)
    ensures
        r == (a@ == b@),
{
    let mut left = a.chars();
    let mut right = b.chars();
    let ghost mut seen: int = 0;
    assert(a@.skip(0) =~= a@);
    assert(b@.skip(0) =~= b@);
    loop
        invariant
            0 <= seen <= a@.len(),
            seen <= b@.len(),
            vstd::std_specs::iter::IteratorSpec::remaining(&left) == a@.skip(seen),
            vstd::std_specs::iter::IteratorSpec::remaining(&right) == b@.skip(seen),
            a@.take(seen) == b@.take(seen),
        decreases a@.len() - seen,
    {
        match (left.next(), right.next()) {
            (Some(x), Some(y)) => {
                assert(x == a@[seen] && y == b@[seen]);
                if x != y {
                    return false;
                }
                assert(a@.take(seen + 1) =~= a@.take(seen).push(x));
                assert(b@.take(seen + 1) =~= b@.take(seen).push(y));
                assert(a@.skip(seen).drop_first() =~= a@.skip(seen + 1));
                assert(b@.skip(seen).drop_first() =~= b@.skip(seen + 1));
                proof {
                    seen = seen + 1;
                }
            },
            (None, None) => {
                assert(a@.take(seen) =~= a@);
                assert(b@.take(seen) =~= b@);
                return true;
            },
            _ => {
                return false;
            },
        }
    }
}

/// Whether a list holds a string with these characters.
pub fn holds(list: &Vec<String>, wanted: &str) -> (r: bool)
    ensures
        r == texts(list@).contains(wanted@),
{
    let mut i: usize = 0;
    while i < list.len()
        invariant
            i <= list.len(),
            forall|j: int| 0 <= j < i ==> list@[j]@ != wanted@,
        decreases list.len() - i,
    {
        if same(&list[i], wanted) {
            assert(texts(list@)[i as int] == wanted@);
            return true;
        }
        i += 1;
    }
    assert forall|j: int| 0 <= j < texts(list@).len() implies texts(list@)[j] != wanted@ by {
        assert(list@[j]@ != wanted@);
    }
    false
}

/// A copy of a list of strings.
pub fn copy_texts(list: &Vec<String>) -> (r: Vec<String>)
    ensures
        r@ == list@,
{
    let mut out: Vec<String> = Vec::new();
    let mut i: usize = 0;
    while i < list.len()
        invariant
            i <= list.len(),
            out@ == list@.take(i as int),
        decreases list.len() - i,
    {
        out.push(list[i].clone());
        i += 1;
        assert(list@.take(i as int) =~= list@.take(i - 1).push(list@[i - 1]));
    }
    assert(list@.take(i as int) =~= list@);
    out
}

// Trimming.

/// Whether a character is whitespace: the characters with the Unicode
/// White_Space property.
pub open spec fn white(c: char) -> bool {
    ||| '\u{9}' <= c <= '\u{d}'
    ||| c == ' '
    ||| c == '\u{85}'
    ||| c == '\u{a0}'
    ||| c == '\u{1680}'
    ||| '\u{2000}' <= c <= '\u{200a}'
    ||| c == '\u{2028}'
    ||| c == '\u{2029}'
    ||| c == '\u{202f}'
    ||| c == '\u{205f}'
    ||| c == '\u{3000}'
}

/// Whether a character is whitespace.
pub fn is_white(c: char) -> (r: bool)
    ensures
        r == white(c),
{
    ('\u{9}' <= c && '\u{d}' >= c) || c == ' ' || c == '\u{85}' || c == '\u{a0}' || c
        == '\u{1680}' || ('\u{2000}' <= c && '\u{200a}' >= c) || c == '\u{2028}' || c
        == '\u{2029}' || c == '\u{202f}' || c == '\u{205f}' || c == '\u{3000}'
}

/// The string without the whitespace it starts with.
pub open spec fn trim_front(s: Seq<char>) -> Seq<char>
    decreases s.len(),
{
    if s.len() > 0 && white(s[0]) {
        trim_front(s.drop_first())
    } else {
        s
    }
}

/// The string without the whitespace it ends with.
pub open spec fn trim_back(s: Seq<char>) -> Seq<char>
    decreases s.len(),
{
    if s.len() > 0 && white(s.last()) {
        trim_back(s.drop_last())
    } else {
        s
    }
}

/// The string without the whitespace at either end.
pub open spec fn trimmed(s: Seq<char>) -> Seq<char> {
    trim_back(trim_front(s))
}

/// Whether nothing is left of a string once it is trimmed.
pub open spec fn blank(s: Seq<char>) -> bool {
    trimmed(s).len() == 0
}

proof fn lemma_trim_front_at(s: Seq<char>, k: int)
    requires
        0 <= k <= s.len(),
        forall|i: int| 0 <= i < k ==> white(s[i]),
        k < s.len() ==> !white(s[k]),
    ensures
        trim_front(s) == s.subrange(k, s.len() as int),
    decreases k,
{
    if k > 0 {
        let t = s.drop_first();
        assert forall|i: int| 0 <= i < k - 1 implies white(t[i]) by {
            assert(t[i] == s[i + 1]);
        }
        lemma_trim_front_at(t, k - 1);
        assert(t.subrange(k - 1, t.len() as int) =~= s.subrange(k, s.len() as int));
    } else {
        assert(s.subrange(0, s.len() as int) =~= s);
    }
}

proof fn lemma_trim_back_at(s: Seq<char>, k: int)
    requires
        0 <= k <= s.len(),
        forall|i: int| k <= i < s.len() ==> white(s[i]),
        k > 0 ==> !white(s[k - 1]),
    ensures
        trim_back(s) == s.subrange(0, k),
    decreases s.len() - k,
{
    if k < s.len() {
        let t = s.drop_last();
        assert forall|i: int| k <= i < t.len() implies white(t[i]) by {
            assert(t[i] == s[i]);
        }
        lemma_trim_back_at(t, k);
        assert(t.subrange(0, k) =~= s.subrange(0, k));
    } else {
        assert(s.subrange(0, k) =~= s);
    }
}

/// Trimming leaves no whitespace at either end.
pub proof fn lemma_trimmed_ends(s: Seq<char>)
    ensures
        trimmed(s).len() > 0 ==> !white(trimmed(s)[0]) && !white(trimmed(s).last()),
{
    lemma_trim_front_start(s);
    lemma_trim_back_end(trim_front(s));
}

proof fn lemma_trim_front_start(s: Seq<char>)
    ensures
        trim_front(s).len() > 0 ==> !white(trim_front(s)[0]),
    decreases s.len(),
{
    if s.len() > 0 && white(s[0]) {
        lemma_trim_front_start(s.drop_first());
    }
}

proof fn lemma_trim_back_end(s: Seq<char>)
    ensures
        trim_back(s).len() > 0 ==> !white(trim_back(s).last()) && trim_back(s)[0] == s[0],
        trim_back(s).len() <= s.len(),
    decreases s.len(),
{
    if s.len() > 0 && white(s.last()) {
        lemma_trim_back_end(s.drop_last());
    }
}

/// Trimming what was trimmed already changes nothing.
pub proof fn lemma_trim_twice(s: Seq<char>)
    ensures
        trimmed(trimmed(s)) == trimmed(s),
{
    lemma_trimmed_ends(s);
}

/// The string without the whitespace at either end.
pub fn trim(s: &str) -> (r: String)
    ensures
        r@ == trimmed(s@),
{
    let chars: Vec<char> = chars_of(s);
    let mut from: usize = 0;
    while from < chars.len() && is_white(chars[from])
        invariant
            from <= chars.len(),
            forall|i: int| 0 <= i < from ==> white(chars@[i]),
        decreases chars.len() - from,
    {
        from += 1;
    }
    let mut to: usize = chars.len();
    while to > from && is_white(chars[to - 1])
        invariant
            from <= to <= chars.len(),
            forall|i: int| to <= i < chars.len() ==> white(chars@[i]),
        decreases to,
    {
        to -= 1;
    }
    proof {
        lemma_trim_front_at(s@, from as int);
        let f = trim_front(s@);
        let k = to - from;
        assert forall|i: int| k <= i < f.len() implies white(f[i]) by {
            assert(f[i] == s@[i + from]);
        }
        lemma_trim_back_at(f, k);
        assert(f.subrange(0, k) =~= s@.subrange(from as int, to as int));
    }
    string_between(&chars, from, to)
}

/// The string without the whitespace it ends with.
pub fn trim_end(s: &str) -> (r: String)
    ensures
        r@ == trim_back(s@),
{
    let chars: Vec<char> = chars_of(s);
    let mut to: usize = chars.len();
    while to > 0 && is_white(chars[to - 1])
        invariant
            to <= chars.len(),
            forall|i: int| to <= i < chars.len() ==> white(chars@[i]),
        decreases to,
    {
        to -= 1;
    }
    proof {
        lemma_trim_back_at(s@, to as int);
    }
    string_between(&chars, 0, to)
}

/// Whether a string is empty or all whitespace.
pub fn is_blank(s: &str) -> (r: bool)
    ensures
        r == blank(s@),
{
    let t: String = trim(s);
    t.as_str().is_empty()
}

// Searching.

/// Whether `needle` stands at position `at` of `hay`.
pub open spec fn stands_at(hay: Seq<char>, needle: Seq<char>, at: int) -> bool {
    0 <= at && at + needle.len() <= hay.len() && hay.subrange(at, at + needle.len()) == needle
}

/// Whether `needle` occurs somewhere in `hay`.
pub open spec fn occurs(hay: Seq<char>, needle: Seq<char>) -> bool {
    exists|at: int| #[trigger] stands_at(hay, needle, at)
}

/// Whether `needle` stands at position `at` of `hay`.
pub fn matches_at(hay: &[char], needle: &[char], at: usize) -> (r: bool)
    requires
        at <= hay.len(),
    ensures
        r == stands_at(hay@, needle@, at as int),
{
    if needle.len() > hay.len() - at {
        return false;
    }
    let mut i: usize = 0;
    while i < needle.len()
        invariant
            i <= needle.len(),
            at + needle.len() <= hay.len(),
            forall|j: int| 0 <= j < i ==> hay@[at + j] == needle@[j],
        decreases needle.len() - i,
    {
        if hay[at + i] != needle[i] {
            assert(hay@.subrange(at as int, at + needle@.len())[i as int] != needle@[i as int]);
            return false;
        }
        i += 1;
    }
    assert(hay@.subrange(at as int, at + needle@.len()) =~= needle@);
    true
}

/// Whether `needle` occurs somewhere in `hay`.
pub fn contains_text(hay: &str, needle: &str) -> (r: bool)
    ensures
        r == occurs(hay@, needle@),
{
    let h: Vec<char> = chars_of(hay);
    let n: Vec<char> = chars_of(needle);
    let mut at: usize = 0;
    while at < h.len()
        invariant
            at <= h.len(),
            h@ == hay@,
            n@ == needle@,
            forall|j: int| 0 <= j < at ==> !#[trigger] stands_at(h@, n@, j),
        decreases h.len() - at,
    {
        if matches_at(&h, &n, at) {
            return true;
        }
        at += 1;
    }
    matches_at(&h, &n, at)
}

/// Whether `s` starts with `prefix`.
pub fn starts_with(s: &str, prefix: &str) -> (r: bool)
    ensures
        r == stands_at(s@, prefix@, 0),
{
    let h: Vec<char> = chars_of(s);
    let n: Vec<char> = chars_of(prefix);
    matches_at(&h, &n, 0)
}

/// The position of the last occurrence of a character.
pub open spec fn last_of(s: Seq<char>, c: char) -> Option<int>
    decreases s.len(),
{
    if s.len() == 0 {
        None
    } else if s.last() == c {
        Some(s.len() - 1)
    } else {
        last_of(s.drop_last(), c)
    }
}

/// The position of the first occurrence of a character.
pub open spec fn first_of(s: Seq<char>, c: char) -> Option<int>
    decreases s.len(),
{
    if s.len() == 0 {
        None
    } else if s[0] == c {
        Some(0)
    } else {
        match first_of(s.drop_first(), c) {
            Some(k) => Some(k + 1),
            None => None,
        }
    }
}

/// The last occurrence, found by looking at every character after it.
pub proof fn lemma_last_of(s: Seq<char>, c: char, k: int)
    requires
        -1 <= k < s.len(),
        forall|i: int| k < i < s.len() ==> s[i] != c,
        k >= 0 ==> s[k] == c,
    ensures
        last_of(s, c) == if k >= 0 {
            Some(k)
        } else {
            None
        },
    decreases s.len(),
{
    if s.len() > 0 && k < s.len() - 1 {
        lemma_last_of(s.drop_last(), c, k);
    }
}

/// The first occurrence, found by looking at every character before it.
pub proof fn lemma_first_of(s: Seq<char>, c: char, k: int)
    requires
        0 <= k <= s.len(),
        forall|i: int| 0 <= i < k ==> s[i] != c,
        k < s.len() ==> s[k] == c,
    ensures
        first_of(s, c) == if k < s.len() {
            Some(k)
        } else {
            None
        },
    decreases s.len(),
{
    if s.len() > 0 && k > 0 {
        assert forall|i: int| 0 <= i < k - 1 implies s.drop_first()[i] != c by {
            assert(s[i + 1] != c);
        }
        lemma_first_of(s.drop_first(), c, k - 1);
    }
}

/// The position of the last occurrence of a character.
pub fn last_index_of(s: &[char], c: char) -> (r: Option<usize>)
    ensures
        match r {
            Some(k) => last_of(s@, c) == Some(k as int) && k < s@.len(),
            None => last_of(s@, c) is None,
        },
{
    let mut i: usize = s.len();
    while i > 0
        invariant
            i <= s.len(),
            forall|j: int| i <= j < s.len() ==> s@[j] != c,
        decreases i,
    {
        i -= 1;
        if s[i] == c {
            proof {
                lemma_last_of(s@, c, i as int);
            }
            return Some(i);
        }
    }
    proof {
        lemma_last_of(s@, c, -1);
    }
    None
}

/// The position of the first occurrence of a character.
pub fn first_index_of(s: &[char], c: char) -> (r: Option<usize>)
    ensures
        match r {
            Some(k) => first_of(s@, c) == Some(k as int) && k < s@.len(),
            None => first_of(s@, c) is None,
        },
{
    let mut i: usize = 0;
    while i < s.len()
        invariant
            i <= s.len(),
            forall|j: int| 0 <= j < i ==> s@[j] != c,
        decreases s.len() - i,
    {
        if s[i] == c {
            proof {
                lemma_first_of(s@, c, i as int);
            }
            return Some(i);
        }
        i += 1;
    }
    proof {
        lemma_first_of(s@, c, i as int);
    }
    None
}

// ASCII case.

/// The ASCII lower-case form of a character; any other character is itself.
pub open spec fn ascii_lower(c: char) -> char {
    if 'A' <= c <= 'Z' {
        ((c as u32 + 32) as u32) as char
    } else {
        c
    }
}

/// A string with its ASCII capitals lowered.
pub open spec fn ascii_lowered(s: Seq<char>) -> Seq<char> {
    Seq::new(s.len(), |i: int| ascii_lower(s[i]))
}

/// The ASCII lower-case form of a character.
pub fn to_ascii_lower(c: char) -> (r: char)
    ensures
        r == ascii_lower(c),
{
    if 'A' <= c && c <= 'Z' {
        ((c as u8) + 32) as char
    } else {
        c
    }
}

/// The characters of a string with its ASCII capitals lowered.
pub fn ascii_lowered_chars(s: &str) -> (r: Vec<char>)
    ensures
        r@ == ascii_lowered(s@),
{
    let chars: Vec<char> = chars_of(s);
    let mut out: Vec<char> = Vec::new();
    let mut i: usize = 0;
    while i < chars.len()
        invariant
            i <= chars.len(),
            out.len() == i,
            forall|j: int| 0 <= j < i ==> out@[j] == ascii_lower(chars@[j]),
        decreases chars.len() - i,
    {
        out.push(to_ascii_lower(chars[i]));
        i += 1;
    }
    assert(out@ =~= ascii_lowered(s@));
    out
}

// Joining and splitting.

/// The parts one after another with `sep` between neighbours.
pub open spec fn joined(parts: Seq<Seq<char>>, sep: Seq<char>) -> Seq<char>
    decreases parts.len(),
{
    if parts.len() == 0 {
        Seq::empty()
    } else if parts.len() == 1 {
        parts[0]
    } else {
        joined(parts.drop_last(), sep) + sep + parts.last()
    }
}

/// The parts one after another with `sep` between neighbours.
pub fn join(parts: &Vec<String>, sep: &str) -> (r: String)
    ensures
        r@ == joined(texts(parts@), sep@),
{
    let mut out: String = String::new();
    let mut i: usize = 0;
    while i < parts.len()
        invariant
            i <= parts.len(),
            out@ == joined(texts(parts@).take(i as int), sep@),
        decreases parts.len() - i,
    {
        let ghost before = texts(parts@).take(i as int);
        if i > 0 {
            out.append(sep);
        }
        out.append(parts[i].as_str());
        proof {
            let after = texts(parts@).take(i + 1);
            assert(after.drop_last() =~= before);
            assert(after.last() == parts@[i as int]@);
            if i == 0 {
                assert(out@ =~= parts@[0]@);
            }
        }
        i += 1;
    }
    assert(texts(parts@).take(i as int) =~= texts(parts@));
    out
}

/// The pieces of a string between characters for which `cut` holds.
pub open spec fn pieces(s: Seq<char>, cut: spec_fn(char) -> bool) -> Seq<Seq<char>>
    decreases s.len(),
{
    if s.len() == 0 {
        seq![Seq::<char>::empty()]
    } else {
        let before = pieces(s.drop_last(), cut);
        if cut(s.last()) {
            before.push(Seq::<char>::empty())
        } else {
            before.drop_last().push(before.last().push(s.last()))
        }
    }
}

/// Whether a character is one of these.
pub open spec fn one_of(set: Seq<char>) -> spec_fn(char) -> bool {
    |c: char| set.contains(c)
}

/// The pieces of a string between any of the characters in `set`.
pub fn split_any(s: &str, set: &[char]) -> (r: Vec<String>)
    ensures
        texts(r@) == pieces(s@, one_of(set@)),
{
    let chars: Vec<char> = chars_of(s);
    let mut out: Vec<String> = Vec::new();
    let mut piece: String = String::new();
    let mut i: usize = 0;
    let ghost cut = one_of(set@);
    assert(texts(out@).push(piece@) =~= pieces(s@.take(0), cut));
    while i < chars.len()
        invariant
            i <= chars.len(),
            chars@ == s@,
            cut == one_of(set@),
            texts(out@).push(piece@) == pieces(s@.take(i as int), cut),
        decreases chars.len() - i,
    {
        let c: char = chars[i];
        let ghost before = texts(out@).push(piece@);
        let ghost done = out@;
        let mut hit: bool = false;
        let mut k: usize = 0;
        while k < set.len()
            invariant
                k <= set.len(),
                hit == exists|j: int| 0 <= j < k && set@[j] == c,
            decreases set.len() - k,
        {
            if set[k] == c {
                hit = true;
            }
            k += 1;
        }
        assert(hit == set@.contains(c));
        assert(s@.take(i + 1).drop_last() =~= s@.take(i as int));
        assert(cut(c) == hit);
        if hit {
            out.push(piece);
            piece = String::new();
            assert(texts(out@) =~= before);
            assert(texts(out@).push(piece@) =~= pieces(s@.take(i + 1), cut));
        } else {
            piece.push(c);
            assert(before.drop_last() =~= texts(done));
            assert(texts(out@).push(piece@) =~= pieces(s@.take(i + 1), cut));
        }
        i += 1;
    }
    assert(s@.take(i as int) =~= s@);
    let ghost done = texts(out@);
    out.push(piece);
    assert(texts(out@) =~= done.push(piece@));
    out
}

/// A string with each occurrence of `from`, found from left to right, replaced
/// by `to`.
pub open spec fn replaced(s: Seq<char>, from: Seq<char>, to: Seq<char>) -> Seq<char>
    decreases s.len(),
{
    if s.len() == 0 || from.len() == 0 {
        s
    } else if stands_at(s, from, 0) {
        to + replaced(s.skip(from.len() as int), from, to)
    } else {
        seq![s[0]] + replaced(s.skip(1), from, to)
    }
}

/// A string with each occurrence of `from`, found from left to right, replaced
/// by `to`.
pub fn replace(s: &str, from: &str, to: &str) -> (r: String)
    requires
        from@.len() > 0,
    ensures
        r@ == replaced(s@, from@, to@),
{
    let chars: Vec<char> = chars_of(s);
    let needle: Vec<char> = chars_of(from);
    let mut out: String = String::new();
    let mut i: usize = 0;
    assert(chars@.skip(0) =~= chars@);
    while i < chars.len()
        invariant
            i <= chars.len(),
            needle@ == from@,
            from@.len() > 0,
            out@ + replaced(chars@.skip(i as int), from@, to@) == replaced(chars@, from@, to@),
        decreases chars.len() - i,
    {
        let ghost rest = chars@.skip(i as int);
        let ghost before = out@;
        assert(stands_at(chars@, from@, i as int) == stands_at(rest, from@, 0)) by {
            if i + from@.len() <= chars@.len() {
                assert(chars@.subrange(i as int, i + from@.len()) =~= rest.subrange(
                    0,
                    from@.len() as int,
                ));
            }
        }
        if matches_at(&chars, &needle, i) {
            out.append(to);
            i += needle.len();
            assert(rest.skip(from@.len() as int) =~= chars@.skip(i as int));
            assert(out@ + replaced(chars@.skip(i as int), from@, to@) =~= before + replaced(
                rest,
                from@,
                to@,
            ));
        } else {
            out.push(chars[i]);
            i += 1;
            assert(rest.skip(1) =~= chars@.skip(i as int));
            assert(out@ + replaced(chars@.skip(i as int), from@, to@) =~= before + replaced(
                rest,
                from@,
                to@,
            ));
        }
    }
    assert(out@ + chars@.skip(i as int) =~= out@);
    out
}

// Order.

/// Whether one string comes before another, character by character.
pub open spec fn precedes(a: Seq<char>, b: Seq<char>) -> bool
    decreases a.len(),
{
    if b.len() == 0 {
        false
    } else if a.len() == 0 {
        true
    } else if a[0] != b[0] {
        a[0] < b[0]
    } else {
        precedes(a.drop_first(), b.drop_first())
    }
}

proof fn lemma_precedes_at(a: Seq<char>, b: Seq<char>, k: int)
    requires
        0 <= k <= a.len(),
        k <= b.len(),
        forall|i: int| 0 <= i < k ==> a[i] == b[i],
        (k < a.len() && k < b.len()) ==> a[k] != b[k],
    ensures
        precedes(a, b) == (k < b.len() && (k == a.len() || a[k] < b[k])),
    decreases k,
{
    if k > 0 {
        assert forall|i: int| 0 <= i < k - 1 implies a.drop_first()[i] == b.drop_first()[i] by {
            assert(a[i + 1] == b[i + 1]);
        }
        lemma_precedes_at(a.drop_first(), b.drop_first(), k - 1);
    }
}

/// Whether the characters of one list come before those of another.
pub fn chars_precede(a: &Vec<char>, b: &Vec<char>) -> (r: bool)
    ensures
        r == precedes(a@, b@),
{
    let mut i: usize = 0;
    while i < a.len() && i < b.len() && a[i] == b[i]
        invariant
            i <= a.len(),
            i <= b.len(),
            forall|j: int| 0 <= j < i ==> a@[j] == b@[j],
        decreases a.len() - i,
    {
        i += 1;
    }
    proof {
        lemma_precedes_at(a@, b@, i as int);
    }
    i < b.len() && (i == a.len() || a[i] < b[i])
}

/// Whether one string comes before another, character by character.
pub fn comes_before(a: &str, b: &str) -> (r: bool)
    ensures
        r == precedes(a@, b@),
{
    chars_precede(&chars_of(a), &chars_of(b))
}

/// Of two strings that differ, exactly one comes before the other, and a string
/// never comes before itself.
pub proof fn lemma_precedes_total(a: Seq<char>, b: Seq<char>)
    ensures
        a == b ==> !precedes(a, b),
        a != b ==> precedes(a, b) != precedes(b, a),
    decreases a.len(),
{
    if a.len() > 0 && b.len() > 0 && a[0] == b[0] {
        lemma_precedes_total(a.drop_first(), b.drop_first());
        if a != b && a.drop_first() == b.drop_first() {
            assert(a =~= seq![a[0]] + a.drop_first());
            assert(b =~= seq![b[0]] + b.drop_first());
        }
    } else if a.len() == 0 && b.len() == 0 {
        assert(a =~= b);
    }
}

/// The order of strings is transitive.
pub proof fn lemma_precedes_transitive(a: Seq<char>, b: Seq<char>, c: Seq<char>)
    requires
        precedes(a, b),
        precedes(b, c),
    ensures
        precedes(a, c),
    decreases a.len(),
{
    if a.len() > 0 && b.len() > 0 && c.len() > 0 && a[0] == b[0] && b[0] == c[0] {
        lemma_precedes_transitive(a.drop_first(), b.drop_first(), c.drop_first());
    }
}

// Numbers.

/// The character of a decimal digit.
pub open spec fn digit(d: int) -> char {
    (48 + d) as char
}

/// A number in decimal, without leading zeroes.
pub open spec fn decimal(n: nat) -> Seq<char>
    decreases n,
{
    if n < 10 {
        seq![digit(n as int)]
    } else {
        decimal(n / 10).push(digit((n % 10) as int))
    }
}

/// `s` with as many `0` before it as make it `width` long.
pub open spec fn zero_padded(s: Seq<char>, width: nat) -> Seq<char>
    decreases width,
{
    if s.len() >= width {
        s
    } else {
        Seq::new((width - s.len()) as nat, |i: int| '0') + s
    }
}

/// The character of a decimal digit.
pub fn digit_char(d: u8) -> (r: char)
    requires
        d < 10,
    ensures
        r == digit(d as int),
{
    (48 + d) as char
}

/// A number in decimal, without leading zeroes.
pub fn decimal_of(n: u64) -> (r: String)
    ensures
        r@ == decimal(n as nat),
    decreases n,
{
    if n < 10 {
        let mut out: String = String::new();
        out.push(digit_char(n as u8));
        assert(out@ =~= seq![digit(n as int)]);
        out
    } else {
        let mut out: String = decimal_of(n / 10);
        out.push(digit_char((n % 10) as u8));
        out
    }
}

/// A number in decimal, padded with zeroes to at least `width` digits.
pub fn padded_decimal_of(n: u64, width: usize) -> (r: String)
    ensures
        r@ == zero_padded(decimal(n as nat), width as nat),
{
    let plain: String = decimal_of(n);
    let digits: Vec<char> = chars_of(plain.as_str());
    let mut out: String = String::new();
    let mut left: usize = digits.len();
    let mut done: usize = 0;
    while left < width
        invariant
            digits@ == decimal(n as nat),
            left == digits.len() + done,
            left <= width || done == 0,
            out@ == Seq::new(done as nat, |i: int| '0'),
        decreases width - left,
    {
        out.push('0');
        left += 1;
        done += 1;
        assert(out@ =~= Seq::new(done as nat, |i: int| '0'));
    }
    out.append(plain.as_str());
    assert(out@ =~= zero_padded(decimal(n as nat), width as nat));
    out
}

/// Whether a character is a decimal digit of ASCII.
pub open spec fn is_digit(c: char) -> bool {
    '0' <= c <= '9'
}

/// The number that a run of digits writes in decimal.
pub open spec fn digits_value(s: Seq<char>) -> nat
    decreases s.len(),
{
    if s.len() == 0 {
        0
    } else {
        (digits_value(s.drop_last()) * 10 + (s.last() as int - 48)) as nat
    }
}

/// Whether every character is a decimal digit and there is at least one.
pub open spec fn all_digits(s: Seq<char>) -> bool {
    s.len() > 0 && forall|i: int| 0 <= i < s.len() ==> is_digit(#[trigger] s[i])
}

/// A string without one leading plus sign.
pub open spec fn without_plus(s: Seq<char>) -> Seq<char> {
    if s.len() > 0 && s[0] == '+' {
        s.drop_first()
    } else {
        s
    }
}

/// The unsigned number up to `max` that a string writes: an optional plus sign
/// and then nothing but digits.
pub open spec fn unsigned_value(s: Seq<char>, max: nat) -> Option<nat> {
    let d = without_plus(s);
    if all_digits(d) && digits_value(d) <= max {
        Some(digits_value(d))
    } else {
        None
    }
}

proof fn lemma_digits_grow(s: Seq<char>, k: int)
    requires
        all_digits(s),
        0 <= k <= s.len(),
    ensures
        digits_value(s.take(k)) <= digits_value(s),
    decreases s.len() - k,
{
    if k < s.len() {
        lemma_digits_grow(s, k + 1);
        assert(s.take(k + 1).drop_last() =~= s.take(k));
        assert(is_digit(s[k]));
    } else {
        assert(s.take(k) =~= s);
    }
}

/// A number in decimal reads back as the number, and is nothing but digits.
pub proof fn lemma_decimal_reads_back(n: nat)
    ensures
        digits_value(decimal(n)) == n,
        all_digits(decimal(n)),
    decreases n,
{
    if n < 10 {
        let s = decimal(n);
        assert(s.drop_last() =~= Seq::empty());
        assert(digits_value(s.drop_last()) == 0);
    } else {
        let s = decimal(n);
        lemma_decimal_reads_back(n / 10);
        assert(s.drop_last() =~= decimal(n / 10));
        assert forall|i: int| 0 <= i < s.len() implies is_digit(#[trigger] s[i]) by {
            if i < s.len() - 1 {
                assert(s[i] == decimal(n / 10)[i]);
            }
        }
    }
}

/// The unsigned number up to `max` that a string writes.
pub fn parse_unsigned(s: &str, max: u64) -> (r: Option<u64>)
    ensures
        r is Some == unsigned_value(s@, max as nat) is Some,
        r matches Some(v) ==> unsigned_value(s@, max as nat) == Some(v as nat),
{
    let chars: Vec<char> = chars_of(s);
    let start: usize = if chars.len() > 0 && chars[0] == '+' { 1 } else { 0 };
    let ghost d = without_plus(s@);
    assert(d =~= chars@.subrange(start as int, chars@.len() as int));
    if start == chars.len() {
        return None;
    }
    let mut value: u64 = 0;
    let mut i: usize = start;
    while i < chars.len()
        invariant
            start <= i <= chars.len(),
            start < chars.len(),
            d == chars@.subrange(start as int, chars@.len() as int),
            d == without_plus(s@),
            forall|j: int| 0 <= j < i - start ==> is_digit(#[trigger] d[j]),
            value as nat == digits_value(d.take(i - start)),
            value <= max,
        decreases chars.len() - i,
    {
        let c: char = chars[i];
        assert(c == d[i - start]);
        if c < '0' || c > '9' {
            assert(!is_digit(d[i - start]));
            return None;
        }
        let step: u64 = (c as u8 - 48) as u64;
        proof {
            assert(d.take(i - start + 1).drop_last() =~= d.take(i - start));
            assert(digits_value(d.take(i - start + 1)) == value * 10 + step);
            if all_digits(d) {
                lemma_digits_grow(d, i - start + 1);
            }
        }
        if value > (u64::MAX - step) / 10 {
            assert(value * 10 + step > u64::MAX);
            return None;
        }
        let next: u64 = value * 10 + step;
        if next > max {
            return None;
        }
        value = next;
        i += 1;
    }
    assert(d.take(i - start) =~= d);
    Some(value)
}

// Lines.

/// A line without the carriage return that a line feed followed.
pub open spec fn without_return(s: Seq<char>) -> Seq<char> {
    if s.len() > 0 && s.last() == '\r' {
        s.drop_last()
    } else {
        s
    }
}

/// The lines of a text: what line feeds end, with or without a carriage return
/// before them, and what is left after the last, where anything is.
pub open spec fn text_lines(s: Seq<char>) -> Seq<Seq<char>>
    decreases s.len(),
{
    if s.len() == 0 {
        Seq::empty()
    } else {
        match first_of(s, '\n') {
            Some(at) => if 0 <= at < s.len() {
                seq![without_return(s.take(at))] + text_lines(s.skip(at + 1))
            } else {
                Seq::empty()
            },
            None => seq![s],
        }
    }
}

/// The lines of a text.
pub fn lines(s: &str) -> (r: Vec<String>)
    ensures
        texts(r@) == text_lines(s@),
{
    let chars: Vec<char> = chars_of(s);
    let count: usize = chars.len();
    let mut out: Vec<String> = Vec::new();
    let mut from: usize = 0;
    assert(chars@.skip(0) =~= s@);
    assert(texts(out@) + text_lines(chars@.skip(0)) =~= text_lines(s@));
    while from < count
        invariant
            from <= count,
            count == chars.len(),
            texts(out@) + text_lines(chars@.skip(from as int)) == text_lines(s@),
        decreases count - from,
    {
        let ghost rest = chars@.skip(from as int);
        let ghost before = texts(out@);
        let mut at: usize = from;
        while at < count && chars[at] != '\n'
            invariant
                from <= at <= count,
                count == chars.len(),
                forall|k: int| from <= k < at ==> chars@[k] != '\n',
            decreases count - at,
        {
            at += 1;
        }
        if at < count {
            proof {
                lemma_first_of(rest, '\n', at - from);
            }
            let end: usize = if at > from && chars[at - 1] == '\r' {
                at - 1
            } else {
                at
            };
            let line: String = string_between(chars.as_slice(), from, end);
            assert(line@ =~= without_return(rest.take(at - from)));
            out.push(line);
            assert(texts(out@) =~= before.push(line@));
            assert(rest.skip(at - from + 1) =~= chars@.skip(at + 1));
            assert(before + text_lines(rest) =~= texts(out@) + text_lines(chars@.skip(at + 1)));
            from = at + 1;
        } else {
            let line: String = string_between(chars.as_slice(), from, count);
            assert(line@ =~= rest);
            proof {
                lemma_first_of(rest, '\n', rest.len() as int);
            }
            out.push(line);
            assert(texts(out@) =~= before.push(line@));
            assert(chars@.skip(count as int) =~= Seq::empty());
            assert(before + text_lines(rest) =~= texts(out@) + text_lines(
                chars@.skip(count as int),
            ));
            from = count;
        }
    }
    assert(chars@.skip(from as int) =~= Seq::empty());
    assert(texts(out@) + text_lines(chars@.skip(from as int)) =~= texts(out@));
    out
}

// What holds of every text.

/// Whether two characters are the same but for ASCII case: they are equal, or one is a
/// capital from A to Z and the other stands 32 places after it.
pub open spec fn same_letter(a: char, b: char) -> bool {
    ||| a == b
    ||| 'A' <= a <= 'Z' && b as int == a as int + 32
    ||| 'A' <= b <= 'Z' && a as int == b as int + 32
}

/// Lowering takes the difference of ASCII case away, and no other.
pub proof fn law_lowering_forgets_case_alone(a: char, b: char)
    ensures
        ascii_lower(a) == ascii_lower(b) <==> same_letter(a, b),
        !('A' <= a <= 'Z') ==> ascii_lower(a) == a,
        'A' <= a <= 'Z' ==> ascii_lower(a) as int == a as int + 32,
{
}

/// Whether `query` can be read at a position of a text, without regard to ASCII case.
pub open spec fn reads_at(text: Seq<char>, query: Seq<char>, at: int) -> bool {
    &&& 0 <= at
    &&& at + query.len() <= text.len()
    &&& forall|j: int| 0 <= j < query.len() ==> same_letter(#[trigger] text[at + j], query[j])
}

/// A lowered text holds a lowered query exactly where the query can be read.
pub proof fn law_a_lowered_query_stands_where_it_reads(
    text: Seq<char>,
    query: Seq<char>,
    at: int,
)
    ensures
        stands_at(ascii_lowered(text), ascii_lowered(query), at) <==> reads_at(text, query, at),
{
    let hay = ascii_lowered(text);
    let needle = ascii_lowered(query);
    if 0 <= at && at + query.len() <= text.len() {
        let part = hay.subrange(at, at + needle.len());
        if reads_at(text, query, at) {
            assert forall|j: int| 0 <= j < needle.len() implies part[j] == needle[j] by {
                assert(same_letter(text[at + j], query[j]));
                law_lowering_forgets_case_alone(text[at + j], query[j]);
            }
            assert(part =~= needle);
        }
        if stands_at(hay, needle, at) {
            assert forall|j: int| 0 <= j < query.len() implies same_letter(
                #[trigger] text[at + j],
                query[j],
            ) by {
                assert(part[j] == needle[j]);
                law_lowering_forgets_case_alone(text[at + j], query[j]);
            }
        }
    }
}

/// A text stands at a position where its characters are those that follow the position.
pub proof fn law_a_text_stands_where_its_characters_do(hay: Seq<char>, needle: Seq<char>, at: int)
    ensures
        stands_at(hay, needle, at) <==> 0 <= at && at + needle.len() <= hay.len() && forall|
            j: int,
        |
            0 <= j < needle.len() ==> #[trigger] hay[at + j] == needle[j],
{
    if 0 <= at && at + needle.len() <= hay.len() {
        let part = hay.subrange(at, at + needle.len());
        if forall|j: int| 0 <= j < needle.len() ==> #[trigger] hay[at + j] == needle[j] {
            assert forall|j: int| 0 <= j < needle.len() implies part[j] == needle[j] by {
                assert(hay[at + j] == needle[j]);
            }
            assert(part =~= needle);
        }
        if part == needle {
            assert forall|j: int| 0 <= j < needle.len() implies #[trigger] hay[at + j]
                == needle[j] by {
                assert(part[j] == needle[j]);
            }
        }
    }
}

/// The blanks are the space, the tabs and line ends from U+0009 to U+000D, and the
/// blanks of other scripts.
pub proof fn law_these_are_the_blanks(c: char)
    ensures
        white(c) <==> {
            let n = c as u32;
            ||| 9 <= n <= 13
            ||| n == 32
            ||| n == 0x85 || n == 0xa0 || n == 0x1680
            ||| 0x2000 <= n <= 0x200a
            ||| n == 0x2028 || n == 0x2029 || n == 0x202f || n == 0x205f || n == 0x3000
        },
{
}

proof fn lemma_trim_back_middle(s: Seq<char>) -> (to: int)
    ensures
        0 <= to <= s.len(),
        trim_back(s) == s.take(to),
        forall|i: int| to <= i < s.len() ==> white(#[trigger] s[i]),
        to > 0 ==> !white(s[to - 1]),
    decreases s.len(),
{
    if s.len() > 0 && white(s.last()) {
        let to = lemma_trim_back_middle(s.drop_last());
        assert forall|i: int| to <= i < s.len() implies white(#[trigger] s[i]) by {
            if i < s.len() - 1 {
                assert(s.drop_last()[i] == s[i]);
            }
        }
        assert(s.drop_last().take(to) =~= s.take(to));
        to
    } else {
        assert(s.take(s.len() as int) =~= s);
        s.len() as int
    }
}

proof fn lemma_trim_front_middle(s: Seq<char>) -> (from: int)
    ensures
        0 <= from <= s.len(),
        trim_front(s) == s.skip(from),
        forall|i: int| 0 <= i < from ==> white(#[trigger] s[i]),
        from < s.len() ==> !white(s[from]),
    decreases s.len(),
{
    if s.len() > 0 && white(s[0]) {
        let rest = s.drop_first();
        let from = lemma_trim_front_middle(rest);
        assert forall|i: int| 0 <= i < from + 1 implies white(#[trigger] s[i]) by {
            if i > 0 {
                assert(rest[i - 1] == s[i]);
            }
        }
        if from < rest.len() {
            assert(rest[from] == s[from + 1]);
        }
        assert(rest.skip(from) =~= s.skip(from + 1));
        from + 1
    } else {
        assert(s.skip(0) =~= s);
        0
    }
}

/// What is cut off at the end of a text is blank, and what is left does not end in a
/// blank: it is the shortest part from the start that holds everything that is no blank.
pub proof fn law_trimming_the_end_cuts_the_blanks_alone(s: Seq<char>)
    ensures
        trim_back(s).len() <= s.len(),
        trim_back(s) == s.take(trim_back(s).len() as int),
        forall|i: int| trim_back(s).len() <= i < s.len() ==> white(#[trigger] s[i]),
        trim_back(s).len() > 0 ==> !white(trim_back(s).last()),
{
    let to = lemma_trim_back_middle(s);
    assert(s.take(to).len() == to);
}

/// Whether a part of a text is all of it but for the blanks around it.
pub open spec fn is_middle(s: Seq<char>, from: int, to: int) -> bool {
    &&& 0 <= from <= to <= s.len()
    &&& forall|i: int| 0 <= i < from ==> white(#[trigger] s[i])
    &&& forall|i: int| to <= i < s.len() ==> white(#[trigger] s[i])
    &&& from < to ==> !white(s[from]) && !white(s[to - 1])
}

/// What is cut off around a text is blank, and what is left neither starts nor ends in a
/// blank.
pub proof fn law_trimming_cuts_the_blanks_alone(s: Seq<char>)
    ensures
        exists|from: int, to: int| #[trigger]
            is_middle(s, from, to) && trimmed(s) == s.subrange(from, to),
        blank(s) <==> forall|i: int| 0 <= i < s.len() ==> white(#[trigger] s[i]),
{
    let from = lemma_trim_front_middle(s);
    let rest = s.skip(from);
    let kept = lemma_trim_back_middle(rest);
    let to = from + kept;
    assert(rest.take(kept) =~= s.subrange(from, to));
    assert forall|i: int| to <= i < s.len() implies white(#[trigger] s[i]) by {
        assert(rest[i - from] == s[i]);
    }
    if from < to {
        assert(rest[0] == s[from]);
        assert(rest[kept - 1] == s[to - 1]);
    }
    assert(is_middle(s, from, to));
}

/// Joining two lists one after the other is joining each, with the separator between.
pub proof fn law_joining_goes_list_by_list(
    a: Seq<Seq<char>>,
    b: Seq<Seq<char>>,
    sep: Seq<char>,
)
    requires
        a.len() > 0,
        b.len() > 0,
    ensures
        joined(a + b, sep) == joined(a, sep) + sep + joined(b, sep),
    decreases b.len(),
{
    let all = a + b;
    assert(all.last() == b.last());
    if b.len() == 1 {
        assert(all.drop_last() =~= a);
    } else {
        law_joining_goes_list_by_list(a, b.drop_last(), sep);
        assert(all.drop_last() =~= a + b.drop_last());
        assert(joined(all, sep) =~= joined(a, sep) + sep + joined(b, sep));
    }
}

/// Joining nothing gives nothing, and joining one text gives that text.
pub proof fn law_joining_one_text_is_that_text(s: Seq<char>, sep: Seq<char>)
    ensures
        joined(Seq::empty(), sep) == Seq::<char>::empty(),
        joined(seq![s], sep) == s,
{
}

/// A text without anything to cut at is one piece.
pub proof fn law_a_text_without_a_cut_is_one_piece(s: Seq<char>, cut: spec_fn(char) -> bool)
    requires
        forall|i: int| 0 <= i < s.len() ==> !cut(s[i]),
    ensures
        pieces(s, cut) == seq![s],
    decreases s.len(),
{
    if s.len() > 0 {
        let head = s.drop_last();
        assert forall|i: int| 0 <= i < head.len() implies !cut(head[i]) by {
            assert(head[i] == s[i]);
        }
        law_a_text_without_a_cut_is_one_piece(head, cut);
        assert(pieces(head, cut).last() == head);
        assert(head.push(s.last()) =~= s);
        assert(pieces(s, cut) =~= seq![s]);
    } else {
        assert(s =~= Seq::empty());
    }
}

proof fn lemma_some_piece(s: Seq<char>, cut: spec_fn(char) -> bool)
    ensures
        pieces(s, cut).len() > 0,
    decreases s.len(),
{
    if s.len() > 0 {
        lemma_some_piece(s.drop_last(), cut);
    }
}

/// The pieces of a text are those before a cut and then those after it: nothing but the
/// cut itself is lost.
pub proof fn law_pieces_go_cut_by_cut(
    a: Seq<char>,
    c: char,
    b: Seq<char>,
    cut: spec_fn(char) -> bool,
)
    requires
        cut(c),
    ensures
        pieces(a.push(c) + b, cut) == pieces(a, cut) + pieces(b, cut),
    decreases b.len(),
{
    let whole = a.push(c) + b;
    if b.len() == 0 {
        assert(whole =~= a.push(c));
        assert(whole.drop_last() =~= a);
        assert(pieces(whole, cut) =~= pieces(a, cut) + pieces(b, cut));
    } else {
        let head = b.drop_last();
        law_pieces_go_cut_by_cut(a, c, head, cut);
        lemma_some_piece(head, cut);
        assert(whole.drop_last() =~= a.push(c) + head);
        assert(whole.last() == b.last());
        assert(pieces(whole, cut) =~= pieces(a, cut) + pieces(b, cut));
    }
}

/// A text in which nothing is found to replace stays as it is.
pub proof fn law_replacing_what_is_not_there_changes_nothing(
    s: Seq<char>,
    from: Seq<char>,
    to: Seq<char>,
)
    requires
        forall|at: int| !#[trigger] stands_at(s, from, at),
    ensures
        replaced(s, from, to) == s,
    decreases s.len(),
{
    if s.len() > 0 && from.len() > 0 {
        assert(!stands_at(s, from, 0));
        let rest = s.skip(1);
        assert forall|at: int| !#[trigger] stands_at(rest, from, at) by {
            if stands_at(rest, from, at) {
                assert(rest.subrange(at, at + from.len()) =~= s.subrange(
                    at + 1,
                    at + 1 + from.len(),
                ));
                assert(stands_at(s, from, at + 1));
            }
        }
        law_replacing_what_is_not_there_changes_nothing(rest, from, to);
        assert(seq![s[0]] + rest =~= s);
    }
}

/// The first occurrence is replaced, what stands before it stays, and it goes on after it.
pub proof fn law_replacing_goes_from_left_to_right(
    s: Seq<char>,
    from: Seq<char>,
    to: Seq<char>,
    at: int,
)
    requires
        from.len() > 0,
        stands_at(s, from, at),
        forall|k: int| 0 <= k < at ==> !#[trigger] stands_at(s, from, k),
    ensures
        replaced(s, from, to) == s.take(at) + to + replaced(s.skip(at + from.len()), from, to),
    decreases at,
{
    if at == 0 {
        assert(s.take(0) + to =~= to);
    } else {
        assert(!stands_at(s, from, 0));
        let rest = s.skip(1);
        assert(rest.subrange(at - 1, at - 1 + from.len()) =~= s.subrange(at, at + from.len()));
        assert forall|k: int| 0 <= k < at - 1 implies !#[trigger] stands_at(rest, from, k) by {
            if stands_at(rest, from, k) {
                assert(rest.subrange(k, k + from.len()) =~= s.subrange(k + 1, k + 1 + from.len()));
                assert(stands_at(s, from, k + 1));
            }
        }
        law_replacing_goes_from_left_to_right(rest, from, to, at - 1);
        assert(rest.skip(at - 1 + from.len()) =~= s.skip(at + from.len()));
        assert(seq![s[0]] + (rest.take(at - 1) + to + replaced(
            s.skip(at + from.len()),
            from,
            to,
        )) =~= s.take(at) + to + replaced(s.skip(at + from.len()), from, to));
    }
}

/// Whether two texts agree up to a position, where the first ends or has the lesser
/// character.
pub open spec fn differs_at(a: Seq<char>, b: Seq<char>, k: int) -> bool {
    &&& 0 <= k <= a.len()
    &&& k < b.len()
    &&& forall|i: int| 0 <= i < k ==> #[trigger] a[i] == b[i]
    &&& k == a.len() || a[k] < b[k]
}

/// One text comes before another exactly where it is the start of the other, or has the
/// lesser character where the two first differ.
pub proof fn law_texts_are_ordered_as_in_a_dictionary(a: Seq<char>, b: Seq<char>)
    ensures
        precedes(a, b) <==> exists|k: int| #[trigger] differs_at(a, b, k),
    decreases a.len(),
{
    if precedes(a, b) {
        let k = lemma_first_difference(a, b);
        assert(differs_at(a, b, k));
    }
    if exists|k: int| #[trigger] differs_at(a, b, k) {
        let k = choose|k: int| #[trigger] differs_at(a, b, k);
        lemma_precedes_at(a, b, k);
    }
}

proof fn lemma_first_difference(a: Seq<char>, b: Seq<char>) -> (k: int)
    requires
        precedes(a, b),
    ensures
        differs_at(a, b, k),
    decreases a.len(),
{
    if a.len() == 0 || a[0] != b[0] {
        0
    } else {
        let (x, y) = (a.drop_first(), b.drop_first());
        let k = lemma_first_difference(x, y);
        assert forall|i: int| 0 <= i < k + 1 implies #[trigger] a[i] == b[i] by {
            if i > 0 {
                assert(x[i - 1] == y[i - 1]);
            }
        }
        if k < x.len() {
            assert(x[k] == a[k + 1] && y[k] == b[k + 1]);
        }
        k + 1
    }
}

/// A number below ten is written as one digit, and ten times a number and some more as
/// the number followed by the digit of the rest.
pub proof fn law_numbers_are_written_in_tens(n: nat, d: nat)
    requires
        d < 10,
    ensures
        decimal(d).len() == 1,
        decimal(d)[0] as int == '0' as int + d,
        n > 0 ==> decimal(10 * n + d) == decimal(n) + decimal(d),
{
    let all = 10 * n + d;
    assert(all / 10 == n && all % 10 == d);
    if n > 0 {
        assert(decimal(all) =~= decimal(n) + decimal(d));
    }
}

/// Digits are read from the left: one more digit is ten times what was read and the
/// value of the digit.
pub proof fn law_digits_are_read_in_tens(s: Seq<char>, c: char)
    requires
        '0' <= c <= '9',
    ensures
        digits_value(Seq::empty()) == 0,
        digits_value(s.push(c)) == 10 * digits_value(s) + (c as int - '0' as int),
{
    assert(s.push(c).drop_last() =~= s);
}

/// A number is read exactly from a run of ASCII digits, with or without one plus sign
/// before it, that is not more than may be.
pub proof fn law_a_number_is_digits_and_nothing_else(s: Seq<char>, max: nat)
    ensures
        s.len() == 0 ==> unsigned_value(s, max) is None,
        unsigned_value(s, max) is Some ==> unsigned_value(s, max)->0 <= max,
        (exists|i: int| 0 < i < s.len() && !('0' <= #[trigger] s[i] <= '9')) ==> unsigned_value(
            s,
            max,
        ) is None,
        s.len() > 0 && (forall|i: int| 0 <= i < s.len() ==> '0' <= #[trigger] s[i] <= '9')
            ==> unsigned_value(s, max) == if digits_value(s) <= max {
            Some(digits_value(s))
        } else {
            None
        },
        s.len() > 0 && s[0] == '+' && s.skip(1).len() > 0 && s.skip(1)[0] != '+'
            ==> unsigned_value(s, max) == unsigned_value(s.skip(1), max),
        s.len() > 0 && s[0] != '+' && !('0' <= s[0] <= '9') ==> unsigned_value(s, max) is None,
{
    let d = without_plus(s);
    if exists|i: int| 0 < i < s.len() && !('0' <= #[trigger] s[i] <= '9') {
        let i = choose|i: int| 0 < i < s.len() && !('0' <= #[trigger] s[i] <= '9');
        if s[0] == '+' {
            assert(d[i - 1] == s[i]);
            assert(!is_digit(d[i - 1]));
        } else {
            assert(!is_digit(d[i]));
        }
    }
    if s.len() > 0 && (forall|i: int| 0 <= i < s.len() ==> '0' <= #[trigger] s[i] <= '9') {
        assert(s[0] != '+');
        assert forall|i: int| 0 <= i < s.len() implies is_digit(#[trigger] s[i]) by {}
    }
    if s.len() > 0 && s[0] == '+' {
        assert(s.skip(1) =~= s.drop_first());
    }
    if s.len() > 0 && s[0] != '+' && !('0' <= s[0] <= '9') {
        assert(!is_digit(d[0]));
    }
}

/// A text is filled up with zeroes at the front and with nothing else.
pub proof fn law_padding_adds_zeroes_in_front(s: Seq<char>, width: nat)
    ensures
        zero_padded(s, width).len() == if s.len() < width {
            width
        } else {
            s.len()
        },
        zero_padded(s, width).skip(zero_padded(s, width).len() - s.len()) == s,
        forall|i: int|
            0 <= i < zero_padded(s, width).len() - s.len() ==> #[trigger] zero_padded(s, width)[i]
                == '0',
{
    let all = zero_padded(s, width);
    assert(all.skip(all.len() - s.len()) =~= s);
}

/// The lines of a text are what stands before its first line feed, without a carriage
/// return at its end, and then the lines of the rest. A text without a line feed is one
/// line, and an empty one has none.
pub proof fn law_lines_end_at_line_feeds(a: Seq<char>, b: Seq<char>)
    requires
        forall|i: int| 0 <= i < a.len() ==> a[i] != '\n',
    ensures
        text_lines(a.push('\n') + b) == seq![
            if a.len() > 0 && a.last() == '\r' {
                a.drop_last()
            } else {
                a
            },
        ] + text_lines(b),
        a.len() > 0 ==> text_lines(a) == seq![a],
        text_lines(Seq::empty()) == Seq::<Seq<char>>::empty(),
{
    let whole = a.push('\n') + b;
    assert forall|i: int| 0 <= i < a.len() implies whole[i] != '\n' by {
        assert(whole[i] == a[i]);
    }
    assert(whole[a.len() as int] == '\n');
    lemma_first_of(whole, '\n', a.len() as int);
    assert(whole.take(a.len() as int) =~= a);
    assert(whole.skip(a.len() as int + 1) =~= b);
    lemma_first_of(a, '\n', a.len() as int);
}

} // verus!

//! Updates: whether a release is newer, which installer fits, and which links may be
//! opened.

use vstd::prelude::*;
use vstd::string::*;

use crate::text::{
    ascii_lowered, ascii_lowered_chars, chars_of, contains_text, decimal, is_digit, joined,
    law_a_lowered_query_stands_where_it_reads, law_a_text_without_a_cut_is_one_piece,
    law_pieces_go_cut_by_cut, lemma_decimal_reads_back, matches_at, occurs, one_of, owned,
    parse_unsigned, pieces, reads_at, same, split_any, stands_at, string_between, texts,
    unsigned_value,
};

verus! {

// Versions.

/// A version without the letter that a tag puts before it.
pub open spec fn without_v(version: Seq<char>) -> Seq<char> {
    if version.len() > 0 && version[0] == 'v' {
        version.skip(1)
    } else {
        version
    }
}

/// The parts of a version, between its dots.
pub open spec fn version_parts(version: Seq<char>) -> Seq<Seq<char>> {
    pieces(without_v(version), one_of(seq!['.']))
}

/// A part of a version as a number: nothing where there is no such part, or where it is
/// no number.
pub open spec fn version_part(version: Seq<char>, i: int) -> nat {
    if 0 <= i < version_parts(version).len() {
        match unsigned_value(version_parts(version)[i], u64::MAX as nat) {
            Some(n) => n,
            None => 0,
        }
    } else {
        0
    }
}

/// Whether the first `n` parts of two versions are the same.
pub open spec fn agree(a: Seq<char>, b: Seq<char>, n: int) -> bool {
    forall|i: int| 0 <= i < n ==> #[trigger] version_part(a, i) == version_part(b, i)
}

/// Whether one version is newer than another: greater in the first part in which they
/// differ.
pub open spec fn is_newer(a: Seq<char>, b: Seq<char>) -> bool {
    exists|i: int| 0 <= i && agree(a, b, i) && #[trigger] version_part(a, i) > version_part(b, i)
}

fn parts_of(version: &str) -> (r: Vec<String>)
    ensures
        texts(r@) == version_parts(version@),
{
    let chars: Vec<char> = chars_of(version);
    let count: usize = chars.len();
    let from: usize = if count > 0 && chars[0] == 'v' {
        1
    } else {
        0
    };
    let plain: String = string_between(chars.as_slice(), from, count);
    assert(plain@ =~= without_v(version@));
    let dots: Vec<char> = vec!['.'];
    assert(dots@ =~= seq!['.']);
    split_any(plain.as_str(), dots.as_slice())
}

fn part_value(parts: &Vec<String>, i: usize) -> (r: u64)
    ensures
        r == if i < parts@.len() {
            match unsigned_value(texts(parts@)[i as int], u64::MAX as nat) {
                Some(n) => n,
                None => 0,
            }
        } else {
            0
        },
{
    if i < parts.len() {
        match parse_unsigned(parts[i].as_str(), u64::MAX) {
            Some(n) => n,
            None => 0,
        }
    } else {
        0
    }
}

/// Whether one version is newer than another. A part that is no number counts as
/// nothing, and so does one that is missing.
pub fn version_is_newer(candidate: &str, current: &str) -> (r: bool)
    ensures
        r == is_newer(candidate@, current@),
{
    let a: Vec<String> = parts_of(candidate);
    let b: Vec<String> = parts_of(current);
    assert(texts(a@).len() == a@.len());
    assert(texts(b@).len() == b@.len());
    let count: usize = if a.len() > b.len() {
        a.len()
    } else {
        b.len()
    };
    let mut i: usize = 0;
    while i < count
        invariant
            i <= count,
            count >= a.len(),
            count >= b.len(),
            texts(a@) == version_parts(candidate@),
            texts(b@) == version_parts(current@),
            texts(a@).len() == a@.len(),
            texts(b@).len() == b@.len(),
            agree(candidate@, current@, i as int),
        decreases count - i,
    {
        let x: u64 = part_value(&a, i);
        let y: u64 = part_value(&b, i);
        assert(version_part(candidate@, i as int) == x);
        assert(version_part(current@, i as int) == y);
        if x > y {
            return true;
        }
        if x < y {
            assert forall|k: int|
                0 <= k && agree(candidate@, current@, k) implies #[trigger] version_part(
                candidate@,
                k,
            ) <= version_part(current@, k) by {
                if k > i {
                    assert(version_part(candidate@, i as int) == version_part(current@, i as int));
                } else if k < i {
                    assert(version_part(candidate@, k) == version_part(current@, k));
                }
            }
            return false;
        }
        i += 1;
    }
    assert forall|k: int| 0 <= k implies #[trigger] version_part(candidate@, k) == version_part(
        current@,
        k,
    ) by {
        if k >= count {
            assert(version_part(candidate@, k) == 0);
        }
    }
    false
}

/// Of two versions at most one is newer, and none is newer than itself.
pub proof fn law_newer_is_one_way(a: Seq<char>, b: Seq<char>)
    ensures
        !(is_newer(a, b) && is_newer(b, a)),
        !is_newer(a, a),
{
    if is_newer(a, b) && is_newer(b, a) {
        let i = choose|i: int|
            0 <= i && agree(a, b, i) && #[trigger] version_part(a, i) > version_part(b, i);
        let j = choose|j: int|
            0 <= j && agree(b, a, j) && #[trigger] version_part(b, j) > version_part(a, j);
        if i < j {
            assert(version_part(b, i) == version_part(a, i));
        } else if j < i {
            assert(version_part(a, j) == version_part(b, j));
        }
    }
}

/// What is newer than something newer is newer still.
pub proof fn law_newer_goes_on(a: Seq<char>, b: Seq<char>, c: Seq<char>)
    requires
        is_newer(a, b),
        is_newer(b, c),
    ensures
        is_newer(a, c),
{
    let i = choose|i: int|
        0 <= i && agree(a, b, i) && #[trigger] version_part(a, i) > version_part(b, i);
    let j = choose|j: int|
        0 <= j && agree(b, c, j) && #[trigger] version_part(b, j) > version_part(c, j);
    let k = if i < j {
        i
    } else {
        j
    };
    assert(agree(a, c, k)) by {
        assert forall|m: int| 0 <= m < k implies #[trigger] version_part(a, m) == version_part(
            c,
            m,
        ) by {
            assert(version_part(a, m) == version_part(b, m));
            assert(version_part(b, m) == version_part(c, m));
        }
    }
    if i < j {
        assert(version_part(b, i) == version_part(c, i));
    } else if j < i {
        assert(version_part(a, j) == version_part(b, j));
    }
    assert(version_part(a, k) > version_part(c, k));
}

// Installers.

/// A file of a release.
#[derive(Debug, Clone)]
pub struct Asset {
    pub name: String,
    pub url: String,
}

/// Whether a text ends in another.
pub open spec fn ends_in(s: Seq<char>, end: Seq<char>) -> bool {
    s.len() >= end.len() && stands_at(s, end, s.len() - end.len())
}

/// Whether a file is an installer.
pub open spec fn is_installer(name: Seq<char>) -> bool {
    ends_in(ascii_lowered(name), ".exe"@)
}

/// Whether an installer is for ARM.
pub open spec fn is_arm(name: Seq<char>) -> bool {
    occurs(ascii_lowered(name), "arm64"@)
}

/// The first installer that is for ARM, or that is not, from the `i`th file on.
pub open spec fn installer_from(assets: Seq<Asset>, arm: bool, i: int) -> Option<int>
    decreases assets.len() - i,
{
    if i < 0 || i >= assets.len() {
        None
    } else if is_installer(assets[i].name@) && is_arm(assets[i].name@) == arm {
        Some(i)
    } else {
        installer_from(assets, arm, i + 1)
    }
}

/// The installer for a machine: its own kind; and on ARM, where there is none, the other
/// kind, which runs there too.
pub open spec fn installer_for(assets: Seq<Asset>, arch: Seq<char>) -> Option<int> {
    if arch == "aarch64"@ {
        match installer_from(assets, true, 0) {
            Some(i) => Some(i),
            None => installer_from(assets, false, 0),
        }
    } else {
        installer_from(assets, false, 0)
    }
}

fn name_is_installer(name: &str) -> (r: bool)
    ensures
        r == is_installer(name@),
{
    let chars: Vec<char> = ascii_lowered_chars(name);
    let end: Vec<char> = chars_of(".exe");
    if chars.len() < end.len() {
        return false;
    }
    matches_at(chars.as_slice(), end.as_slice(), chars.len() - end.len())
}

fn name_is_arm(name: &str) -> (r: bool)
    ensures
        r == is_arm(name@),
{
    let chars: Vec<char> = ascii_lowered_chars(name);
    let plain: String = crate::text::string_of(chars.as_slice());
    contains_text(plain.as_str(), "arm64")
}

fn find_installer(assets: &Vec<Asset>, arm: bool) -> (r: Option<usize>)
    ensures
        match r {
            Some(i) => i < assets.len() && installer_from(assets@, arm, 0) == Some(i as int),
            None => installer_from(assets@, arm, 0) is None,
        },
{
    let mut i: usize = 0;
    while i < assets.len()
        invariant
            i <= assets.len(),
            installer_from(assets@, arm, 0) == installer_from(assets@, arm, i as int),
        decreases assets.len() - i,
    {
        if name_is_installer(assets[i].name.as_str()) && name_is_arm(assets[i].name.as_str())
            == arm {
            return Some(i);
        }
        i += 1;
    }
    None
}

/// The address and the name of the installer for a machine; none where a release has
/// none that runs there.
pub fn pick_installer_asset(assets: &Vec<Asset>, arch: &str) -> (r: Option<(String, String)>)
    ensures
        r is Some == installer_for(assets@, arch@) is Some,
        r matches Some((url, name)) ==> {
            let chosen = assets@[installer_for(assets@, arch@)->0];
            url@ == chosen.url@ && name@ == chosen.name@
        },
{
    let mut found: Option<usize> = None;
    if same(arch, "aarch64") {
        found = find_installer(assets, true);
    }
    if found.is_none() {
        found = find_installer(assets, false);
    }
    match found {
        Some(i) => Some((owned(assets[i].url.as_str()), owned(assets[i].name.as_str()))),
        None => None,
    }
}

proof fn lemma_installer_from(assets: Seq<Asset>, arm: bool, i: int)
    requires
        0 <= i,
    ensures
        installer_from(assets, arm, i) matches Some(k) ==> i <= k < assets.len() && is_installer(
            assets[k].name@,
        ) && is_arm(assets[k].name@) == arm,
    decreases assets.len() - i,
{
    if i < assets.len() && !(is_installer(assets[i].name@) && is_arm(assets[i].name@) == arm) {
        lemma_installer_from(assets, arm, i + 1);
    }
}

/// A machine is only ever offered an installer that runs on it: an ARM one only on ARM.
pub proof fn law_an_installer_runs_where_it_is_offered(assets: Seq<Asset>, arch: Seq<char>)
    requires
        installer_for(assets, arch) is Some,
    ensures
        ({
            let k = installer_for(assets, arch)->0;
            &&& 0 <= k < assets.len()
            &&& is_installer(assets[k].name@)
            &&& is_arm(assets[k].name@) ==> arch == "aarch64"@
        }),
{
    lemma_installer_from(assets, true, 0);
    lemma_installer_from(assets, false, 0);
}

// Links.

/// Whether a character can be seen and is ASCII.
pub open spec fn printable(c: char) -> bool {
    '!' <= c && c <= '~'
}

/// Whether a link may be opened: it leads to the web, and nothing in it can hide where.
pub open spec fn openable(url: Seq<char>) -> bool {
    &&& forall|i: int| 0 <= i < url.len() ==> printable(#[trigger] url[i])
    &&& stands_at(ascii_lowered(url), "http://"@, 0) || stands_at(
        ascii_lowered(url),
        "https://"@,
        0,
    )
}

/// Whether a link may be opened. One that a server printed could name a program, smuggle
/// an argument, or hide its target behind characters that are not seen.
pub fn is_openable_http_url(url: &str) -> (r: bool)
    ensures
        r == openable(url@),
{
    let chars: Vec<char> = chars_of(url);
    let mut i: usize = 0;
    while i < chars.len()
        invariant
            i <= chars.len(),
            chars@ == url@,
            forall|j: int| 0 <= j < i ==> printable(#[trigger] url@[j]),
        decreases chars.len() - i,
    {
        let c: char = chars[i];
        if !('!' <= c && c <= '~') {
            assert(!printable(url@[i as int]));
            return false;
        }
        i += 1;
    }
    let lowered: Vec<char> = ascii_lowered_chars(url);
    let plain: Vec<char> = chars_of("http://");
    let secure: Vec<char> = chars_of("https://");
    matches_at(lowered.as_slice(), plain.as_slice(), 0) || matches_at(
        lowered.as_slice(),
        secure.as_slice(),
        0,
    )
}

/// A link that may be opened holds no blank and no line break.
pub proof fn law_an_openable_link_is_one_word(url: Seq<char>, i: int)
    requires
        openable(url),
        0 <= i < url.len(),
    ensures
        url[i] != ' ',
        url[i] != '\n',
        url[i] != '\t',
        url[i] != '\r',
{
    assert(printable(url[i]));
}

// What the versions, the installers and the links mean.

/// A version of these numbers, as it is written.
pub open spec fn written_version(numbers: Seq<nat>) -> Seq<char> {
    joined(Seq::new(numbers.len(), |i: int| decimal(numbers[i])), seq!['.'])
}

/// A number of a version: nothing where it has none there.
pub open spec fn number_at(numbers: Seq<nat>, i: int) -> nat {
    if 0 <= i < numbers.len() {
        numbers[i]
    } else {
        0
    }
}

/// Whether numbers are those of a newer version from a place on: they agree before it, and
/// have the greater number there.
pub open spec fn greater_from(a: Seq<nat>, b: Seq<nat>, i: int) -> bool {
    &&& 0 <= i
    &&& number_at(a, i) > number_at(b, i)
    &&& forall|k: int| 0 <= k < i ==> #[trigger] number_at(a, k) == number_at(b, k)
}

proof fn lemma_no_dot_in_a_number(n: nat)
    ensures
        forall|i: int| 0 <= i < decimal(n).len() ==> !one_of(seq!['.'])(decimal(n)[i]),
        decimal(n).len() > 0,
        decimal(n)[0] != 'v',
        decimal(n)[0] != '+',
{
    lemma_decimal_reads_back(n);
    assert forall|i: int| 0 <= i < decimal(n).len() implies !one_of(seq!['.'])(
        decimal(n)[i],
    ) by {
        assert(is_digit(decimal(n)[i]));
    }
    assert(is_digit(decimal(n)[0]));
}

proof fn lemma_version_pieces(numbers: Seq<nat>)
    requires
        numbers.len() > 0,
    ensures
        pieces(written_version(numbers), one_of(seq!['.'])) == Seq::new(
            numbers.len(),
            |i: int| decimal(numbers[i]),
        ),
        written_version(numbers).len() > 0,
        written_version(numbers)[0] != 'v',
    decreases numbers.len(),
{
    let cut = one_of(seq!['.']);
    let parts = Seq::new(numbers.len(), |i: int| decimal(numbers[i]));
    let last = decimal(numbers.last());
    assert(seq!['.'][0] == '.');
    assert(cut('.'));
    lemma_no_dot_in_a_number(numbers.last());
    law_a_text_without_a_cut_is_one_piece(last, cut);
    if numbers.len() == 1 {
        assert(parts =~= seq![last]);
    } else {
        let head = numbers.drop_last();
        lemma_version_pieces(head);
        assert(parts.drop_last() =~= Seq::new(head.len(), |i: int| decimal(head[i])));
        let front = written_version(head);
        assert(written_version(numbers) =~= front.push('.') + last);
        law_pieces_go_cut_by_cut(front, '.', last, cut);
        assert(parts =~= parts.drop_last() + seq![last]);
    }
}

proof fn lemma_written_parts(numbers: Seq<nat>, tag: bool, i: int)
    requires
        numbers.len() > 0,
        forall|k: int| 0 <= k < numbers.len() ==> numbers[k] <= u64::MAX,
    ensures
        version_part(
            if tag {
                seq!['v'] + written_version(numbers)
            } else {
                written_version(numbers)
            },
            i,
        ) == number_at(numbers, i),
{
    let plain = written_version(numbers);
    let version = if tag {
        seq!['v'] + plain
    } else {
        plain
    };
    lemma_version_pieces(numbers);
    assert((seq!['v'] + plain).skip(1) =~= plain);
    assert(without_v(version) == plain);
    if 0 <= i < numbers.len() {
        let n = numbers[i];
        lemma_decimal_reads_back(n);
        lemma_no_dot_in_a_number(n);
        assert(version_parts(version)[i] == decimal(n));
    }
}

/// Versions are compared number by number from the left, and a number that is missing
/// counts as nothing; the letter before a tag makes no difference.
pub proof fn law_versions_are_compared_number_by_number(
    a: Seq<nat>,
    b: Seq<nat>,
    tag_a: bool,
    tag_b: bool,
)
    requires
        a.len() > 0,
        b.len() > 0,
        forall|k: int| 0 <= k < a.len() ==> a[k] <= u64::MAX,
        forall|k: int| 0 <= k < b.len() ==> b[k] <= u64::MAX,
    ensures
        is_newer(
            if tag_a {
                seq!['v'] + written_version(a)
            } else {
                written_version(a)
            },
            if tag_b {
                seq!['v'] + written_version(b)
            } else {
                written_version(b)
            },
        ) <==> exists|i: int| #[trigger] greater_from(a, b, i),
{
    let x = if tag_a {
        seq!['v'] + written_version(a)
    } else {
        written_version(a)
    };
    let y = if tag_b {
        seq!['v'] + written_version(b)
    } else {
        written_version(b)
    };
    assert forall|i: int| #[trigger] version_part(x, i) == number_at(a, i) by {
        lemma_written_parts(a, tag_a, i);
    }
    assert forall|i: int| #[trigger] version_part(y, i) == number_at(b, i) by {
        lemma_written_parts(b, tag_b, i);
    }
    if is_newer(x, y) {
        let i = choose|i: int|
            0 <= i && agree(x, y, i) && #[trigger] version_part(x, i) > version_part(y, i);
        assert forall|k: int| 0 <= k < i implies #[trigger] number_at(a, k) == number_at(
            b,
            k,
        ) by {
            assert(version_part(x, k) == version_part(y, k));
        }
        assert(greater_from(a, b, i));
    }
    if exists|i: int| #[trigger] greater_from(a, b, i) {
        let i = choose|i: int| #[trigger] greater_from(a, b, i);
        assert forall|k: int| 0 <= k < i implies #[trigger] version_part(x, k) == version_part(
            y,
            k,
        ) by {
            assert(number_at(a, k) == number_at(b, k));
        }
        assert(version_part(x, i) > version_part(y, i));
    }
}

/// A file is an installer where its name ends in `.exe`, and for ARM where its name holds
/// `arm64`, in whatever case either is written.
pub proof fn law_an_installer_is_told_by_its_name(name: Seq<char>)
    ensures
        is_installer(name) <==> reads_at(name, ".exe"@, name.len() - 4),
        is_arm(name) <==> exists|at: int| #[trigger] reads_at(name, "arm64"@, at),
{
    reveal_strlit(".exe");
    reveal_strlit("arm64");
    assert(ascii_lowered(".exe"@) =~= ".exe"@);
    assert(ascii_lowered("arm64"@) =~= "arm64"@);
    law_a_lowered_query_stands_where_it_reads(name, ".exe"@, name.len() - 4);
    if is_arm(name) {
        let at = choose|at: int| #[trigger] stands_at(ascii_lowered(name), "arm64"@, at);
        law_a_lowered_query_stands_where_it_reads(name, "arm64"@, at);
        assert(reads_at(name, "arm64"@, at));
    }
    if exists|at: int| #[trigger] reads_at(name, "arm64"@, at) {
        let at = choose|at: int| #[trigger] reads_at(name, "arm64"@, at);
        law_a_lowered_query_stands_where_it_reads(name, "arm64"@, at);
        assert(stands_at(ascii_lowered(name), "arm64"@, at));
    }
}

/// Whether a file is an installer of this kind.
pub open spec fn installs(asset: Asset, arm: bool) -> bool {
    is_installer(asset.name@) && is_arm(asset.name@) == arm
}

proof fn lemma_first_installer(assets: Seq<Asset>, arm: bool, i: int)
    requires
        0 <= i <= assets.len(),
    ensures
        match installer_from(assets, arm, i) {
            Some(k) => {
                &&& i <= k < assets.len()
                &&& installs(assets[k], arm)
                &&& forall|j: int| i <= j < k ==> !installs(#[trigger] assets[j], arm)
            },
            None => forall|j: int| i <= j < assets.len() ==> !installs(#[trigger] assets[j], arm),
        },
    decreases assets.len() - i,
{
    if i < assets.len() && !installs(assets[i], arm) {
        lemma_first_installer(assets, arm, i + 1);
    }
}

/// A machine gets the first installer of its own kind; on ARM the first of the other kind
/// where there is none of its own; and none exactly where there is none that runs on it.
pub proof fn law_the_first_installer_that_fits_is_picked(assets: Seq<Asset>, arch: Seq<char>)
    ensures
        ({
            let own = arch == "aarch64"@;
            let has_own = exists|j: int| 0 <= j < assets.len() && installs(#[trigger] assets[j], own);
            let has_other = exists|j: int|
                0 <= j < assets.len() && installs(#[trigger] assets[j], false);
            match installer_for(assets, arch) {
                Some(k) => {
                    let kind = own && has_own;
                    &&& 0 <= k < assets.len()
                    &&& installs(assets[k], kind)
                    &&& forall|j: int| 0 <= j < k ==> !installs(#[trigger] assets[j], kind)
                },
                None => !has_own && !has_other,
            }
        }),
{
    lemma_first_installer(assets, true, 0);
    lemma_first_installer(assets, false, 0);
}

/// A link is opened exactly where it starts with `http://` or `https://`, in whatever case,
/// and holds nothing but the visible characters of ASCII.
pub proof fn law_only_plain_web_links_are_opened(url: Seq<char>)
    ensures
        openable(url) <==> (reads_at(url, "http://"@, 0) || reads_at(url, "https://"@, 0)) && forall|
            i: int,
        |
            0 <= i < url.len() ==> 0x21 <= #[trigger] url[i] as u32 && url[i] as u32 <= 0x7e,
{
    reveal_strlit("http://");
    reveal_strlit("https://");
    assert(ascii_lowered("http://"@) =~= "http://"@);
    assert(ascii_lowered("https://"@) =~= "https://"@);
    law_a_lowered_query_stands_where_it_reads(url, "http://"@, 0);
    law_a_lowered_query_stands_where_it_reads(url, "https://"@, 0);
    if openable(url) {
        assert forall|i: int| 0 <= i < url.len() implies 0x21 <= #[trigger] url[i] as u32
            && url[i] as u32 <= 0x7e by {
            assert(printable(url[i]));
        }
    }
    if forall|i: int|
        0 <= i < url.len() ==> 0x21 <= #[trigger] url[i] as u32 && url[i] as u32 <= 0x7e {
        assert forall|i: int| 0 <= i < url.len() implies printable(#[trigger] url[i]) by {
            lemma_visible(url[i]);
        }
    }
}

proof fn lemma_visible(c: char)
    ensures
        printable(c) <==> 0x21 <= c as u32 && c as u32 <= 0x7e,
{
}

} // verus!

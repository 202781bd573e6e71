//! Jump hosts: the chain of machines a connection is routed through, and the
//! text a user edits it as.

use vstd::prelude::*;
use vstd::string::*;

use crate::profile::JumpHop;
use crate::text::{
    chars_of, decimal, decimal_of, is_digit, join, joined, last_index_of, last_of,
    law_a_text_without_a_cut_is_one_piece, law_pieces_go_cut_by_cut, lemma_decimal_reads_back, lemma_last_of, lemma_trimmed_ends, one_of, parse_unsigned, pieces,
    split_any, string_between, texts, trim, trim_front, trimmed, unsigned_value, white,
    without_plus,
};

verus! {

/// A jump host: who, where, and at which port.
pub ghost struct Hop {
    pub user: Seq<char>,
    pub host: Seq<char>,
    pub port: nat,
}

impl View for JumpHop {
    type V = Hop;

    open spec fn view(&self) -> Hop {
        Hop { user: self.user@, host: self.host@, port: self.port as nat }
    }
}

/// The hops of a chain.
pub open spec fn hops(jumps: Seq<JumpHop>) -> Seq<Hop> {
    Seq::new(jumps.len(), |i: int| jumps[i]@)
}

/// A hop as it is written: `user@host:port`, without `user@` where there is no
/// user.
pub open spec fn hop_text(hop: Hop) -> Seq<char> {
    if hop.user.len() == 0 {
        hop.host + seq![':'] + decimal(hop.port)
    } else {
        hop.user + seq!['@'] + hop.host + seq![':'] + decimal(hop.port)
    }
}

/// The host and the port in `host:port`, or the usual port where none is given.
pub open spec fn host_and_port(s: Seq<char>) -> Option<(Seq<char>, nat)> {
    match last_of(s, ':') {
        None => Some((s, 22)),
        Some(k) => match unsigned_value(s.skip(k + 1), 65535) {
            Some(port) => if port > 0 {
                Some((s.take(k), port))
            } else {
                None
            },
            None => None,
        },
    }
}

/// The hop that a text writes: an optional user, a host, and an optional port.
/// A user or a host that is empty is no hop.
pub open spec fn hop_value(s: Seq<char>) -> Option<Hop> {
    let (user, rest) = match last_of(s, '@') {
        Some(k) => (s.take(k), s.skip(k + 1)),
        None => (Seq::empty(), s),
    };
    if last_of(s, '@') is Some && user.len() == 0 {
        None
    } else {
        match host_and_port(rest) {
            Some((host, port)) => if host.len() > 0 {
                Some(Hop { user, host, port })
            } else {
                None
            },
            None => None,
        }
    }
}

impl JumpHop {
    /// The hop as it is written.
    pub fn to_spec(&self) -> (r: String)
        ensures
            r@ == hop_text(self@),
    {
        let mut out: String = String::new();
        if !self.user.as_str().is_empty() {
            out.append(self.user.as_str());
            out.push('@');
        }
        out.append(self.host.as_str());
        out.push(':');
        let port: String = decimal_of(self.port as u64);
        out.append(port.as_str());
        assert(out@ =~= hop_text(self@));
        out
    }

    /// The hop that a text writes.
    pub fn parse(token: &str) -> (r: Option<JumpHop>)
        ensures
            match r {
                Some(hop) => hop_value(token@) == Some(hop@),
                None => hop_value(token@) is None,
            },
    {
        let chars: Vec<char> = chars_of(token);
        let count: usize = chars.len();
        let start: usize = match last_index_of(&chars, '@') {
            Some(k) => {
                if k == 0 {
                    assert(token@.take(0).len() == 0);
                    return None;
                }
                k + 1
            },
            None => 0,
        };
        let ghost rest = match last_of(token@, '@') {
            Some(k) => token@.skip(k + 1),
            None => token@,
        };
        let user: String = if start > 0 {
            string_between(&chars, 0, start - 1)
        } else {
            String::new()
        };
        assert(start > 0 ==> user@ =~= token@.take(start - 1));
        assert(start == 0 ==> user@ =~= Seq::empty());
        assert(rest =~= chars@.subrange(start as int, chars@.len() as int));
        let text: String = string_between(&chars, start, count);
        let tail: Vec<char> = chars_of(text.as_str());
        let (host, port): (String, u16) = match last_index_of(&tail, ':') {
            None => (text, 22),
            Some(k) => {
                let digits: String = string_between(&tail, k + 1, tail.len());
                assert(digits@ =~= rest.skip(k + 1));
                match parse_unsigned(digits.as_str(), 65535) {
                    Some(port) => {
                        if port == 0 {
                            return None;
                        }
                        let host: String = string_between(&tail, 0, k);
                        assert(host@ =~= rest.take(k as int));
                        (host, port as u16)
                    },
                    None => {
                        return None;
                    },
                }
            },
        };
        if host.as_str().is_empty() {
            return None;
        }
        Some(JumpHop { user, host, port })
    }
}

/// A chain as it is written: its hops with commas between them.
pub open spec fn chain_text(chain: Seq<Hop>) -> Seq<char> {
    joined(Seq::new(chain.len(), |i: int| hop_text(chain[i])), seq![',', ' '])
}

/// A chain as it is written.
pub fn jumps_to_spec(jumps: &Vec<JumpHop>) -> (r: String)
    ensures
        r@ == chain_text(hops(jumps@)),
{
    let mut parts: Vec<String> = Vec::new();
    let mut i: usize = 0;
    while i < jumps.len()
        invariant
            i <= jumps.len(),
            parts.len() == i,
            forall|j: int| 0 <= j < i ==> (#[trigger] parts@[j])@ == hop_text(jumps@[j]@),
        decreases jumps.len() - i,
    {
        parts.push(jumps[i].to_spec());
        i += 1;
    }
    proof {
        let chain = hops(jumps@);
        assert(texts(parts@) =~= Seq::new(chain.len(), |k: int| hop_text(chain[k])));
        reveal_strlit(", ");
        assert(", "@ =~= seq![',', ' ']);
    }
    join(&parts, ", ")
}

/// What separates hops.
pub open spec fn separators() -> Seq<char> {
    seq![',', '\n', ';']
}

/// What parts of an edited chain make: the hops, blank parts aside, or the
/// first part that is no hop.
pub open spec fn parsed_parts(parts: Seq<Seq<char>>) -> Result<Seq<Hop>, Seq<char>>
    decreases parts.len(),
{
    if parts.len() == 0 {
        Ok(Seq::empty())
    } else {
        match parsed_parts(parts.drop_last()) {
            Err(bad) => Err(bad),
            Ok(before) => {
                let part = trimmed(parts.last());
                if part.len() == 0 {
                    Ok(before)
                } else {
                    match hop_value(part) {
                        Some(hop) => Ok(before.push(hop)),
                        None => Err(part),
                    }
                }
            },
        }
    }
}

/// What an edited chain makes.
pub open spec fn parsed_chain(spec: Seq<char>) -> Result<Seq<Hop>, Seq<char>> {
    parsed_parts(pieces(spec, one_of(separators())))
}

/// What the user is told of a part that is no hop.
pub open spec fn bad_hop(part: Seq<char>) -> Seq<char> {
    "跳板机格式无效：“"@ + part + "”（应为 user@host:port，端口 1-65535）"@
}

/// The chain that a user wrote: hops between commas, semicolons or line feeds,
/// blank ones aside. The first part that is no hop is reported, since dropping
/// it would silently bypass a machine the connection was meant to go through.
pub fn parse_jumps_checked(spec: &str) -> (r: Result<Vec<JumpHop>, String>)
    ensures
        match r {
            Ok(jumps) => parsed_chain(spec@) == Ok::<Seq<Hop>, Seq<char>>(hops(jumps@)),
            Err(message) => exists|bad: Seq<char>|
                parsed_chain(spec@) == Err::<Seq<Hop>, Seq<char>>(bad) && message@
                    == #[trigger] bad_hop(bad),
        },
{
    let set: [char; 3] = [',', '\n', ';'];
    assert(set@ =~= separators());
    let parts: Vec<String> = split_any(spec, &set);
    let ghost all = texts(parts@);
    let mut out: Vec<JumpHop> = Vec::new();
    let mut i: usize = 0;
    assert(hops(out@) =~= Seq::empty());
    while i < parts.len()
        invariant
            i <= parts.len(),
            all == texts(parts@),
            all == pieces(spec@, one_of(separators())),
            parsed_parts(all.take(i as int)) == Ok::<Seq<Hop>, Seq<char>>(hops(out@)),
        decreases parts.len() - i,
    {
        let part: String = trim(parts[i].as_str());
        let ghost head = all.take(i + 1);
        let ghost before = hops(out@);
        assert(head.drop_last() =~= all.take(i as int));
        assert(head.last() == parts@[i as int]@);
        if !part.as_str().is_empty() {
            match JumpHop::parse(part.as_str()) {
                Some(hop) => {
                    out.push(hop);
                    assert(hops(out@) =~= before.push(hop@));
                },
                None => {
                    proof {
                        lemma_error_stays(all, i + 1, part@);
                        assert(all.take(all.len() as int) =~= all);
                    }
                    let mut message: String = "跳板机格式无效：“".to_owned();
                    message.append(part.as_str());
                    message.append("”（应为 user@host:port，端口 1-65535）");
                    assert(message@ == bad_hop(part@));
                    return Err(message);
                },
            }
        }
        i += 1;
    }
    assert(all.take(i as int) =~= all);
    Ok(out)
}

/// Once a part is bad, it stays the one that is reported.
proof fn lemma_error_stays(parts: Seq<Seq<char>>, k: int, bad: Seq<char>)
    requires
        0 <= k <= parts.len(),
        parsed_parts(parts.take(k)) == Err::<Seq<Hop>, Seq<char>>(bad),
    ensures
        parsed_parts(parts) == Err::<Seq<Hop>, Seq<char>>(bad),
    decreases parts.len(),
{
    if k < parts.len() {
        assert(parts.drop_last().take(k) =~= parts.take(k));
        lemma_error_stays(parts.drop_last(), k, bad);
    } else {
        assert(parts.take(k) =~= parts);
    }
}

// What is written reads back.

/// Whether a text has none of the characters that have a meaning in a chain,
/// and no whitespace.
pub open spec fn plain_text(s: Seq<char>) -> bool {
    forall|i: int| #![trigger s[i]]
        0 <= i < s.len() ==> s[i] != '@' && s[i] != ':' && s[i] != ',' && s[i] != ';' && !white(
            s[i],
        )
}

/// Whether a hop is one that can stand in a chain: its own text reads back, has no
/// blanks around it, and holds nothing that separates hops.
pub open spec fn writable(hop: Hop) -> bool {
    &&& hop_value(hop_text(hop)) == Some(hop)
    &&& trimmed(hop_text(hop)) == hop_text(hop)
    &&& forall|i: int|
        0 <= i < hop_text(hop).len() ==> !separators().contains(#[trigger] hop_text(hop)[i])
}

/// A hop with a plain user or none, a plain host and a port can stand in a chain.
pub proof fn law_a_plain_hop_can_be_written(hop: Hop)
    requires
        plain_text(hop.user),
        plain_text(hop.host),
        hop.host.len() > 0,
        0 < hop.port <= 65535,
    ensures
        writable(hop),
{
    let digits = decimal(hop.port);
    let s = hop_text(hop);
    lemma_decimal_reads_back(hop.port);
    let rest = hop.host + seq![':'] + digits;
    // The port: the digits after the last colon.
    assert forall|i: int| hop.host.len() < i < rest.len() implies rest[i] != ':' by {
        assert(is_digit(digits[i - hop.host.len() - 1]));
    }
    assert(rest[hop.host.len() as int] == ':');
    lemma_last_of(rest, ':', hop.host.len() as int);
    assert(rest.skip(hop.host.len() as int + 1) =~= digits);
    assert(rest.take(hop.host.len() as int) =~= hop.host);
    assert(is_digit(digits[0]));
    assert(without_plus(digits) =~= digits);
    assert(host_and_port(rest) == Some((hop.host, hop.port)));
    assert forall|i: int| 0 <= i < rest.len() implies rest[i] != '@' && !white(rest[i]) && rest[i]
        != ',' && rest[i] != ';' && rest[i] != '\n' by {
        if i < hop.host.len() {
            assert(rest[i] == hop.host[i]);
        } else if i > hop.host.len() {
            assert(is_digit(digits[i - hop.host.len() - 1]));
        }
    }
    // The user: what stands before the last at sign.
    if hop.user.len() == 0 {
        assert(s =~= rest);
        lemma_last_of(s, '@', -1);
        assert(hop.user =~= Seq::empty());
    } else {
        let k = hop.user.len() as int;
        assert(s =~= hop.user + seq!['@'] + rest);
        assert forall|i: int| k < i < s.len() implies s[i] != '@' by {
            assert(s[i] == rest[i - k - 1]);
        }
        assert(s[k] == '@');
        lemma_last_of(s, '@', k);
        assert(s.take(k) =~= hop.user);
        assert(s.skip(k + 1) =~= rest);
    }
    assert forall|i: int| 0 <= i < s.len() implies !white(#[trigger] s[i]) && !separators().contains(
        s[i],
    ) by {
        let k = s.len() - rest.len();
        if i >= k {
            assert(s[i] == rest[i - k]);
        } else if i < hop.user.len() {
            assert(s[i] == hop.user[i]);
        }
    }
    assert(!white(s[0]));
    assert(!white(s[s.len() - 1]));
}

proof fn lemma_pieces_after_cut(a: Seq<char>, c: char, b: Seq<char>, cut: spec_fn(char) -> bool)
    requires
        cut(c),
        forall|i: int| 0 <= i < b.len() ==> !cut(#[trigger] b[i]),
    ensures
        pieces(a + seq![c] + b, cut) == pieces(a, cut).push(b),
    decreases b.len(),
{
    let s = a + seq![c] + b;
    if b.len() == 0 {
        assert(s.drop_last() =~= a);
        assert(b =~= Seq::empty());
    } else {
        let front = b.drop_last();
        assert(s.drop_last() =~= a + seq![c] + front);
        assert(s.last() == b.last());
        assert(!cut(b[b.len() - 1]));
        assert forall|i: int| 0 <= i < front.len() implies !cut(#[trigger] front[i]) by {
            assert(front[i] == b[i]);
        }
        lemma_pieces_after_cut(a, c, front, cut);
        let before = pieces(a, cut).push(front);
        assert(before.drop_last() =~= pieces(a, cut));
        assert(front.push(b.last()) =~= b);
    }
}

proof fn lemma_pieces_uncut(b: Seq<char>, cut: spec_fn(char) -> bool)
    requires
        forall|i: int| 0 <= i < b.len() ==> !cut(#[trigger] b[i]),
    ensures
        pieces(b, cut) == seq![b],
    decreases b.len(),
{
    if b.len() == 0 {
        assert(b =~= Seq::empty());
    } else {
        let front = b.drop_last();
        assert(!cut(b[b.len() - 1]));
        assert forall|i: int| 0 <= i < front.len() implies !cut(#[trigger] front[i]) by {
            assert(front[i] == b[i]);
        }
        lemma_pieces_uncut(front, cut);
        assert(front.push(b.last()) =~= b);
        assert(pieces(b, cut) =~= seq![b]);
    }
}

proof fn lemma_trim_of_spaced(part: Seq<char>)
    requires
        trimmed(part) == part,
    ensures
        trimmed(seq![' '] + part) == part,
{
    let spaced = seq![' '] + part;
    assert(spaced.drop_first() =~= part);
    assert(spaced[0] == ' ');
    assert(trim_front(spaced) == trim_front(part));
}

/// A written chain has no whitespace at either end.
pub proof fn lemma_chain_ends(chain: Seq<Hop>)
    requires
        forall|i: int| 0 <= i < chain.len() ==> writable(#[trigger] chain[i]),
    ensures
        trimmed(chain_text(chain)) == chain_text(chain),
        chain.len() > 0 ==> chain_text(chain).len() > 0 && !white(chain_text(chain)[0]) && !white(
            chain_text(chain).last(),
        ),
    decreases chain.len(),
{
    let parts = Seq::new(chain.len(), |i: int| hop_text(chain[i]));
    if chain.len() == 0 {
        assert(chain_text(chain) =~= Seq::empty());
    } else {
        let last = chain.last();
        let text = hop_text(last);
        assert(writable(chain[chain.len() - 1]));
        assert(text.len() > 0);
        lemma_trimmed_ends(text);
        if chain.len() == 1 {
            assert(chain_text(chain) == text);
        } else {
            let front = chain.drop_last();
            lemma_chain_ends(front);
            assert(parts.drop_last() =~= Seq::new(front.len(), |i: int| hop_text(front[i])));
            let whole = chain_text(chain);
            assert(whole =~= chain_text(front) + seq![',', ' '] + text);
            assert(whole[0] == chain_text(front)[0]);
            assert(whole.last() == text.last());
        }
    }
}

/// A chain that is written out and read again is the same chain: nothing a user
/// does not touch is lost by editing.
pub proof fn law_a_written_chain_reads_back(chain: Seq<Hop>)
    requires
        forall|i: int| 0 <= i < chain.len() ==> writable(#[trigger] chain[i]),
    ensures
        parsed_chain(chain_text(chain)) == Ok::<Seq<Hop>, Seq<char>>(chain),
    decreases chain.len(),
{
    let cut = one_of(separators());
    let parts = Seq::new(chain.len(), |i: int| hop_text(chain[i]));
    let sep = seq![',', ' '];
    assert(separators()[0] == ',');
    assert(cut(','));
    assert(!cut(' ')) by {
        assert(!separators().contains(' '));
    }
    if chain.len() == 0 {
        assert(chain_text(chain) =~= Seq::empty());
        assert(pieces(chain_text(chain), cut) =~= seq![Seq::<char>::empty()]);
        let one = seq![Seq::<char>::empty()];
        reveal_with_fuel(parsed_parts, 2);
        assert(one.drop_last() =~= Seq::empty());
        assert(trimmed(Seq::<char>::empty()).len() == 0);
        assert(chain =~= Seq::empty());
    } else {
        let last = chain.last();
        let text = hop_text(last);
        assert(writable(chain[chain.len() - 1]));
        assert(text.len() > 0);
        lemma_trim_of_spaced(text);
        assert forall|i: int| 0 <= i < text.len() implies !cut(#[trigger] text[i]) by {}
        if chain.len() == 1 {
            assert(parts =~= seq![text]);
            assert(chain_text(chain) == text);
            lemma_pieces_uncut(text, cut);
            reveal_with_fuel(parsed_parts, 2);
            assert(seq![text].drop_last() =~= Seq::empty());
            assert(Seq::<Hop>::empty().push(last) =~= chain);
        } else {
            let front = chain.drop_last();
            law_a_written_chain_reads_back(front);
            assert(parts.drop_last() =~= Seq::new(front.len(), |i: int| hop_text(front[i])));
            let spaced = seq![' '] + text;
            assert(chain_text(chain) =~= chain_text(front) + seq![','] + spaced);
            assert forall|i: int| 0 <= i < spaced.len() implies !cut(#[trigger] spaced[i]) by {
                if i > 0 {
                    assert(spaced[i] == text[i - 1]);
                }
            }
            lemma_pieces_after_cut(chain_text(front), ',', spaced, cut);
            let all = pieces(chain_text(front), cut).push(spaced);
            assert(all.drop_last() =~= pieces(chain_text(front), cut));
            assert(front.push(last) =~= chain);
        }
    }
}

/// A host alone stands for that host at the usual port, and with `user@` before it for that
/// user there.
pub proof fn law_a_hop_without_a_port_uses_the_usual_one(user: Seq<char>, host: Seq<char>)
    requires
        plain_text(user),
        plain_text(host),
        host.len() > 0,
        user.len() > 0,
    ensures
        hop_value(host) == Some(Hop { user: Seq::empty(), host, port: 22 }),
        hop_value(user + seq!['@'] + host) == Some(Hop { user, host, port: 22 }),
        hop_value(seq!['@'] + host) is None,
        hop_value(user + seq!['@']) is None,
        hop_value(Seq::empty()) is None,
{
    lemma_last_of(host, '@', -1);
    lemma_last_of(host, ':', -1);
    let named = user + seq!['@'] + host;
    assert forall|i: int| user.len() < i < named.len() implies named[i] != '@' by {
        assert(named[i] == host[i - user.len() - 1]);
    }
    assert(named[user.len() as int] == '@');
    lemma_last_of(named, '@', user.len() as int);
    assert(named.take(user.len() as int) =~= user);
    assert(named.skip(user.len() as int + 1) =~= host);
    let nameless = seq!['@'] + host;
    assert forall|i: int| 0 < i < nameless.len() implies nameless[i] != '@' by {
        assert(nameless[i] == host[i - 1]);
    }
    lemma_last_of(nameless, '@', 0);
    assert(nameless.take(0).len() == 0);
    let hostless = user + seq!['@'];
    assert(hostless[user.len() as int] == '@');
    lemma_last_of(hostless, '@', user.len() as int);
    assert(hostless.skip(user.len() as int + 1) =~= Seq::empty());
    assert(last_of(Seq::<char>::empty(), ':') is None);
    assert(last_of(Seq::<char>::empty(), '@') is None);
}

/// What stands after the last colon is the port, a number from 1 to 65535; with anything
/// else there it is no hop.
pub proof fn law_a_bad_port_is_no_hop(host: Seq<char>, port: Seq<char>)
    requires
        plain_text(host),
        host.len() > 0,
        forall|i: int| 0 <= i < port.len() ==> port[i] != ':' && port[i] != '@',
    ensures
        ({
            let read = unsigned_value(port, 65535);
            match hop_value(host + seq![':'] + port) {
                Some(hop) => hop.host == host && hop.user.len() == 0 && read == Some(hop.port)
                    && 1 <= hop.port <= 65535,
                None => read is None || read == Some(0nat),
            }
        }),
{
    let s = host + seq![':'] + port;
    let k = host.len() as int;
    assert(s[k] == ':');
    assert forall|i: int| k < i < s.len() implies s[i] != ':' by {
        assert(s[i] == port[i - k - 1]);
    }
    lemma_last_of(s, ':', k);
    assert forall|i: int| 0 <= i < s.len() implies s[i] != '@' by {
        if i < k {
            assert(s[i] == host[i]);
        } else if i > k {
            assert(s[i] == port[i - k - 1]);
        }
    }
    lemma_last_of(s, '@', -1);
    assert(s.take(k) =~= host);
    assert(s.skip(k + 1) =~= port);
}

proof fn lemma_parts_in_order(a: Seq<Seq<char>>, b: Seq<Seq<char>>)
    ensures
        parsed_parts(a + b) == match (parsed_parts(a), parsed_parts(b)) {
            (Err(bad), _) => Err::<Seq<Hop>, Seq<char>>(bad),
            (Ok(_), Err(bad)) => Err(bad),
            (Ok(x), Ok(y)) => Ok(x + y),
        },
    decreases b.len(),
{
    let all = a + b;
    if b.len() == 0 {
        assert(all =~= a);
        if let Ok(x) = parsed_parts(a) {
            assert(x + Seq::<Hop>::empty() =~= x);
        }
    } else {
        let head = b.drop_last();
        lemma_parts_in_order(a, head);
        assert(all.drop_last() =~= a + head);
        assert(all.last() == b.last());
        if let (Ok(x), Ok(y)) = (parsed_parts(a), parsed_parts(head)) {
            if let Some(hop) = hop_value(trimmed(b.last())) {
                assert((x + y).push(hop) =~= x + y.push(hop));
            }
        }
    }
}

/// A chain is read hop by hop: what stands before a comma, a semicolon or a line feed and
/// what stands after it are read each for itself and put one after the other, and the first
/// that is no hop is the one that is reported.
pub proof fn law_a_chain_is_read_hop_by_hop(a: Seq<char>, c: char, b: Seq<char>)
    requires
        c == ',' || c == ';' || c == '\n',
    ensures
        parsed_chain(a.push(c) + b) == match (parsed_chain(a), parsed_chain(b)) {
            (Err(bad), _) => Err::<Seq<Hop>, Seq<char>>(bad),
            (Ok(_), Err(bad)) => Err(bad),
            (Ok(x), Ok(y)) => Ok(x + y),
        },
{
    let cut = one_of(separators());
    assert(cut(c)) by {
        assert(separators()[0] == ',' && separators()[1] == '\n' && separators()[2] == ';');
    }
    law_pieces_go_cut_by_cut(a, c, b, cut);
    lemma_parts_in_order(pieces(a, cut), pieces(b, cut));
}

/// A part without a separator is one hop, the blanks around it aside; a blank one is none,
/// and one that is no hop is reported.
pub proof fn law_a_part_is_one_hop(s: Seq<char>)
    requires
        forall|i: int| 0 <= i < s.len() ==> s[i] != ',' && s[i] != ';' && s[i] != '\n',
    ensures
        parsed_chain(s) == if trimmed(s).len() == 0 {
            Ok::<Seq<Hop>, Seq<char>>(Seq::empty())
        } else {
            match hop_value(trimmed(s)) {
                Some(hop) => Ok(seq![hop]),
                None => Err(trimmed(s)),
            }
        },
{
    let cut = one_of(separators());
    assert forall|i: int| 0 <= i < s.len() implies !cut(s[i]) by {
        if separators().contains(s[i]) {
            let k = choose|k: int| 0 <= k < separators().len() && separators()[k] == s[i];
        }
    }
    law_a_text_without_a_cut_is_one_piece(s, cut);
    reveal_with_fuel(parsed_parts, 2);
    assert(seq![s].drop_last() =~= Seq::empty());
    if let Some(hop) = hop_value(trimmed(s)) {
        assert(Seq::<Hop>::empty().push(hop) =~= seq![hop]);
    }
}

} // verus!

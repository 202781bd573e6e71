//! Saved sessions: what one holds, how it is named, matched and ordered.

use std::cmp::Ordering;
use vstd::prelude::*;
use vstd::string::*;

use crate::text::{
    ascii_lowered, ascii_lowered_chars, chars_of, chars_precede, comes_before, decimal, decimal_of,
    law_a_lowered_query_stands_where_it_reads, lemma_precedes_total, lemma_precedes_transitive,
    matches_at, occurs, precedes, reads_at, stands_at,
};

verus! {

/// Identifies a saved session.
#[derive(Debug, Clone, Copy, PartialEq, Eq, Structural)]
pub struct ProfileId(pub u64);

/// What a session speaks.
#[derive(Debug, Clone, Copy, PartialEq, Eq, Structural)]
pub enum Protocol {
    Ssh,
    Sftp,
    Rdp,
    Telnet,
    LocalShell,
    Serial,
}

/// How a session proves who it is.
#[derive(Debug, Clone, Copy, PartialEq, Eq, Structural)]
pub enum AuthMethod {
    Auto,
    Password,
    Key,
    Agent,
}

/// What kind of machine a session reaches.
#[derive(Debug, Clone, Copy, PartialEq, Eq, Structural)]
pub enum Environment {
    Unset,
    Development,
    Staging,
    Production,
    Custom,
}

/// Which way a port is forwarded.
#[derive(Debug, Clone, Copy, PartialEq, Eq, Structural)]
pub enum TunnelKind {
    Local,
    Dynamic,
    Remote,
}

/// A port forwarding.
pub struct TunnelDef {
    pub kind: TunnelKind,
    pub bind_address: String,
    pub bind_port: u16,
    pub target_host: String,
    pub target_port: u16,
}

/// One host that a connection is routed through.
pub struct JumpHop {
    pub user: String,
    pub host: String,
    pub port: u16,
}

/// A saved session. One whose group is blank stands at the top level.
pub struct ConnectionProfile {
    pub id: ProfileId,
    pub group: String,
    pub name: String,
    pub host: String,
    pub port: u16,
    pub username: String,
    pub auth_method: AuthMethod,
    pub identity_file: String,
    pub protocol: Protocol,
    pub icon: String,
    pub startup_command: String,
    pub jumps: Vec<JumpHop>,
    pub terminal_type: String,
    pub environment: Environment,
    pub accent_color: Option<String>,
    pub label: Option<String>,
    pub sort_order: i32,
    pub tunnels: Vec<TunnelDef>,
}

/// `user@host:port`.
pub open spec fn endpoint_text(user: Seq<char>, host: Seq<char>, port: nat) -> Seq<char> {
    user + seq!['@'] + host + seq![':'] + decimal(port)
}

impl ConnectionProfile {
    /// Where the session leads, as `user@host:port`.
    pub fn endpoint(&self) -> (r: String)
        ensures
            r@ == endpoint_text(self.username@, self.host@, self.port as nat),
    {
        let mut out: String = self.username.clone();
        out.push('@');
        out.append(self.host.as_str());
        out.push(':');
        let port: String = decimal_of(self.port as u64);
        out.append(port.as_str());
        assert(out@ =~= endpoint_text(self.username@, self.host@, self.port as nat));
        out
    }
}

/// The identities of saved sessions, in order.
pub open spec fn ids(profiles: Seq<ConnectionProfile>) -> Seq<ProfileId> {
    Seq::new(profiles.len(), |i: int| profiles[i].id)
}

/// Whether no identity occurs twice.
pub open spec fn distinct_ids(list: Seq<ProfileId>) -> bool {
    forall|i: int, j: int| 0 <= i < j < list.len() ==> list[i] != list[j]
}

/// The position of the first session with this identity.
pub open spec fn found_at(profiles: Seq<ConnectionProfile>, id: ProfileId) -> Option<int>
    decreases profiles.len(),
{
    if profiles.len() == 0 {
        None
    } else if profiles[0].id == id {
        Some(0)
    } else {
        match found_at(profiles.drop_first(), id) {
            Some(k) => Some(k + 1),
            None => None,
        }
    }
}

pub proof fn lemma_found_at(profiles: Seq<ConnectionProfile>, id: ProfileId, k: int)
    requires
        0 <= k <= profiles.len(),
        forall|i: int| 0 <= i < k ==> (#[trigger] profiles[i]).id != id,
        k < profiles.len() ==> profiles[k].id == id,
    ensures
        found_at(profiles, id) == if k < profiles.len() {
            Some(k)
        } else {
            None
        },
    decreases profiles.len(),
{
    if profiles.len() > 0 && k > 0 {
        assert(profiles[0].id != id);
        assert forall|i: int| 0 <= i < k - 1 implies (
        #[trigger] profiles.drop_first()[i]).id != id by {
            assert(profiles.drop_first()[i] == profiles[i + 1]);
        }
        lemma_found_at(profiles.drop_first(), id, k - 1);
    }
}

/// What was found has the sought identity, and where there is such a session,
/// one is found.
pub proof fn lemma_found(profiles: Seq<ConnectionProfile>, id: ProfileId)
    ensures
        found_at(profiles, id) matches Some(k) ==> 0 <= k < profiles.len() && profiles[k].id == id,
        found_at(profiles, id) is Some <==> ids(profiles).contains(id),
    decreases profiles.len(),
{
    if profiles.len() > 0 && profiles[0].id != id {
        let rest = profiles.drop_first();
        lemma_found(rest, id);
        if ids(profiles).contains(id) {
            let i = choose|i: int| 0 <= i < profiles.len() && ids(profiles)[i] == id;
            assert(ids(rest)[i - 1] == id);
        }
        if ids(rest).contains(id) {
            let i = choose|i: int| 0 <= i < rest.len() && ids(rest)[i] == id;
            assert(ids(profiles)[i + 1] == id);
        }
    } else if profiles.len() > 0 {
        assert(ids(profiles)[0] == id);
    }
}

/// The position of the session with this identity.
pub fn find_profile(profiles: &Vec<ConnectionProfile>, id: ProfileId) -> (r: Option<usize>)
    ensures
        match r {
            Some(k) => {
                &&& found_at(profiles@, id) == Some(k as int)
                &&& k < profiles@.len()
                &&& profiles@[k as int].id == id
            },
            None => found_at(profiles@, id) is None,
        },
        r is Some <==> ids(profiles@).contains(id),
{
    let mut i: usize = 0;
    while i < profiles.len()
        invariant
            i <= profiles.len(),
            forall|j: int| 0 <= j < i ==> (#[trigger] profiles@[j]).id != id,
        decreases profiles.len() - i,
    {
        if profiles[i].id == id {
            proof {
                lemma_found_at(profiles@, id, i as int);
                lemma_found(profiles@, id);
            }
            return Some(i);
        }
        i += 1;
    }
    proof {
        lemma_found_at(profiles@, id, i as int);
        lemma_found(profiles@, id);
    }
    None
}

/// Whether two optional identities are the same.
pub fn same_profile(a: Option<ProfileId>, b: ProfileId) -> (r: bool)
    ensures
        r == (a == Some(b)),
{
    match a {
        Some(id) => id == b,
        None => false,
    }
}

// Filtering.

/// Whether the ASCII-lowered `hay` holds the filter.
pub open spec fn mentions(hay: Seq<char>, filter: Seq<char>) -> bool {
    occurs(ascii_lowered(hay), filter)
}

/// Whether a lowered filter finds a session: in its group, its name, its host,
/// its user or its endpoint.
pub open spec fn matches_filter(profile: &ConnectionProfile, filter: Seq<char>) -> bool {
    ||| filter.len() == 0
    ||| mentions(profile.group@, filter)
    ||| mentions(profile.name@, filter)
    ||| mentions(profile.host@, filter)
    ||| mentions(profile.username@, filter)
    ||| mentions(
        endpoint_text(profile.username@, profile.host@, profile.port as nat),
        filter,
    )
}

/// Whether the ASCII-lowered `hay` holds the filter.
pub fn lowered_contains(hay: &str, filter: &str) -> (r: bool)
    ensures
        r == mentions(hay@, filter@),
{
    let h: Vec<char> = ascii_lowered_chars(hay);
    let n: Vec<char> = chars_of(filter);
    let mut at: usize = 0;
    while at < h.len()
        invariant
            at <= h.len(),
            h@ == ascii_lowered(hay@),
            n@ == filter@,
            forall|j: int| 0 <= j < at ==> !#[trigger] stands_at(h@, n@, j),
        decreases h.len() - at,
    {
        if matches_at(&h, &n, at) {
            return true;
        }
        at += 1;
    }
    matches_at(&h, &n, at)
}

/// Whether a lowered filter finds a session.
pub fn profile_matches_filter(profile: &ConnectionProfile, filter: &str) -> (r: bool)
    ensures
        r == matches_filter(profile, filter@),
{
    if filter.is_empty() {
        return true;
    }
    let endpoint: String = profile.endpoint();
    lowered_contains(profile.group.as_str(), filter) || lowered_contains(
        profile.name.as_str(),
        filter,
    ) || lowered_contains(profile.host.as_str(), filter) || lowered_contains(
        profile.username.as_str(),
        filter,
    ) || lowered_contains(endpoint.as_str(), filter)
}

// Order.

/// Whether one session stands before another in the tree: by group, then by
/// position, then by name without regard to ASCII case, then by host.
pub open spec fn tree_before(a: &ConnectionProfile, b: &ConnectionProfile) -> bool {
    if a.group@ != b.group@ {
        precedes(a.group@, b.group@)
    } else if a.sort_order != b.sort_order {
        a.sort_order < b.sort_order
    } else if ascii_lowered(a.name@) != ascii_lowered(b.name@) {
        precedes(ascii_lowered(a.name@), ascii_lowered(b.name@))
    } else {
        precedes(a.host@, b.host@)
    }
}

/// Whether one session stands before another in the tree.
pub fn stands_before(a: &ConnectionProfile, b: &ConnectionProfile) -> (r: bool)
    ensures
        r == tree_before(a, b),
{
    proof {
        lemma_precedes_total(a.group@, b.group@);
        lemma_precedes_total(ascii_lowered(a.name@), ascii_lowered(b.name@));
    }
    if comes_before(a.group.as_str(), b.group.as_str()) {
        return true;
    }
    if comes_before(b.group.as_str(), a.group.as_str()) {
        return false;
    }
    if a.sort_order != b.sort_order {
        return a.sort_order < b.sort_order;
    }
    let left: Vec<char> = ascii_lowered_chars(a.name.as_str());
    let right: Vec<char> = ascii_lowered_chars(b.name.as_str());
    if chars_precede(&left, &right) {
        return true;
    }
    if chars_precede(&right, &left) {
        return false;
    }
    comes_before(a.host.as_str(), b.host.as_str())
}

/// How two sessions stand to each other in the tree.
pub fn profile_sidebar_order(left: &ConnectionProfile, right: &ConnectionProfile) -> (r: Ordering)
    ensures
        r == if tree_before(left, right) {
            Ordering::Less
        } else if tree_before(right, left) {
            Ordering::Greater
        } else {
            Ordering::Equal
        },
{
    if stands_before(left, right) {
        Ordering::Less
    } else if stands_before(right, left) {
        Ordering::Greater
    } else {
        Ordering::Equal
    }
}

/// The order of the tree is a strict one: no session stands before itself, no
/// two stand before each other, and it is transitive.
pub proof fn law_tree_order_is_strict(
    a: &ConnectionProfile,
    b: &ConnectionProfile,
    c: &ConnectionProfile,
)
    ensures
        !tree_before(a, a),
        tree_before(a, b) ==> !tree_before(b, a),
        tree_before(a, b) && tree_before(b, c) ==> tree_before(a, c),
{
    let (x, y, z) = (ascii_lowered(a.name@), ascii_lowered(b.name@), ascii_lowered(c.name@));
    lemma_precedes_total(a.group@, a.group@);
    lemma_precedes_total(x, x);
    lemma_precedes_total(a.host@, a.host@);
    lemma_precedes_total(a.group@, b.group@);
    lemma_precedes_total(x, y);
    lemma_precedes_total(a.host@, b.host@);
    lemma_precedes_total(b.group@, c.group@);
    lemma_precedes_total(a.group@, c.group@);
    lemma_precedes_total(x, z);
    if precedes(a.group@, b.group@) && precedes(b.group@, c.group@) {
        lemma_precedes_transitive(a.group@, b.group@, c.group@);
    }
    if precedes(x, y) && precedes(y, z) {
        lemma_precedes_transitive(x, y, z);
    }
    if precedes(a.host@, b.host@) && precedes(b.host@, c.host@) {
        lemma_precedes_transitive(a.host@, b.host@, c.host@);
    }
}

/// A session put into a list that is in order: after every session that it does
/// not stand before, counting from the end.
pub open spec fn tree_inserted(
    sorted: Seq<ConnectionProfile>,
    profile: ConnectionProfile,
) -> Seq<ConnectionProfile>
    decreases sorted.len(),
{
    if sorted.len() > 0 && tree_before(&profile, &sorted.last()) {
        tree_inserted(sorted.drop_last(), profile).push(sorted.last())
    } else {
        sorted.push(profile)
    }
}

/// The sessions in the order of the tree. Sessions that stand alike keep the
/// order they had.
pub open spec fn tree_sorted(profiles: Seq<ConnectionProfile>) -> Seq<ConnectionProfile>
    decreases profiles.len(),
{
    if profiles.len() == 0 {
        Seq::empty()
    } else {
        tree_inserted(tree_sorted(profiles.drop_last()), profiles.last())
    }
}

/// The sessions at these positions.
pub open spec fn picked(profiles: Seq<ConnectionProfile>, at: Seq<usize>) -> Seq<
    ConnectionProfile,
> {
    Seq::new(at.len(), |i: int| profiles[at[i] as int])
}

/// Whether every position is one of the list.
pub open spec fn in_range(at: Seq<usize>, len: int) -> bool {
    forall|i: int| 0 <= i < at.len() ==> (#[trigger] at[i]) < len
}

fn insert_sorted(profiles: &Vec<ConnectionProfile>, order: &mut Vec<usize>, index: usize)
    requires
        index < profiles.len(),
        in_range(old(order)@, profiles@.len() as int),
        old(order)@.len() < usize::MAX,
    ensures
        in_range(final(order)@, profiles@.len() as int),
        final(order)@.len() == old(order)@.len() + 1,
        picked(profiles@, final(order)@) == tree_inserted(
            picked(profiles@, old(order)@),
            profiles@[index as int],
        ),
{
    let ghost before = order@;
    let ghost all = picked(profiles@, before);
    let ghost x = profiles@[index as int];
    let mut at: usize = order.len();
    assert(all.take(at as int) =~= all);
    assert(tree_inserted(all, x) =~= tree_inserted(all, x) + all.skip(at as int));
    while at > 0 && stands_before(&profiles[index], &profiles[order[at - 1]])
        invariant
            at <= order.len(),
            order@ == before,
            all == picked(profiles@, before),
            index < profiles.len(),
            x == profiles@[index as int],
            in_range(order@, profiles@.len() as int),
            tree_inserted(all, x) == tree_inserted(all.take(at as int), x) + all.skip(at as int),
        decreases at,
    {
        proof {
            let head = all.take(at as int);
            assert(head.last() == profiles@[before[at - 1] as int]);
            assert(head.drop_last() =~= all.take(at - 1));
            assert(tree_inserted(head, x) + all.skip(at as int) =~= tree_inserted(
                all.take(at - 1),
                x,
            ) + all.skip(at - 1));
        }
        at -= 1;
    }
    proof {
        let head = all.take(at as int);
        if at > 0 {
            assert(head.last() == profiles@[before[at - 1] as int]);
        }
        assert(tree_inserted(head, x) == head.push(x));
    }
    order.insert(at, index);
    proof {
        let now = picked(profiles@, order@);
        assert(now =~= all.take(at as int).push(x) + all.skip(at as int));
        assert forall|i: int| 0 <= i < order@.len() implies (#[trigger] order@[i])
            < profiles@.len() by {
            if i < at {
                assert(order@[i] == before[i]);
            } else if i > at {
                assert(order@[i] == before[i - 1]);
            }
        }
    }
}

/// The positions of the sessions in the order of the tree.
pub fn tree_order(profiles: &Vec<ConnectionProfile>) -> (r: Vec<usize>)
    ensures
        in_range(r@, profiles@.len() as int),
        picked(profiles@, r@) == tree_sorted(profiles@),
{
    let mut order: Vec<usize> = Vec::new();
    let mut i: usize = 0;
    assert(picked(profiles@, order@) =~= tree_sorted(profiles@.take(0)));
    while i < profiles.len()
        invariant
            i <= profiles.len(),
            order@.len() == i,
            in_range(order@, profiles@.len() as int),
            picked(profiles@, order@) == tree_sorted(profiles@.take(i as int)),
        decreases profiles.len() - i,
    {
        assert(profiles@.take(i + 1).drop_last() =~= profiles@.take(i as int));
        insert_sorted(profiles, &mut order, i);
        i += 1;
    }
    assert(profiles@.take(i as int) =~= profiles@);
    order
}

proof fn lemma_inserted(sorted: Seq<ConnectionProfile>, x: ConnectionProfile)
    requires
        forall|i: int, j: int|
            0 <= i < j < sorted.len() ==> !tree_before(
                &(#[trigger] sorted[j]),
                &(#[trigger] sorted[i]),
            ),
    ensures
        tree_inserted(sorted, x).to_multiset() == sorted.to_multiset().insert(x),
        tree_inserted(sorted, x).len() == sorted.len() + 1,
        forall|i: int, j: int|
            0 <= i < j < tree_inserted(sorted, x).len() ==> !tree_before(
                &(#[trigger] tree_inserted(sorted, x)[j]),
                &(#[trigger] tree_inserted(sorted, x)[i]),
            ),
        forall|i: int|
            0 <= i < tree_inserted(sorted, x).len() ==> (#[trigger] tree_inserted(sorted, x)[i])
                == x || sorted.contains(tree_inserted(sorted, x)[i]),
    decreases sorted.len(),
{
    let all = tree_inserted(sorted, x);
    if sorted.len() > 0 && tree_before(&x, &sorted.last()) {
        let front = sorted.drop_last();
        let rest = tree_inserted(front, x);
        lemma_inserted(front, x);
        assert(sorted =~= front.push(sorted.last()));
        front.to_multiset_ensures();
        rest.to_multiset_ensures();
        assert(all.to_multiset() =~= sorted.to_multiset().insert(x));
        assert forall|i: int, j: int| 0 <= i < j < all.len() implies !tree_before(
            &(#[trigger] all[j]),
            &(#[trigger] all[i]),
        ) by {
            if j == all.len() - 1 {
                if rest[i] == x {
                    law_tree_order_is_strict(&x, &sorted.last(), &x);
                } else {
                    assert(front.contains(rest[i]));
                    let k = choose|k: int| 0 <= k < front.len() && front[k] == rest[i];
                    assert(sorted[k] == rest[i]);
                    assert(!tree_before(&sorted[sorted.len() - 1], &sorted[k]));
                }
            } else {
                assert(all[i] == rest[i] && all[j] == rest[j]);
            }
        }
        assert forall|i: int| 0 <= i < all.len() implies (#[trigger] all[i]) == x
            || sorted.contains(all[i]) by {
            if i < rest.len() {
                assert(all[i] == rest[i]);
                if rest[i] != x {
                    let k = choose|k: int| 0 <= k < front.len() && front[k] == rest[i];
                    assert(sorted[k] == rest[i]);
                }
            } else {
                assert(sorted[sorted.len() - 1] == all[i]);
            }
        }
    } else {
        sorted.to_multiset_ensures();
        assert forall|i: int, j: int| 0 <= i < j < all.len() implies !tree_before(
            &(#[trigger] all[j]),
            &(#[trigger] all[i]),
        ) by {
            if j == all.len() - 1 {
                let last = sorted[sorted.len() - 1];
                if i < sorted.len() - 1 {
                    assert(!tree_before(&sorted[sorted.len() - 1], &sorted[i]));
                    lemma_not_before_transitive(&x, &last, &sorted[i]);
                }
            } else {
                assert(all[i] == sorted[i] && all[j] == sorted[j]);
            }
        }
        assert forall|i: int| 0 <= i < all.len() implies (#[trigger] all[i]) == x
            || sorted.contains(all[i]) by {
            if i < sorted.len() {
                assert(sorted[i] == all[i]);
            }
        }
    }
}

/// The order of the tree is a weak order: standing no earlier is transitive.
proof fn lemma_not_before_transitive(
    a: &ConnectionProfile,
    b: &ConnectionProfile,
    c: &ConnectionProfile,
)
    requires
        !tree_before(a, b),
        !tree_before(b, c),
    ensures
        !tree_before(a, c),
{
    let (x, y, z) = (ascii_lowered(a.name@), ascii_lowered(b.name@), ascii_lowered(c.name@));
    lemma_precedes_total(a.group@, b.group@);
    lemma_precedes_total(b.group@, c.group@);
    lemma_precedes_total(a.group@, c.group@);
    lemma_precedes_total(x, y);
    lemma_precedes_total(y, z);
    lemma_precedes_total(x, z);
    lemma_precedes_total(a.host@, b.host@);
    lemma_precedes_total(b.host@, c.host@);
    lemma_precedes_total(a.host@, c.host@);
    if precedes(a.group@, c.group@) {
        if precedes(b.group@, a.group@) {
            lemma_precedes_transitive(b.group@, a.group@, c.group@);
        }
    }
    if precedes(x, z) && precedes(y, x) {
        lemma_precedes_transitive(y, x, z);
    }
    if precedes(a.host@, c.host@) && precedes(b.host@, a.host@) {
        lemma_precedes_transitive(b.host@, a.host@, c.host@);
    }
}

/// The tree shows each session exactly once, and none before one that it should
/// stand after.
pub proof fn law_tree_shows_every_session_in_order(profiles: Seq<ConnectionProfile>)
    ensures
        tree_sorted(profiles).to_multiset() == profiles.to_multiset(),
        tree_sorted(profiles).len() == profiles.len(),
        forall|i: int, j: int|
            0 <= i < j < tree_sorted(profiles).len() ==> !tree_before(
                &(#[trigger] tree_sorted(profiles)[j]),
                &(#[trigger] tree_sorted(profiles)[i]),
            ),
    decreases profiles.len(),
{
    if profiles.len() > 0 {
        law_tree_shows_every_session_in_order(profiles.drop_last());
        lemma_inserted(tree_sorted(profiles.drop_last()), profiles.last());
        profiles.drop_last().to_multiset_ensures();
        assert(profiles =~= profiles.drop_last().push(profiles.last()));
    } else {
        assert(tree_sorted(profiles) =~= profiles);
    }
}

/// The tree goes by folder first, then by the position that was given, then by name without
/// regard to ASCII case, and last by host.
pub proof fn law_the_tree_goes_by_folder_position_name_and_host(
    a: &ConnectionProfile,
    b: &ConnectionProfile,
)
    ensures
        precedes(a.group@, b.group@) ==> tree_before(a, b),
        a.group@ == b.group@ && a.sort_order < b.sort_order ==> tree_before(a, b),
        a.group@ == b.group@ && a.sort_order == b.sort_order && precedes(
            ascii_lowered(a.name@),
            ascii_lowered(b.name@),
        ) ==> tree_before(a, b),
        a.group@ == b.group@ && a.sort_order == b.sort_order && ascii_lowered(a.name@)
            == ascii_lowered(b.name@) ==> (tree_before(a, b) <==> precedes(a.host@, b.host@)),
{
    lemma_precedes_total(a.group@, b.group@);
    lemma_precedes_total(a.group@, a.group@);
    lemma_precedes_total(ascii_lowered(a.name@), ascii_lowered(b.name@));
    lemma_precedes_total(ascii_lowered(a.name@), ascii_lowered(a.name@));
}

/// Whether neither of two sessions stands before the other.
pub open spec fn stand_alike(a: &ConnectionProfile, b: &ConnectionProfile) -> bool {
    !tree_before(a, b) && !tree_before(b, a)
}

proof fn lemma_alike_joins(a: &ConnectionProfile, b: &ConnectionProfile, c: &ConnectionProfile)
    requires
        stand_alike(a, b),
        stand_alike(b, c),
    ensures
        stand_alike(a, c),
{
    lemma_precedes_total(a.group@, b.group@);
    lemma_precedes_total(b.group@, c.group@);
    lemma_precedes_total(ascii_lowered(a.name@), ascii_lowered(b.name@));
    lemma_precedes_total(ascii_lowered(b.name@), ascii_lowered(c.name@));
    lemma_precedes_total(a.host@, b.host@);
    lemma_precedes_total(b.host@, c.host@);
    lemma_precedes_total(a.host@, c.host@);
}

proof fn lemma_insert_keeps_alike(
    sorted: Seq<ConnectionProfile>,
    x: ConnectionProfile,
    y: ConnectionProfile,
)
    ensures
        ({
            let alike = |p: ConnectionProfile| stand_alike(&p, &y);
            tree_inserted(sorted, x).filter(alike) == if alike(x) {
                sorted.filter(alike).push(x)
            } else {
                sorted.filter(alike)
            }
        }),
    decreases sorted.len(),
{
    reveal(Seq::filter);
    let alike = |p: ConnectionProfile| stand_alike(&p, &y);
    if sorted.len() > 0 && tree_before(&x, &sorted.last()) {
        let head = sorted.drop_last();
        let l = sorted.last();
        lemma_insert_keeps_alike(head, x, y);
        let inner = tree_inserted(head, x);
        assert(inner.push(l).drop_last() =~= inner);
        if alike(x) && alike(l) {
            lemma_alike_joins(&x, &y, &l);
        }
    } else {
        assert(sorted.push(x).drop_last() =~= sorted);
    }
}

/// Sessions that stand alike in the tree keep the order they had.
pub proof fn law_sessions_that_stand_alike_keep_their_order(
    profiles: Seq<ConnectionProfile>,
    y: ConnectionProfile,
)
    ensures
        ({
            let alike = |p: ConnectionProfile| stand_alike(&p, &y);
            tree_sorted(profiles).filter(alike) == profiles.filter(alike)
        }),
    decreases profiles.len(),
{
    reveal(Seq::filter);
    if profiles.len() > 0 {
        law_sessions_that_stand_alike_keep_their_order(profiles.drop_last(), y);
        lemma_insert_keeps_alike(tree_sorted(profiles.drop_last()), profiles.last(), y);
    }
}

/// What is looked for is found in a text exactly where it can be read somewhere in it,
/// without regard to ASCII case.
pub proof fn law_a_filter_finds_what_can_be_read(hay: Seq<char>, query: Seq<char>)
    ensures
        mentions(hay, ascii_lowered(query)) <==> exists|at: int| #[trigger]
            reads_at(hay, query, at),
{
    let needle = ascii_lowered(query);
    if mentions(hay, needle) {
        let at = choose|at: int| #[trigger] stands_at(ascii_lowered(hay), needle, at);
        law_a_lowered_query_stands_where_it_reads(hay, query, at);
        assert(reads_at(hay, query, at));
    }
    if exists|at: int| #[trigger] reads_at(hay, query, at) {
        let at = choose|at: int| #[trigger] reads_at(hay, query, at);
        law_a_lowered_query_stands_where_it_reads(hay, query, at);
        assert(stands_at(ascii_lowered(hay), needle, at));
    }
}

/// A filter finds a session by any of its folder, its name, its host and its user, and by
/// `user@host:port`; an empty one finds every session.
pub proof fn law_a_filter_looks_at_these_fields(profile: &ConnectionProfile, filter: Seq<char>)
    ensures
        filter.len() == 0 ==> matches_filter(profile, filter),
        mentions(profile.group@, filter) ==> matches_filter(profile, filter),
        mentions(profile.name@, filter) ==> matches_filter(profile, filter),
        mentions(profile.host@, filter) ==> matches_filter(profile, filter),
        mentions(profile.username@, filter) ==> matches_filter(profile, filter),
        mentions(
            profile.username@ + "@"@ + profile.host@ + ":"@ + decimal(profile.port as nat),
            filter,
        ) ==> matches_filter(profile, filter),
        matches_filter(profile, filter) && filter.len() > 0 ==> mentions(profile.group@, filter)
            || mentions(profile.name@, filter) || mentions(
            profile.username@ + "@"@ + profile.host@ + ":"@ + decimal(profile.port as nat),
            filter,
        ) || mentions(profile.host@, filter) || mentions(profile.username@, filter),
{
    reveal_strlit("@");
    reveal_strlit(":");
    assert("@"@ =~= seq!['@']);
    assert(":"@ =~= seq![':']);
}

/// A session is found by its identity, where it stands first, and not found where no
/// session has it.
pub proof fn law_a_session_is_found_by_its_identity(
    profiles: Seq<ConnectionProfile>,
    id: ProfileId,
)
    ensures
        found_at(profiles, id) is None <==> forall|i: int|
            0 <= i < profiles.len() ==> (#[trigger] profiles[i]).id != id,
        found_at(profiles, id) matches Some(k) ==> {
            &&& 0 <= k < profiles.len()
            &&& profiles[k].id == id
            &&& forall|i: int| 0 <= i < k ==> (#[trigger] profiles[i]).id != id
        },
    decreases profiles.len(),
{
    if profiles.len() > 0 {
        let rest = profiles.drop_first();
        law_a_session_is_found_by_its_identity(rest, id);
        assert(forall|i: int| 0 <= i < rest.len() ==> rest[i] == #[trigger] profiles[i + 1]);
        if profiles[0].id != id {
            if let Some(k) = found_at(rest, id) {
                assert(profiles[k + 1].id == id);
                assert forall|i: int| 0 <= i < k + 1 implies (#[trigger] profiles[i]).id != id by {
                    if i > 0 {
                        assert(rest[i - 1] == profiles[i]);
                    }
                }
            } else {
                assert forall|i: int| 0 <= i < profiles.len() implies (
                #[trigger] profiles[i]).id != id by {
                    if i > 0 {
                        assert(rest[i - 1] == profiles[i]);
                    }
                }
            }
        }
    }
}

/// A session leads to a user, an at sign, a host, a colon and a port.
pub proof fn law_a_session_leads_to_its_endpoint(user: Seq<char>, host: Seq<char>, port: nat)
    ensures
        endpoint_text(user, host, port) == user.push('@') + host.push(':') + decimal(port),
{
    assert(endpoint_text(user, host, port) =~= user.push('@') + host.push(':') + decimal(port));
}

} // verus!

//! The host manager: what its cards show, and the bands they stand in.

use vstd::prelude::*;
use vstd::string::*;

use crate::grid::{
    band_slots, grid_ordered_profiles, grid_sorted, law_the_grid_shows_every_session, preview,
    ProfileDrag, ProfileDrop,
};
use crate::panes::SessionId;
use crate::profile::{
    found_at, in_range, lemma_found, lemma_found_at, lowered_contains, mentions, picked, tree_sorted,
    ConnectionProfile, ProfileId, Protocol,
};
use crate::sidebar::shown_members;
use crate::style::{
    accent, opaque, rgb, tone, tone_color, AreaColors, Rgba, SessionStatus, Tone,
};
use crate::text::{
    ascii_lowered, ascii_lowered_chars, blank, decimal, decimal_of, holds, is_blank, owned, same,
    string_of, texts, trim, trimmed,
};

verus! {

/// What fills the window beside the sidebar.
#[derive(Debug, Clone, Copy, PartialEq, Eq, Structural)]
pub enum MainView {
    /// The host manager.
    Hosts,
    /// The terminals.
    Terminal,
}

/// How the host manager lays its hosts out.
#[derive(Debug, Clone, Copy, PartialEq, Eq, Structural)]
pub enum HostLayout {
    Grid,
    List,
    Tree,
}

// Icons.

/// The mark of what a session speaks.
pub open spec fn glyph_of(protocol: Protocol) -> Seq<char> {
    match protocol {
        Protocol::Ssh | Protocol::Sftp | Protocol::Telnet => "\u{25b8}"@,
        Protocol::LocalShell => "\u{25a3}"@,
        Protocol::Serial => "\u{2325}"@,
        Protocol::Rdp => "\u{25a4}"@,
    }
}

/// The mark of what a session speaks.
pub fn protocol_glyph(protocol: Protocol) -> (r: &'static str)
    ensures
        r@ == glyph_of(protocol),
{
    match protocol {
        Protocol::Ssh => "\u{25b8}",
        Protocol::Sftp => "\u{25b8}",
        Protocol::Telnet => "\u{25b8}",
        Protocol::LocalShell => "\u{25a3}",
        Protocol::Serial => "\u{2325}",
        Protocol::Rdp => "\u{25a4}",
    }
}

/// A mark that a session can be given.
#[derive(Debug, Clone, Copy)]
pub struct HostIcon {
    /// What a session keeps, so that the artwork can change behind it.
    pub key: &'static str,
    pub label: &'static str,
    pub glyph: &'static str,
    pub color: Rgba,
}

/// How many icons there are.
pub const ICON_COUNT: usize = 9;

/// What a session keeps of an icon.
pub open spec fn icon_key(i: int) -> Seq<char> {
    if i == 0 {
        "ubuntu"@
    } else if i == 1 {
        "debian"@
    } else if i == 2 {
        "redhat"@
    } else if i == 3 {
        "alpine"@
    } else if i == 4 {
        "windows"@
    } else if i == 5 {
        "server"@
    } else if i == 6 {
        "network"@
    } else if i == 7 {
        "database"@
    } else {
        "container"@
    }
}

/// What an icon is called.
pub open spec fn icon_label(i: int) -> Seq<char> {
    if i == 0 {
        "Ubuntu"@
    } else if i == 1 {
        "Debian"@
    } else if i == 2 {
        "RHEL"@
    } else if i == 3 {
        "Alpine"@
    } else if i == 4 {
        "Windows"@
    } else if i == 5 {
        "服务器"@
    } else if i == 6 {
        "网络"@
    } else if i == 7 {
        "数据库"@
    } else {
        "容器"@
    }
}

/// The mark of an icon.
pub open spec fn icon_glyph(i: int) -> Seq<char> {
    if i == 0 {
        "\u{25c9}"@
    } else if i == 1 {
        "\u{25c8}"@
    } else if i == 2 {
        "\u{25b3}"@
    } else if i == 3 {
        "\u{25b2}"@
    } else if i == 4 {
        "\u{25a6}"@
    } else if i == 5 {
        "\u{25a4}"@
    } else if i == 6 {
        "\u{21c4}"@
    } else if i == 7 {
        "\u{25ab}"@
    } else {
        "\u{25a7}"@
    }
}

/// The colour of an icon.
pub open spec fn icon_color(i: int) -> Rgba {
    if i == 0 {
        opaque(233, 84, 32)
    } else if i == 1 {
        opaque(215, 10, 83)
    } else if i == 2 {
        opaque(238, 0, 0)
    } else if i == 3 {
        opaque(13, 89, 126)
    } else if i == 4 {
        opaque(0, 120, 212)
    } else if i == 5 {
        opaque(90, 100, 120)
    } else if i == 6 {
        opaque(16, 138, 122)
    } else if i == 7 {
        opaque(52, 92, 168)
    } else {
        opaque(36, 150, 237)
    }
}

/// Whether these are the icons.
pub open spec fn is_icon_list(icons: Seq<HostIcon>) -> bool {
    &&& icons.len() == ICON_COUNT
    &&& forall|i: int|
        0 <= i < ICON_COUNT ==> (#[trigger] icons[i]).key@ == icon_key(i) && icons[i].label@
            == icon_label(i) && icons[i].glyph@ == icon_glyph(i) && icons[i].color == icon_color(i)
}

/// The icons that a session can be given.
pub fn host_icons() -> (r: Vec<HostIcon>)
    ensures
        is_icon_list(r@),
{
    vec![
        HostIcon { key: "ubuntu", label: "Ubuntu", glyph: "\u{25c9}", color: rgb(233, 84, 32) },
        HostIcon { key: "debian", label: "Debian", glyph: "\u{25c8}", color: rgb(215, 10, 83) },
        HostIcon { key: "redhat", label: "RHEL", glyph: "\u{25b3}", color: rgb(238, 0, 0) },
        HostIcon { key: "alpine", label: "Alpine", glyph: "\u{25b2}", color: rgb(13, 89, 126) },
        HostIcon { key: "windows", label: "Windows", glyph: "\u{25a6}", color: rgb(0, 120, 212) },
        HostIcon { key: "server", label: "服务器", glyph: "\u{25a4}", color: rgb(90, 100, 120) },
        HostIcon { key: "network", label: "网络", glyph: "\u{21c4}", color: rgb(16, 138, 122) },
        HostIcon { key: "database", label: "数据库", glyph: "\u{25ab}", color: rgb(52, 92, 168) },
        HostIcon { key: "container", label: "容器", glyph: "\u{25a7}", color: rgb(36, 150, 237) },
    ]
}

/// The first icon with this key, from the `i`th on.
pub open spec fn icon_named_from(key: Seq<char>, i: int) -> Option<int>
    decreases ICON_COUNT - i,
{
    if i >= ICON_COUNT {
        None
    } else if icon_key(i) == key {
        Some(i)
    } else {
        icon_named_from(key, i + 1)
    }
}

/// The icon with this key.
pub open spec fn icon_named(key: Seq<char>) -> Option<int> {
    icon_named_from(key, 0)
}

/// The icon with this key.
pub fn find_icon(key: &str) -> (r: Option<HostIcon>)
    ensures
        match icon_named(key@) {
            Some(i) => {
                &&& r is Some
                &&& r->0.key@ == icon_key(i)
                &&& r->0.label@ == icon_label(i)
                &&& r->0.glyph@ == icon_glyph(i)
                &&& r->0.color == icon_color(i)
            },
            None => r is None,
        },
{
    let icons: Vec<HostIcon> = host_icons();
    let mut i: usize = 0;
    while i < icons.len()
        invariant
            i <= icons.len(),
            is_icon_list(icons@),
            icon_named(key@) == icon_named_from(key@, i as int),
        decreases icons.len() - i,
    {
        if same(icons[i].key, key) {
            return Some(icons[i]);
        }
        i += 1;
    }
    None
}

/// The mark and the colour of a session: those of its icon, or else of what it
/// speaks and its own accent.
pub fn host_icon(icon: &str, protocol: Protocol, own_accent: Option<Rgba>) -> (r: (
    &'static str,
    Rgba,
))
    ensures
        match icon_named(icon@) {
            Some(i) => r.0@ == icon_glyph(i) && r.1 == icon_color(i),
            None => r.0@ == glyph_of(protocol) && r.1 == match own_accent {
                Some(color) => color,
                None => opaque(15, 158, 140),
            },
        },
{
    match find_icon(icon) {
        Some(icon) => (icon.glyph, icon.color),
        None => {
            let color: Rgba = match own_accent {
                Some(color) => color,
                None => accent(),
            };
            (protocol_glyph(protocol), color)
        },
    }
}

// Sessions that are up.

/// What is known of an open session.
#[derive(Debug, Clone)]
pub struct SessionSummary {
    pub id: SessionId,
    pub profile_id: ProfileId,
    pub title: String,
    pub endpoint: String,
    pub status: SessionStatus,
}

/// Whether a saved session is up: one of the open ones is its own and connected.
pub open spec fn is_up(sessions: Seq<SessionSummary>, id: ProfileId) -> bool {
    exists|i: int|
        0 <= i < sessions.len() && (#[trigger] sessions[i]).profile_id == id && sessions[i].status
            == SessionStatus::Connected
}

/// The saved sessions that are up, each once.
pub fn connected_profiles(sessions: &Vec<SessionSummary>) -> (r: Vec<ProfileId>)
    ensures
        forall|id: ProfileId| #[trigger] r@.contains(id) <==> is_up(sessions@, id),
        r@.no_duplicates(),
{
    let mut out: Vec<ProfileId> = Vec::new();
    let mut i: usize = 0;
    while i < sessions.len()
        invariant
            i <= sessions.len(),
            out@.no_duplicates(),
            forall|id: ProfileId| #[trigger] out@.contains(id) <==> is_up(sessions@.take(i as int), id),
        decreases sessions.len() - i,
    {
        let ghost before = out@;
        let ghost head = sessions@.take(i as int);
        let ghost next = sessions@.take(i + 1);
        let id: ProfileId = sessions[i].profile_id;
        if sessions[i].status == SessionStatus::Connected && !holds_id(&out, id) {
            out.push(id);
        }
        assert forall|p: ProfileId| #[trigger] out@.contains(p) <==> is_up(next, p) by {
            if is_up(next, p) {
                let k = choose|k: int|
                    0 <= k < next.len() && (#[trigger] next[k]).profile_id == p && next[k].status
                        == SessionStatus::Connected;
                if k < i {
                    assert(head[k] == next[k]);
                    assert(is_up(head, p));
                    assert(before.contains(p));
                    let m = choose|m: int| 0 <= m < before.len() && before[m] == p;
                    assert(out@[m] == p);
                } else {
                    assert(p == id);
                    if !before.contains(p) {
                        assert(out@[out@.len() - 1] == p);
                    }
                }
            }
            if out@.contains(p) {
                if before.contains(p) {
                    assert(is_up(head, p));
                    let k = choose|k: int|
                        0 <= k < head.len() && (#[trigger] head[k]).profile_id == p
                            && head[k].status == SessionStatus::Connected;
                    assert(next[k] == head[k]);
                } else {
                    let m = choose|m: int| 0 <= m < out@.len() && out@[m] == p;
                    if m < before.len() {
                        assert(before[m] == p);
                    }
                    assert(next[i as int].profile_id == p);
                }
            }
        }
        i += 1;
    }
    assert(sessions@.take(i as int) =~= sessions@);
    out
}

fn holds_id(list: &Vec<ProfileId>, id: ProfileId) -> (r: bool)
    ensures
        r == list@.contains(id),
{
    let mut i: usize = 0;
    while i < list.len()
        invariant
            i <= list.len(),
            forall|j: int| 0 <= j < i ==> list@[j] != id,
        decreases list.len() - i,
    {
        if list[i] == id {
            assert(list@.contains(id));
            return true;
        }
        i += 1;
    }
    false
}

// Cards.

/// What a card says below the name: the user and the host, or the host alone.
pub open spec fn subtitle_text(user: Seq<char>, host: Seq<char>) -> Seq<char> {
    if blank(user) {
        host
    } else {
        user + "@"@ + host
    }
}

/// How a card of a host looks.
pub struct HostCard {
    pub name: String,
    pub glyph: &'static str,
    pub tile: Rgba,
    pub subtitle: String,
    /// Whether this is the card that travels.
    pub dragging: bool,
    /// Whether the travelling card would land beside this one.
    pub incoming: bool,
    pub online: bool,
}

fn subtitle_of(profile: &ConnectionProfile) -> (r: String)
    ensures
        r@ == subtitle_text(profile.username@, profile.host@),
{
    if is_blank(profile.username.as_str()) {
        owned(profile.host.as_str())
    } else {
        let mut text: String = owned(profile.username.as_str());
        text.append("@");
        text.append(profile.host.as_str());
        text
    }
}

fn is_dragged(drag: &ProfileDrag, id: ProfileId) -> (r: bool)
    ensures
        r == (drag.dragged == Some(id)),
{
    match drag.dragged {
        Some(dragged) => dragged == id,
        None => false,
    }
}

/// The card of a host.
pub fn host_card(
    profile: &ConnectionProfile,
    own_accent: Option<Rgba>,
    drag: &ProfileDrag,
    online: bool,
) -> (r: HostCard)
    ensures
        match icon_named(profile.icon@) {
            Some(i) => r.glyph@ == icon_glyph(i) && r.tile == icon_color(i),
            None => r.glyph@ == glyph_of(profile.protocol) && r.tile == match own_accent {
                Some(color) => color,
                None => opaque(15, 158, 140),
            },
        },
        r.name@ == profile.name@,
        r.subtitle@ == subtitle_text(profile.username@, profile.host@),
        r.dragging == (drag.dragged == Some(profile.id)),
        r.incoming == match drag.drop {
            Some(ProfileDrop::Beside { profile_id, .. }) => profile_id == profile.id,
            _ => false,
        },
        r.online == online,
{
    let (glyph, tile): (&'static str, Rgba) = host_icon(
        profile.icon.as_str(),
        profile.protocol,
        own_accent,
    );
    let subtitle: String = subtitle_of(profile);
    let dragging: bool = is_dragged(drag, profile.id);
    let incoming: bool = match &drag.drop {
        Some(ProfileDrop::Beside { profile_id, position: _ }) => *profile_id == profile.id,
        _ => false,
    };
    HostCard {
        name: owned(profile.name.as_str()),
        glyph,
        tile,
        subtitle,
        dragging,
        incoming,
        online,
    }
}

/// The colours of a card: one that travels is raised, and where it would land is marked.
pub fn host_card_colors(dark: bool, card: &HostCard) -> (r: AreaColors)
    ensures
        r == (AreaColors {
            background: tone(
                dark,
                if card.dragging {
                    Tone::PanelHover
                } else {
                    Tone::AppBackground
                },
            ),
            border: tone(
                dark,
                if card.dragging || card.incoming {
                    Tone::Accent
                } else {
                    Tone::Border
                },
            ),
        }),
{
    AreaColors {
        background: tone_color(
            dark,
            if card.dragging {
                Tone::PanelHover
            } else {
                Tone::AppBackground
            },
        ),
        border: tone_color(
            dark,
            if card.dragging || card.incoming {
                Tone::Accent
            } else {
                Tone::Border
            },
        ),
    }
}

/// A host as a row of the list.
pub struct HostRow {
    /// One mark for two things: that the host is up, or else its own colour.
    pub dot: Rgba,
    pub name: String,
    pub subtitle: String,
    pub background: Rgba,
}

/// A host as a row of the list.
pub fn host_row(
    dark: bool,
    profile: &ConnectionProfile,
    own_accent: Option<Rgba>,
    drag: &ProfileDrag,
    online: bool,
) -> (r: HostRow)
    ensures
        r.dot == if online {
            tone(dark, Tone::Success)
        } else {
            match icon_named(profile.icon@) {
                Some(i) => icon_color(i),
                None => match own_accent {
                    Some(color) => color,
                    None => opaque(15, 158, 140),
                },
            }
        },
        r.name@ == profile.name@,
        r.subtitle@ == subtitle_text(profile.username@, profile.host@),
        r.background == tone(
            dark,
            if drag.dragged == Some(profile.id) {
                Tone::PanelHover
            } else {
                Tone::Transparent
            },
        ),
{
    let (_, own): (&'static str, Rgba) = host_icon(
        profile.icon.as_str(),
        profile.protocol,
        own_accent,
    );
    HostRow {
        dot: if online {
            tone_color(dark, Tone::Success)
        } else {
            own
        },
        name: owned(profile.name.as_str()),
        subtitle: subtitle_of(profile),
        background: tone_color(
            dark,
            if is_dragged(drag, profile.id) {
                Tone::PanelHover
            } else {
                Tone::Transparent
            },
        ),
    }
}

/// What the heading of a band says of its size: how many of its hosts are up,
/// where any is, and how many there are.
pub fn host_section_header(count: usize, online: usize) -> (r: (Option<String>, String))
    ensures
        r.0 is Some == (online > 0),
        r.0 matches Some(text) ==> text@ == decimal(online as nat) + " 个在线"@,
        r.1@ == decimal(count as nat) + " 台"@,
{
    let up: Option<String> = if online > 0 {
        let mut text: String = decimal_of(online as u64);
        text.append(" 个在线");
        Some(text)
    } else {
        None
    };
    let mut all: String = decimal_of(count as u64);
    all.append(" 台");
    (up, all)
}

/// The width of the rail beside the host manager, and of a card with its gap.
pub const NAV_RAIL_WIDTH: i64 = 156;

pub const HOST_CARD_STEP: i64 = 268;

/// How many cards fit side by side in a window of this width, in whole pixels: at
/// least one and at most eight.
pub fn host_columns(window_width: i64, view: MainView) -> (r: usize)
    ensures
        ({
            let rail = if view == MainView::Hosts {
                NAV_RAIL_WIDTH as int
            } else {
                0
            };
            let fit = (window_width - rail - 40) / HOST_CARD_STEP as int;
            r == if fit < 1 {
                1
            } else if fit > 8 {
                8
            } else {
                fit
            }
        }),
{
    let rail: i64 = if view == MainView::Hosts {
        NAV_RAIL_WIDTH
    } else {
        0
    };
    if window_width < rail + 40 + HOST_CARD_STEP {
        assert((window_width - rail - 40) / HOST_CARD_STEP as int <= 0);
        return 1;
    }
    let available: i64 = window_width - rail - 40;
    let fit: u64 = available as u64 / HOST_CARD_STEP as u64;
    if fit > 8 {
        8
    } else {
        fit as usize
    }
}

/// How many rows so many cards take.
pub fn band_rows(count: usize, columns: usize) -> (r: usize)
    requires
        columns > 0,
    ensures
        r == (count + columns - 1) / columns as int,
        r * columns >= count,
{
    let full: usize = count / columns;
    proof {
        let (n, c) = (count as int, columns as int);
        assert(n == n / c * c + n % c) by (nonlinear_arith)
            requires
                c > 0,
        ;
        if n % c == 0 {
            assert((n + c - 1) / c == n / c) by (nonlinear_arith)
                requires
                    c > 0,
                    n % c == 0,
                    n >= 0,
            ;
        } else {
            assert((n + c - 1) / c == n / c + 1) by (nonlinear_arith)
                requires
                    c > 0,
                    n % c != 0,
                    n >= 0,
            ;
            assert((n / c + 1) * c == n / c * c + c) by (nonlinear_arith);
            assert(n / c < n) by (nonlinear_arith)
                requires
                    c > 0,
                    n % c != 0,
                    n >= 0,
            ;
        }
    }
    if count % columns == 0 {
        full
    } else {
        full + 1
    }
}

/// The row and the column of a slot; a slot past the last card is taken for the
/// last.
pub fn slot_place(slot: usize, count: usize, columns: usize) -> (r: (usize, usize))
    requires
        columns > 0,
    ensures
        ({
            let last = if count == 0 {
                0int
            } else {
                count - 1
            };
            let at = if slot < last {
                slot as int
            } else {
                last
            };
            r.0 == at / columns as int && r.1 == at % columns as int
        }),
{
    let last: usize = if count == 0 {
        0
    } else {
        count - 1
    };
    let at: usize = if slot < last {
        slot
    } else {
        last
    };
    (at / columns, at % columns)
}

// Bands.

/// What a band is.
#[derive(Debug, Clone, Copy, PartialEq, Eq, Structural)]
pub enum BandKind {
    /// A group: its heading takes drops.
    Group,
    /// The hosts of no group.
    Ungrouped,
    /// The hosts opened last.
    Recent,
    /// What a search found.
    Search,
}

/// A titled run of hosts.
pub struct Band {
    pub kind: BandKind,
    /// The mark before its title.
    pub icon: Option<&'static str>,
    pub title: String,
    /// The hosts as they are laid out, a travelling card where it would land.
    pub slots: Vec<ProfileId>,
    pub count: usize,
    pub up: usize,
}

/// What a band shows.
pub ghost struct BandView {
    pub kind: BandKind,
    pub icon: Option<Seq<char>>,
    pub title: Seq<char>,
    pub slots: Seq<ProfileId>,
    pub count: nat,
    pub up: nat,
}

/// What a band shows.
pub open spec fn band_view(band: Band) -> BandView {
    BandView {
        kind: band.kind,
        icon: match band.icon {
            Some(icon) => Some(icon@),
            None => None,
        },
        title: band.title@,
        slots: band.slots@,
        count: band.count as nat,
        up: band.up as nat,
    }
}

/// What bands show.
pub open spec fn bands_view(bands: Seq<Band>) -> Seq<BandView> {
    bands.map_values(|band: Band| band_view(band))
}

/// How many of these hosts are up.
pub open spec fn up_among(hosts: Seq<ProfileId>, online: Seq<ProfileId>) -> nat
    decreases hosts.len(),
{
    if hosts.len() == 0 {
        0
    } else {
        up_among(hosts.drop_last(), online) + if online.contains(hosts.last()) {
            1nat
        } else {
            0
        }
    }
}

/// A band of these hosts.
pub open spec fn band_of(
    kind: BandKind,
    title: Seq<char>,
    hosts: Seq<ProfileId>,
    online: Seq<ProfileId>,
    drag: &ProfileDrag,
) -> BandView {
    BandView {
        kind,
        icon: if kind == BandKind::Recent {
            Some("◷"@)
        } else {
            None
        },
        title,
        slots: preview(hosts, drag),
        count: hosts.len(),
        up: up_among(hosts, online),
    }
}

/// A band of these hosts.
pub fn host_band(
    kind: BandKind,
    title: &str,
    hosts: &Vec<ProfileId>,
    online: &Vec<ProfileId>,
    drag: &ProfileDrag,
) -> (r: Band)
    ensures
        band_view(r) == band_of(kind, title@, hosts@, online@, drag),
{
    let mut up: usize = 0;
    let mut i: usize = 0;
    while i < hosts.len()
        invariant
            i <= hosts.len(),
            up <= i,
            up == up_among(hosts@.take(i as int), online@),
        decreases hosts.len() - i,
    {
        assert(hosts@.take(i + 1).drop_last() =~= hosts@.take(i as int));
        if holds_id(online, hosts[i]) {
            up += 1;
        }
        i += 1;
    }
    assert(hosts@.take(i as int) =~= hosts@);
    Band {
        kind,
        icon: match kind {
            BandKind::Recent => Some("◷"),
            _ => None,
        },
        title: owned(title),
        slots: band_slots(hosts, drag),
        count: hosts.len(),
        up,
    }
}

/// The card of a group.
pub struct GroupCard {
    pub name: String,
    pub count: usize,
    /// What it says of its size.
    pub size: String,
    /// Whether it is folded, as a mark.
    pub arrow: &'static str,
    pub expanded: bool,
    /// Whether a dragged host would go into it.
    pub targeted: bool,
}

/// Whether a search finds a host: in its name, its address or its user.
pub open spec fn host_found(profile: &ConnectionProfile, needle: Seq<char>) -> bool {
    ||| needle.len() == 0
    ||| mentions(profile.name@, needle)
    ||| mentions(profile.host@, needle)
    ||| mentions(profile.username@, needle)
}

fn finds(profile: &ConnectionProfile, needle: &str) -> (r: bool)
    ensures
        r == host_found(profile, needle@),
{
    needle.is_empty() || lowered_contains(profile.name.as_str(), needle) || lowered_contains(
        profile.host.as_str(),
        needle,
    ) || lowered_contains(profile.username.as_str(), needle)
}

/// The hosts that a search finds, in their order.
pub open spec fn found_hosts(list: Seq<ConnectionProfile>, needle: Seq<char>) -> Seq<
    ConnectionProfile,
>
    decreases list.len(),
{
    if list.len() == 0 {
        Seq::empty()
    } else if host_found(&list.last(), needle) {
        found_hosts(list.drop_last(), needle).push(list.last())
    } else {
        found_hosts(list.drop_last(), needle)
    }
}

/// The groups of these hosts, each where it first occurs.
pub open spec fn band_names(list: Seq<ConnectionProfile>) -> Seq<Seq<char>>
    decreases list.len(),
{
    if list.len() == 0 {
        Seq::empty()
    } else {
        let before = band_names(list.drop_last());
        let group = list.last().group@;
        if blank(group) || before.contains(group) {
            before
        } else {
            before.push(group)
        }
    }
}

/// The hosts of a group, in their order.
pub open spec fn hosts_in(list: Seq<ConnectionProfile>, group: Seq<char>) -> Seq<ProfileId>
    decreases list.len(),
{
    if list.len() == 0 {
        Seq::empty()
    } else if list.last().group@ == group {
        hosts_in(list.drop_last(), group).push(list.last().id)
    } else {
        hosts_in(list.drop_last(), group)
    }
}

/// The hosts of no group, in their order.
pub open spec fn loose_hosts(list: Seq<ConnectionProfile>) -> Seq<ProfileId>
    decreases list.len(),
{
    if list.len() == 0 {
        Seq::empty()
    } else if blank(list.last().group@) {
        loose_hosts(list.drop_last()).push(list.last().id)
    } else {
        loose_hosts(list.drop_last())
    }
}

/// The hosts opened last that still exist.
pub open spec fn recent_shown(recent: Seq<ProfileId>, list: Seq<ConnectionProfile>) -> Seq<
    ProfileId,
>
    decreases recent.len(),
{
    if recent.len() == 0 {
        Seq::empty()
    } else if found_at(list, recent.last()) is Some {
        recent_shown(recent.drop_last(), list).push(recent.last())
    } else {
        recent_shown(recent.drop_last(), list)
    }
}

/// The identities of hosts.
pub open spec fn host_ids(list: Seq<ConnectionProfile>) -> Seq<ProfileId> {
    Seq::new(list.len(), |i: int| list[i].id)
}

/// What the host manager reads besides the hosts.
pub struct HostsState {
    pub filter: String,
    pub recent_hosts: Vec<ProfileId>,
    pub collapsed_groups: Vec<String>,
    pub drag: ProfileDrag,
    /// The hosts that are up.
    pub online: Vec<ProfileId>,
}

impl HostsState {
    /// What is looked for.
    pub open spec fn needle(&self) -> Seq<char> {
        ascii_lowered(trimmed(self.filter@))
    }
}

/// The host manager.
pub struct HostsView {
    /// What it says where it has no host to show.
    pub message: Option<&'static str>,
    pub groups: Vec<GroupCard>,
    pub bands: Vec<Band>,
}

/// The bands of the groups that are not folded, among the first `n`.
pub open spec fn group_bands(
    state: &HostsState,
    list: Seq<ConnectionProfile>,
    names: Seq<Seq<char>>,
    n: int,
) -> Seq<BandView>
    decreases n,
{
    if n <= 0 {
        Seq::empty()
    } else {
        let before = group_bands(state, list, names, n - 1);
        if texts(state.collapsed_groups@).contains(names[n - 1]) {
            before
        } else {
            before.push(
                band_of(
                    BandKind::Group,
                    names[n - 1],
                    hosts_in(list, names[n - 1]),
                    state.online@,
                    &state.drag,
                ),
            )
        }
    }
}

/// A band where it has hosts.
pub open spec fn band_if(
    kind: BandKind,
    title: Seq<char>,
    hosts: Seq<ProfileId>,
    state: &HostsState,
) -> Seq<BandView> {
    if hosts.len() > 0 {
        seq![band_of(kind, title, hosts, state.online@, &state.drag)]
    } else {
        Seq::empty()
    }
}

/// The bands of the host manager: what a search found, as one; or else the hosts
/// opened last, the groups that are not folded, and the hosts of no group.
pub open spec fn bands_of(state: &HostsState, sorted: Seq<ConnectionProfile>) -> Seq<BandView> {
    let needle = state.needle();
    let list = found_hosts(sorted, needle);
    if list.len() == 0 {
        Seq::empty()
    } else if needle.len() > 0 {
        band_if(BandKind::Search, "搜索结果"@, host_ids(list), state)
    } else {
        band_if(
            BandKind::Recent,
            "最近连接"@,
            recent_shown(state.recent_hosts@, sorted),
            state,
        ) + group_bands(state, list, band_names(list), band_names(list).len() as int) + band_if(
            BandKind::Ungrouped,
            "主机"@,
            loose_hosts(list),
            state,
        )
    }
}

/// Whether this is the card of a group.
pub open spec fn is_group_card(
    card: &GroupCard,
    state: &HostsState,
    list: Seq<ConnectionProfile>,
    name: Seq<char>,
) -> bool {
    &&& card.name@ == name
    &&& card.count == hosts_in(list, name).len()
    &&& card.size@ == decimal(hosts_in(list, name).len()) + " 台主机"@
    &&& card.arrow@ == if card.expanded {
        "\u{25be}"@
    } else {
        "\u{25b8}"@
    }
    &&& card.expanded == !texts(state.collapsed_groups@).contains(name)
    &&& card.targeted == match state.drag.drop {
        Some(ProfileDrop::IntoGroup(group)) => group@ == name,
        _ => false,
    }
}

/// Whether these are the cards of the groups: none while something is looked for.
pub open spec fn are_group_cards(
    cards: Seq<GroupCard>,
    state: &HostsState,
    sorted: Seq<ConnectionProfile>,
) -> bool {
    let list = found_hosts(sorted, state.needle());
    let names = band_names(list);
    if state.needle().len() > 0 {
        cards.len() == 0
    } else {
        &&& cards.len() == names.len()
        &&& forall|i: int|
            0 <= i < names.len() ==> is_group_card(&#[trigger] cards[i], state, list, names[i])
    }
}

// Building it.

fn find_hosts(profiles: &Vec<ConnectionProfile>, order: &Vec<usize>, needle: &str) -> (r: Vec<usize>)
    requires
        in_range(order@, profiles@.len() as int),
    ensures
        in_range(r@, profiles@.len() as int),
        picked(profiles@, r@) == found_hosts(picked(profiles@, order@), needle@),
{
    let mut out: Vec<usize> = Vec::new();
    let mut i: usize = 0;
    let ghost sorted = picked(profiles@, order@);
    assert(picked(profiles@, out@) =~= found_hosts(sorted.take(0), needle@));
    while i < order.len()
        invariant
            i <= order.len(),
            in_range(order@, profiles@.len() as int),
            in_range(out@, profiles@.len() as int),
            sorted == picked(profiles@, order@),
            picked(profiles@, out@) == found_hosts(sorted.take(i as int), needle@),
        decreases order.len() - i,
    {
        let ghost before = out@;
        let at: usize = order[i];
        assert(sorted.take(i + 1).drop_last() =~= sorted.take(i as int));
        assert(sorted.take(i + 1).last() == profiles@[at as int]);
        if finds(&profiles[at], needle) {
            out.push(at);
            assert(picked(profiles@, out@) =~= picked(profiles@, before).push(profiles@[at as int]));
        }
        i += 1;
    }
    assert(sorted.take(i as int) =~= sorted);
    out
}

fn names_of(profiles: &Vec<ConnectionProfile>, list: &Vec<usize>) -> (r: Vec<String>)
    requires
        in_range(list@, profiles@.len() as int),
    ensures
        texts(r@) == band_names(picked(profiles@, list@)),
{
    let mut names: Vec<String> = Vec::new();
    let mut i: usize = 0;
    let ghost all = picked(profiles@, list@);
    assert(texts(names@) =~= band_names(all.take(0)));
    while i < list.len()
        invariant
            i <= list.len(),
            in_range(list@, profiles@.len() as int),
            all == picked(profiles@, list@),
            texts(names@) == band_names(all.take(i as int)),
        decreases list.len() - i,
    {
        let ghost before = texts(names@);
        let group: &String = &profiles[list[i]].group;
        assert(all.take(i + 1).drop_last() =~= all.take(i as int));
        assert(all.take(i + 1).last().group@ == group@);
        if !is_blank(group.as_str()) && !holds(&names, group.as_str()) {
            names.push(owned(group.as_str()));
            assert(texts(names@) =~= before.push(group@));
        }
        i += 1;
    }
    assert(all.take(i as int) =~= all);
    names
}

fn hosts_of(profiles: &Vec<ConnectionProfile>, list: &Vec<usize>, group: &str) -> (r: Vec<ProfileId>)
    requires
        in_range(list@, profiles@.len() as int),
    ensures
        r@ == hosts_in(picked(profiles@, list@), group@),
{
    let mut out: Vec<ProfileId> = Vec::new();
    let mut i: usize = 0;
    let ghost all = picked(profiles@, list@);
    while i < list.len()
        invariant
            i <= list.len(),
            in_range(list@, profiles@.len() as int),
            all == picked(profiles@, list@),
            out@ == hosts_in(all.take(i as int), group@),
        decreases list.len() - i,
    {
        let profile: &ConnectionProfile = &profiles[list[i]];
        assert(all.take(i + 1).drop_last() =~= all.take(i as int));
        assert(all.take(i + 1).last() == *profile);
        if same(profile.group.as_str(), group) {
            out.push(profile.id);
        }
        i += 1;
    }
    assert(all.take(i as int) =~= all);
    out
}

fn loose_of(profiles: &Vec<ConnectionProfile>, list: &Vec<usize>) -> (r: Vec<ProfileId>)
    requires
        in_range(list@, profiles@.len() as int),
    ensures
        r@ == loose_hosts(picked(profiles@, list@)),
{
    let mut out: Vec<ProfileId> = Vec::new();
    let mut i: usize = 0;
    let ghost all = picked(profiles@, list@);
    while i < list.len()
        invariant
            i <= list.len(),
            in_range(list@, profiles@.len() as int),
            all == picked(profiles@, list@),
            out@ == loose_hosts(all.take(i as int)),
        decreases list.len() - i,
    {
        let profile: &ConnectionProfile = &profiles[list[i]];
        assert(all.take(i + 1).drop_last() =~= all.take(i as int));
        assert(all.take(i + 1).last() == *profile);
        if is_blank(profile.group.as_str()) {
            out.push(profile.id);
        }
        i += 1;
    }
    assert(all.take(i as int) =~= all);
    out
}

fn exists_in(profiles: &Vec<ConnectionProfile>, list: &Vec<usize>, id: ProfileId) -> (r: bool)
    requires
        in_range(list@, profiles@.len() as int),
    ensures
        r == found_at(picked(profiles@, list@), id) is Some,
{
    let mut i: usize = 0;
    let ghost all = picked(profiles@, list@);
    while i < list.len()
        invariant
            i <= list.len(),
            in_range(list@, profiles@.len() as int),
            all == picked(profiles@, list@),
            forall|j: int| 0 <= j < i ==> (#[trigger] all[j]).id != id,
        decreases list.len() - i,
    {
        if profiles[list[i]].id == id {
            proof {
                lemma_found_at(all, id, i as int);
            }
            return true;
        }
        i += 1;
    }
    proof {
        lemma_found_at(all, id, i as int);
    }
    false
}

fn recent_of(recent: &Vec<ProfileId>, profiles: &Vec<ConnectionProfile>, order: &Vec<usize>) -> (r:
    Vec<ProfileId>)
    requires
        in_range(order@, profiles@.len() as int),
    ensures
        r@ == recent_shown(recent@, picked(profiles@, order@)),
{
    let mut out: Vec<ProfileId> = Vec::new();
    let mut i: usize = 0;
    while i < recent.len()
        invariant
            i <= recent.len(),
            in_range(order@, profiles@.len() as int),
            out@ == recent_shown(recent@.take(i as int), picked(profiles@, order@)),
        decreases recent.len() - i,
    {
        assert(recent@.take(i + 1).drop_last() =~= recent@.take(i as int));
        if exists_in(profiles, order, recent[i]) {
            out.push(recent[i]);
        }
        i += 1;
    }
    assert(recent@.take(i as int) =~= recent@);
    out
}

fn push_band(
    bands: &mut Vec<Band>,
    kind: BandKind,
    title: &str,
    hosts: &Vec<ProfileId>,
    state: &HostsState,
)
    ensures
        bands_view(final(bands)@) == bands_view(old(bands)@) + band_if(
            kind,
            title@,
            hosts@,
            state,
        ),
{
    if hosts.len() > 0 {
        bands.push(host_band(kind, title, hosts, &state.online, &state.drag));
    }
    assert(bands_view(bands@) =~= bands_view(old(bands)@) + band_if(kind, title@, hosts@, state));
}

fn push_groups(
    bands: &mut Vec<Band>,
    cards: &mut Vec<GroupCard>,
    state: &HostsState,
    profiles: &Vec<ConnectionProfile>,
    list: &Vec<usize>,
)
    requires
        in_range(list@, profiles@.len() as int),
        old(cards)@.len() == 0,
    ensures
        ({
            let found = picked(profiles@, list@);
            let names = band_names(found);
            &&& bands_view(final(bands)@) == bands_view(old(bands)@) + group_bands(
                state,
                found,
                names,
                names.len() as int,
            )
            &&& final(cards)@.len() == names.len()
            &&& forall|i: int|
                0 <= i < names.len() ==> is_group_card(
                    &#[trigger] final(cards)@[i],
                    state,
                    found,
                    names[i],
                )
        }),
{
    let names: Vec<String> = names_of(profiles, list);
    let ghost found = picked(profiles@, list@);
    let ghost all = texts(names@);
    let ghost before = bands_view(bands@);
    assert(all.len() == names@.len());
    let mut i: usize = 0;
    assert(bands_view(bands@) =~= before + group_bands(state, found, all, 0));
    while i < names.len()
        invariant
            i <= names.len(),
            in_range(list@, profiles@.len() as int),
            found == picked(profiles@, list@),
            all == texts(names@),
            cards@.len() == i,
            bands_view(bands@) == before + group_bands(state, found, all, i as int),
            forall|j: int|
                0 <= j < i ==> is_group_card(&#[trigger] cards@[j], state, found, all[j]),
        decreases names.len() - i,
    {
        let name: &str = names[i].as_str();
        assert(all[i as int] == name@);
        let hosts: Vec<ProfileId> = hosts_of(profiles, list, name);
        let folded: bool = holds(&state.collapsed_groups, name);
        let targeted: bool = match &state.drag.drop {
            Some(ProfileDrop::IntoGroup(group)) => same(group.as_str(), name),
            _ => false,
        };
        let mut size: String = decimal_of(hosts.len() as u64);
        size.append(" 台主机");
        cards.push(
            GroupCard {
                name: owned(name),
                count: hosts.len(),
                size,
                arrow: if folded {
                    "\u{25b8}"
                } else {
                    "\u{25be}"
                },
                expanded: !folded,
                targeted,
            },
        );
        let ghost shown = bands_view(bands@);
        if !folded {
            bands.push(host_band(BandKind::Group, name, &hosts, &state.online, &state.drag));
            assert(bands_view(bands@) =~= shown.push(band_view(bands@.last())));
        }
        assert(bands_view(bands@) =~= before + group_bands(state, found, all, i + 1));
        i += 1;
    }
}

/// The host manager.
pub fn hosts_view(
    state: &HostsState,
    profiles: &Vec<ConnectionProfile>,
    grid_order: &Vec<ProfileId>,
) -> (r: HostsView)
    ensures
        ({
            let sorted = grid_sorted(profiles@, grid_order@);
            let list = found_hosts(sorted, state.needle());
            &&& r.message is Some == (list.len() == 0)
            &&& r.message matches Some(text) ==> text@ == if state.needle().len() > 0 {
                "没有匹配的主机"@
            } else {
                "还没有会话配置"@
            }
            &&& bands_view(r.bands@) == bands_of(state, sorted)
            &&& are_group_cards(r.groups@, state, sorted)
        }),
{
    let order: Vec<usize> = grid_ordered_profiles(profiles, grid_order);
    let typed: String = trim(state.filter.as_str());
    let needle_chars: Vec<char> = ascii_lowered_chars(typed.as_str());
    let needle: String = string_of(needle_chars.as_slice());
    let list: Vec<usize> = find_hosts(profiles, &order, needle.as_str());
    let ghost sorted = grid_sorted(profiles@, grid_order@);
    let ghost found = found_hosts(sorted, state.needle());
    assert(found.len() == list@.len());
    let mut bands: Vec<Band> = Vec::new();
    let mut cards: Vec<GroupCard> = Vec::new();
    let searching: bool = !needle.as_str().is_empty();
    assert(bands_view(bands@) =~= Seq::<BandView>::empty());
    if list.len() == 0 {
        assert(band_names(found) =~= Seq::empty());
        return HostsView {
            message: Some(
                if searching {
                    "没有匹配的主机"
                } else {
                    "还没有会话配置"
                },
            ),
            groups: cards,
            bands,
        };
    }
    if searching {
        let mut ids: Vec<ProfileId> = Vec::new();
        let mut i: usize = 0;
        while i < list.len()
            invariant
                i <= list.len(),
                in_range(list@, profiles@.len() as int),
                found == picked(profiles@, list@),
                ids@.len() == i,
                forall|j: int| 0 <= j < i ==> ids@[j] == (#[trigger] found[j]).id,
            decreases list.len() - i,
        {
            ids.push(profiles[list[i]].id);
            i += 1;
        }
        assert(ids@ =~= host_ids(found));
        push_band(&mut bands, BandKind::Search, "搜索结果", &ids, state);
        assert(bands_view(bands@) =~= bands_of(state, sorted));
    } else {
        let recent: Vec<ProfileId> = recent_of(&state.recent_hosts, profiles, &order);
        push_band(&mut bands, BandKind::Recent, "最近连接", &recent, state);
        push_groups(&mut bands, &mut cards, state, profiles, &list);
        let loose: Vec<ProfileId> = loose_of(profiles, &list);
        push_band(&mut bands, BandKind::Ungrouped, "主机", &loose, state);
        assert(bands_view(bands@) =~= bands_of(state, sorted));
    }
    HostsView { message: None, groups: cards, bands }
}

/// A group has one band, wherever its hosts stand.
pub proof fn law_a_group_has_one_band(list: Seq<ConnectionProfile>)
    ensures
        band_names(list).no_duplicates(),
        forall|i: int| 0 <= i < band_names(list).len() ==> !blank(#[trigger] band_names(list)[i]),
    decreases list.len(),
{
    if list.len() > 0 {
        law_a_group_has_one_band(list.drop_last());
        let before = band_names(list.drop_last());
        let group = list.last().group@;
        if !blank(group) && !before.contains(group) {
            let all = before.push(group);
            assert forall|i: int, j: int|
                0 <= i < all.len() && 0 <= j < all.len() && i != j implies all[i] != all[j] by {
                if i == before.len() {
                    assert(before[j] == all[j]);
                    assert(before.contains(before[j]));
                } else if j == before.len() {
                    assert(before[i] == all[i]);
                    assert(before.contains(before[i]));
                }
            }
        }
    }
}

proof fn lemma_hosts_in_keeps(list: Seq<ConnectionProfile>, group: Seq<char>, k: int)
    requires
        0 <= k < list.len(),
        list[k].group@ == group,
    ensures
        hosts_in(list, group).contains(list[k].id),
    decreases list.len(),
{
    let front = list.drop_last();
    let all = hosts_in(list, group);
    if k == list.len() - 1 {
        assert(all[all.len() - 1] == list[k].id);
    } else {
        lemma_hosts_in_keeps(front, group, k);
        let before = hosts_in(front, group);
        let m = choose|m: int| 0 <= m < before.len() && before[m] == front[k].id;
        assert(all[m] == list[k].id);
    }
}

/// Every host that is not looked past stands in a band: in that of its group, or
/// among the hosts of no group.
pub proof fn law_every_host_stands_in_a_band(list: Seq<ConnectionProfile>, k: int)
    requires
        0 <= k < list.len(),
    ensures
        blank(list[k].group@) ==> loose_hosts(list).contains(list[k].id),
        !blank(list[k].group@) ==> band_names(list).contains(list[k].group@) && hosts_in(
            list,
            list[k].group@,
        ).contains(list[k].id),
    decreases list.len(),
{
    let front = list.drop_last();
    let group = list[k].group@;
    if !blank(group) {
        lemma_hosts_in_keeps(list, group, k);
    }
    let names = band_names(list);
    let loose = loose_hosts(list);
    if k == list.len() - 1 {
        if blank(group) {
            assert(loose[loose.len() - 1] == list[k].id);
        } else if !band_names(front).contains(group) {
            assert(names[names.len() - 1] == group);
        }
    } else {
        law_every_host_stands_in_a_band(front, k);
        if blank(group) {
            let before = loose_hosts(front);
            let m = choose|m: int| 0 <= m < before.len() && before[m] == front[k].id;
            assert(loose[m] == list[k].id);
        } else {
            let before = band_names(front);
            let m = choose|m: int| 0 <= m < before.len() && before[m] == group;
            assert(names[m] == group);
        }
    }
}

proof fn lemma_hosts_in_members(list: Seq<ConnectionProfile>, group: Seq<char>, id: ProfileId)
    requires
        hosts_in(list, group).contains(id),
    ensures
        exists|k: int|
            0 <= k < list.len() && (#[trigger] list[k]).group@ == group && list[k].id == id,
    decreases list.len(),
{
    if list.len() > 0 {
        let front = list.drop_last();
        let all = hosts_in(list, group);
        let last = list[list.len() - 1];
        if last.group@ == group && last.id == id {
            assert(list[list.len() - 1].id == id);
        } else {
            let m = choose|m: int| 0 <= m < all.len() && all[m] == id;
            assert(hosts_in(front, group)[m] == id);
            lemma_hosts_in_members(front, group, id);
            let k = choose|k: int|
                0 <= k < front.len() && (#[trigger] front[k]).group@ == group && front[k].id == id;
            assert(list[k] == front[k]);
        }
    }
}

proof fn lemma_same_hosts(
    one: Seq<ConnectionProfile>,
    other: Seq<ConnectionProfile>,
    group: Seq<char>,
    id: ProfileId,
)
    requires
        one.to_multiset() == other.to_multiset(),
        hosts_in(one, group).contains(id),
    ensures
        hosts_in(other, group).contains(id),
{
    lemma_hosts_in_members(one, group, id);
    let k = choose|k: int|
        0 <= k < one.len() && (#[trigger] one[k]).group@ == group && one[k].id == id;
    one.to_multiset_ensures();
    other.to_multiset_ensures();
    assert(one.contains(one[k]));
    assert(one.to_multiset().count(one[k]) > 0);
    assert(other.to_multiset().count(one[k]) > 0);
    assert(other.contains(one[k]));
    let m = choose|m: int| 0 <= m < other.len() && other[m] == one[k];
    lemma_hosts_in_keeps(other, group, m);
}

proof fn lemma_members_are_hosts(list: Seq<ConnectionProfile>, group: Seq<char>, needle: Seq<char>)
    ensures
        shown_members(list, group, needle, true) == hosts_in(list, group),
    decreases list.len(),
{
    if list.len() > 0 {
        lemma_members_are_hosts(list.drop_last(), group, needle);
    }
}

/// The two views never disagree about where a host lives: the band of a group holds
/// just the hosts that the tree shows in the folder of that name, however either is
/// arranged.
pub proof fn law_both_views_agree_on_folders(
    profiles: Seq<ConnectionProfile>,
    grid_order: Seq<ProfileId>,
    group: Seq<char>,
    id: ProfileId,
)
    ensures
        hosts_in(grid_sorted(profiles, grid_order), group).contains(id) == shown_members(
            tree_sorted(profiles),
            group,
            Seq::empty(),
            true,
        ).contains(id),
{
    let tree = tree_sorted(profiles);
    let grid = grid_sorted(profiles, grid_order);
    law_the_grid_shows_every_session(tree, grid_order);
    lemma_members_are_hosts(tree, group, Seq::empty());
    if hosts_in(grid, group).contains(id) {
        lemma_same_hosts(grid, tree, group, id);
    }
    if hosts_in(tree, group).contains(id) {
        lemma_same_hosts(tree, grid, group, id);
    }
}

proof fn lemma_icon_at(key: Seq<char>, i: int, from: int)
    requires
        0 <= from <= i < ICON_COUNT,
        icon_key(i) == key,
        forall|j: int| from <= j < i ==> #[trigger] icon_key(j) != key,
    ensures
        icon_named_from(key, from) == Some(i),
    decreases i - from,
{
    if from < i {
        assert(icon_key(from) != key);
        lemma_icon_at(key, i, from + 1);
    }
}

/// An icon is known by its key: these have these marks and colours.
pub proof fn law_these_icons_look_like_this()
    ensures
        icon_named("ubuntu"@) matches Some(i) && icon_glyph(i) == "\u{25c9}"@ && icon_color(i) == opaque(
            233,
            84,
            32,
        ),
        icon_named("debian"@) matches Some(i) && icon_glyph(i) == "\u{25c8}"@ && icon_color(i) == opaque(
            215,
            10,
            83,
        ),
        icon_named("redhat"@) matches Some(i) && icon_glyph(i) == "\u{25b3}"@ && icon_color(i) == opaque(
            238,
            0,
            0,
        ),
        icon_named("alpine"@) matches Some(i) && icon_glyph(i) == "\u{25b2}"@ && icon_color(i) == opaque(
            13,
            89,
            126,
        ),
        icon_named("windows"@) matches Some(i) && icon_glyph(i) == "\u{25a6}"@ && icon_color(i) == opaque(
            0,
            120,
            212,
        ),
        icon_named("server"@) matches Some(i) && icon_glyph(i) == "\u{25a4}"@ && icon_color(i) == opaque(
            90,
            100,
            120,
        ),
        icon_named("network"@) matches Some(i) && icon_glyph(i) == "\u{21c4}"@ && icon_color(i) == opaque(
            16,
            138,
            122,
        ),
        icon_named("database"@) matches Some(i) && icon_glyph(i) == "\u{25ab}"@ && icon_color(i) == opaque(
            52,
            92,
            168,
        ),
        icon_named("container"@) matches Some(i) && icon_glyph(i) == "\u{25a7}"@ && icon_color(i) == opaque(
            36,
            150,
            237,
        ),
{
    reveal_strlit("ubuntu");
    reveal_strlit("debian");
    reveal_strlit("redhat");
    reveal_strlit("alpine");
    reveal_strlit("windows");
    reveal_strlit("server");
    reveal_strlit("network");
    reveal_strlit("database");
    reveal_strlit("container");
    assert("ubuntu"@[0] != "debian"@[0]);
    assert("ubuntu"@[0] != "redhat"@[0]);
    assert("debian"@[0] != "redhat"@[0]);
    assert("ubuntu"@[0] != "alpine"@[0]);
    assert("debian"@[0] != "alpine"@[0]);
    assert("redhat"@[0] != "alpine"@[0]);
    assert("ubuntu"@[0] != "server"@[0]);
    assert("debian"@[0] != "server"@[0]);
    assert("redhat"@[0] != "server"@[0]);
    assert("alpine"@[0] != "server"@[0]);
    assert("windows"@[0] != "network"@[0]);
    assert("ubuntu"@.len() == 6);
    assert("debian"@.len() == 6);
    assert("redhat"@.len() == 6);
    assert("alpine"@.len() == 6);
    assert("windows"@.len() == 7);
    assert("server"@.len() == 6);
    assert("network"@.len() == 7);
    assert("database"@.len() == 8);
    assert("container"@.len() == 9);
    lemma_icon_at("ubuntu"@, 0, 0);
    lemma_icon_at("debian"@, 1, 0);
    lemma_icon_at("redhat"@, 2, 0);
    lemma_icon_at("alpine"@, 3, 0);
    lemma_icon_at("windows"@, 4, 0);
    lemma_icon_at("server"@, 5, 0);
    lemma_icon_at("network"@, 6, 0);
    lemma_icon_at("database"@, 7, 0);
    lemma_icon_at("container"@, 8, 0);
}

/// A key that no icon has names none.
pub proof fn law_an_unknown_icon_is_none(key: Seq<char>, from: int)
    requires
        0 <= from,
        forall|i: int| from <= i < ICON_COUNT ==> #[trigger] icon_key(i) != key,
    ensures
        icon_named_from(key, from) is None,
    decreases ICON_COUNT - from,
{
    if from < ICON_COUNT {
        assert(icon_key(from) != key);
        law_an_unknown_icon_is_none(key, from + 1);
    }
}

/// Terminals share one mark; a shell of this machine, a serial line and a remote
/// desktop each have their own.
pub proof fn law_protocols_have_these_marks()
    ensures
        glyph_of(Protocol::Ssh) == seq!['\u{25b8}'],
        glyph_of(Protocol::Sftp) == seq!['\u{25b8}'],
        glyph_of(Protocol::Telnet) == seq!['\u{25b8}'],
        glyph_of(Protocol::LocalShell) == seq!['\u{25a3}'],
        glyph_of(Protocol::Serial) == seq!['\u{2325}'],
        glyph_of(Protocol::Rdp) == seq!['\u{25a4}'],
{
    reveal_strlit("\u{25b8}");
    reveal_strlit("\u{25a3}");
    reveal_strlit("\u{2325}");
    reveal_strlit("\u{25a4}");
    assert(glyph_of(Protocol::Ssh) =~= seq!['\u{25b8}']);
    assert(glyph_of(Protocol::LocalShell) =~= seq!['\u{25a3}']);
    assert(glyph_of(Protocol::Serial) =~= seq!['\u{2325}']);
    assert(glyph_of(Protocol::Rdp) =~= seq!['\u{25a4}']);
}

/// Below a name stands the host, after its user and an at sign where it has a user.
pub proof fn law_a_host_is_named_with_its_user(user: Seq<char>, host: Seq<char>)
    ensures
        blank(user) ==> subtitle_text(user, host) == host,
        !blank(user) ==> subtitle_text(user, host) == user.push('@') + host,
{
    reveal_strlit("@");
    assert(user + "@"@ + host =~= user.push('@') + host);
}

/// A band counts the hosts that are up among its own.
pub proof fn law_a_band_counts_what_is_up(hosts: Seq<ProfileId>, online: Seq<ProfileId>)
    ensures
        up_among(hosts, online) == hosts.filter(|id: ProfileId| online.contains(id)).len(),
    decreases hosts.len(),
{
    reveal(Seq::filter);
    if hosts.len() > 0 {
        law_a_band_counts_what_is_up(hosts.drop_last(), online);
    }
}

/// A search keeps the hosts that it finds, as they stood: those whose name, address or
/// user holds what is looked for.
pub proof fn law_a_search_keeps_what_it_finds(list: Seq<ConnectionProfile>, needle: Seq<char>)
    ensures
        found_hosts(list, needle) == list.filter(
            |p: ConnectionProfile|
                needle.len() == 0 || mentions(p.name@, needle) || mentions(p.host@, needle)
                    || mentions(p.username@, needle),
        ),
        needle.len() == 0 ==> found_hosts(list, needle) == list,
    decreases list.len(),
{
    reveal(Seq::filter);
    if list.len() > 0 {
        law_a_search_keeps_what_it_finds(list.drop_last(), needle);
        assert(list =~= list.drop_last().push(list.last()));
    } else {
        assert(found_hosts(list, needle) =~= list);
    }
}

/// The band of a group holds the hosts of the group, and the last band those of no
/// group, as they stood.
pub proof fn law_a_band_holds_its_own(list: Seq<ConnectionProfile>, group: Seq<char>)
    ensures
        hosts_in(list, group) == list.filter(
            |p: ConnectionProfile| p.group@ == group,
        ).map_values(|p: ConnectionProfile| p.id),
        loose_hosts(list) == list.filter(|p: ConnectionProfile| blank(p.group@)).map_values(
            |p: ConnectionProfile| p.id,
        ),
    decreases list.len(),
{
    reveal(Seq::filter);
    let id = |p: ConnectionProfile| p.id;
    let own = |p: ConnectionProfile| p.group@ == group;
    let loose = |p: ConnectionProfile| blank(p.group@);
    if list.len() > 0 {
        law_a_band_holds_its_own(list.drop_last(), group);
    }
    assert(hosts_in(list, group) =~= list.filter(own).map_values(id));
    assert(loose_hosts(list) =~= list.filter(loose).map_values(id));
}

/// Of the hosts opened last those are shown that still exist, as they stood.
pub proof fn law_recent_hosts_still_exist(recent: Seq<ProfileId>, list: Seq<ConnectionProfile>)
    ensures
        recent_shown(recent, list) == recent.filter(|id: ProfileId| host_ids(list).contains(id)),
    decreases recent.len(),
{
    reveal(Seq::filter);
    if recent.len() > 0 {
        law_recent_hosts_still_exist(recent.drop_last(), list);
        let id = recent.last();
        lemma_found(list, id);
        if let Some(k) = found_at(list, id) {
            assert(host_ids(list)[k] == id);
        }
        if host_ids(list).contains(id) {
            let k = choose|k: int| 0 <= k < list.len() && host_ids(list)[k] == id;
            assert(list[k].id == id);
        }
    }
}

/// A group that is not folded has a band, one that is folded has none, and the bands
/// stand in the order of the groups.
pub proof fn law_open_groups_have_their_bands(
    state: &HostsState,
    list: Seq<ConnectionProfile>,
    names: Seq<Seq<char>>,
    n: int,
)
    requires
        0 <= n <= names.len(),
    ensures
        group_bands(state, list, names, n) == names.take(n).filter(
            |name: Seq<char>| !texts(state.collapsed_groups@).contains(name),
        ).map_values(
            |name: Seq<char>|
                band_of(
                    BandKind::Group,
                    name,
                    hosts_in(list, name),
                    state.online@,
                    &state.drag,
                ),
        ),
    decreases n,
{
    reveal(Seq::filter);
    let open = |name: Seq<char>| !texts(state.collapsed_groups@).contains(name);
    let band = |name: Seq<char>|
        band_of(BandKind::Group, name, hosts_in(list, name), state.online@, &state.drag);
    if n > 0 {
        law_open_groups_have_their_bands(state, list, names, n - 1);
        assert(names.take(n).drop_last() =~= names.take(n - 1));
        assert(names.take(n).last() == names[n - 1]);
    }
    assert(group_bands(state, list, names, n) =~= names.take(n).filter(open).map_values(band));
}

/// A search shows one band, of all that it found.
pub proof fn law_a_search_shows_one_band(state: &HostsState, sorted: Seq<ConnectionProfile>)
    requires
        state.needle().len() > 0,
    ensures
        found_hosts(sorted, state.needle()).len() == 0 ==> bands_of(state, sorted).len() == 0,
        found_hosts(sorted, state.needle()).len() > 0 ==> {
            let bands = bands_of(state, sorted);
            &&& bands.len() == 1
            &&& bands[0].kind == BandKind::Search
            &&& bands[0].count == found_hosts(sorted, state.needle()).len()
            &&& bands[0].slots == preview(
                host_ids(found_hosts(sorted, state.needle())),
                &state.drag,
            )
        },
{
}

/// Without a search the hosts opened last come first, where there are any, then the
/// groups, and last the hosts of no group, where there are any.
pub proof fn law_bands_stand_in_this_order(state: &HostsState, sorted: Seq<ConnectionProfile>)
    requires
        state.needle().len() == 0,
        sorted.len() > 0,
    ensures
        ({
            let bands = bands_of(state, sorted);
            let recent = recent_shown(state.recent_hosts@, sorted);
            let loose = loose_hosts(sorted);
            let groups = group_bands(
                state,
                sorted,
                band_names(sorted),
                band_names(sorted).len() as int,
            );
            let first: int = if recent.len() > 0 {
                1
            } else {
                0
            };
            let last: int = if loose.len() > 0 {
                1
            } else {
                0
            };
            &&& bands.len() == first + groups.len() + last
            &&& first == 1 ==> bands[0].kind == BandKind::Recent && bands[0].count == recent.len()
                && bands[0].slots == preview(recent, &state.drag)
            &&& bands.subrange(first, first + groups.len()) == groups
            &&& last == 1 ==> bands.last().kind == BandKind::Ungrouped && bands.last().count
                == loose.len() && bands.last().slots == preview(loose, &state.drag)
        }),
{
    law_a_search_keeps_what_it_finds(sorted, state.needle());
    let groups = group_bands(state, sorted, band_names(sorted), band_names(sorted).len() as int);
    let first: int = if recent_shown(state.recent_hosts@, sorted).len() > 0 {
        1
    } else {
        0
    };
    assert(bands_of(state, sorted).subrange(first, first + groups.len()) =~= groups);
}

} // verus!

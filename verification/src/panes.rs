//! Split panes: which sessions are tiled, how, and which one has the keyboard.

use vstd::prelude::*;

verus! {

/// Identifies an open session.
#[derive(Debug, Clone, Copy, PartialEq, Eq, Structural)]
pub struct SessionId(pub u64);

/// At most this many terminals are tiled at once.
pub const MAX_PANES: usize = 6;

/// How split panes are arranged.
#[derive(Debug, Clone, Copy, PartialEq, Eq, Structural)]
pub enum TileMode {
    /// A roughly square grid.
    Grid,
    /// All side by side in one row.
    Columns,
    /// All stacked in one column.
    Rows,
}

// The grid.

/// The least number whose square is at least `n`, counting up from `c`.
pub open spec fn is_square_root_up(n: int, c: int) -> bool {
    c >= 1 && c * c >= n && (c - 1) * (c - 1) < n
}

/// Whether this many columns and rows are how `count` panes are tiled. Few
/// panes have a layout of their own; many form the squarest grid that is no
/// taller than wide.
pub open spec fn grid_dims(count: int, mode: TileMode, cols: int, rows: int) -> bool {
    let count = if count < 1 {
        1
    } else {
        count
    };
    match mode {
        TileMode::Columns => cols == count && rows == 1,
        TileMode::Rows => cols == 1 && rows == count,
        TileMode::Grid => if count <= 3 {
            cols == count && rows == 1
        } else if count == 4 {
            cols == 2 && rows == 2
        } else if count <= 6 {
            cols == 3 && rows == 2
        } else {
            is_square_root_up(count, cols) && rows == (count + cols - 1) / cols
        },
    }
}

/// The least number whose square is at least `n`.
fn square_root_up(n: usize) -> (r: usize)
    requires
        n >= 2,
    ensures
        is_square_root_up(n as int, r as int),
        r < n || n == 2,
{
    let mut c: usize = 1;
    while c < n && (c as u128) * (c as u128) < n as u128
        invariant
            n >= 2,
            1 <= c <= n,
            (c - 1) * (c - 1) < n,
            c as u128 * c as u128 <= u128::MAX,
        decreases n - c,
    {
        assert((c + 1 - 1) * (c + 1 - 1) == c * c) by (nonlinear_arith);
        c += 1;
        assert((c as int) * (c as int) <= u128::MAX as int) by (nonlinear_arith)
            requires
                0 <= c as int <= 0xffff_ffff_ffff_ffff,
        ;
    }
    proof {
        if c == n {
            assert(c * c >= n) by (nonlinear_arith)
                requires
                    c == n,
                    n >= 1,
            ;
            assert(n == 2) by (nonlinear_arith)
                requires
                    (n - 1) * (n - 1) < n,
                    n >= 2,
            ;
        }
    }
    c
}

/// How many columns and rows of panes a number of panes is tiled into.
pub fn pane_grid_dims(count: usize, mode: TileMode) -> (r: (usize, usize))
    ensures
        grid_dims(count as int, mode, r.0 as int, r.1 as int),
{
    let count: usize = if count < 1 {
        1
    } else {
        count
    };
    match mode {
        TileMode::Columns => (count, 1),
        TileMode::Rows => (1, count),
        TileMode::Grid => {
            if count <= 3 {
                (count, 1)
            } else if count == 4 {
                (2, 2)
            } else if count <= 6 {
                (3, 2)
            } else {
                let cols: usize = square_root_up(count);
                let rows: usize = count / cols;
                proof {
                    vstd::arithmetic::div_mod::lemma_fundamental_div_mod(count as int, cols as int);
                    vstd::arithmetic::div_mod::lemma_div_is_ordered_by_denominator(
                        count as int,
                        1,
                        cols as int,
                    );
                    let q = count as int / cols as int;
                    let m = count as int % cols as int;
                    if m == 0 {
                        assert((count + cols - 1) as int == q * cols + (cols - 1))
                            by (nonlinear_arith)
                            requires
                                count as int == cols as int * q + m,
                                m == 0,
                        ;
                        vstd::arithmetic::div_mod::lemma_fundamental_div_mod_converse(
                            count + cols - 1,
                            cols as int,
                            q,
                            cols - 1,
                        );
                    } else {
                        assert((count + cols - 1) as int == (q + 1) * cols + (m - 1))
                            by (nonlinear_arith)
                            requires
                                count as int == cols as int * q + m,
                        ;
                        vstd::arithmetic::div_mod::lemma_fundamental_div_mod_converse(
                            count + cols - 1,
                            cols as int,
                            q + 1,
                            m - 1,
                        );
                        assert(q < count) by (nonlinear_arith)
                            requires
                                count as int == cols as int * q + m,
                                m > 0,
                                cols >= 1,
                                q >= 0,
                        ;
                    }
                }
                if count % cols == 0 {
                    (cols, rows)
                } else {
                    (cols, rows + 1)
                }
            }
        },
    }
}

/// A grid has room for every pane, and none of its rows is empty.
pub proof fn law_grid_holds_every_pane(count: int, mode: TileMode, cols: int, rows: int)
    requires
        count >= 1,
        grid_dims(count, mode, cols, rows),
    ensures
        cols >= 1,
        rows >= 1,
        cols * rows >= count,
        cols * (rows - 1) < count,
{
    if mode == TileMode::Grid && count > 6 {
        let n = count + cols - 1;
        vstd::arithmetic::div_mod::lemma_fundamental_div_mod(n, cols);
        assert(cols * rows >= count && cols * (rows - 1) < count && rows >= 1) by (nonlinear_arith)
            requires
                n == count + cols - 1,
                n == cols * rows + n % cols,
                0 <= n % cols < cols,
                cols >= 1,
                count >= 1,
        ;
    } else {
        assert(cols * (rows - 1) < count && cols * rows >= count) by (nonlinear_arith)
            requires
                count >= 1,
                (cols == count && rows == 1) || (cols == 1 && rows == count) || (cols == 2 && rows
                    == 2 && count == 4) || (cols == 3 && rows == 2 && 5 <= count <= 6),
        ;
    }
}

// The panes.

/// The position of the first of these that is `id`.
pub open spec fn position(ids: Seq<SessionId>, id: SessionId) -> Option<int>
    decreases ids.len(),
{
    if ids.len() == 0 {
        None
    } else if ids[0] == id {
        Some(0)
    } else {
        match position(ids.drop_first(), id) {
            Some(k) => Some(k + 1),
            None => None,
        }
    }
}

proof fn lemma_position(ids: Seq<SessionId>, id: SessionId, k: int)
    requires
        0 <= k <= ids.len(),
        forall|i: int| 0 <= i < k ==> ids[i] != id,
        k < ids.len() ==> ids[k] == id,
    ensures
        position(ids, id) == if k < ids.len() {
            Some(k)
        } else {
            None
        },
    decreases ids.len(),
{
    if ids.len() > 0 && k > 0 {
        assert forall|i: int| 0 <= i < k - 1 implies ids.drop_first()[i] != id by {
            assert(ids.drop_first()[i] == ids[i + 1]);
        }
        lemma_position(ids.drop_first(), id, k - 1);
    }
}

fn position_of(ids: &Vec<SessionId>, id: SessionId) -> (r: Option<usize>)
    ensures
        r matches Some(k) ==> position(ids@, id) == Some(k as int) && k < ids@.len() && ids@[k as int]
            == id,
        r is None <==> position(ids@, id) is None,
        r is None <==> !ids@.contains(id),
{
    let mut i: usize = 0;
    while i < ids.len()
        invariant
            i <= ids.len(),
            forall|j: int| 0 <= j < i ==> ids@[j] != id,
        decreases ids.len() - i,
    {
        if ids[i] == id {
            proof {
                lemma_position(ids@, id, i as int);
            }
            return Some(i);
        }
        i += 1;
    }
    proof {
        lemma_position(ids@, id, i as int);
    }
    None
}

/// An open session, as far as panes care.
#[derive(Debug, Clone, Copy, PartialEq, Eq, Structural)]
pub struct OpenSession {
    pub id: SessionId,
    /// A remote desktop fills the whole area and cannot be a pane.
    pub rdp: bool,
}

/// The open sessions in tab order, and the one that is active.
pub struct Sessions {
    pub open: Vec<OpenSession>,
    pub active: Option<SessionId>,
}

/// The identities of open sessions, in order.
pub open spec fn ids_of(open: Seq<OpenSession>) -> Seq<SessionId> {
    Seq::new(open.len(), |i: int| open[i].id)
}

impl Sessions {
    /// The identities of the open sessions, in order.
    pub open spec fn ids(&self) -> Seq<SessionId> {
        ids_of(self.open@)
    }

    /// Whether the session is a remote desktop.
    pub open spec fn is_rdp(&self, id: SessionId) -> bool {
        exists|i: int| 0 <= i < self.open@.len() && self.open@[i].id == id && self.open@[i].rdp
    }

    fn contains(&self, id: SessionId) -> (r: bool)
        ensures
            r == self.ids().contains(id),
    {
        let mut i: usize = 0;
        while i < self.open.len()
            invariant
                i <= self.open.len(),
                forall|j: int| 0 <= j < i ==> self.open@[j].id != id,
            decreases self.open.len() - i,
        {
            if self.open[i].id == id {
                assert(self.ids()[i as int] == id);
                return true;
            }
            i += 1;
        }
        assert forall|j: int| 0 <= j < self.ids().len() implies self.ids()[j] != id by {
            assert(self.open@[j].id != id);
        }
        false
    }

    fn session_is_rdp(&self, id: SessionId) -> (r: bool)
        ensures
            r == self.is_rdp(id),
    {
        let mut i: usize = 0;
        while i < self.open.len()
            invariant
                i <= self.open.len(),
                forall|j: int| 0 <= j < i ==> !(self.open@[j].id == id && self.open@[j].rdp),
            decreases self.open.len() - i,
        {
            if self.open[i].id == id && self.open[i].rdp {
                return true;
            }
            i += 1;
        }
        false
    }
}

/// What the user is told about the panes.
#[derive(Debug, Clone, Copy, PartialEq, Eq, Structural)]
pub enum PaneNotice {
    NeedTwoSessions,
    Tiled(TileMode, usize),
    Merged,
    RdpCannotSplit,
    ConnectFirst,
    TooManyPanes,
    NoMoreSessions,
    Split(usize),
}

/// What follows from a change of the panes.
#[derive(Debug, Clone, Copy, PartialEq, Eq, Structural)]
pub struct PaneOutcome {
    /// The session to make active.
    pub activate: Option<SessionId>,
    /// Scrolling and selection start afresh and the terminals are fitted.
    pub refit: bool,
    pub notice: Option<PaneNotice>,
}

/// The tiled sessions in order, the one that has the keyboard, and how they are
/// arranged. No panes at all means one session fills the area.
pub struct Panes {
    pub panes: Vec<SessionId>,
    pub focused: usize,
    pub mode: TileMode,
}

/// The panes whose session is still open, each once, in order.
pub open spec fn still_open(panes: Seq<SessionId>, open: Seq<SessionId>) -> Seq<SessionId>
    decreases panes.len(),
{
    if panes.len() == 0 {
        Seq::empty()
    } else {
        let before = still_open(panes.drop_last(), open);
        if open.contains(panes.last()) && !before.contains(panes.last()) {
            before.push(panes.last())
        } else {
            before
        }
    }
}

/// Whether no session occurs twice.
pub open spec fn distinct(ids: Seq<SessionId>) -> bool {
    forall|i: int, j: int| 0 <= i < j < ids.len() ==> ids[i] != ids[j]
}

/// The first open session from position `from` on that can become a pane.
pub open spec fn candidate(sessions: &Sessions, panes: Seq<SessionId>, from: int) -> Option<
    SessionId,
>
    decreases sessions.open@.len() - from,
{
    if from < 0 || from >= sessions.open@.len() {
        None
    } else if !panes.contains(sessions.open@[from].id) && !sessions.is_rdp(
        sessions.open@[from].id,
    ) {
        Some(sessions.open@[from].id)
    } else {
        candidate(sessions, panes, from + 1)
    }
}

/// The first open sessions, at most as many as are tiled at once.
pub open spec fn first_sessions(ids: Seq<SessionId>) -> Seq<SessionId> {
    ids.take(
        if ids.len() < MAX_PANES {
            ids.len() as int
        } else {
            MAX_PANES as int
        },
    )
}

impl Panes {
    /// What holds of the panes between operations: there are none or at least
    /// two, never too many, none twice, and the focused one exists.
    pub open spec fn wf(&self) -> bool {
        &&& self.panes@.len() != 1
        &&& self.panes@.len() <= MAX_PANES
        &&& distinct(self.panes@)
        &&& self.focused < self.panes@.len() || (self.panes@.len() == 0 && self.focused == 0)
    }

    /// No panes.
    pub fn new() -> (r: Panes)
        ensures
            r.wf(),
            r.panes@.len() == 0,
            r.mode == TileMode::Grid,
    {
        Panes { panes: Vec::new(), focused: 0, mode: TileMode::Grid }
    }

    /// Tiles the open sessions. The active one keeps the keyboard if it is among
    /// them. It takes two.
    pub fn tile_all_sessions(&mut self, sessions: &Sessions, mode: TileMode) -> (r: PaneOutcome)
        ensures
            ({
                let ids = first_sessions(sessions.ids());
                if ids.len() < 2 {
                    &&& final(self).panes@ == old(self).panes@
                    &&& final(self).focused == old(self).focused
                    &&& final(self).mode == old(self).mode
                    &&& r == (PaneOutcome {
                        activate: None,
                        refit: false,
                        notice: Some(PaneNotice::NeedTwoSessions),
                    })
                } else {
                    &&& final(self).panes@ == ids
                    &&& final(self).mode == mode
                    &&& final(self).focused == {
                        let wanted = match sessions.active {
                            Some(active) => match position(ids, active) {
                                Some(k) => k,
                                None => old(self).focused as int,
                            },
                            None => old(self).focused as int,
                        };
                        if wanted < ids.len() {
                            wanted
                        } else {
                            ids.len() - 1
                        }
                    }
                    &&& r == (PaneOutcome {
                        activate: None,
                        refit: true,
                        notice: Some(PaneNotice::Tiled(mode, ids.len() as usize)),
                    })
                }
            }),
            old(self).wf() && distinct(sessions.ids()) ==> final(self).wf(),
    {
        let ghost all = sessions.ids();
        let mut ids: Vec<SessionId> = Vec::new();
        let mut i: usize = 0;
        while i < sessions.open.len() && i < MAX_PANES
            invariant
                i <= sessions.open.len(),
                i <= MAX_PANES,
                all == sessions.ids(),
                ids@ == all.take(i as int),
            decreases sessions.open.len() - i,
        {
            ids.push(sessions.open[i].id);
            i += 1;
            assert(all.take(i as int) =~= all.take(i - 1).push(all[i - 1]));
        }
        assert(ids@ =~= first_sessions(all));
        if ids.len() < 2 {
            return PaneOutcome {
                activate: None,
                refit: false,
                notice: Some(PaneNotice::NeedTwoSessions),
            };
        }
        let count: usize = ids.len();
        if let Some(active) = sessions.active {
            if let Some(k) = position_of(&ids, active) {
                self.focused = k;
            }
        }
        if self.focused > count - 1 {
            self.focused = count - 1;
        }
        self.panes = ids;
        self.mode = mode;
        PaneOutcome { activate: None, refit: true, notice: Some(PaneNotice::Tiled(mode, count)) }
    }

    /// Shows one session again.
    pub fn untile_sessions(&mut self) -> (r: PaneOutcome)
        ensures
            final(self).wf(),
            final(self).panes@.len() == 0,
            final(self).mode == old(self).mode,
            r == (PaneOutcome { activate: None, refit: true, notice: Some(PaneNotice::Merged) }),
    {
        self.panes = Vec::new();
        self.focused = 0;
        PaneOutcome { activate: None, refit: true, notice: Some(PaneNotice::Merged) }
    }

    /// Adds the first open session that is not tiled yet as a pane after the
    /// focused one. The first split starts from the active session. Where
    /// nothing is left to add, one session is shown again.
    pub fn split_pane(&mut self, sessions: &Sessions) -> (r: PaneOutcome)
        requires
            old(self).wf(),
        ensures
            ({
                let single = old(self).panes@.len() == 0;
                let active_rdp = sessions.active matches Some(id) && sessions.is_rdp(id);
                let seeded = if single {
                    seq![sessions.active->0]
                } else {
                    old(self).panes@
                };
                let added = candidate(sessions, seeded, 0);
                let at = old(self).focused + 1;
                if single && active_rdp {
                    &&& final(self).panes@ == old(self).panes@
                    &&& final(self).focused == old(self).focused
                    &&& final(self).mode == old(self).mode
                    &&& r == (PaneOutcome {
                        activate: None,
                        refit: false,
                        notice: Some(PaneNotice::RdpCannotSplit),
                    })
                } else if single && sessions.active is None {
                    &&& final(self).panes@ == old(self).panes@
                    &&& final(self).focused == old(self).focused
                    &&& final(self).mode == TileMode::Grid
                    &&& r == (PaneOutcome {
                        activate: None,
                        refit: false,
                        notice: Some(PaneNotice::ConnectFirst),
                    })
                } else if seeded.len() >= MAX_PANES {
                    &&& final(self).panes@ == old(self).panes@
                    &&& final(self).focused == old(self).focused
                    &&& final(self).mode == TileMode::Grid
                    &&& r == (PaneOutcome {
                        activate: None,
                        refit: false,
                        notice: Some(PaneNotice::TooManyPanes),
                    })
                } else if added is None {
                    &&& final(self).panes@.len() == 0
                    &&& final(self).focused == 0
                    &&& final(self).mode == TileMode::Grid
                    &&& r == (PaneOutcome {
                        activate: None,
                        refit: false,
                        notice: Some(PaneNotice::NoMoreSessions),
                    })
                } else {
                    &&& final(self).panes@ == seeded.insert(at, added->0)
                    &&& final(self).focused == at
                    &&& final(self).mode == TileMode::Grid
                    &&& r == (PaneOutcome {
                        activate: added,
                        refit: true,
                        notice: Some(PaneNotice::Split((seeded.len() + 1) as usize)),
                    })
                }
            }),
            final(self).wf(),
    {
        if self.panes.len() == 0 {
            if let Some(active) = sessions.active {
                if sessions.session_is_rdp(active) {
                    return PaneOutcome {
                        activate: None,
                        refit: false,
                        notice: Some(PaneNotice::RdpCannotSplit),
                    };
                }
            }
        }
        self.mode = TileMode::Grid;
        let ghost seeded = if old(self).panes@.len() == 0 {
            seq![sessions.active->0]
        } else {
            old(self).panes@
        };
        if self.panes.len() == 0 {
            match sessions.active {
                Some(active) => {
                    self.panes.push(active);
                    self.focused = 0;
                },
                None => {
                    return PaneOutcome {
                        activate: None,
                        refit: false,
                        notice: Some(PaneNotice::ConnectFirst),
                    };
                },
            }
        }
        assert(self.panes@ =~= seeded);
        if self.panes.len() >= MAX_PANES {
            return PaneOutcome {
                activate: None,
                refit: false,
                notice: Some(PaneNotice::TooManyPanes),
            };
        }
        let mut found: Option<SessionId> = None;
        let mut i: usize = 0;
        while i < sessions.open.len() && found.is_none()
            invariant
                i <= sessions.open.len(),
                self.panes@ == seeded,
                found is None ==> candidate(sessions, seeded, i as int) == candidate(
                    sessions,
                    seeded,
                    0,
                ),
                found matches Some(id) ==> candidate(sessions, seeded, 0) == Some(id)
                    && !seeded.contains(id),
            decreases sessions.open.len() - i, found is None as int,
        {
            let id: SessionId = sessions.open[i].id;
            if position_of(&self.panes, id).is_none() && !sessions.session_is_rdp(id) {
                found = Some(id);
            }
            i += 1;
        }
        let session_id: SessionId = match found {
            Some(id) => id,
            None => {
                self.panes = Vec::new();
                self.focused = 0;
                return PaneOutcome {
                    activate: None,
                    refit: false,
                    notice: Some(PaneNotice::NoMoreSessions),
                };
            },
        };
        let insert_at: usize = self.focused + 1;
        self.panes.insert(insert_at, session_id);
        self.focused = insert_at;
        proof {
            let now = self.panes@;
            assert(now =~= seeded.insert(insert_at as int, session_id));
            assert forall|a: int, b: int| 0 <= a < b < now.len() implies now[a] != now[b] by {
                let ua = if a < insert_at {
                    a
                } else {
                    a - 1
                };
                let ub = if b < insert_at {
                    b
                } else {
                    b - 1
                };
                if a == insert_at {
                    assert(seeded[ub] == now[b]);
                } else if b == insert_at {
                    assert(seeded[ua] == now[a]);
                } else {
                    assert(seeded[ua] == now[a] && seeded[ub] == now[b]);
                }
            }
        }
        PaneOutcome {
            activate: Some(session_id),
            refit: true,
            notice: Some(PaneNotice::Split(self.panes.len())),
        }
    }

    /// Takes a pane out of the tiling; its session stays open. With one left,
    /// that session is shown alone.
    pub fn close_pane(&mut self, index: usize) -> (r: PaneOutcome)
        requires
            old(self).wf(),
        ensures
            final(self).wf(),
            final(self).mode == old(self).mode,
            ({
                let before = old(self).panes@;
                let rest = before.remove(index as int);
                let shifted = if index < old(self).focused || old(self).focused >= rest.len() {
                    if old(self).focused == 0 {
                        0
                    } else {
                        old(self).focused - 1
                    }
                } else {
                    old(self).focused as int
                };
                if index >= before.len() {
                    &&& final(self).panes@ == before
                    &&& final(self).focused == old(self).focused
                    &&& r == (PaneOutcome { activate: None, refit: false, notice: None })
                } else if rest.len() <= 1 {
                    &&& final(self).panes@.len() == 0
                    &&& final(self).focused == 0
                    &&& r == (PaneOutcome { activate: Some(rest[0]), refit: true, notice: None })
                } else {
                    &&& final(self).panes@ == rest
                    &&& final(self).focused == shifted
                    &&& r == (PaneOutcome {
                        activate: Some(rest[shifted]),
                        refit: true,
                        notice: None,
                    })
                }
            }),
    {
        if index >= self.panes.len() {
            return PaneOutcome { activate: None, refit: false, notice: None };
        }
        self.panes.remove(index);
        assert(self.panes@ == old(self).panes@.remove(index as int));
        assert(distinct(self.panes@)) by {
            let before = old(self).panes@;
            let rest = self.panes@;
            assert forall|a: int, b: int| 0 <= a < b < rest.len() implies rest[a] != rest[b] by {
                let ua = if a < index {
                    a
                } else {
                    a + 1
                };
                let ub = if b < index {
                    b
                } else {
                    b + 1
                };
                assert(before[ua] == rest[a] && before[ub] == rest[b]);
            }
        }
        if self.panes.len() <= 1 {
            let remaining: SessionId = self.panes[0];
            self.panes = Vec::new();
            self.focused = 0;
            return PaneOutcome { activate: Some(remaining), refit: true, notice: None };
        }
        if index < self.focused || self.focused >= self.panes.len() {
            self.focused = self.focused.saturating_sub(1);
        }
        PaneOutcome { activate: Some(self.panes[self.focused]), refit: true, notice: None }
    }

    /// Shows a session: in its pane where it has one, else in the focused pane
    /// in place of the session there. Says whether the session has to be fitted
    /// to that pane.
    pub fn activate_session(&mut self, session_id: SessionId) -> (r: bool)
        requires
            old(self).wf(),
        ensures
            final(self).wf(),
            final(self).mode == old(self).mode,
            ({
                let before = old(self).panes@;
                match position(before, session_id) {
                    Some(k) => {
                        &&& final(self).panes@ == before
                        &&& final(self).focused == k
                        &&& !r
                    },
                    None => if before.len() >= 2 {
                        &&& final(self).panes@ == before.update(
                            old(self).focused as int,
                            session_id,
                        )
                        &&& final(self).focused == old(self).focused
                        &&& r
                    } else {
                        &&& final(self).panes@ == before
                        &&& final(self).focused == old(self).focused
                        &&& !r
                    },
                }
            }),
    {
        if self.panes.len() < 2 {
            assert(position(self.panes@, session_id) is None);
            return false;
        }
        match position_of(&self.panes, session_id) {
            Some(k) => {
                self.focused = k;
                false
            },
            None => {
                self.panes.set(self.focused, session_id);
                true
            },
        }
    }

    /// Gives a pane the keyboard. Says which session to make active, if it is
    /// not active yet; scrolling and selection start afresh where anything
    /// changed.
    pub fn focus_pane(&mut self, index: usize, active: Option<SessionId>) -> (r: Option<PaneOutcome>)
        requires
            old(self).wf(),
        ensures
            final(self).wf(),
            final(self).mode == old(self).mode,
            final(self).panes@ == old(self).panes@,
            ({
                let before = old(self).panes@;
                if index >= before.len() {
                    final(self).focused == old(self).focused && r is None
                } else {
                    let other = active != Some(before[index as int]);
                    &&& final(self).focused == index
                    &&& r == Some(
                        PaneOutcome {
                            activate: if other {
                                Some(before[index as int])
                            } else {
                                None
                            },
                            refit: old(self).focused != index || other,
                            notice: None,
                        },
                    )
                }
            }),
    {
        if index >= self.panes.len() {
            return None;
        }
        let session_id: SessionId = self.panes[index];
        let other: bool = match active {
            Some(active) => active != session_id,
            None => true,
        };
        let changed: bool = self.focused != index || other;
        self.focused = index;
        Some(
            PaneOutcome {
                activate: if other {
                    Some(session_id)
                } else {
                    None
                },
                refit: changed,
                notice: None,
            },
        )
    }

    /// Brings the panes in line with the sessions that are open: closed ones and
    /// repeats go, the active one has the keyboard, and where fewer than two are
    /// left, or the active session is not among them, one session is shown.
    pub fn sync_panes(&mut self, sessions: &Sessions)
        requires
            old(self).panes@.len() <= MAX_PANES,
        ensures
            final(self).wf(),
            final(self).mode == old(self).mode,
            ({
                let kept = still_open(old(self).panes@, sessions.ids());
                let at = match sessions.active {
                    Some(active) => position(kept, active),
                    None => None,
                };
                if old(self).panes@.len() <= 1 || kept.len() <= 1 || at is None {
                    final(self).panes@.len() == 0 && final(self).focused == 0
                } else {
                    final(self).panes@ == kept && final(self).focused == at->0
                }
            }),
    {
        if self.panes.len() <= 1 {
            self.panes = Vec::new();
            self.focused = 0;
            return;
        }
        let ghost before = self.panes@;
        let mut kept: Vec<SessionId> = Vec::new();
        let mut i: usize = 0;
        while i < self.panes.len()
            invariant
                i <= self.panes.len(),
                self.panes@ == before,
                self.mode == old(self).mode,
                kept@ == still_open(before.take(i as int), sessions.ids()),
                kept.len() <= i,
                distinct(kept@),
            decreases self.panes.len() - i,
        {
            let id: SessionId = self.panes[i];
            let ghost grown = before.take(i + 1);
            assert(grown.drop_last() =~= before.take(i as int));
            assert(grown.last() == id);
            if sessions.contains(id) && position_of(&kept, id).is_none() {
                kept.push(id);
            }
            i += 1;
        }
        assert(before.take(i as int) =~= before);
        let at: Option<usize> = match sessions.active {
            Some(active) => position_of(&kept, active),
            None => None,
        };
        match at {
            Some(k) => {
                if kept.len() <= 1 {
                    self.panes = Vec::new();
                    self.focused = 0;
                } else {
                    self.panes = kept;
                    self.focused = k;
                }
            },
            None => {
                self.panes = Vec::new();
                self.focused = 0;
            },
        }
    }
}

/// Tiling sessions of which none is listed twice keeps the panes in order.
pub proof fn law_tiling_is_well_formed(ids: Seq<SessionId>)
    requires
        distinct(ids),
    ensures
        distinct(first_sessions(ids)),
        first_sessions(ids).len() <= MAX_PANES,
{
}

/// Every pane that is kept shows a session that is open, none of them twice,
/// and every open session that had a pane keeps one.
pub proof fn law_sync_keeps_exactly_the_open_sessions(
    panes: Seq<SessionId>,
    open: Seq<SessionId>,
)
    ensures
        distinct(still_open(panes, open)),
        still_open(panes, open).len() <= panes.len(),
        forall|id: SessionId| #[trigger]
            still_open(panes, open).contains(id) <==> panes.contains(id) && open.contains(id),
    decreases panes.len(),
{
    if panes.len() > 0 {
        law_sync_keeps_exactly_the_open_sessions(panes.drop_last(), open);
        let before = still_open(panes.drop_last(), open);
        let after = still_open(panes, open);
        assert forall|id: SessionId| #[trigger] after.contains(id) <==> panes.contains(id)
            && open.contains(id) by {
            if after.contains(id) {
                let k = choose|k: int| 0 <= k < after.len() && after[k] == id;
                if k < before.len() {
                    assert(before[k] == id);
                    assert(before.contains(id));
                    let m = choose|m: int|
                        0 <= m < panes.drop_last().len() && panes.drop_last()[m] == id;
                    assert(panes[m] == id);
                } else {
                    assert(panes[panes.len() - 1] == id);
                }
            }
            if panes.contains(id) && open.contains(id) {
                let m = choose|m: int| 0 <= m < panes.len() && panes[m] == id;
                if m < panes.len() - 1 {
                    assert(panes.drop_last()[m] == id);
                    assert(before.contains(id));
                    let k = choose|k: int| 0 <= k < before.len() && before[k] == id;
                    assert(after[k] == id);
                } else if before.contains(id) {
                    let k = choose|k: int| 0 <= k < before.len() && before[k] == id;
                    assert(after[k] == id);
                } else {
                    assert(after[after.len() - 1] == id);
                }
            }
        }
    }
}

/// The session that a split adds is open, is no remote desktop, and was not a
/// pane before.
pub proof fn law_split_adds_a_fresh_terminal(
    sessions: &Sessions,
    panes: Seq<SessionId>,
    from: int,
)
    requires
        0 <= from,
    ensures
        candidate(sessions, panes, from) matches Some(id) ==> {
            &&& sessions.ids().contains(id)
            &&& !sessions.is_rdp(id)
            &&& !panes.contains(id)
        },
    decreases sessions.open@.len() - from,
{
    if from < sessions.open@.len() {
        let id = sessions.open@[from].id;
        if !panes.contains(id) && !sessions.is_rdp(id) {
            assert(sessions.ids()[from] == id);
        } else {
            law_split_adds_a_fresh_terminal(sessions, panes, from + 1);
        }
    }
}

/// Few panes have these columns and rows; side by side they have one row, and one
/// above the other one column.
pub proof fn law_panes_are_tiled_like_this(count: int, mode: TileMode, cols: int, rows: int)
    requires
        grid_dims(count, mode, cols, rows),
    ensures
        count <= 1 ==> cols == 1 && rows == 1,
        mode == TileMode::Columns && count >= 1 ==> cols == count && rows == 1,
        mode == TileMode::Rows && count >= 1 ==> cols == 1 && rows == count,
        mode == TileMode::Grid && count == 2 ==> cols == 2 && rows == 1,
        mode == TileMode::Grid && count == 3 ==> cols == 3 && rows == 1,
        mode == TileMode::Grid && count == 4 ==> cols == 2 && rows == 2,
        mode == TileMode::Grid && count == 5 ==> cols == 3 && rows == 2,
        mode == TileMode::Grid && count == 6 ==> cols == 3 && rows == 2,
        mode == TileMode::Grid && count > 6 ==> {
            &&& cols * cols >= count
            &&& (cols - 1) * (cols - 1) < count
        },
        mode == TileMode::Grid && count > 3 ==> rows <= cols,
{
    if mode == TileMode::Grid && count > 6 {
        law_grid_holds_every_pane(count, mode, cols, rows);
        assert(rows <= cols) by (nonlinear_arith)
            requires
                cols >= 1,
                cols * cols >= count,
                cols * (rows - 1) < count,
        ;
    }
}

/// A session is found where it stands first.
pub proof fn law_a_session_is_found_where_it_stands_first(ids: Seq<SessionId>, id: SessionId)
    ensures
        position(ids, id) is None <==> !ids.contains(id),
        position(ids, id) matches Some(k) ==> {
            &&& 0 <= k < ids.len()
            &&& ids[k] == id
            &&& forall|i: int| 0 <= i < k ==> #[trigger] ids[i] != id
        },
    decreases ids.len(),
{
    if ids.len() > 0 {
        let rest = ids.drop_first();
        law_a_session_is_found_where_it_stands_first(rest, id);
        if ids[0] != id {
            if ids.contains(id) {
                let k = choose|k: int| 0 <= k < ids.len() && ids[k] == id;
                assert(rest[k - 1] == id);
            }
            if let Some(k) = position(rest, id) {
                assert(rest[k] == ids[k + 1]);
                assert forall|i: int| 0 <= i < k + 1 implies #[trigger] ids[i] != id by {
                    if i > 0 {
                        assert(rest[i - 1] == ids[i]);
                    }
                }
            }
        }
    }
}

/// A split takes the first open session that can become a pane: every one before it
/// has a pane or is a remote desktop, and where none is taken that holds of them all.
pub proof fn law_a_split_takes_the_first_that_can_be_shown(
    sessions: &Sessions,
    panes: Seq<SessionId>,
    from: int,
)
    requires
        0 <= from <= sessions.open@.len(),
    ensures
        candidate(sessions, panes, from) is None ==> forall|i: int|
            from <= i < sessions.open@.len() ==> panes.contains(
                (#[trigger] sessions.open@[i]).id,
            ) || sessions.is_rdp(sessions.open@[i].id),
        candidate(sessions, panes, from) matches Some(id) ==> exists|k: int|
            {
                &&& from <= k < sessions.open@.len()
                &&& (#[trigger] sessions.open@[k]).id == id
                &&& !panes.contains(id)
                &&& !sessions.is_rdp(id)
                &&& forall|i: int|
                    from <= i < k ==> panes.contains((#[trigger] sessions.open@[i]).id)
                        || sessions.is_rdp(sessions.open@[i].id)
            },
    decreases sessions.open@.len() - from,
{
    if from < sessions.open@.len() {
        let id = sessions.open@[from].id;
        if panes.contains(id) || sessions.is_rdp(id) {
            law_a_split_takes_the_first_that_can_be_shown(sessions, panes, from + 1);
        }
    }
}

/// Of panes of which none occurs twice, those that are open are kept, as they stood.
pub proof fn law_the_open_panes_keep_their_order(panes: Seq<SessionId>, open: Seq<SessionId>)
    requires
        distinct(panes),
    ensures
        still_open(panes, open) == panes.filter(|id: SessionId| open.contains(id)),
    decreases panes.len(),
{
    reveal(Seq::filter);
    if panes.len() > 0 {
        law_the_open_panes_keep_their_order(panes.drop_last(), open);
        law_sync_keeps_exactly_the_open_sessions(panes.drop_last(), open);
        if panes.drop_last().contains(panes.last()) {
            let m = choose|m: int|
                0 <= m < panes.drop_last().len() && panes.drop_last()[m] == panes.last();
            assert(panes[m] == panes[panes.len() - 1]);
        }
    }
}

/// What is tiled is the first six open sessions, or all of them where there are no
/// more.
pub proof fn law_the_first_sessions_are_tiled(ids: Seq<SessionId>)
    ensures
        ids.len() <= 6 ==> first_sessions(ids) == ids,
        ids.len() > 6 ==> first_sessions(ids).len() == 6,
        first_sessions(ids).is_prefix_of(ids),
{
    assert(ids.take(ids.len() as int) =~= ids);
}

} // verus!

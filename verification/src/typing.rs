//! Where what is typed goes, and which sessions are written to a log.

use vstd::prelude::*;
use vstd::string::*;

use crate::calendar::{effective_log_dir, LogDir};
use crate::command::CommandTarget;
use crate::hosts::SessionSummary;
use crate::input::{encode_mouse_event, mouse_report, MouseMode};
use crate::options::pattern_in_use;
use crate::panes::SessionId;
use crate::style::SessionStatus;
use crate::terminal::{TerminalPoint, TerminalSelection};
use crate::text::{blank, trimmed};

verus! {

/// Where bytes go.
#[derive(Debug, Clone, Copy, PartialEq, Eq, Structural)]
pub enum Route {
    Nowhere,
    Active,
    /// To every session that is connected.
    Everyone,
}

/// What typing changes of the terminal.
#[derive(Debug, Clone, Copy, PartialEq, Eq, Structural)]
pub struct TypingState {
    pub cursor_on: bool,
    pub scroll_offset: usize,
    pub selection: Option<TerminalSelection>,
    /// What is typed goes to every session.
    pub broadcast: bool,
}

impl TypingState {
    /// Where what is typed goes: to every session where that is switched on, and
    /// otherwise to the active one, where there is one. What goes anywhere brings
    /// the newest line into view and lets the selection go. The cursor is shown
    /// while one types.
    pub fn send_terminal_bytes(&mut self, active: bool) -> (r: Route)
        ensures
            r == if old(self).broadcast {
                Route::Everyone
            } else if active {
                Route::Active
            } else {
                Route::Nowhere
            },
            *final(self) == if r == Route::Nowhere {
                TypingState { cursor_on: true, ..*old(self) }
            } else {
                TypingState { cursor_on: true, scroll_offset: 0, selection: None, ..*old(self) }
            },
    {
        self.cursor_on = true;
        if !self.broadcast && !active {
            return Route::Nowhere;
        }
        self.scroll_offset = 0;
        self.selection = None;
        if self.broadcast {
            Route::Everyone
        } else {
            Route::Active
        }
    }

    /// Where bytes of the command window go; none go nowhere, and change nothing.
    pub fn send_command_bytes(&mut self, count: usize, target: CommandTarget) -> (r: Route)
        ensures
            r == if count == 0 {
                Route::Nowhere
            } else {
                match target {
                    CommandTarget::AllSessions => Route::Everyone,
                    CommandTarget::ActiveSession => Route::Active,
                }
            },
            *final(self) == if count == 0 {
                *old(self)
            } else {
                TypingState { scroll_offset: 0, ..*old(self) }
            },
    {
        if count == 0 {
            return Route::Nowhere;
        }
        self.scroll_offset = 0;
        match target {
            CommandTarget::AllSessions => Route::Everyone,
            CommandTarget::ActiveSession => Route::Active,
        }
    }
}

/// Whether the mouse belongs to the program in the terminal.
pub fn mouse_reporting_active(mode: MouseMode) -> (r: bool)
    ensures
        r == (mode != MouseMode::Off),
{
    mode != MouseMode::Off
}

/// What is sent of the mouse at the pointer's cell; nothing where it is nowhere.
pub fn send_mouse_report(
    pointer: Option<TerminalPoint>,
    sgr: bool,
    button: u8,
    press: bool,
    motion: bool,
) -> (r: Option<Vec<u8>>)
    requires
        pointer matches Some(point) ==> point.col < usize::MAX && point.row < usize::MAX,
    ensures
        r is Some == pointer is Some,
        r matches Some(bytes) ==> bytes@ == mouse_report(
            sgr,
            button,
            (pointer->0).col as int,
            (pointer->0).row as int,
            press,
            motion,
        ),
{
    match pointer {
        Some(point) => Some(encode_mouse_event(sgr, button, point.col, point.row, press, motion)),
        None => None,
    }
}

/// Whether a text cursor blinks: only in a terminal that has the keyboard.
pub fn terminal_cursor_blinks(focused: bool, active: bool, desktop: bool) -> (r: bool)
    ensures
        r == (focused && active && !desktop),
{
    focused && !desktop && active
}

// Logs.

/// What switching the log of the active session comes to.
pub enum LogSwitch {
    /// There is no session.
    NoSession,
    Stop,
    /// It is started, in this folder and with this pattern.
    Start { dir: LogDir, pattern: String },
}

/// What switching the log of the active session comes to: one that is written stops,
/// and one that is not starts.
pub fn toggle_active_logging(
    active: bool,
    logging: bool,
    log_dir: &str,
    log_pattern: &str,
) -> (r: LogSwitch)
    ensures
        match r {
            LogSwitch::NoSession => !active,
            LogSwitch::Stop => active && logging,
            LogSwitch::Start { dir, pattern } => {
                &&& active && !logging
                &&& pattern@ == pattern_in_use(log_pattern@)
                &&& match dir {
                    LogDir::UnderConfig => blank(log_dir@),
                    LogDir::Chosen(path) => !blank(log_dir@) && path@ == trimmed(log_dir@),
                }
            },
        },
{
    if !active {
        return LogSwitch::NoSession;
    }
    if logging {
        return LogSwitch::Stop;
    }
    LogSwitch::Start {
        dir: effective_log_dir(log_dir),
        pattern: crate::calendar::effective_log_pattern(log_pattern),
    }
}

/// Whether a session is to be written to a log by itself.
pub open spec fn wants_log(session: &SessionSummary, logging: Seq<SessionId>) -> bool {
    session.status == SessionStatus::Connected && !logging.contains(session.id)
}

/// The positions of the sessions that are to be written to a log by themselves.
pub open spec fn log_targets(sessions: Seq<SessionSummary>, logging: Seq<SessionId>, n: int) -> Seq<
    usize,
>
    decreases n,
{
    if n <= 0 {
        Seq::empty()
    } else if wants_log(&sessions[n - 1], logging) {
        log_targets(sessions, logging, n - 1).push((n - 1) as usize)
    } else {
        log_targets(sessions, logging, n - 1)
    }
}

/// The positions of the sessions whose logs are to be started: where that is switched
/// on, those that are connected and not written yet.
pub fn auto_log_connected_sessions(
    enabled: bool,
    sessions: &Vec<SessionSummary>,
    logging: &Vec<SessionId>,
) -> (r: Vec<usize>)
    ensures
        r@ == if enabled {
            log_targets(sessions@, logging@, sessions@.len() as int)
        } else {
            Seq::empty()
        },
{
    let mut out: Vec<usize> = Vec::new();
    if !enabled {
        return out;
    }
    let mut i: usize = 0;
    while i < sessions.len()
        invariant
            i <= sessions.len(),
            out@ == log_targets(sessions@, logging@, i as int),
        decreases sessions.len() - i,
    {
        if sessions[i].status == SessionStatus::Connected && !writes(logging, sessions[i].id) {
            out.push(i);
        }
        i += 1;
    }
    out
}

fn writes(logging: &Vec<SessionId>, id: SessionId) -> (r: bool)
    ensures
        r == logging@.contains(id),
{
    let mut i: usize = 0;
    while i < logging.len()
        invariant
            i <= logging.len(),
            forall|j: int| 0 <= j < i ==> logging@[j] != id,
        decreases logging.len() - i,
    {
        if logging[i] == id {
            assert(logging@.contains(id));
            return true;
        }
        i += 1;
    }
    false
}

/// A log is started for every session that is connected and has none, and for no other,
/// in the order of the sessions.
pub proof fn law_every_connected_session_gets_its_log(
    sessions: Seq<SessionSummary>,
    logging: Seq<SessionId>,
    n: int,
)
    requires
        0 <= n <= sessions.len() <= usize::MAX,
    ensures
        forall|k: usize| #[trigger]
            log_targets(sessions, logging, n).contains(k) <==> k < n
                && sessions[k as int].status == SessionStatus::Connected && !logging.contains(
                sessions[k as int].id,
            ),
        forall|i: int, j: int|
            0 <= i < j < log_targets(sessions, logging, n).len() ==> log_targets(
                sessions,
                logging,
                n,
            )[i] < log_targets(sessions, logging, n)[j],
    decreases n,
{
    if n > 0 {
        law_every_connected_session_gets_its_log(sessions, logging, n - 1);
        let before = log_targets(sessions, logging, n - 1);
        let now = log_targets(sessions, logging, n);
        assert forall|k: usize| #[trigger] now.contains(k) <==> k < n && wants_log(
            &sessions[k as int],
            logging,
        ) by {
            if now.contains(k) {
                let i = choose|i: int| 0 <= i < now.len() && now[i] == k;
                if i < before.len() {
                    assert(before[i] == k);
                    assert(before.contains(k));
                }
            }
            if k < n && wants_log(&sessions[k as int], logging) {
                if k < n - 1 {
                    assert(before.contains(k));
                    let i = choose|i: int| 0 <= i < before.len() && before[i] == k;
                    assert(now[i] == k);
                } else {
                    assert(now[before.len() as int] == k);
                }
            }
        }
        assert forall|i: int, j: int| 0 <= i < j < now.len() implies now[i] < now[j] by {
            if j == before.len() {
                assert(before.contains(before[i]));
            }
        }
    }
}

} // verus!

//! The command window: one line of input sent to one session or to all.

use vstd::prelude::*;
use vstd::string::*;
use vstd::utf8::encode_utf8;

use crate::text::{blank, chars_of, is_blank, same, stands_at, string_between, matches_at};

verus! {

/// Where the command window sends its line.
#[derive(Debug, Clone, Copy, PartialEq, Eq, Structural)]
pub enum CommandTarget {
    ActiveSession,
    AllSessions,
}

impl CommandTarget {
    /// The other target.
    pub open spec fn other(self) -> CommandTarget {
        match self {
            CommandTarget::ActiveSession => CommandTarget::AllSessions,
            CommandTarget::AllSessions => CommandTarget::ActiveSession,
        }
    }

    /// What the target is called.
    pub open spec fn name(self) -> Seq<char> {
        match self {
            CommandTarget::ActiveSession => "当前会话"@,
            CommandTarget::AllSessions => "所有会话"@,
        }
    }

    /// What the target is called.
    pub fn label(self) -> (r: &'static str)
        ensures
            r@ == self.name(),
    {
        match self {
            CommandTarget::ActiveSession => "当前会话",
            CommandTarget::AllSessions => "所有会话",
        }
    }

    /// The other target.
    pub fn toggled(self) -> (r: CommandTarget)
        ensures
            r == self.other(),
    {
        match self {
            CommandTarget::ActiveSession => CommandTarget::AllSessions,
            CommandTarget::AllSessions => CommandTarget::ActiveSession,
        }
    }
}

/// Switching the target twice changes nothing.
pub proof fn law_toggling_twice_is_nothing(target: CommandTarget)
    ensures
        target.other().other() == target,
        target.other() != target,
{
}

/// The bytes that carry a line from `old` to `new`: what was typed at its end,
/// or one DEL for each character erased there. An edit elsewhere has none.
pub open spec fn input_delta(old: Seq<char>, new: Seq<char>) -> Option<Seq<u8>> {
    if new == old {
        Some(Seq::empty())
    } else if stands_at(new, old, 0) {
        Some(encode_utf8(new.skip(old.len() as int)))
    } else if stands_at(old, new, 0) {
        Some(Seq::new((old.len() - new.len()) as nat, |i: int| 0x7fu8))
    } else {
        None
    }
}

/// The bytes that carry a line from `old` to `new` as it is typed, or none for
/// an edit that no keystroke at the end of the line stands for.
pub fn command_input_delta(old: &str, new: &str) -> (r: Option<Vec<u8>>)
    ensures
        r is Some == input_delta(old@, new@) is Some,
        r matches Some(bytes) ==> input_delta(old@, new@) == Some(bytes@),
{
    let before: Vec<char> = chars_of(old);
    let after: Vec<char> = chars_of(new);
    if after.len() > before.len() && matches_at(&after, &before, 0) {
        let suffix: String = string_between(&after, before.len(), after.len());
        assert(new@.skip(old@.len() as int) =~= suffix@);
        Some(suffix.as_str().as_bytes_vec())
    } else if after.len() < before.len() && matches_at(&before, &after, 0) {
        let mut erased: Vec<u8> = Vec::new();
        let mut left: usize = before.len() - after.len();
        while left > 0
            invariant
                left + erased.len() == before.len() - after.len(),
                forall|i: int| 0 <= i < erased.len() ==> erased@[i] == 0x7f,
            decreases left,
        {
            erased.push(0x7f);
            left -= 1;
        }
        assert(erased@ =~= Seq::new((old@.len() - new@.len()) as nat, |i: int| 0x7fu8));
        Some(erased)
    } else if same(new, old) {
        let nothing: Vec<u8> = Vec::new();
        assert(nothing@ =~= Seq::empty());
        Some(nothing)
    } else {
        proof {
            if stands_at(new@, old@, 0) {
                assert(new@.subrange(0, old@.len() as int) == old@);
                if new@.len() == old@.len() {
                    assert(new@.subrange(0, old@.len() as int) =~= new@);
                }
            }
            if stands_at(old@, new@, 0) {
                if new@.len() == old@.len() {
                    assert(old@.subrange(0, new@.len() as int) =~= old@);
                }
            }
        }
        None
    }
}

/// A line editor at the far end that appends what is typed.
pub open spec fn far_line(line: Seq<char>, typed: Seq<char>, erased: nat) -> Seq<char> {
    if erased <= line.len() {
        line.take(line.len() - erased) + typed
    } else {
        typed
    }
}

/// A far end that applies the bytes of an input delta to the old line holds the
/// new line: they are the bytes of some typed text, or one DEL for each
/// character that goes, and typing and erasing so gives the new line.
pub proof fn law_input_delta_reproduces_the_line(old: Seq<char>, new: Seq<char>)
    requires
        input_delta(old, new) is Some,
    ensures
        exists|typed: Seq<char>, erased: nat|
            {
                &&& #[trigger] far_line(old, typed, erased) == new
                &&& typed.len() == 0 || erased == 0
                &&& input_delta(old, new)->0 == encode_utf8(typed) + Seq::new(
                    erased,
                    |i: int| 0x7fu8,
                )
            },
{
    let none = Seq::<char>::empty();
    assert(encode_utf8(none) =~= Seq::empty());
    if new == old {
        assert(far_line(old, none, 0) =~= new);
        assert(input_delta(old, new)->0 =~= encode_utf8(none) + Seq::new(0nat, |i: int| 0x7fu8));
    } else if stands_at(new, old, 0) {
        let typed = new.skip(old.len() as int);
        assert(far_line(old, typed, 0) =~= new) by {
            assert(new.subrange(0, old.len() as int) == old);
            assert(new =~= new.subrange(0, old.len() as int) + typed);
        }
        assert(input_delta(old, new)->0 =~= encode_utf8(typed) + Seq::new(0nat, |i: int| 0x7fu8));
    } else {
        let erased = (old.len() - new.len()) as nat;
        assert(far_line(old, none, erased) =~= new) by {
            assert(old.subrange(0, new.len() as int) == new);
            assert(old.take(new.len() as int) =~= old.subrange(0, new.len() as int));
        }
        assert(input_delta(old, new)->0 =~= encode_utf8(none) + Seq::new(erased, |i: int| 0x7fu8));
    }
}

/// The command window's line, its history and how it sends.
pub struct CommandWindow {
    pub input: String,
    pub history: Vec<String>,
    pub history_pos: Option<usize>,
    pub send_immediately: bool,
}

/// A line with the carriage return that submits it.
pub open spec fn submitted(line: Seq<char>, send_immediately: bool) -> Option<Seq<char>> {
    if send_immediately {
        Some(seq!['\r'])
    } else if blank(line) {
        None
    } else {
        Some(line.push('\r'))
    }
}

/// Where stepping through a history of `len` entries leads: older entries by a
/// negative step, newer ones by a positive one, and past the newest to an empty
/// line. With no entry shown, only an older step does anything.
pub open spec fn stepped(len: int, pos: Option<usize>, delta: int) -> Option<usize> {
    match pos {
        None => if delta < 0 {
            Some((len - 1) as usize)
        } else {
            None
        },
        Some(pos) => if pos + delta < 0 {
            Some(0usize)
        } else if pos + delta >= len {
            None
        } else {
            Some((pos + delta) as usize)
        },
    }
}

/// The history after a line was sent: a line that is not blank and not the one
/// sent last is added at the end.
pub open spec fn history_after(history: Seq<String>, line: String) -> Seq<String> {
    if blank(line@) || (history.len() > 0 && history.last()@ == line@) {
        history
    } else {
        history.push(line)
    }
}

impl CommandWindow {
    /// Whether the entry that is shown exists.
    pub open spec fn wf(&self) -> bool {
        self.history_pos matches Some(pos) ==> pos < self.history@.len()
    }

    /// What Enter sends. Where characters are sent as they are typed, only the
    /// carriage return is left to send; otherwise a blank line sends nothing.
    pub fn payload(&self) -> (r: Option<String>)
        ensures
            r is Some == submitted(self.input@, self.send_immediately) is Some,
            r matches Some(s) ==> submitted(self.input@, self.send_immediately) == Some(s@),
    {
        if self.send_immediately {
            let mut out: String = String::new();
            out.push('\r');
            assert(out@ =~= seq!['\r']);
            return Some(out);
        }
        if is_blank(self.input.as_str()) {
            return None;
        }
        let mut out: String = self.input.clone();
        out.push('\r');
        Some(out)
    }

    /// Remembers the line that was sent and empties the box.
    pub fn sent(&mut self)
        ensures
            final(self).wf(),
            final(self).input@.len() == 0,
            final(self).history_pos is None,
            final(self).send_immediately == old(self).send_immediately,
            final(self).history@ == history_after(old(self).history@, old(self).input),
    {
        let repeated: bool = self.history.len() > 0 && same(
            self.history[self.history.len() - 1].as_str(),
            self.input.as_str(),
        );
        if !is_blank(self.input.as_str()) && !repeated {
            self.history.push(self.input.clone());
        }
        self.history_pos = None;
        self.input = String::new();
    }

    /// Shows another entry of the history: an older one for a negative step, a
    /// newer one for a positive step, an empty line past the newest.
    pub fn history_step(&mut self, delta: i32)
        requires
            old(self).wf(),
        ensures
            final(self).wf(),
            final(self).history@ == old(self).history@,
            final(self).send_immediately == old(self).send_immediately,
            ({
                let len = old(self).history@.len();
                let next = stepped(len as int, old(self).history_pos, delta as int);
                if len == 0 || (old(self).history_pos is None && delta >= 0) {
                    final(self).history_pos == old(self).history_pos && final(self).input == old(
                        self,
                    ).input
                } else {
                    &&& final(self).history_pos == next
                    &&& match next {
                        Some(i) => final(self).input == old(self).history@[i as int],
                        None => final(self).input@.len() == 0,
                    }
                }
            }),
    {
        let len: usize = self.history.len();
        if len == 0 {
            return;
        }
        let next: Option<usize> = match self.history_pos {
            None => {
                if delta >= 0 {
                    return;
                }
                Some(len - 1)
            },
            Some(pos) => {
                let moved: i128 = pos as i128 + delta as i128;
                if moved < 0 {
                    Some(0)
                } else if moved >= len as i128 {
                    None
                } else {
                    Some(moved as usize)
                }
            },
        };
        self.history_pos = next;
        self.input = match next {
            Some(i) => self.history[i].clone(),
            None => String::new(),
        };
    }
}

/// The history never holds a blank line, nor the same line twice in a row, if
/// it started out so.
pub open spec fn tidy_history(history: Seq<String>) -> bool {
    &&& forall|i: int| 0 <= i < history.len() ==> !blank(#[trigger] history[i]@)
    &&& forall|i: int| 0 < i < history.len() ==> (#[trigger] history[i])@ != history[i - 1]@
}

/// Sending a line keeps the history free of blank lines and of repeats.
pub proof fn law_history_stays_tidy(history: Seq<String>, line: String)
    requires
        tidy_history(history),
    ensures
        tidy_history(history_after(history, line)),
{
}

/// What was typed at the end of a line is sent as it is, what was erased there as one
/// delete for each character, and an edit elsewhere is not sent.
pub proof fn law_an_edit_is_sent_as_keystrokes(line: Seq<char>, more: Seq<char>, other: Seq<char>)
    ensures
        input_delta(line, line + more) == Some(encode_utf8(more)),
        input_delta(line + more, line) matches Some(bytes) && bytes.len() == more.len() && forall|
            i: int,
        |
            0 <= i < bytes.len() ==> bytes[i] == 0x7f,
        input_delta(line, other) is None <==> !(line.len() <= other.len() && other.take(
            line.len() as int,
        ) == line) && !(other.len() <= line.len() && line.take(other.len() as int) == other),
{
    let longer = line + more;
    assert(longer.subrange(0, line.len() as int) =~= line);
    assert(longer.skip(line.len() as int) =~= more);
    if more.len() == 0 {
        assert(longer =~= line);
        assert(encode_utf8(more) =~= Seq::empty());
    } else if stands_at(line, longer, 0) {
        assert(false);
    }
    if line.len() <= other.len() {
        assert(other.take(line.len() as int) =~= other.subrange(0, line.len() as int));
    }
    if other.len() <= line.len() {
        assert(line.take(other.len() as int) =~= line.subrange(0, other.len() as int));
    }
    if line == other {
        assert(line.take(line.len() as int) =~= line);
    }
}

/// Enter sends the line and a carriage return after it, and only the carriage return where
/// the line was sent as it was typed; a blank line is not sent.
pub proof fn law_enter_submits_the_line(line: Seq<char>)
    ensures
        submitted(line, true) == Some(seq!['\r']),
        blank(line) ==> submitted(line, false) is None,
        !blank(line) ==> (submitted(line, false) matches Some(sent) && sent.len() == line.len() + 1
            && sent.take(line.len() as int) == line && sent.last() == '\r'),
{
    assert(line.push('\r').take(line.len() as int) =~= line);
}

/// Stepping back goes from the empty line to the newest entry and from each entry to the
/// one before it, and stays at the oldest; stepping forth goes the same way back, and from
/// the newest entry to the empty line.
pub proof fn law_history_is_walked_entry_by_entry(len: int, pos: usize)
    requires
        0 <= pos < len <= usize::MAX,
    ensures
        stepped(len, None, -1) == Some((len - 1) as usize),
        pos > 0 ==> stepped(len, Some(pos), -1) == Some((pos - 1) as usize),
        pos == 0 ==> stepped(len, Some(pos), -1) == Some(0usize),
        pos < len - 1 ==> stepped(len, Some(pos), 1) == Some((pos + 1) as usize),
        pos == len - 1 ==> stepped(len, Some(pos), 1) is None,
        stepped(len, None, 1) is None,
{
}

/// What was sent stays in the history, and a new line comes last in it: a blank one or the
/// same as before is not added.
pub proof fn law_a_sent_line_is_the_newest(history: Seq<String>, line: String)
    ensures
        ({
            let after = history_after(history, line);
            &&& history.len() <= after.len() <= history.len() + 1
            &&& after.take(history.len() as int) == history
            &&& !blank(line@) ==> after.len() > 0 && after.last()@ == line@
            &&& blank(line@) ==> after == history
            &&& history.len() > 0 && history.last()@ == line@ ==> after == history
        }),
{
    assert(history.take(history.len() as int) =~= history);
    assert(history.push(line).take(history.len() as int) =~= history);
}

/// From the line that is typed only an older step leads anywhere: to the newest entry.
/// Steps add up as long as they stay among the entries.
pub proof fn law_steps_through_the_history_add_up(len: int, pos: usize, a: int, b: int)
    requires
        0 < len <= usize::MAX,
        0 <= pos + a < len,
    ensures
        a >= 0 ==> stepped(len, None, a) is None,
        a < 0 ==> stepped(len, None, a) == Some((len - 1) as usize),
        stepped(len, Some(pos), a) == Some((pos + a) as usize),
        stepped(len, stepped(len, Some(pos), a), b) == stepped(len, Some(pos), a + b),
{
}

} // verus!

//! Passing keys through to a remote desktop that fills the screen.
//!
//! A low-level hook sees every keystroke of the machine, so it is armed only
//! while the desktop fills the screen, it does as little as it can, and it never
//! swallows the way out.

use vstd::prelude::*;

verus! {

/// A key that was swallowed, in the form that goes to the remote end.
#[derive(Debug, Clone, Copy, PartialEq, Eq, Structural)]
pub struct Stroke {
    pub scancode: u8,
    pub extended: bool,
    pub pressed: bool,
}

/// Which way a key went.
#[derive(Debug, Clone, Copy, PartialEq, Eq, Structural)]
pub enum KeyMotion {
    Down,
    Up,
    Other,
}

/// What the hook is told of a keystroke.
#[derive(Debug, Clone, Copy, PartialEq, Eq, Structural)]
pub struct HookEvent {
    /// Whether this is a keystroke that may be acted on.
    pub action: bool,
    /// Whether a program made it, not a hand.
    pub injected: bool,
    pub motion: KeyMotion,
    pub virtual_key: u32,
    pub scan_code: u32,
    pub extended: bool,
    /// Whether Ctrl and Alt are both down.
    pub ctrl_alt: bool,
}

/// The virtual key code of Enter.
pub const VK_RETURN: u32 = 0x0D;

/// The hook: whether it is installed and armed, and what it has swallowed.
pub struct KeyHook {
    pub installed: bool,
    pub armed: bool,
    pub strokes: Vec<Stroke>,
}

/// What an armed hook swallows of a keystroke: nothing that a program made,
/// nothing but presses and releases, and never the chord that leaves the full
/// screen.
pub open spec fn swallowed(armed: bool, event: HookEvent) -> Option<Stroke> {
    if !event.action || !armed || event.injected || event.motion == KeyMotion::Other || (
    event.virtual_key == VK_RETURN && event.ctrl_alt) {
        None
    } else {
        Some(
            Stroke {
                scancode: (event.scan_code % 256) as u8,
                extended: event.extended,
                pressed: event.motion == KeyMotion::Down,
            },
        )
    }
}

impl KeyHook {
    /// A hook that is not installed.
    pub fn queue() -> (r: KeyHook)
        ensures
            !r.installed,
            !r.armed,
            r.strokes@.len() == 0,
    {
        KeyHook { installed: false, armed: false, strokes: Vec::new() }
    }

    /// Looks at a keystroke: swallows it and keeps it for the remote end, or
    /// lets it pass. Says whether it was swallowed.
    pub fn on_key(&mut self, event: HookEvent) -> (r: bool)
        ensures
            final(self).installed == old(self).installed,
            final(self).armed == old(self).armed,
            match swallowed(old(self).armed, event) {
                Some(stroke) => r && final(self).strokes@ == old(self).strokes@.push(stroke),
                None => !r && final(self).strokes@ == old(self).strokes@,
            },
    {
        if !event.action || !self.armed || event.injected {
            return false;
        }
        if event.motion == KeyMotion::Other {
            return false;
        }
        if event.virtual_key == VK_RETURN && event.ctrl_alt {
            return false;
        }
        self.strokes.push(
            Stroke {
                scancode: (event.scan_code % 256) as u8,
                extended: event.extended,
                pressed: event.motion == KeyMotion::Down,
            },
        );
        true
    }

    /// Arms the hook. One that is not installed yet is, where the system allows
    /// it; where not, nothing is swallowed.
    pub fn arm(&mut self, installs: bool)
        ensures
            final(self).strokes@ == old(self).strokes@,
            final(self).installed == (old(self).installed || installs),
            final(self).armed == (old(self).installed || installs),
    {
        if !self.installed {
            self.installed = installs;
        }
        self.armed = self.installed;
    }

    /// Disarms and removes the hook. What was swallowed and not forwarded yet is
    /// dropped: it was meant for a session that is no longer in that mode.
    pub fn disarm(&mut self)
        ensures
            !final(self).armed,
            !final(self).installed,
            final(self).strokes@.len() == 0,
    {
        self.armed = false;
        self.installed = false;
        self.strokes = Vec::new();
    }

    /// Takes everything that was swallowed since the last call.
    pub fn drain(&mut self) -> (r: Vec<Stroke>)
        ensures
            r@ == old(self).strokes@,
            final(self).strokes@.len() == 0,
            final(self).armed == old(self).armed,
            final(self).installed == old(self).installed,
    {
        let mut taken: Vec<Stroke> = Vec::new();
        taken.append(&mut self.strokes);
        assert(taken@ =~= old(self).strokes@);
        taken
    }
}

/// The chord that leaves the full screen is never swallowed.
pub proof fn law_the_way_out_is_never_swallowed(armed: bool, event: HookEvent)
    requires
        event.virtual_key == VK_RETURN,
        event.ctrl_alt,
    ensures
        swallowed(armed, event) is None,
{
}

/// A hook that is not armed swallows nothing.
pub proof fn law_a_disarmed_hook_swallows_nothing(event: HookEvent)
    ensures
        swallowed(false, event) is None,
{
}

/// While the hook is armed, every press and release that a hand made is swallowed, but for
/// Enter with Ctrl and Alt, and goes to the remote end as it came: the low byte of its
/// scancode, whether it is an extended key, and which way it went.
pub proof fn law_an_armed_hook_passes_every_key_on(event: HookEvent)
    requires
        event.action,
        !event.injected,
        event.motion == KeyMotion::Down || event.motion == KeyMotion::Up,
        event.virtual_key != 13 || !event.ctrl_alt,
    ensures
        swallowed(true, event) matches Some(stroke) && {
            &&& stroke.scancode == event.scan_code & 0xff
            &&& stroke.extended == event.extended
            &&& stroke.pressed == (event.motion == KeyMotion::Down)
        },
{
    let code = event.scan_code;
    assert(code & 0xff == code % 256) by (bit_vector);
}

/// What a program made is never swallowed.
pub proof fn law_what_a_program_types_passes(armed: bool, event: HookEvent)
    requires
        event.injected,
    ensures
        swallowed(armed, event) is None,
{
}

} // verus!

//! What lets a secondary instance hand the foreground to the primary one.
//!
//! The operating system lets a process give away the right to take the
//! foreground only shortly after that process received input. A secondary
//! instance therefore sends itself the press and the release of no key, and
//! then names the process that may come to the front.

use vstd::prelude::*;

verus! {

/// The flag of a keyboard event that releases its key.
pub const KEY_RELEASED: u32 = 0x0002;

/// One synthetic keyboard event, as the input queue takes it.
#[derive(Clone, Copy, Debug, PartialEq, Eq, Structural)]
pub struct KeyStroke {
    /// The virtual key code; 0 is the code of no key.
    pub virtual_key: u16,
    /// The hardware scan code.
    pub scan_code: u16,
    /// The event's flags; without `KEY_RELEASED` the key is pressed.
    pub flags: u32,
    /// The event's time stamp; 0 lets the system put in its own.
    pub time: u32,
    /// Extra data that travels with the event.
    pub extra_info: usize,
}

/// The event of no key, with the given flags and nothing else set.
pub open spec fn dummy_stroke(flags: u32) -> KeyStroke {
    KeyStroke { virtual_key: 0, scan_code: 0, flags, time: 0, extra_info: 0 }
}

/// The process that is allowed to take the foreground.
#[derive(Clone, Copy, Debug, PartialEq, Eq, Structural)]
pub enum ForegroundTarget {
    /// The process with this identifier.
    Process(u32),
    /// Every process.
    AnyProcess,
}

/// The target for a peer whose process identifier is `peer`, where known.
pub open spec fn target_for(peer: Option<u32>) -> ForegroundTarget {
    match peer {
        Some(pid) => ForegroundTarget::Process(pid),
        None => ForegroundTarget::AnyProcess,
    }
}

/// The two events that make the process eligible to give the foreground
/// away: no key is pressed, then released.
pub fn dummy_keypress() -> (strokes: [KeyStroke; 2])
    ensures
        strokes@ == seq![dummy_stroke(0), dummy_stroke(KEY_RELEASED)],
{
    let down = KeyStroke { virtual_key: 0, scan_code: 0, flags: 0, time: 0, extra_info: 0 };
    let up = KeyStroke { virtual_key: 0, scan_code: 0, flags: KEY_RELEASED, time: 0, extra_info: 0 };
    let strokes = [down, up];
    strokes
}

/// The process to which the foreground is given: the peer where its
/// identifier is known, every process where it is not.
pub fn foreground_target(peer: Option<u32>) -> (target: ForegroundTarget)
    ensures
        target == target_for(peer),
{
    match peer {
        Some(pid) => ForegroundTarget::Process(pid),
        None => ForegroundTarget::AnyProcess,
    }
}

} // verus!

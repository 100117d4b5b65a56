//! The Mach transport of `SketchyBar`.
//!
//! The Mach bootstrap bridge is a C library that exists on macOS only. This
//! crate is built without it: [`probe`] and [`send`] are the transport as
//! such a build has it, and report that Mach IPC is unavailable. What the
//! bridge's answers mean is decided here all the same, for the macOS host
//! that links the bridge: [`bar_name_error`] and [`message_len`] check what
//! is handed to it, [`probe_outcome`] and [`send_outcome`] read its return
//! codes.

use vstd::prelude::*;

use super::SketchybarError;

verus! {

/// The transport name reported when Mach IPC is unavailable.
pub const MACH_TRANSPORT: &'static str = "sketchybar mach";

/// The bridge operation that looks a bar's service up.
pub const PROBE_OPERATION: &'static str = "spindle_sketchybar_probe";

/// The bridge operation that sends a message to a bar's service.
pub const SEND_OPERATION: &'static str = "spindle_sketchybar_send";

/// The operation reported when a message is too long for the bridge.
pub const MESSAGE_LEN_OPERATION: &'static str = "message_len";

/// Look the bar's Mach service up.
pub fn probe(_bar_name: &str) -> (r: Result<(), SketchybarError>)
    ensures
        r matches Err(SketchybarError::UnsupportedPlatform { transport }) && transport
            == MACH_TRANSPORT,
{
    Err(SketchybarError::UnsupportedPlatform { transport: MACH_TRANSPORT })
}

/// Send a framed message to the bar's Mach service.
pub fn send(_bar_name: &str, _bytes: &[u8]) -> (r: Result<String, SketchybarError>)
    ensures
        r matches Err(SketchybarError::UnsupportedPlatform { transport }) && transport
            == MACH_TRANSPORT,
{
    Err(SketchybarError::UnsupportedPlatform { transport: MACH_TRANSPORT })
}

/// The error a bar name is refused with before it reaches the bridge: the
/// bridge takes a C string, which cannot hold a NUL character.
pub fn bar_name_error(bar_name: &str) -> (r: Option<SketchybarError>)
    ensures
        (exists|i: int| 0 <= i < bar_name@.len() && bar_name@[i] == '\0') <==> r is Some,
        r matches Some(e) ==> (e matches SketchybarError::CommandFailed(text) && text@
            == "bar name contains NUL"@),
{
    let cs = crate::text::chars_of(bar_name);
    let mut i: usize = 0;
    while i < cs.len()
        invariant
            cs@ == bar_name@,
            i <= cs.len(),
            forall|j: int| 0 <= j < i ==> bar_name@[j] != '\0',
        decreases cs.len() - i,
    {
        if cs[i] == '\0' {
            return Some(SketchybarError::CommandFailed(String::from_str("bar name contains NUL")));
        }
        i = i + 1;
    }
    None
}

/// The length the bridge is handed for a message of `len` bytes: the
/// bridge takes a 32-bit length.
pub fn message_len(len: usize) -> (r: Result<u32, SketchybarError>)
    ensures
        len <= u32::MAX ==> r == Ok::<u32, SketchybarError>(len as u32),
        len > u32::MAX ==> (r matches Err(SketchybarError::Mach { operation, code })
            && operation == MESSAGE_LEN_OPERATION && code == -1),
{
    if len <= 0xffff_ffffusize {
        Ok(len as u32)
    } else {
        Err(SketchybarError::Mach { operation: MESSAGE_LEN_OPERATION, code: -1 })
    }
}

/// What the probe's return code means: zero is a registered service.
pub fn probe_outcome(code: i32) -> (r: Result<(), SketchybarError>)
    ensures
        code == 0 ==> r is Ok,
        code != 0 ==> (r matches Err(SketchybarError::Mach { operation, code: c })
            && operation == PROBE_OPERATION && c == code),
{
    if code == 0 {
        Ok(())
    } else {
        Err(SketchybarError::Mach { operation: PROBE_OPERATION, code })
    }
}

/// What the send's return code means: zero is a delivered message, with no
/// reply text.
pub fn send_outcome(code: i32) -> (r: Result<String, SketchybarError>)
    ensures
        code == 0 ==> (r matches Ok(reply) && reply@.len() == 0),
        code != 0 ==> (r matches Err(SketchybarError::Mach { operation, code: c })
            && operation == SEND_OPERATION && c == code),
{
    if code == 0 {
        Ok(String::new())
    } else {
        Err(SketchybarError::Mach { operation: SEND_OPERATION, code })
    }
}

} // verus!

//! The connection lifecycle state machine: one peripheral is driven from
//! idle through scanning, connecting, service discovery, and subscription
//! (input) or writability (output), then torn down. The BLE operations
//! themselves run in unverified glue; every transition decision is made
//! here, from the phase and the operation's outcome alone.

use vstd::prelude::*;
use crate::errors::ErrorTag;

verus! {

/// The phases of one connection, in the order they are normally traversed.
#[derive(Clone, Copy, PartialEq, Eq, Structural, Debug)]
pub enum ConnPhase {
    Idle,
    Scanning,
    Resolved,
    Connecting,
    Connected,
    Discovering,
    Ready,
    Subscribed,
    Writable,
    Closing,
    Closed,
}

/// Whether the connection is being opened for input (ending subscribed to
/// notifications) or for output (ending writable).
#[derive(Clone, Copy, PartialEq, Eq, Structural, Debug)]
pub enum ConnMode {
    Input,
    Output,
}

/// The transition table: from each phase, given whether the phase's BLE
/// operation succeeded, the next phase or the error tag to surface.
/// `Idle`'s operation is the adapter lookup; `Scanning`'s is the scan start;
/// `Resolved`'s is finding the peripheral by identity; `Discovering`'s is
/// finding the MIDI characteristic. A `Ready` output connection becomes
/// `Writable` with no further operation, and teardown from `Closing` always
/// reaches `Closed` (teardown errors are suppressed).
pub open spec fn spec_advance(phase: ConnPhase, mode: ConnMode, ok: bool) -> Result<
    ConnPhase,
    ErrorTag,
> {
    match phase {
        ConnPhase::Idle => if ok {
            Ok(ConnPhase::Scanning)
        } else {
            Err(ErrorTag::Peripheral)
        },
        ConnPhase::Scanning => if ok {
            Ok(ConnPhase::Resolved)
        } else {
            Err(ErrorTag::Scan)
        },
        ConnPhase::Resolved => if ok {
            Ok(ConnPhase::Connecting)
        } else {
            Err(ErrorTag::Peripheral)
        },
        ConnPhase::Connecting => if ok {
            Ok(ConnPhase::Connected)
        } else {
            Err(ErrorTag::Connect)
        },
        ConnPhase::Connected => if ok {
            Ok(ConnPhase::Discovering)
        } else {
            Err(ErrorTag::Discovery)
        },
        ConnPhase::Discovering => if ok {
            Ok(ConnPhase::Ready)
        } else {
            Err(ErrorTag::Characteristic)
        },
        ConnPhase::Ready => match mode {
            ConnMode::Input => if ok {
                Ok(ConnPhase::Subscribed)
            } else {
                Err(ErrorTag::Subscribe)
            },
            ConnMode::Output => Ok(ConnPhase::Writable),
        },
        ConnPhase::Subscribed => if ok {
            Ok(ConnPhase::Subscribed)
        } else {
            Err(ErrorTag::Notification)
        },
        ConnPhase::Writable => if ok {
            Ok(ConnPhase::Writable)
        } else {
            Err(ErrorTag::Write)
        },
        ConnPhase::Closing => Ok(ConnPhase::Closed),
        ConnPhase::Closed => Ok(ConnPhase::Closed),
    }
}

/// Take one step of the lifecycle machine; the result is exactly what the
/// transition table states.
pub fn advance(phase: ConnPhase, mode: ConnMode, ok: bool) -> (r: Result<ConnPhase, ErrorTag>)
    ensures
        r == spec_advance(phase, mode, ok),
{
    match phase {
        ConnPhase::Idle => if ok {
            Ok(ConnPhase::Scanning)
        } else {
            Err(ErrorTag::Peripheral)
        },
        ConnPhase::Scanning => if ok {
            Ok(ConnPhase::Resolved)
        } else {
            Err(ErrorTag::Scan)
        },
        ConnPhase::Resolved => if ok {
            Ok(ConnPhase::Connecting)
        } else {
            Err(ErrorTag::Peripheral)
        },
        ConnPhase::Connecting => if ok {
            Ok(ConnPhase::Connected)
        } else {
            Err(ErrorTag::Connect)
        },
        ConnPhase::Connected => if ok {
            Ok(ConnPhase::Discovering)
        } else {
            Err(ErrorTag::Discovery)
        },
        ConnPhase::Discovering => if ok {
            Ok(ConnPhase::Ready)
        } else {
            Err(ErrorTag::Characteristic)
        },
        ConnPhase::Ready => match mode {
            ConnMode::Input => if ok {
                Ok(ConnPhase::Subscribed)
            } else {
                Err(ErrorTag::Subscribe)
            },
            ConnMode::Output => Ok(ConnPhase::Writable),
        },
        ConnPhase::Subscribed => if ok {
            Ok(ConnPhase::Subscribed)
        } else {
            Err(ErrorTag::Notification)
        },
        ConnPhase::Writable => if ok {
            Ok(ConnPhase::Writable)
        } else {
            Err(ErrorTag::Write)
        },
        ConnPhase::Closing => Ok(ConnPhase::Closed),
        ConnPhase::Closed => Ok(ConnPhase::Closed),
    }
}

/// A close request moves any phase to `Closing`; teardown then reaches
/// `Closed` via the table, whatever the BLE stack reports.
pub fn request_close(phase: ConnPhase) -> (r: ConnPhase)
    ensures
        r == ConnPhase::Closing,
{
    let _ = phase;
    ConnPhase::Closing
}

} // verus!

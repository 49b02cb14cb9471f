//! The failures a caller can be handed.

use crate::commands::Command;
use vstd::prelude::*;

verus! {

/// What the USB layer can report. The framing layer raises two of these
/// itself: `Io` for a signal, tag or header it cannot read, and
/// `InvalidParam` for a reply of a length nobody asked for.
#[derive(Clone, Copy, Debug, PartialEq, Eq, Structural)]
pub enum UsbError {
    Io,
    InvalidParam,
    Access,
    NoDevice,
    NotFound,
    Busy,
    Timeout,
    Overflow,
    Pipe,
    Interrupted,
    NoMem,
    NotSupported,
    BadDescriptor,
    Other,
}

/// Every way in which an operation can fail.
#[derive(Clone, Copy, Debug, PartialEq, Eq, Structural)]
pub enum LibBBError {
    /// The link failed, or the framing on it could not be read.
    USB(UsbError),
    /// The session is not initialised.
    NoConsole,
    /// Another operation of the session is still in flight.
    Busy,
    /// The device holds no filesystem table.
    FS,
    /// Every attempt to read this block failed.
    ReadBlock(u32),
    /// Every attempt to write this block failed.
    WriteBlock(u32),
    /// The device answered this command with a negative status.
    Command(Command, i32),
    /// The device reported a failed block write.
    CheckBlockWrite(i32),
    /// The device refused to start its filesystem.
    InitFS(i32),
    /// The device refused the new time.
    SetTime(i32),
    /// The device refused to tell its identity.
    GetBBID(i32),
    /// The name part has more than eight bytes, or the extension more than three.
    FileNameTooLong,
    /// The name holds a zero byte.
    FileNameCString,
}

} // verus!

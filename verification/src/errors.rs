//! The error taxonomy: one tag per failure point in the Bluetooth MIDI
//! lifecycle, each with its stable user-visible message.

use vstd::prelude::*;

verus! {

/// Every failure the backend can report, from runtime creation through
/// scanning, connecting, service discovery, subscription, and writing.
#[derive(Clone, Copy, PartialEq, Eq, Structural, Debug)]
pub enum ErrorTag {
    Runtime,
    Manager,
    Adapter,
    Scan,
    Peripheral,
    Connect,
    Discovery,
    Characteristic,
    Subscribe,
    Notification,
    Write,
    VirtualPort,
}

/// The stable one-line message for each tag.
pub open spec fn spec_tag_message(tag: ErrorTag) -> Seq<char> {
    match tag {
        ErrorTag::Runtime => "failed to create Bluetooth runtime"@,
        ErrorTag::Manager => "failed to access Bluetooth manager"@,
        ErrorTag::Adapter => "failed to query Bluetooth adapters"@,
        ErrorTag::Scan => "failed to start Bluetooth scan"@,
        ErrorTag::Peripheral => "Bluetooth MIDI device no longer available"@,
        ErrorTag::Connect => "failed to connect to Bluetooth MIDI device"@,
        ErrorTag::Discovery => "failed to discover Bluetooth MIDI services"@,
        ErrorTag::Characteristic => "Bluetooth MIDI characteristic not available"@,
        ErrorTag::Subscribe => "failed to subscribe to Bluetooth MIDI notifications"@,
        ErrorTag::Notification => "failed to receive Bluetooth MIDI notifications"@,
        ErrorTag::Write => "failed to send Bluetooth MIDI data"@,
        ErrorTag::VirtualPort => "virtual Bluetooth MIDI ports are not supported"@,
    }
}

impl ErrorTag {
    /// The user-visible message for this tag.
    pub fn message(&self) -> (r: String)
        ensures
            r@ == spec_tag_message(*self),
    {
        match self {
            ErrorTag::Runtime => String::from_str("failed to create Bluetooth runtime"),
            ErrorTag::Manager => String::from_str("failed to access Bluetooth manager"),
            ErrorTag::Adapter => String::from_str("failed to query Bluetooth adapters"),
            ErrorTag::Scan => String::from_str("failed to start Bluetooth scan"),
            ErrorTag::Peripheral => String::from_str("Bluetooth MIDI device no longer available"),
            ErrorTag::Connect => String::from_str("failed to connect to Bluetooth MIDI device"),
            ErrorTag::Discovery => String::from_str("failed to discover Bluetooth MIDI services"),
            ErrorTag::Characteristic => String::from_str(
                "Bluetooth MIDI characteristic not available",
            ),
            ErrorTag::Subscribe => String::from_str(
                "failed to subscribe to Bluetooth MIDI notifications",
            ),
            ErrorTag::Notification => String::from_str(
                "failed to receive Bluetooth MIDI notifications",
            ),
            ErrorTag::Write => String::from_str("failed to send Bluetooth MIDI data"),
            ErrorTag::VirtualPort => String::from_str(
                "virtual Bluetooth MIDI ports are not supported",
            ),
        }
    }
}

/// The Bluetooth stack could not be brought up at all.
#[derive(Clone, Copy, PartialEq, Eq, Structural, Debug)]
pub struct InitError {}

/// Port queries are infallible by contract; this type is reserved for
/// future typed returns.
#[derive(Clone, Copy, PartialEq, Eq, Structural, Debug)]
pub struct PortInfoError {}

/// A failed connection attempt: the tag saying what failed, together with
/// the facade handed back to the caller so it can be reused.
pub struct ConnectError<T> {
    pub tag: ErrorTag,
    pub inner: T,
}

impl<T> ConnectError<T> {
    pub fn new(tag: ErrorTag, inner: T) -> (r: Self)
        ensures
            r.tag == tag,
            r.inner == inner,
    {
        ConnectError { tag, inner }
    }

    /// The user-visible message for this failure.
    pub fn message(&self) -> (r: String)
        ensures
            r@ == spec_tag_message(self.tag),
    {
        self.tag.message()
    }

    /// Give the facade back to the caller.
    pub fn into_inner(self) -> (r: T)
        ensures
            r == self.inner,
    {
        self.inner
    }
}

/// A failed `send` on an output connection.
#[derive(Clone, Copy, PartialEq, Eq, Structural, Debug)]
pub enum SendError {
    Other(ErrorTag),
}

impl SendError {
    /// The user-visible message for this failure.
    pub fn message(&self) -> (r: String)
        ensures
            ({
                let SendError::Other(tag) = *self;
                r@ == spec_tag_message(tag)
            }),
    {
        match self {
            SendError::Other(tag) => tag.message(),
        }
    }
}

} // verus!

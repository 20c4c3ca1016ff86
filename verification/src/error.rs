//! The errors that the library reports.

use vstd::prelude::*;
use crate::ObjectId;

verus! {

/// What went wrong while building, encoding, decoding or dispatching a packet.
#[derive(Clone, Debug, PartialEq, Eq)]
pub enum Error {
    /// A serialized packet would exceed the 16-bit size field of the header.
    PacketTooLong { actual: usize, maximum: usize },
    /// A received header announced fewer bytes than the header itself.
    PacketTooShort { actual: usize, minimum: usize },
    /// A field would end past the end of the payload.
    FieldOutOfBounds { actual: usize, maximum: usize },
    /// A string's first NUL byte is not its last byte.
    StringMisplacedNul { actual: Option<usize>, expected: usize },
    /// A string's bytes are not UTF-8.
    StringInvalidUtf8 { data: Vec<u8> },
    /// An object identifier that must not be null was 0.
    ZeroObjectId,
    /// More file descriptors were read than the packet carries.
    FdOutOfBounds { total: usize },
    /// A packet was not read to its end.
    IncompleteRead { read_bytes: usize, total_bytes: usize, read_fds: usize, total_fds: usize },
    /// No handler is registered for the object a packet is addressed to.
    NoEventHandler { object_id: ObjectId },
    /// A required environment variable is not set.
    MissingEnvVar { name: String },
}

} // verus!

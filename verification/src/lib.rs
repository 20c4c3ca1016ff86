//! A verified core for a Wayland client library: object identifiers,
//! 24.8 fixed-point numbers, wire-format packets and their readers.

use vstd::prelude::*;

pub mod connection;
pub mod error;
pub mod fixed;
pub mod iter_ext;
pub mod model;
pub mod packet;
pub mod protocol_xml;
pub mod shared_memory;
pub mod text;
pub mod wire;
pub mod xml;

pub use crate::error::Error;
pub use crate::fixed::Fixed;
pub use crate::packet::Packet;

verus! {

/// The identifier of a protocol object. Identifier 0 stands for "no object"
/// on the wire and is therefore never an `ObjectId`.
#[derive(Clone, Copy, Debug, PartialEq, Eq, Structural, Hash, PartialOrd, Ord)]
pub struct ObjectId(u32);

impl ObjectId {
    #[verifier::type_invariant]
    spec fn nonzero(self) -> bool {
        self.0 != 0
    }

    /// The numeric value of the identifier.
    pub closed spec fn value(self) -> u32 {
        self.0
    }

    /// `Some` identifier carrying `object_id`, or `None` when it is 0.
    pub fn new(object_id: u32) -> (res: Option<Self>)
        ensures
            object_id == 0 <==> res is None,
            res matches Some(oid) ==> oid.value() == object_id,
    {
        if object_id == 0 {
            None
        } else {
            Some(ObjectId(object_id))
        }
    }

    /// The identifier of the display object, which every connection has.
    pub fn display() -> (res: Self)
        ensures
            res.value() == 1,
    {
        ObjectId(1)
    }

    /// The numeric value of the identifier, never 0.
    pub fn get(&self) -> (res: u32)
        ensures
            res == self.value(),
            res != 0,
    {
        proof {
            use_type_invariant(self);
        }
        self.0
    }
}

/// The identifier that a request or event assigns to an object it creates,
/// where the interface of the new object is implied by the message.
#[derive(Clone, Copy, Debug, PartialEq, Eq, Structural, Hash, PartialOrd, Ord)]
pub struct NewObjectId(pub ObjectId);

/// A new object whose interface is named in the message that creates it.
#[derive(Clone, Debug, PartialEq, Eq, Hash, PartialOrd, Ord)]
pub struct NewObject {
    pub object_id: ObjectId,
    pub interface: String,
    pub interface_version: u32,
}

} // verus!

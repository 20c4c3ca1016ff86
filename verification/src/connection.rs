//! The decisions a connection makes: decoding the fixed header of a received
//! packet, and finding the handler an incoming packet is addressed to.
//! The socket, the locks and the asynchronous plumbing stand around them.

use vstd::prelude::*;
use std::collections::BTreeMap;

use crate::ObjectId;
use crate::error::Error;
use crate::packet::{serialized, PacketView, HEADER_SIZE};
use crate::wire::{lemma_ne_value_of_bytes, ne_bytes, ne_value, u32_from_ne_bytes};

verus! {

/// The object identifier word of an 8-byte header.
pub open spec fn header_object_word(header: Seq<u8>) -> u32 {
    ne_value(header.subrange(0, 4))
}

/// The word that holds size and opcode in an 8-byte header.
pub open spec fn header_size_opcode_word(header: Seq<u8>) -> u32 {
    ne_value(header.subrange(4, 8))
}

/// The packet size that a header announces: the upper 16 bits.
pub open spec fn header_size(header: Seq<u8>) -> nat {
    (header_size_opcode_word(header) / 65536) as nat
}

/// The opcode that a header carries, as the lowest 8 bits of its word.
pub open spec fn header_opcode(header: Seq<u8>) -> u16 {
    (header_size_opcode_word(header) % 256) as u16
}

/// The fixed header of a received packet.
#[derive(Clone, Copy, Debug, PartialEq, Eq)]
pub struct PacketHeader {
    /// The object the packet is addressed to.
    pub object_id: ObjectId,
    /// The opcode of the event.
    pub opcode: u16,
    /// The number of payload bytes that follow the header.
    pub payload_len: usize,
}

/// Decodes the 8 header bytes of a received packet: `PacketTooShort` where
/// the announced size is below the header size, `ZeroObjectId` where the
/// packet is addressed to no object.
pub fn decode_header(header: [u8; 8]) -> (res: Result<PacketHeader, Error>)
    ensures
        header_size(header@) < 8 ==> res == Err::<PacketHeader, Error>(Error::PacketTooShort {
            actual: header_size(header@) as usize,
            minimum: 8,
        }),
        header_size(header@) >= 8 && header_object_word(header@) == 0 ==> res == Err::<PacketHeader, Error>(
            Error::ZeroObjectId,
        ),
        header_size(header@) >= 8 && header_object_word(header@) != 0 ==> (res matches Ok(h)
            && h.object_id.value() == header_object_word(header@) && h.opcode == header_opcode(header@)
            && h.payload_len == header_size(header@) - 8),
{
    let object_id_u32 = u32_from_ne_bytes([header[0], header[1], header[2], header[3]]);
    let size_and_opcode = u32_from_ne_bytes([header[4], header[5], header[6], header[7]]);
    assert(seq![header@[0], header@[1], header@[2], header@[3]] =~= header@.subrange(0, 4));
    assert(seq![header@[4], header@[5], header@[6], header@[7]] =~= header@.subrange(4, 8));
    let size_bits = size_and_opcode >> 16u32;
    let opcode_bits = size_and_opcode & 0xFF;
    assert(size_bits == size_and_opcode / 65536 && opcode_bits == size_and_opcode % 256) by (bit_vector)
        requires
            size_bits == size_and_opcode >> 16u32,
            opcode_bits == size_and_opcode & 0xFF,
    ;
    let packet_size = size_bits as usize;
    let opcode = opcode_bits as u16;
    if packet_size < HEADER_SIZE {
        return Err(Error::PacketTooShort { actual: packet_size, minimum: HEADER_SIZE });
    }
    match ObjectId::new(object_id_u32) {
        Some(object_id) => Ok(PacketHeader { object_id, opcode, payload_len: packet_size - HEADER_SIZE }),
        None => Err(Error::ZeroObjectId),
    }
}

/// Decoding the header of a serialized packet gives back its object, its
/// size and, where it fits in 8 bits, its opcode; the payload follows the
/// header. Opcodes from 256 up lose their upper bits in the decoded header.
pub proof fn lemma_header_of_serialized(p: PacketView)
    requires
        p.payload.len() + 8 <= 65535,
        p.opcode < 256,
    ensures
        ({
            let bytes = serialized(p);
            &&& bytes.len() == p.payload.len() + 8
            &&& header_object_word(bytes) == p.object_id.value()
            &&& header_size(bytes) == p.payload.len() + 8
            &&& header_opcode(bytes) == p.opcode
            &&& bytes.subrange(8, bytes.len() as int) == p.payload
        }),
{
    let bytes = serialized(p);
    let w = ((p.payload.len() + 8) * 65536 + p.opcode) as u32;
    lemma_ne_value_of_bytes(p.object_id.value());
    lemma_ne_value_of_bytes(w);
    assert(bytes.subrange(0, 4) =~= ne_bytes(p.object_id.value()));
    assert(bytes.subrange(4, 8) =~= ne_bytes(w));
    assert(bytes.subrange(8, bytes.len() as int) =~= p.payload);
    assert(w / 65536 == p.payload.len() + 8);
    assert(w % 256 == p.opcode);
}

// ---------------------------------------------------------------------------
// The handlers of a connection
// ---------------------------------------------------------------------------

/// The event handlers of a connection, one per object identifier.
pub struct HandlerRegistry<H> {
    handlers: BTreeMap<u32, H>,
}

impl<H> View for HandlerRegistry<H> {
    type V = Map<u32, H>;

    closed spec fn view(&self) -> Map<u32, H> {
        self.handlers@
    }
}

impl<H> HandlerRegistry<H> {
    /// A registry without handlers.
    pub fn new() -> (res: Self)
        ensures
            res@ == Map::<u32, H>::empty(),
    {
        HandlerRegistry { handlers: BTreeMap::new() }
    }

    /// Registers `handler` for `object_id`, replacing any handler it had.
    pub fn register_handler(&mut self, object_id: ObjectId, handler: H)
        ensures
            final(self)@ == old(self)@.insert(object_id.value(), handler),
    {
        broadcast use vstd::std_specs::btree::group_btree_axioms;
        let key = object_id.get();
        let _ = self.handlers.insert(key, handler);
    }

    /// Removes the handler of `object_id`, if it has one.
    pub fn drop_handler(&mut self, object_id: ObjectId)
        ensures
            final(self)@ == old(self)@.remove(object_id.value()),
    {
        broadcast use vstd::std_specs::btree::group_btree_axioms;
        let key = object_id.get();
        let _ = self.handlers.remove(&key);
    }

    /// The handler that a packet addressed to `object_id` goes to, or
    /// `NoEventHandler` where the object has none.
    pub fn lookup(&self, object_id: ObjectId) -> (res: Result<&H, Error>)
        ensures
            self@.contains_key(object_id.value()) ==> (res matches Ok(h) && *h == self@[object_id.value()]),
            !self@.contains_key(object_id.value()) ==> res == Err::<&H, Error>(Error::NoEventHandler { object_id }),
    {
        broadcast use vstd::std_specs::btree::group_btree_axioms;
        let key = object_id.get();
        match self.handlers.get(&key) {
            Some(h) => Ok(h),
            None => Err(Error::NoEventHandler { object_id }),
        }
    }
}

/// After a handler is registered for an object, packets addressed to that
/// object find it, and the handlers of other objects are unchanged.
pub proof fn lemma_lookup_after_register<H>(handlers: Map<u32, H>, object_id: ObjectId, handler: H, other: u32)
    ensures
        handlers.insert(object_id.value(), handler).contains_key(object_id.value()),
        handlers.insert(object_id.value(), handler)[object_id.value()] == handler,
        other != object_id.value() ==> (handlers.insert(object_id.value(), handler).contains_key(other)
            == handlers.contains_key(other) && handlers.insert(object_id.value(), handler)[other]
            == handlers[other]),
{
}

/// After the handler of an object is dropped, packets addressed to that
/// object find none, and the handlers of other objects are unchanged.
pub proof fn lemma_lookup_after_drop<H>(handlers: Map<u32, H>, object_id: ObjectId, other: u32)
    ensures
        !handlers.remove(object_id.value()).contains_key(object_id.value()),
        other != object_id.value() ==> (handlers.remove(object_id.value()).contains_key(other)
            == handlers.contains_key(other) && handlers.remove(object_id.value())[other]
            == handlers[other]),
{
}

} // verus!

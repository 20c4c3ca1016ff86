//! Wayland packets: building a payload argument by argument, serializing a
//! packet to bytes, and reading the arguments of a received packet back.

use vstd::prelude::*;
use vstd::utf8::*;
use vstd::slice::{slice_subrange, slice_to_vec};

use crate::{NewObject, NewObjectId, ObjectId};
use crate::error::Error;
use crate::fixed::Fixed;
use crate::wire::{lemma_ne_value_of_bytes, ne_bytes, ne_value, u32_from_ne_bytes, u32_to_ne_bytes};

verus! {

/// The largest number of bytes a serialized packet can have.
pub const MAX_PACKET_SIZE: usize = 65535;

/// The size of the fixed packet header: object identifier, size and opcode.
pub const HEADER_SIZE: usize = 8;

// ---------------------------------------------------------------------------
// The encoding of arguments
// ---------------------------------------------------------------------------

/// The number of zero bytes that align a field of `len` bytes to 4 bytes.
pub open spec fn padding(len: nat) -> nat {
    ((4 - len % 4) % 4) as nat
}

/// `n` zero bytes.
pub open spec fn zeros(n: nat) -> Seq<u8> {
    Seq::new(n, |i: int| 0u8)
}

/// An unsigned 32-bit argument.
pub open spec fn uint_encoding(value: u32) -> Seq<u8> {
    ne_bytes(value)
}

/// A signed 32-bit argument: its two's complement word.
pub open spec fn int_encoding(value: i32) -> Seq<u8> {
    ne_bytes(value as u32)
}

/// A fixed-point argument: its raw representation as a signed word.
pub open spec fn fixed_encoding(value: Fixed) -> Seq<u8> {
    int_encoding(value.inner())
}

/// A string argument: its length including the terminating NUL, its UTF-8
/// bytes, the NUL, and zero padding to a multiple of 4 bytes.
pub open spec fn str_encoding(s: Seq<char>) -> Seq<u8> {
    let bytes = encode_utf8(s);
    let len_with_nul = bytes.len() + 1;
    ne_bytes(len_with_nul as u32) + bytes + seq![0u8] + zeros(padding(len_with_nul))
}

/// An array argument: its length, its bytes, and zero padding to a multiple
/// of 4 bytes.
pub open spec fn array_encoding(a: Seq<u8>) -> Seq<u8> {
    ne_bytes(a.len() as u32) + a + zeros(padding(a.len()))
}

/// The numeric value of an optional object on the wire; 0 stands for none.
pub open spec fn object_value(object_id: Option<ObjectId>) -> u32 {
    match object_id {
        Some(oid) => oid.value(),
        None => 0,
    }
}

/// An object argument.
pub open spec fn object_encoding(object_id: Option<ObjectId>) -> Seq<u8> {
    uint_encoding(object_value(object_id))
}

/// A new object whose interface is named: interface name, version, identifier.
pub open spec fn new_object_encoding(interface: Seq<char>, version: u32, object_id: ObjectId) -> Seq<u8> {
    str_encoding(interface) + uint_encoding(version) + uint_encoding(object_id.value())
}

/// Whether `s` can be pushed as a string argument: it holds no NUL character
/// and its length with the NUL fits in 32 bits.
pub open spec fn str_pushable(s: Seq<char>) -> bool {
    &&& !s.contains('\0')
    &&& encode_utf8(s).len() + 1 <= u32::MAX
}

// ---------------------------------------------------------------------------
// Packets
// ---------------------------------------------------------------------------

/// The abstract content of a packet.
pub struct PacketView {
    pub object_id: ObjectId,
    pub opcode: u16,
    pub payload: Seq<u8>,
    pub fds: Seq<i32>,
}

/// The word that holds the packet size in its upper and the opcode in its
/// lower 16 bits.
pub open spec fn size_opcode_word(size: nat, opcode: u16) -> u32 {
    (size * 65536 + opcode) as u32
}

/// The bytes of a packet on the wire: object identifier, size and opcode,
/// then the payload.
pub open spec fn serialized(p: PacketView) -> Seq<u8> {
    ne_bytes(p.object_id.value()) + ne_bytes(size_opcode_word(p.payload.len() + 8, p.opcode))
        + p.payload
}

/// `x` as a `usize`, or `usize::MAX` where it does not fit.
pub open spec fn clamp_usize(x: int) -> usize {
    if x > usize::MAX {
        usize::MAX
    } else {
        x as usize
    }
}

/// A message of the Wayland protocol: the object it is addressed to, the
/// opcode of the request or event, the argument bytes and the file
/// descriptors that travel with it.
#[derive(Clone, Debug, PartialEq, Eq, Hash, PartialOrd, Ord)]
pub struct Packet {
    object_id: ObjectId,
    opcode: u16,
    payload: Vec<u8>,
    fds: Vec<i32>,
}

impl View for Packet {
    type V = PacketView;

    closed spec fn view(&self) -> PacketView {
        PacketView {
            object_id: self.object_id,
            opcode: self.opcode,
            payload: self.payload@,
            fds: self.fds@,
        }
    }
}

/// Appends `bytes` to `v`.
fn append_bytes(v: &mut Vec<u8>, bytes: &[u8])
    ensures
        final(v)@ == old(v)@ + bytes@,
{
    let ghost start = v@;
    let mut i: usize = 0;
    while i < bytes.len()
        invariant
            0 <= i <= bytes@.len(),
            v@ == start + bytes@.subrange(0, i as int),
        decreases bytes@.len() - i,
    {
        v.push(bytes[i]);
        i = i + 1;
        assert(bytes@.subrange(0, i as int) =~= bytes@.subrange(0, i - 1).push(bytes@[i - 1]));
    }
    assert(bytes@.subrange(0, i as int) =~= bytes@);
}

/// Appends `n` zero bytes to `v`.
fn append_zeros(v: &mut Vec<u8>, n: usize)
    ensures
        final(v)@ == old(v)@ + zeros(n as nat),
{
    let ghost start = v@;
    let mut i: usize = 0;
    while i < n
        invariant
            0 <= i <= n,
            v@ == start + zeros(i as nat),
        decreases n - i,
    {
        v.push(0u8);
        i = i + 1;
        assert(zeros(i as nat) =~= zeros((i - 1) as nat).push(0u8));
    }
}

/// The number of padding bytes after a field of `len` bytes.
fn padding_for(len: usize) -> (res: usize)
    ensures
        res == padding(len as nat),
        res < 4,
{
    (4 - (len % 4)) % 4
}

impl Packet {
    /// A packet with an empty payload and no file descriptors.
    pub fn new(object_id: ObjectId, opcode: u16) -> (res: Self)
        ensures
            res@ == (PacketView { object_id, opcode, payload: Seq::empty(), fds: Seq::empty() }),
    {
        Self { object_id, opcode, payload: Vec::new(), fds: Vec::new() }
    }

    /// A packet with the given payload and file descriptors.
    pub fn new_from_existing(object_id: ObjectId, opcode: u16, payload: Vec<u8>, fds: Vec<i32>) -> (res: Self)
        ensures
            res@ == (PacketView { object_id, opcode, payload: payload@, fds: fds@ }),
    {
        Self { object_id, opcode, payload, fds }
    }

    /// The object the packet is addressed to.
    pub fn object_id(&self) -> (res: ObjectId)
        ensures
            res == self@.object_id,
    {
        self.object_id
    }

    /// The opcode of the request or event.
    pub fn opcode(&self) -> (res: u16)
        ensures
            res == self@.opcode,
    {
        self.opcode
    }

    /// Addresses the packet to another object.
    pub fn set_object_id(&mut self, new_value: ObjectId)
        ensures
            final(self)@ == (PacketView { object_id: new_value, ..old(self)@ }),
    {
        self.object_id = new_value;
    }

    /// Changes the opcode.
    pub fn set_opcode(&mut self, new_value: u16)
        ensures
            final(self)@ == (PacketView { opcode: new_value, ..old(self)@ }),
    {
        self.opcode = new_value;
    }

    /// Appends an unsigned 32-bit argument.
    pub fn push_uint(&mut self, value: u32)
        ensures
            final(self)@ == (PacketView { payload: old(self)@.payload + uint_encoding(value), ..old(self)@ }),
    {
        let bs = u32_to_ne_bytes(value);
        append_bytes(&mut self.payload, &bs);
    }

    /// Appends a signed 32-bit argument.
    pub fn push_int(&mut self, value: i32)
        ensures
            final(self)@ == (PacketView { payload: old(self)@.payload + int_encoding(value), ..old(self)@ }),
    {
        let bs = u32_to_ne_bytes(value as u32);
        append_bytes(&mut self.payload, &bs);
    }

    /// Appends a fixed-point argument.
    pub fn push_fixed(&mut self, value: Fixed)
        ensures
            final(self)@ == (PacketView { payload: old(self)@.payload + fixed_encoding(value), ..old(self)@ }),
    {
        let bs = u32_to_ne_bytes(value.inner_value() as u32);
        append_bytes(&mut self.payload, &bs);
    }

    /// Appends a string argument. The string must not hold a NUL character.
    pub fn push_str(&mut self, value: &str)
        requires
            str_pushable(value@),
        ensures
            final(self)@ == (PacketView { payload: old(self)@.payload + str_encoding(value@), ..old(self)@ }),
    {
        let bytes = value.as_bytes();
        let len_with_nul = bytes.len() + 1;
        let lwn_u32 = len_with_nul as u32;
        let ghost start = self.payload@;
        append_bytes(&mut self.payload, &u32_to_ne_bytes(lwn_u32));
        append_bytes(&mut self.payload, bytes);
        self.payload.push(0x00);
        let realign_count = padding_for(len_with_nul);
        append_zeros(&mut self.payload, realign_count);
        assert(self.payload@ =~= start + str_encoding(value@));
    }

    /// Appends an array argument. Its length must fit in 32 bits.
    pub fn push_array(&mut self, array: &[u8])
        requires
            array@.len() <= u32::MAX,
        ensures
            final(self)@ == (PacketView { payload: old(self)@.payload + array_encoding(array@), ..old(self)@ }),
    {
        let len = array.len();
        let len_u32 = len as u32;
        let ghost start = self.payload@;
        append_bytes(&mut self.payload, &u32_to_ne_bytes(len_u32));
        append_bytes(&mut self.payload, array);
        let realign_count = padding_for(len);
        append_zeros(&mut self.payload, realign_count);
        assert(self.payload@ =~= start + array_encoding(array@));
    }

    /// Appends an object argument; `None` is the null object.
    pub fn push_object(&mut self, obj_id: Option<ObjectId>)
        ensures
            final(self)@ == (PacketView { payload: old(self)@.payload + object_encoding(obj_id), ..old(self)@ }),
    {
        match obj_id {
            Some(oi) => self.push_uint(oi.get()),
            None => self.push_uint(0),
        }
    }

    /// Appends a new object whose interface the message implies.
    pub fn push_new_id_known_interface(&mut self, new_id: NewObjectId)
        ensures
            final(self)@ == (PacketView { payload: old(self)@.payload + object_encoding(Some(new_id.0)), ..old(self)@ }),
    {
        self.push_object(Some(new_id.0))
    }

    /// Appends a new object whose interface the message names: interface
    /// name, interface version and identifier.
    pub fn push_new_id_unknown_interface(&mut self, new_obj: &NewObject)
        requires
            str_pushable(new_obj.interface@),
        ensures
            final(self)@ == (PacketView {
                payload: old(self)@.payload + new_object_encoding(new_obj.interface@, new_obj.interface_version, new_obj.object_id),
                ..old(self)@
            }),
    {
        let ghost start = self.payload@;
        self.push_str(new_obj.interface.as_str());
        self.push_uint(new_obj.interface_version);
        self.push_object(Some(new_obj.object_id));
        assert(self.payload@ =~= start + new_object_encoding(new_obj.interface@, new_obj.interface_version, new_obj.object_id));
    }

    /// Attaches a file descriptor.
    pub fn push_fd(&mut self, fd: i32)
        ensures
            final(self)@ == (PacketView { fds: old(self)@.fds.push(fd), ..old(self)@ }),
    {
        self.fds.push(fd);
    }

    /// Removes all arguments and file descriptors.
    pub fn clear_payload(&mut self)
        ensures
            final(self)@ == (PacketView { payload: Seq::empty(), fds: Seq::empty(), ..old(self)@ }),
    {
        self.payload.clear();
        self.fds.clear();
    }

    /// The bytes of the packet on the wire, or `PacketTooLong` where the
    /// packet would exceed the 16-bit size field.
    pub fn serialize(&self) -> (res: Result<Vec<u8>, Error>)
        ensures
            self@.payload.len() + HEADER_SIZE <= MAX_PACKET_SIZE ==> (res matches Ok(bytes) && bytes@ == serialized(self@)),
            self@.payload.len() + HEADER_SIZE > MAX_PACKET_SIZE ==> res == Err::<Vec<u8>, Error>(Error::PacketTooLong {
                actual: clamp_usize(self@.payload.len() + HEADER_SIZE),
                maximum: MAX_PACKET_SIZE,
            }),
    {
        let max_size: usize = MAX_PACKET_SIZE;
        if self.payload.len() > max_size - HEADER_SIZE {
            return Err(Error::PacketTooLong {
                actual: self.payload.len().saturating_add(HEADER_SIZE),
                maximum: max_size,
            });
        }
        let total_bytes = HEADER_SIZE + self.payload.len();
        let size_u16 = total_bytes as u16;
        let opcode = self.opcode;
        let top_size_bytes_bottom_opcode: u32 = ((size_u16 as u32) << 16u32) | (opcode as u32);
        assert(top_size_bytes_bottom_opcode == (size_u16 as u32) * 65536 + (opcode as u32)) by (bit_vector)
            requires
                top_size_bytes_bottom_opcode == ((size_u16 as u32) << 16u32) | (opcode as u32),
        ;
        let mut buf: Vec<u8> = Vec::with_capacity(total_bytes);
        append_bytes(&mut buf, &u32_to_ne_bytes(self.object_id.get()));
        append_bytes(&mut buf, &u32_to_ne_bytes(top_size_bytes_bottom_opcode));
        append_bytes(&mut buf, self.payload.as_slice());
        Ok(buf)
    }

    /// The attached file descriptors.
    pub fn fds(&self) -> (res: &[i32])
        ensures
            res@ == self@.fds,
    {
        self.fds.as_slice()
    }

    /// A reader positioned at the first argument and the first file descriptor.
    pub fn read(&self) -> (res: PacketReader<'_>)
        ensures
            res.payload() == self@.payload,
            res.fds() == self@.fds,
            res.payload_pos() == 0,
            res.fd_pos() == 0,
            res.in_bounds(),
    {
        PacketReader { packet: self, payload_pos: 0, fd_pos: 0 }
    }
}

// ---------------------------------------------------------------------------
// Reading arguments back
// ---------------------------------------------------------------------------

/// The word stored at `pos`.
pub open spec fn word_at(payload: Seq<u8>, pos: int) -> u32 {
    ne_value(payload.subrange(pos, pos + 4))
}

/// The error for a field that would end at `end`, past the payload.
pub open spec fn out_of_bounds(payload: Seq<u8>, end: int) -> Error {
    Error::FieldOutOfBounds { actual: clamp_usize(end), maximum: payload.len() as usize }
}

/// Reading a 32-bit word at `pos`: the word and the position after it, or
/// the error and the position unchanged.
pub open spec fn read_word_spec(payload: Seq<u8>, pos: int) -> (Result<u32, Error>, int) {
    if pos + 4 > payload.len() {
        (Err(out_of_bounds(payload, pos + 4)), pos)
    } else {
        (Ok(word_at(payload, pos)), pos + 4)
    }
}

/// Reading a length-prefixed, padded byte field at `pos`: its bytes and the
/// position after the padding, or the error and the position unchanged.
pub open spec fn read_array_spec(payload: Seq<u8>, pos: int) -> (Result<Seq<u8>, Error>, int) {
    if pos + 4 > payload.len() {
        (Err(out_of_bounds(payload, pos + 4)), pos)
    } else {
        let n = word_at(payload, pos) as nat;
        let end = pos + 4 + n + padding(n);
        if end > payload.len() {
            (Err(out_of_bounds(payload, end)), pos)
        } else {
            (Ok(payload.subrange(pos + 4, pos + 4 + n)), end)
        }
    }
}

/// Whether `i` is the index of the first zero byte of `s`.
pub open spec fn is_first_zero(s: Seq<u8>, i: int) -> bool {
    &&& 0 <= i < s.len()
    &&& s[i] == 0
    &&& forall|j: int| 0 <= j < i ==> s[j] != 0
}

/// The index of the first zero byte of `s`, if it has one.
pub open spec fn first_zero(s: Seq<u8>) -> Option<usize> {
    if exists|i: int| is_first_zero(s, i) {
        Some((choose|i: int| is_first_zero(s, i)) as usize)
    } else {
        None
    }
}

/// The index at which a string field of `n` bytes must hold its only NUL;
/// for an empty field this index wraps around to `usize::MAX`.
pub open spec fn expected_nul(n: nat) -> usize {
    if n == 0 {
        usize::MAX
    } else {
        (n - 1) as usize
    }
}

/// The outcome of reading a string field.
pub enum StrRead {
    /// The string.
    Decoded(Seq<char>),
    /// An error other than invalid UTF-8.
    Refused(Error),
    /// The bytes before the NUL, which are not UTF-8.
    InvalidUtf8(Seq<u8>),
}

/// Reading a string field at `pos`, and the position after it.
pub open spec fn read_str_spec(payload: Seq<u8>, pos: int) -> (StrRead, int) {
    match read_array_spec(payload, pos) {
        (Err(e), p) => (StrRead::Refused(e), p),
        (Ok(field), p) => {
            let expected = expected_nul(field.len());
            if first_zero(field) != Some(expected) {
                (StrRead::Refused(Error::StringMisplacedNul { actual: first_zero(field), expected }), p)
            } else {
                let content = field.subrange(0, field.len() - 1);
                if valid_utf8(content) {
                    (StrRead::Decoded(decode_utf8(content)), p)
                } else {
                    (StrRead::InvalidUtf8(content), p)
                }
            }
        },
    }
}

/// Whether `res` is the error that a refused string read `r` reports.
pub open spec fn refusal_matches<T>(res: Result<T, Error>, r: StrRead) -> bool {
    match r {
        StrRead::Decoded(_) => false,
        StrRead::Refused(e) => res == Err::<T, Error>(e),
        StrRead::InvalidUtf8(b) => res matches Err(Error::StringInvalidUtf8 { data }) && data@ == b,
    }
}

/// Whether the result of an executable string read matches `r`.
pub open spec fn str_result_matches(res: Result<String, Error>, r: StrRead) -> bool {
    match r {
        StrRead::Decoded(s) => res matches Ok(v) && v@ == s,
        _ => refusal_matches(res, r),
    }
}

/// `std::str::from_utf8`: the string whose UTF-8 encoding is `bytes`, or
/// `None` where `bytes` is not valid UTF-8. The contract states that, with
/// vstd's definitions of valid UTF-8 and of a string's bytes.
#[verifier::external_body]
fn str_from_utf8(bytes: &[u8]) -> (res: Option<&str>)
    ensures
        res is Some <==> valid_utf8(bytes@),
        res matches Some(s) ==> encode_utf8(s@) == bytes@,
{
    std::str::from_utf8(bytes).ok()
}

/// A cursor over the arguments and file descriptors of a packet.
pub struct PacketReader<'a> {
    packet: &'a Packet,
    payload_pos: usize,
    fd_pos: usize,
}

impl<'a> PacketReader<'a> {
    #[verifier::type_invariant]
    spec fn within_packet(self) -> bool {
        &&& self.payload_pos <= self.packet.payload@.len()
        &&& self.fd_pos <= self.packet.fds@.len()
    }

    /// The payload being read.
    pub closed spec fn payload(self) -> Seq<u8> {
        self.packet.payload@
    }

    /// The file descriptors being read.
    pub closed spec fn fds(self) -> Seq<i32> {
        self.packet.fds@
    }

    /// The offset of the next argument in the payload.
    pub closed spec fn payload_pos(self) -> int {
        self.payload_pos as int
    }

    /// The index of the next file descriptor.
    pub closed spec fn fd_pos(self) -> int {
        self.fd_pos as int
    }

    /// Whether both positions lie within the packet: the next argument at
    /// most at the end of the payload, the next file descriptor at most one
    /// past the last.
    pub open spec fn in_bounds(self) -> bool {
        &&& 0 <= self.payload_pos() <= self.payload().len()
        &&& 0 <= self.fd_pos() <= self.fds().len()
    }

    /// Whether the reader reads the same packet as `other`.
    pub open spec fn same_packet(self, other: Self) -> bool {
        self.payload() == other.payload() && self.fds() == other.fds()
    }

    /// Reads the word at the current position and moves past it.
    fn read_word(&mut self) -> (res: Result<u32, Error>)
        ensures
            final(self).same_packet(*old(self)),
            final(self).in_bounds(),
            (res, final(self).payload_pos()) == read_word_spec(old(self).payload(), old(self).payload_pos()),
            final(self).fd_pos() == old(self).fd_pos(),
    {
        proof {
            use_type_invariant(&*self);
        }
        let payload = &self.packet.payload;
        let pos = self.payload_pos;
        if payload.len() - pos < 4 {
            return Err(Error::FieldOutOfBounds { actual: pos.saturating_add(4), maximum: payload.len() });
        }
        let word = u32_from_ne_bytes([payload[pos], payload[pos + 1], payload[pos + 2], payload[pos + 3]]);
        assert(seq![payload@[pos as int], payload@[pos + 1], payload@[pos + 2], payload@[pos + 3]]
            =~= payload@.subrange(pos as int, pos + 4));
        self.payload_pos = pos + 4;
        Ok(word)
    }

    /// Reads a length-prefixed, padded byte field and moves past it.
    fn read_field(&mut self) -> (res: Result<&'a [u8], Error>)
        ensures
            final(self).same_packet(*old(self)),
            final(self).in_bounds(),
            final(self).fd_pos() == old(self).fd_pos(),
            ({
                let (spec_res, spec_pos) = read_array_spec(old(self).payload(), old(self).payload_pos());
                &&& final(self).payload_pos() == spec_pos
                &&& match spec_res {
                    Ok(b) => res matches Ok(field) && field@ == b,
                    Err(e) => res == Err::<&'a [u8], Error>(e),
                }
            }),
    {
        proof {
            use_type_invariant(&*self);
        }
        let packet: &'a Packet = self.packet;
        let start = self.payload_pos;
        let len_u32 = self.read_word()?;
        proof {
            use_type_invariant(&*self);
        }
        let len = len_u32 as usize;
        let padding_len = padding_for(len);
        let available = packet.payload.len() - self.payload_pos;
        if len > available || padding_len > available - len {
            let end: u128 = start as u128 + 4 + len as u128 + padding_len as u128;
            let actual: usize = if end > usize::MAX as u128 { usize::MAX } else { end as usize };
            self.payload_pos = start;
            return Err(Error::FieldOutOfBounds { actual, maximum: packet.payload.len() });
        }
        let field_start = self.payload_pos;
        let field = slice_subrange(packet.payload.as_slice(), field_start, field_start + len);
        self.payload_pos = field_start + len + padding_len;
        Ok(field)
    }

    /// Reads an unsigned 32-bit argument.
    pub fn read_uint(&mut self) -> (res: Result<u32, Error>)
        ensures
            final(self).same_packet(*old(self)),
            final(self).in_bounds(),
            (res, final(self).payload_pos()) == read_word_spec(old(self).payload(), old(self).payload_pos()),
            final(self).fd_pos() == old(self).fd_pos(),
    {
        self.read_word()
    }

    /// Reads a signed 32-bit argument.
    pub fn read_int(&mut self) -> (res: Result<i32, Error>)
        ensures
            final(self).same_packet(*old(self)),
            final(self).in_bounds(),
            final(self).fd_pos() == old(self).fd_pos(),
            ({
                let (spec_res, spec_pos) = read_word_spec(old(self).payload(), old(self).payload_pos());
                &&& final(self).payload_pos() == spec_pos
                &&& match spec_res {
                    Ok(w) => res == Ok::<i32, Error>(w as i32),
                    Err(e) => res == Err::<i32, Error>(e),
                }
            }),
    {
        let word = self.read_word()?;
        Ok(word as i32)
    }

    /// Reads a fixed-point argument.
    pub fn read_fixed(&mut self) -> (res: Result<Fixed, Error>)
        ensures
            final(self).same_packet(*old(self)),
            final(self).in_bounds(),
            final(self).fd_pos() == old(self).fd_pos(),
            ({
                let (spec_res, spec_pos) = read_word_spec(old(self).payload(), old(self).payload_pos());
                &&& final(self).payload_pos() == spec_pos
                &&& match spec_res {
                    Ok(w) => res matches Ok(f) && f.inner() == w as i32,
                    Err(e) => res == Err::<Fixed, Error>(e),
                }
            }),
    {
        let word = self.read_word()?;
        Ok(Fixed::from_inner_value(word as i32))
    }

    /// Reads a string argument. The position moves past the field even where
    /// its content is refused.
    pub fn read_str(&mut self) -> (res: Result<String, Error>)
        ensures
            final(self).same_packet(*old(self)),
            final(self).in_bounds(),
            final(self).fd_pos() == old(self).fd_pos(),
            ({
                let (r, spec_pos) = read_str_spec(old(self).payload(), old(self).payload_pos());
                final(self).payload_pos() == spec_pos && str_result_matches(res, r)
            }),
    {
        let field = self.read_field()?;
        let n = field.len();
        let expected = if n == 0 { usize::MAX } else { n - 1 };
        let mut i: usize = 0;
        let mut nul_pos: Option<usize> = None;
        while i < n
            invariant
                0 <= i <= n,
                n == field@.len(),
                nul_pos is None ==> forall|j: int| 0 <= j < i ==> field@[j] != 0,
                nul_pos matches Some(k) ==> is_first_zero(field@, k as int),
            decreases n - i,
        {
            if nul_pos.is_none() && field[i] == 0 {
                nul_pos = Some(i);
            }
            i = i + 1;
        }
        proof {
            if let Some(k) = nul_pos {
                assert forall|m: int| is_first_zero(field@, m) implies m == k by {
                    if m < k {
                        assert(field@[m] != 0);
                    } else if m > k {
                        assert(field@[k as int] == 0);
                    }
                }
                assert(first_zero(field@) == Some(k));
            } else {
                assert(!exists|m: int| is_first_zero(field@, m));
            }
        }
        if nul_pos != Some(expected) {
            return Err(Error::StringMisplacedNul { actual: nul_pos, expected });
        }
        let content = slice_subrange(field, 0, n - 1);
        match str_from_utf8(content) {
            Some(s) => {
                proof {
                    encode_utf8_decode_utf8(s@);
                }
                Ok(s.to_owned())
            },
            None => Err(Error::StringInvalidUtf8 { data: slice_to_vec(content) }),
        }
    }

    /// Reads an array argument.
    pub fn read_array(&mut self) -> (res: Result<Vec<u8>, Error>)
        ensures
            final(self).same_packet(*old(self)),
            final(self).in_bounds(),
            final(self).fd_pos() == old(self).fd_pos(),
            ({
                let (spec_res, spec_pos) = read_array_spec(old(self).payload(), old(self).payload_pos());
                &&& final(self).payload_pos() == spec_pos
                &&& match spec_res {
                    Ok(b) => res matches Ok(v) && v@ == b,
                    Err(e) => res == Err::<Vec<u8>, Error>(e),
                }
            }),
    {
        let field = self.read_field()?;
        Ok(slice_to_vec(field))
    }

    /// Reads an object argument; 0 is the null object.
    pub fn read_object(&mut self) -> (res: Result<Option<ObjectId>, Error>)
        ensures
            final(self).same_packet(*old(self)),
            final(self).in_bounds(),
            final(self).fd_pos() == old(self).fd_pos(),
            ({
                let (spec_res, spec_pos) = read_word_spec(old(self).payload(), old(self).payload_pos());
                &&& final(self).payload_pos() == spec_pos
                &&& match spec_res {
                    Ok(w) => res matches Ok(o) && object_value(o) == w && (o is None <==> w == 0),
                    Err(e) => res == Err::<Option<ObjectId>, Error>(e),
                }
            }),
    {
        let oid = self.read_word()?;
        Ok(ObjectId::new(oid))
    }

    /// Reads a new object whose interface the message implies; the null
    /// object is refused with `ZeroObjectId`.
    pub fn read_new_id_known_interface(&mut self) -> (res: Result<NewObjectId, Error>)
        ensures
            final(self).same_packet(*old(self)),
            final(self).in_bounds(),
            final(self).fd_pos() == old(self).fd_pos(),
            ({
                let (spec_res, spec_pos) = read_word_spec(old(self).payload(), old(self).payload_pos());
                &&& final(self).payload_pos() == spec_pos
                &&& match spec_res {
                    Ok(w) => if w == 0 {
                        res == Err::<NewObjectId, Error>(Error::ZeroObjectId)
                    } else {
                        res matches Ok(n) && n.0.value() == w
                    },
                    Err(e) => res == Err::<NewObjectId, Error>(e),
                }
            }),
    {
        let oid_opt = self.read_object()?;
        match oid_opt {
            Some(oid) => Ok(NewObjectId(oid)),
            None => Err(Error::ZeroObjectId),
        }
    }

    /// Reads a new object whose interface the message names: interface
    /// name, version and identifier. Fields read before an error stay read.
    pub fn read_new_id_unknown_interface(&mut self) -> (res: Result<NewObject, Error>)
        ensures
            final(self).same_packet(*old(self)),
            final(self).in_bounds(),
            final(self).fd_pos() == old(self).fd_pos(),
            ({
                let payload = old(self).payload();
                let (r1, p1) = read_str_spec(payload, old(self).payload_pos());
                let (r2, p2) = read_word_spec(payload, p1);
                let (r3, p3) = read_word_spec(payload, p2);
                match r1 {
                    StrRead::Decoded(interface) => match r2 {
                        Ok(version) => match r3 {
                            Ok(oid) => final(self).payload_pos() == p3 && if oid == 0 {
                                res == Err::<NewObject, Error>(Error::ZeroObjectId)
                            } else {
                                res matches Ok(n) && n.interface@ == interface
                                    && n.interface_version == version && n.object_id.value() == oid
                            },
                            Err(e) => final(self).payload_pos() == p3 && res == Err::<NewObject, Error>(e),
                        },
                        Err(e) => final(self).payload_pos() == p2 && res == Err::<NewObject, Error>(e),
                    },
                    _ => final(self).payload_pos() == p1 && refusal_matches(res, r1),
                }
            }),
    {
        let interface = match self.read_str() {
            Ok(s) => s,
            Err(e) => return Err(e),
        };
        let version = self.read_uint()?;
        let oid_opt = self.read_object()?;
        match oid_opt {
            Some(oid) => Ok(NewObject { object_id: oid, interface, interface_version: version }),
            None => Err(Error::ZeroObjectId),
        }
    }

    /// Reads the next file descriptor.
    pub fn read_fd(&mut self) -> (res: Result<i32, Error>)
        ensures
            final(self).same_packet(*old(self)),
            final(self).in_bounds(),
            final(self).payload_pos() == old(self).payload_pos(),
            old(self).fd_pos() < old(self).fds().len() ==> res == Ok::<i32, Error>(old(self).fds()[old(self).fd_pos()])
                && final(self).fd_pos() == old(self).fd_pos() + 1,
            old(self).fd_pos() >= old(self).fds().len() ==> res == Err::<i32, Error>(Error::FdOutOfBounds {
                total: old(self).fds().len() as usize,
            }) && final(self).fd_pos() == old(self).fd_pos(),
    {
        proof {
            use_type_invariant(&*self);
        }
        if self.fd_pos >= self.packet.fds.len() {
            Err(Error::FdOutOfBounds { total: self.packet.fds.len() })
        } else {
            let fd = self.packet.fds[self.fd_pos];
            self.fd_pos = self.fd_pos + 1;
            Ok(fd)
        }
    }

    /// `Ok` where every byte and every file descriptor has been read,
    /// otherwise `IncompleteRead` with the counts.
    pub fn finish(&self) -> (res: Result<(), Error>)
        ensures
            self.in_bounds(),
            (self.payload_pos() >= self.payload().len() && self.fd_pos() >= self.fds().len()) ==> res
                == Ok::<(), Error>(()),
            !(self.payload_pos() >= self.payload().len() && self.fd_pos() >= self.fds().len()) ==> res
                == Err::<(), Error>(Error::IncompleteRead {
                read_bytes: self.payload_pos() as usize,
                total_bytes: self.payload().len() as usize,
                read_fds: self.fd_pos() as usize,
                total_fds: self.fds().len() as usize,
            }),
    {
        proof {
            use_type_invariant(self);
        }
        let all_read = self.payload_pos >= self.packet.payload.len() && self.fd_pos
            >= self.packet.fds.len();
        if all_read {
            Ok(())
        } else {
            Err(Error::IncompleteRead {
                read_bytes: self.payload_pos,
                total_bytes: self.packet.payload.len(),
                read_fds: self.fd_pos,
                total_fds: self.packet.fds.len(),
            })
        }
    }
}

// ---------------------------------------------------------------------------
// Laws: what a read gives back of a write
// ---------------------------------------------------------------------------

/// The bytes a string holds are nonzero where the string holds no NUL.
pub proof fn lemma_utf8_without_nul(s: Seq<char>)
    requires
        !s.contains('\0'),
    ensures
        !encode_utf8(s).contains(0u8),
    decreases s.len(),
{
    if s.len() > 0 {
        let c = s[0];
        assert(c != '\0') by {
            if c == '\0' {
                assert(s.contains('\0')) by { assert(s[0] == '\0'); }
            }
        }
        let v = c as u32;
        char_is_scalar(c);
        assert(v != 0) by {
            if v == 0 {
                char_u32_cast(c, v);
                char_u32_cast('\0', 0u32);
            }
        }
        let head = encode_scalar(v);
        assert((v != 0 && v <= 0x7f) ==> leading_byte_width_1(v) != 0) by (bit_vector);
        assert(leading_byte_width_2(v) != 0 && leading_byte_width_3(v) != 0 && leading_byte_width_4(v)
            != 0) by (bit_vector);
        assert(last_continuation_byte(v) != 0 && second_last_continuation_byte(v) != 0
            && third_last_continuation_byte(v) != 0) by (bit_vector);
        assert forall|i: int| 0 <= i < head.len() implies head[i] != 0u8 by {}
        assert(!head.contains(0u8));
        let rest = s.drop_first();
        assert(!rest.contains('\0')) by {
            if rest.contains('\0') {
                let k = choose|k: int| 0 <= k < rest.len() && rest[k] == '\0';
                assert(s[k + 1] == '\0');
            }
        }
        lemma_utf8_without_nul(rest);
        let tail = encode_utf8(rest);
        assert(encode_utf8(s) == head + tail);
        assert forall|i: int| 0 <= i < (head + tail).len() implies (head + tail)[i] != 0u8 by {
            if i < head.len() {
                assert(head[i] != 0u8) by { if head[i] == 0u8 { assert(head.contains(0u8)); } }
            } else {
                let j = i - head.len();
                assert(tail[j] != 0u8) by { if tail[j] == 0u8 { assert(tail.contains(0u8)); } }
            }
        }
    }
}

/// Reading a word where a word `x` was written gives `x` back and moves past it.
pub proof fn lemma_read_word_after_write(prefix: Seq<u8>, x: u32, suffix: Seq<u8>)
    ensures
        read_word_spec(prefix + ne_bytes(x) + suffix, prefix.len() as int) == (
        Ok::<u32, Error>(x), (prefix.len() + 4) as int),
{
    lemma_ne_value_of_bytes(x);
    let buf = prefix + ne_bytes(x) + suffix;
    assert(buf.subrange(prefix.len() as int, prefix.len() + 4int) =~= ne_bytes(x));
}

/// Reading an unsigned argument where one was pushed gives it back.
pub proof fn lemma_read_uint_after_push(prefix: Seq<u8>, value: u32, suffix: Seq<u8>)
    ensures
        read_word_spec(prefix + uint_encoding(value) + suffix, prefix.len() as int) == (
        Ok::<u32, Error>(value), (prefix.len() + uint_encoding(value).len()) as int),
{
    lemma_read_word_after_write(prefix, value, suffix);
    lemma_ne_value_of_bytes(value);
}

/// Reading a signed argument where one was pushed gives it back: the word
/// read, taken as signed, is the value.
pub proof fn lemma_read_int_after_push(prefix: Seq<u8>, value: i32, suffix: Seq<u8>)
    ensures
        read_word_spec(prefix + int_encoding(value) + suffix, prefix.len() as int) == (
        Ok::<u32, Error>(value as u32), (prefix.len() + int_encoding(value).len()) as int),
        (value as u32) as i32 == value,
{
    lemma_read_word_after_write(prefix, value as u32, suffix);
    lemma_ne_value_of_bytes(value as u32);
    assert((value as u32) as i32 == value) by (bit_vector);
}

/// Reading a fixed-point argument where one was pushed gives it back.
pub proof fn lemma_read_fixed_after_push(prefix: Seq<u8>, value: Fixed, suffix: Seq<u8>)
    ensures
        read_word_spec(prefix + fixed_encoding(value) + suffix, prefix.len() as int) == (
        Ok::<u32, Error>(value.inner() as u32), (prefix.len() + fixed_encoding(value).len()) as int),
        (value.inner() as u32) as i32 == value.inner(),
{
    lemma_read_int_after_push(prefix, value.inner(), suffix);
}

/// Reading an object argument where one was pushed gives the same object,
/// the null object included.
pub proof fn lemma_read_object_after_push(prefix: Seq<u8>, object_id: Option<ObjectId>, suffix: Seq<u8>)
    ensures
        read_word_spec(prefix + object_encoding(object_id) + suffix, prefix.len() as int) == (
        Ok::<u32, Error>(object_value(object_id)), (prefix.len() + object_encoding(object_id).len()) as int),
{
    lemma_read_uint_after_push(prefix, object_value(object_id), suffix);
}

/// Reading an array argument where one was pushed gives its bytes back and
/// moves past its padding.
pub proof fn lemma_read_array_after_push(prefix: Seq<u8>, a: Seq<u8>, suffix: Seq<u8>)
    requires
        a.len() <= u32::MAX,
    ensures
        read_array_spec(prefix + array_encoding(a) + suffix, prefix.len() as int) == (
        Ok::<Seq<u8>, Error>(a), (prefix.len() + array_encoding(a).len()) as int),
{
    let pos = prefix.len() as int;
    let n = a.len();
    let buf = prefix + array_encoding(a) + suffix;
    lemma_ne_value_of_bytes(n as u32);
    assert(buf.subrange(pos, pos + 4) =~= ne_bytes(n as u32));
    assert(word_at(buf, pos) as nat == n);
    assert(buf.subrange(pos + 4, pos + 4 + n) =~= a);
}

/// Reading a string argument where one was pushed gives the string back and
/// moves past its padding.
pub proof fn lemma_read_str_after_push(prefix: Seq<u8>, s: Seq<char>, suffix: Seq<u8>)
    requires
        str_pushable(s),
    ensures
        read_str_spec(prefix + str_encoding(s) + suffix, prefix.len() as int) == (
        StrRead::Decoded(s), (prefix.len() + str_encoding(s).len()) as int),
{
    let bytes = encode_utf8(s);
    let field = bytes + seq![0u8];
    let n = field.len();
    assert(array_encoding(field) =~= str_encoding(s));
    lemma_read_array_after_push(prefix, field, suffix);
    lemma_utf8_without_nul(s);
    assert(is_first_zero(field, n - 1)) by {
        assert forall|j: int| 0 <= j < n - 1 implies field[j] != 0 by {
            assert(field[j] == bytes[j]);
            if bytes[j] == 0 {
                assert(bytes.contains(0u8));
            }
        }
    }
    assert forall|m: int| is_first_zero(field, m) implies m == n - 1 by {
        if m < n - 1 {
            assert(field[m] == bytes[m]);
            assert(bytes.contains(0u8));
        }
    }
    assert(first_zero(field) == Some(expected_nul(n)));
    assert(field.subrange(0, n - 1) =~= bytes);
    encode_utf8_valid_utf8(s);
    encode_utf8_decode_utf8(s);
}

/// Reading a named-interface new object where one was pushed gives its
/// interface, version and identifier back, each field after the one before.
pub proof fn lemma_read_new_object_after_push(
    prefix: Seq<u8>,
    interface: Seq<char>,
    version: u32,
    object_id: ObjectId,
    suffix: Seq<u8>,
)
    requires
        str_pushable(interface),
    ensures
        ({
            let buf = prefix + new_object_encoding(interface, version, object_id) + suffix;
            let p0 = prefix.len() as int;
            let p1 = p0 + str_encoding(interface).len();
            let p2 = p1 + 4;
            &&& read_str_spec(buf, p0) == (StrRead::Decoded(interface), p1)
            &&& read_word_spec(buf, p1) == (Ok::<u32, Error>(version), p2)
            &&& read_word_spec(buf, p2) == (Ok::<u32, Error>(object_id.value()), p2 + 4)
            &&& p2 + 4 == p0 + new_object_encoding(interface, version, object_id).len()
        }),
{
    let e1 = str_encoding(interface);
    let e2 = uint_encoding(version);
    let e3 = uint_encoding(object_id.value());
    let buf = prefix + new_object_encoding(interface, version, object_id) + suffix;
    assert(buf =~= prefix + e1 + (e2 + e3 + suffix));
    lemma_read_str_after_push(prefix, interface, e2 + e3 + suffix);
    assert(buf =~= (prefix + e1) + e2 + (e3 + suffix));
    lemma_read_uint_after_push(prefix + e1, version, e3 + suffix);
    assert(buf =~= (prefix + e1 + e2) + e3 + suffix);
    lemma_read_uint_after_push(prefix + e1 + e2, object_id.value(), suffix);
}

/// A string field that does not fit in the payload is refused with
/// `FieldOutOfBounds`, naming where the field (length word, bytes and
/// padding) would end and the payload's length, and the position stays where
/// it was, so that a following read starts at the same place.
pub proof fn lemma_read_str_out_of_bounds(payload: Seq<u8>, pos: int)
    requires
        0 <= pos <= payload.len(),
        pos + 4 > payload.len() || pos + 4 + word_at(payload, pos) + padding(word_at(payload, pos) as nat)
            > payload.len(),
    ensures
        ({
            let end = if pos + 4 > payload.len() {
                pos + 4
            } else {
                pos + 4 + word_at(payload, pos) + padding(word_at(payload, pos) as nat)
            };
            read_str_spec(payload, pos) == (StrRead::Refused(out_of_bounds(payload, end)), pos)
        }),
{
}

} // verus!

use whale_land::connection::{decode_header, HandlerRegistry, PacketHeader};
use whale_land::error::Error;
use whale_land::packet::Packet;
use whale_land::ObjectId;

fn oid(v: u32) -> ObjectId {
    ObjectId::new(v).unwrap()
}

fn header_of(bytes: &[u8]) -> [u8; 8] {
    let mut h = [0u8; 8];
    h.copy_from_slice(&bytes[0..8]);
    h
}

#[test]
fn header_of_serialized_packet_round_trips() {
    let mut p = Packet::new(oid(9), 3);
    p.push_uint(1);
    p.push_str("x");
    let bytes = p.serialize().unwrap();
    let h = decode_header(header_of(&bytes)).unwrap();
    assert_eq!(h, PacketHeader { object_id: oid(9), opcode: 3, payload_len: bytes.len() - 8 });
}

#[test]
fn header_keeps_only_eight_opcode_bits() {
    let p = Packet::new(oid(9), 0x0105);
    let bytes = p.serialize().unwrap();
    let h = decode_header(header_of(&bytes)).unwrap();
    assert_eq!(h.opcode, 0x05);
}

#[test]
fn header_too_short() {
    let mut h = [0u8; 8];
    h[0..4].copy_from_slice(&1u32.to_ne_bytes());
    h[4..8].copy_from_slice(&((4u32 << 16) | 1).to_ne_bytes());
    assert_eq!(decode_header(h), Err(Error::PacketTooShort { actual: 4, minimum: 8 }));
}

#[test]
fn header_with_zero_object() {
    let mut h = [0u8; 8];
    h[4..8].copy_from_slice(&(8u32 << 16).to_ne_bytes());
    assert_eq!(decode_header(h), Err(Error::ZeroObjectId));
}

#[test]
fn registry_finds_registered_handler() {
    let mut reg: HandlerRegistry<&'static str> = HandlerRegistry::new();
    assert_eq!(reg.lookup(oid(2)), Err(Error::NoEventHandler { object_id: oid(2) }));
    reg.register_handler(oid(2), "registry");
    reg.register_handler(oid(3), "compositor");
    assert_eq!(reg.lookup(oid(2)), Ok(&"registry"));
    reg.register_handler(oid(2), "other");
    assert_eq!(reg.lookup(oid(2)), Ok(&"other"));
    reg.drop_handler(oid(2));
    assert_eq!(reg.lookup(oid(2)), Err(Error::NoEventHandler { object_id: oid(2) }));
    assert_eq!(reg.lookup(oid(3)), Ok(&"compositor"));
}

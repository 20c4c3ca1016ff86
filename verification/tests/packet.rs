use whale_land::error::Error;
use whale_land::fixed::Fixed;
use whale_land::packet::Packet;
use whale_land::{NewObject, NewObjectId, ObjectId};

fn oid(v: u32) -> ObjectId {
    ObjectId::new(v).unwrap()
}

#[test]
fn object_id_zero_is_no_object() {
    assert!(ObjectId::new(0).is_none());
    assert_eq!(ObjectId::new(7).unwrap().get(), 7);
    assert_eq!(ObjectId::display().get(), 1);
}

#[test]
fn push_uint_writes_native_bytes() {
    let mut p = Packet::new(oid(3), 1);
    p.push_uint(0x0102_0304);
    let bytes = p.serialize().unwrap();
    assert_eq!(&bytes[8..], &0x0102_0304u32.to_ne_bytes());
}

#[test]
fn push_int_writes_twos_complement() {
    let mut p = Packet::new(oid(3), 1);
    p.push_int(-2);
    let bytes = p.serialize().unwrap();
    assert_eq!(&bytes[8..], &(-2i32).to_ne_bytes());
}

#[test]
fn push_str_pads_to_four_bytes() {
    let mut p = Packet::new(oid(3), 1);
    p.push_str("hello");
    let bytes = p.serialize().unwrap();
    let payload = &bytes[8..];
    assert_eq!(payload.len(), 12);
    assert_eq!(&payload[0..4], &6u32.to_ne_bytes());
    assert_eq!(&payload[4..10], b"hello\0");
    assert_eq!(&payload[10..12], &[0, 0]);
}

#[test]
fn push_str_of_length_three_needs_no_padding() {
    let mut p = Packet::new(oid(3), 1);
    p.push_str("abc");
    let bytes = p.serialize().unwrap();
    assert_eq!(bytes.len(), 8 + 8);
}

#[test]
fn push_array_pads_to_four_bytes() {
    let mut p = Packet::new(oid(3), 1);
    p.push_array(&[1, 2, 3, 4, 5]);
    let bytes = p.serialize().unwrap();
    let payload = &bytes[8..];
    assert_eq!(payload.len(), 12);
    assert_eq!(&payload[0..4], &5u32.to_ne_bytes());
    assert_eq!(&payload[4..9], &[1, 2, 3, 4, 5]);
    assert_eq!(&payload[9..12], &[0, 0, 0]);
}

#[test]
fn serialize_writes_header() {
    let mut p = Packet::new(oid(5), 2);
    p.push_uint(9);
    let bytes = p.serialize().unwrap();
    assert_eq!(bytes.len(), 12);
    assert_eq!(&bytes[0..4], &5u32.to_ne_bytes());
    assert_eq!(&bytes[4..8], &((12u32 << 16) | 2).to_ne_bytes());
}

#[test]
fn serialize_refuses_too_long_packet() {
    let mut p = Packet::new(oid(5), 2);
    p.push_array(&vec![0u8; 65528]);
    assert_eq!(
        p.serialize(),
        Err(Error::PacketTooLong { actual: 8 + 4 + 65528, maximum: 65535 })
    );
    let mut q = Packet::new(oid(5), 2);
    q.push_array(&vec![0u8; 65520]);
    assert_eq!(q.serialize().unwrap().len(), 65535 - 3);
}

#[test]
fn accessors_and_setters() {
    let mut p = Packet::new(oid(5), 2);
    p.set_object_id(oid(6));
    p.set_opcode(9);
    assert_eq!(p.object_id(), oid(6));
    assert_eq!(p.opcode(), 9);
    p.push_fd(11);
    p.push_uint(1);
    assert_eq!(p.fds(), &[11]);
    p.clear_payload();
    assert_eq!(p.fds(), &[] as &[i32]);
    assert_eq!(p.serialize().unwrap().len(), 8);
}

#[test]
fn read_gives_back_what_was_pushed() {
    let mut p = Packet::new(oid(3), 0);
    p.push_uint(42);
    p.push_int(-7);
    p.push_fixed(Fixed::from_inner_value(-300));
    p.push_str("wl_compositor");
    p.push_array(&[9, 8, 7]);
    p.push_object(Some(oid(12)));
    p.push_object(None);
    p.push_new_id_known_interface(NewObjectId(oid(13)));
    p.push_new_id_unknown_interface(&NewObject {
        object_id: oid(14),
        interface: "wl_shm".to_string(),
        interface_version: 2,
    });
    p.push_fd(4);
    let mut r = p.read();
    assert_eq!(r.read_uint(), Ok(42));
    assert_eq!(r.read_int(), Ok(-7));
    assert_eq!(r.read_fixed(), Ok(Fixed::from_inner_value(-300)));
    assert_eq!(r.read_str(), Ok("wl_compositor".to_string()));
    assert_eq!(r.read_array(), Ok(vec![9, 8, 7]));
    assert_eq!(r.read_object(), Ok(Some(oid(12))));
    assert_eq!(r.read_object(), Ok(None));
    assert_eq!(r.read_new_id_known_interface(), Ok(NewObjectId(oid(13))));
    assert_eq!(
        r.read_new_id_unknown_interface(),
        Ok(NewObject { object_id: oid(14), interface: "wl_shm".to_string(), interface_version: 2 })
    );
    assert_eq!(r.finish().is_ok(), false);
    assert_eq!(r.read_fd(), Ok(4));
    assert_eq!(r.finish(), Ok(()));
}

#[test]
fn read_past_end_is_out_of_bounds() {
    let p = Packet::new_from_existing(oid(3), 0, vec![1, 2], vec![]);
    let mut r = p.read();
    assert_eq!(r.read_uint(), Err(Error::FieldOutOfBounds { actual: 4, maximum: 2 }));
    assert_eq!(
        r.finish(),
        Err(Error::IncompleteRead { read_bytes: 0, total_bytes: 2, read_fds: 0, total_fds: 0 })
    );
}

#[test]
fn read_array_longer_than_payload_is_out_of_bounds() {
    let mut payload = 6u32.to_ne_bytes().to_vec();
    payload.extend_from_slice(&[1, 2, 3]);
    let p = Packet::new_from_existing(oid(3), 0, payload, vec![]);
    let mut r = p.read();
    assert_eq!(r.read_array(), Err(Error::FieldOutOfBounds { actual: 12, maximum: 7 }));
    assert_eq!(r.read_uint(), Ok(6));
}

#[test]
fn read_str_with_misplaced_nul() {
    let mut payload = 4u32.to_ne_bytes().to_vec();
    payload.extend_from_slice(b"a\0b\0");
    let p = Packet::new_from_existing(oid(3), 0, payload, vec![]);
    let mut r = p.read();
    assert_eq!(r.read_str(), Err(Error::StringMisplacedNul { actual: Some(1), expected: 3 }));
    assert_eq!(r.finish(), Ok(()));
}

#[test]
fn read_empty_str_field_reports_wrapped_position() {
    let payload = 0u32.to_ne_bytes().to_vec();
    let p = Packet::new_from_existing(oid(3), 0, payload, vec![]);
    let mut r = p.read();
    assert_eq!(r.read_str(), Err(Error::StringMisplacedNul { actual: None, expected: usize::MAX }));
}

#[test]
fn read_str_with_invalid_utf8() {
    let mut payload = 4u32.to_ne_bytes().to_vec();
    payload.extend_from_slice(&[0xff, 0xfe, 0x41, 0]);
    let p = Packet::new_from_existing(oid(3), 0, payload, vec![]);
    let mut r = p.read();
    assert_eq!(r.read_str(), Err(Error::StringInvalidUtf8 { data: vec![0xff, 0xfe, 0x41] }));
}

#[test]
fn read_str_of_multibyte_text() {
    let mut p = Packet::new(oid(3), 0);
    p.push_str("grüße");
    let mut r = p.read();
    assert_eq!(r.read_str(), Ok("grüße".to_string()));
    assert_eq!(r.finish(), Ok(()));
}

#[test]
fn read_zero_new_id_is_refused() {
    let mut p = Packet::new(oid(3), 0);
    p.push_uint(0);
    let mut r = p.read();
    assert_eq!(r.read_new_id_known_interface(), Err(Error::ZeroObjectId));
    let mut q = Packet::new(oid(3), 0);
    q.push_str("wl_output");
    q.push_uint(4);
    q.push_uint(0);
    let mut s = q.read();
    assert_eq!(s.read_new_id_unknown_interface(), Err(Error::ZeroObjectId));
    assert_eq!(s.finish(), Ok(()));
}

#[test]
fn read_fd_past_end() {
    let p = Packet::new_from_existing(oid(3), 0, vec![], vec![5]);
    let mut r = p.read();
    assert_eq!(r.read_fd(), Ok(5));
    assert_eq!(r.read_fd(), Err(Error::FdOutOfBounds { total: 1 }));
}

#[test]
fn read_str_longer_than_payload_leaves_position() {
    let mut payload = 5u32.to_ne_bytes().to_vec();
    payload.extend_from_slice(b"ab\0");
    let p = Packet::new_from_existing(oid(3), 0, payload, vec![]);
    let mut r = p.read();
    assert_eq!(r.read_str(), Err(Error::FieldOutOfBounds { actual: 12, maximum: 7 }));
    assert_eq!(r.read_uint(), Ok(5));
    let short = Packet::new_from_existing(oid(3), 0, vec![1, 2, 3], vec![]);
    let mut r = short.read();
    assert_eq!(r.read_str(), Err(Error::FieldOutOfBounds { actual: 4, maximum: 3 }));
}

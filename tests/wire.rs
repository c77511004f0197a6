use lay_wayland::fixed::WlFixed;
use lay_wayland::header::Header;
use lay_wayland::message::{GetRegistry, Message, Payload};
use lay_wayland::request::{
    frame_request, IntoWire, MetaData, Request, RequestInfo, RequestType, SingleRequest,
};
use lay_wayland::string::{WlArray, WlString};
use lay_wayland::word::{FromWords, WlType, Word};

#[test]
fn word_get_registry() {
    let msg = GetRegistry::send(2);
    assert_eq!(msg.into_array(), [0x1, 0xC0001, 0x2]);
}

#[test]
fn header_from_short_buffers_is_none() {
    let bytes = [1u8, 0, 0, 0, 2, 0, 12, 0];
    for n in 0..8 {
        assert_eq!(Header::from_bytes(&bytes[..n]), None);
    }
    assert!(Header::from_bytes(&bytes).is_some());
}

#[test]
fn header_encodes_little_endian() {
    let h = Header::new::<u32>(1, 2);
    assert_eq!(h.len(), 12);
    assert_eq!(h.to_bytes(), vec![1, 0, 0, 0, 2, 0, 12, 0]);
    let back = Header::from_bytes(&[1, 0, 0, 0, 2, 0, 12, 0]).unwrap();
    assert_eq!(back.object_id(), 1);
    assert_eq!(back.opcode(), 2);
    assert_eq!(back.len(), 12);
    assert_eq!(back, h);
    assert_eq!(back.payload_len(), 4);
}

#[test]
fn header_round_trips_through_bytes() {
    let h = Header::with_payload_len(0x0403_0201, 0x0605, 0x0700).unwrap();
    assert_eq!(h.to_bytes(), vec![1, 2, 3, 4, 5, 6, 8, 7]);
    assert_eq!(Header::from_bytes(&h.to_bytes()), Some(h));
    let bytes = [0xff, 0xee, 0xdd, 0xcc, 0x01, 0x80, 0x10, 0x00, 0x55];
    let decoded = Header::from_bytes(&bytes).unwrap();
    assert_eq!(decoded.object_id(), 0xccdd_eeff);
    assert_eq!(decoded.opcode(), 0x8001);
    assert_eq!(decoded.to_bytes(), bytes[..8].to_vec());
}

#[test]
fn header_payload_length_limits() {
    assert_eq!(Header::with_payload_len(1, 0, 0), None);
    assert_eq!(Header::with_payload_len(1, 0, 0xFFFF - 8).map(|h| h.len()), Some(0xFFFF));
    assert_eq!(Header::with_payload_len(1, 0, 0xFFFF - 7), None);
}

#[test]
fn string_capacity_is_aligned() {
    assert_eq!(WlString::str_capacity(0), 4);
    assert_eq!(WlString::str_capacity(3), 8);
    assert_eq!(WlString::str_capacity(5), 8);
    assert_eq!(WlString::str_capacity(7), 12);
    for len in [0u32, 1, 2, 3, 4, 5, 100, 1023, u32::MAX - 1, u32::MAX] {
        let c = WlString::str_capacity(len);
        assert_eq!(c % 4, 0);
        assert!(c >= len as u64 + 1);
    }
    assert_eq!(WlString::padding(4), 4);
    assert_eq!(WlString::padding(5), 3);
}

#[test]
fn string_hello_round_trip() {
    let s = WlString::new("hello");
    assert_eq!(s.str_len(), 5);
    let bytes = s.as_bytes();
    assert_eq!(bytes, vec![5, 0, 0, 0, b'h', b'e', b'l', b'l', b'o', 0, 0, 0]);
    assert_eq!(s.buffer_hint(), 12);
    let decoded = WlString::from_buf(&bytes).unwrap();
    assert_eq!(decoded.str_len(), 5);
    assert_eq!(decoded.buffer_hint(), 12);
    assert!(decoded == *"hello");
    assert!(decoded == String::from("hello"));
    assert!(!(decoded == *"hell"));
    assert!(!(decoded == *"hellp"));
    assert!(*"hello" == decoded);
    assert!(String::from("hello") == decoded);
    assert!(!(String::from("help!") == decoded));
}

#[test]
fn string_decode_then_encode_is_identity() {
    let bytes = vec![3u8, 0, 0, 0, b'a', b'b', b'c', 0, 0, 0, 0, 0, 9, 9];
    let decoded = WlString::from_buf(&bytes).unwrap();
    assert_eq!(decoded.str_len(), 3);
    assert!(decoded == *"abc");
    assert_eq!(decoded.as_bytes(), bytes[..12].to_vec());
}

#[test]
fn string_decode_rejects_short_buffers() {
    assert!(WlString::from_buf(&[]).is_none());
    assert!(WlString::from_buf(&[5, 0, 0]).is_none());
    assert!(WlString::from_buf(&[5, 0, 0, 0, b'h', b'e', b'l', b'l', b'o', 0, 0]).is_none());
    assert!(WlString::from_buf(&[3, 0, 0, 0, b'a', b'b', 0, 0]).is_none());
    assert!(WlString::from_buf(&[0xff, 0xff, 0xff, 0xff, 1, 2]).is_none());
}

#[test]
fn string_zero_length_word_reads_as_empty() {
    let decoded = WlString::from_buf(&[0, 0, 0, 0, 0, 0, 0, 0]).unwrap();
    assert_eq!(decoded.str_len(), 0);
    assert!(decoded == *"");
    assert_eq!(decoded.as_bytes(), vec![0, 0, 0, 0, 0, 0, 0, 0]);
    let empty = WlString::new("");
    assert_eq!(empty.as_bytes(), vec![0, 0, 0, 0, 0, 0, 0, 0]);
}

#[test]
fn string_quene_writes_front_only() {
    let s = WlString::new("hi");
    let mut small = [7u8; 7];
    assert_eq!(s.quene(&mut small), None);
    assert_eq!(small, [7u8; 7]);
    let mut buf = [7u8; 10];
    assert_eq!(s.quene(&mut buf), Some(()));
    assert_eq!(buf, [2, 0, 0, 0, b'h', b'i', 0, 0, 7, 7]);
}

#[test]
fn array_round_trip_and_padding() {
    let a = WlArray::new(vec![1, 2, 3, 4, 5]);
    let bytes = a.as_bytes();
    assert_eq!(bytes, vec![5, 0, 0, 0, 1, 2, 3, 4, 5, 0, 0, 0]);
    let back = WlArray::from_buf(&bytes).unwrap();
    assert_eq!(back.value(), &[1, 2, 3, 4, 5]);
    assert_eq!(back.len(), 5);
    let aligned = WlArray::new(vec![9, 9, 9, 9]);
    assert_eq!(aligned.as_bytes(), vec![4, 0, 0, 0, 9, 9, 9, 9]);
    assert!(WlArray::from_buf(&[5, 0, 0, 0, 1, 2, 3, 4, 5, 0, 0]).is_none());
    assert!(WlArray::from_buf(&[1, 0]).is_none());
}

#[test]
fn fixed_point_integer_conversions() {
    for n in [0, 1, -1, 42, -42, 8_388_607, -8_388_608] {
        assert_eq!(WlFixed::to_i32(WlFixed::from_i32(n)), n);
    }
    assert_eq!(WlFixed::from_i32(3).raw(), 768);
    assert_eq!(WlFixed::to_i32(WlFixed::from_raw(-300)), -1);
    assert_eq!(WlFixed::to_i32(WlFixed::from_raw(300)), 1);
    assert_eq!(WlFixed::to_i32(WlFixed::from_raw(255)), 0);
    assert_eq!(WlFixed::from_i32(8_388_608).raw(), i32::MIN);
    assert_eq!(WlFixed::from_i32(i32::MAX).raw(), -256);
    assert_eq!(WlFixed::from_i32(-8_388_609).raw(), i32::MAX - 255);
}

#[test]
fn fixed_point_travels_as_i32() {
    let mut buf = [0u8; 4];
    assert_eq!(WlFixed::write(WlFixed::from_i32(-1), &mut buf), Some(()));
    assert_eq!(buf, [0x00, 0xff, 0xff, 0xff]);
    assert_eq!(WlFixed::wl_type(&buf).map(|f| f.raw()), Some(-256));
    assert_eq!(WlFixed::from_i32(2).into_vec(), vec![0, 2, 0, 0]);
}

#[test]
fn word_codec_little_endian() {
    assert_eq!(u16::wl_type(&[0x34, 0x12]), Some(0x1234));
    assert_eq!(u32::wl_type(&[0x78, 0x56, 0x34, 0x12, 0xff]), Some(0x1234_5678));
    assert_eq!(
        u64::wl_type(&[1, 2, 3, 4, 5, 6, 7, 8]),
        Some(0x0807_0605_0403_0201)
    );
    assert_eq!(i32::wl_type(&[0xfe, 0xff, 0xff, 0xff]), Some(-2));
    assert_eq!(i16::wl_type(&[0x00, 0x80]), Some(i16::MIN));
    assert_eq!(i8::wl_type(&[0xff]), Some(-1));
    assert_eq!(i64::wl_type(&[0xff; 8]), Some(-1));
    assert_eq!(u8::wl_type(&[7]), Some(7));
    assert_eq!(u32::wl_type(&[1, 2, 3]), None);
    assert_eq!(u64::wl_type(&[1, 2, 3, 4, 5, 6, 7]), None);
    assert_eq!(u8::wl_type(&[]), None);
}

#[test]
fn word_codec_writes_front() {
    let mut buf = [9u8; 6];
    assert_eq!(u32::write(0x1234_5678, &mut buf), Some(()));
    assert_eq!(buf, [0x78, 0x56, 0x34, 0x12, 9, 9]);
    let mut short = [9u8; 3];
    assert_eq!(u32::write(1, &mut short), None);
    assert_eq!(short, [9u8; 3]);
    let mut eight = [0u8; 8];
    assert_eq!(i64::write(-2, &mut eight), Some(()));
    assert_eq!(eight, [0xfe, 0xff, 0xff, 0xff, 0xff, 0xff, 0xff, 0xff]);
    let mut two = [0u8; 2];
    assert_eq!(u16::write(0xabcd, &mut two), Some(()));
    assert_eq!(two, [0xcd, 0xab]);
}

#[test]
fn word_halves() {
    assert_eq!(Word::from_u16(12, 1), 0xC0001);
    assert_eq!(Word::SIZE, 4);
    assert_eq!(<(u16, u16)>::from_word(&[1, 0, 12, 0]), Some((12, 1)));
    assert_eq!(<(u16, u16)>::from_word(&[1, 0, 12]), None);
    assert_eq!(u32::from_word(&[1, 0, 12, 0]), Some(0xC0001));
}

#[test]
fn message_header_and_payload() {
    let bytes = [2u8, 0, 0, 0, 0, 0, 12, 0, 0xaa, 0xbb, 0xcc, 0xdd, 0xee];
    let msg = Message::from_bytes(&bytes).unwrap();
    assert_eq!(msg.object_id, 2);
    assert_eq!(msg.opcode, 0);
    assert_eq!(msg.len, 12);
    assert_eq!(msg.payload_len(), 4);
    let payload = Payload::from_buf(&msg, &bytes).unwrap();
    assert_eq!(payload.bytes(), &[0xaa, 0xbb, 0xcc, 0xdd]);
    assert!(Payload::from_buf(&msg, &bytes[..11]).is_none());
    assert!(Message::from_bytes(&bytes[..7]).is_none());
    assert_eq!(Message::new::<[u32; 3]>(1, 1).len, 12);
}

#[test]
fn frame_request_prefixes_header() {
    let framed = frame_request(1, 1, &[2, 0, 0, 0]).unwrap();
    assert_eq!(framed, vec![1, 0, 0, 0, 1, 0, 12, 0, 2, 0, 0, 0]);
    assert!(frame_request(1, 1, &[]).is_none());
    let pair = (7u32, WlString::new("a"));
    assert_eq!(pair.into_vec(), vec![7, 0, 0, 0, 1, 0, 0, 0, b'a', 0, 0, 0]);
}

#[test]
fn get_registry_wire_form() {
    let msg = GetRegistry::send(2);
    assert_eq!(msg.into_vec(), vec![1, 0, 0, 0, 1, 0, 12, 0, 2, 0, 0, 0]);
    assert_eq!(
        GetRegistry::metadata(),
        MetaData { fixed_size: true, size_hint: 12 }
    );
    assert_eq!(GetRegistry::request_type(), RequestType::Single(SingleRequest));
    let header = Header::from_bytes(&msg.into_vec()).unwrap();
    assert_eq!((header.object_id(), header.opcode(), header.len()), (1, 1, 12));
}

#[test]
fn variable_size_types_are_not_fixed() {
    assert_eq!(WlString::metadata(), MetaData { fixed_size: false, size_hint: 4 });
    assert!(!WlArray::metadata().fixed_size);
    assert_eq!(u32::metadata(), MetaData { fixed_size: true, size_hint: 4 });
}

#[test]
fn string_quene_hello_bytes() {
    let s = WlString::new("hello");
    let mut buf = [0xffu8; 12];
    assert_eq!(s.quene(&mut buf), Some(()));
    assert_eq!(buf, [5, 0, 0, 0, b'h', b'e', b'l', b'l', b'o', 0, 0, 0]);
    let aligned = [3u8, 0, 0, 0, b'x', b'y', b'z', 0, 0, 0, 0, 0];
    let decoded = WlString::from_buf(&aligned).unwrap();
    let mut out = [0u8; 12];
    assert_eq!(decoded.quene(&mut out), Some(()));
    assert_eq!(out, aligned);
}

#[test]
fn header_for_fixed_size_requests() {
    assert_eq!(Header::for_request::<u32>(1, 2), Some(Header::new::<u32>(1, 2)));
    assert_eq!(Header::for_request::<(u32, i32)>(5, 0).map(|h| h.len()), Some(16));
    assert_eq!(Header::for_request::<WlString>(1, 2), None);
    assert_eq!(Header::for_request::<(u32, WlString)>(1, 2), None);
}

#[test]
fn pair_metadata_sums_hints() {
    assert_eq!(
        <(u32, GetRegistry)>::metadata(),
        MetaData { fixed_size: true, size_hint: 16 }
    );
    assert_eq!(
        <(u32, WlArray)>::metadata(),
        MetaData { fixed_size: false, size_hint: 8 }
    );
}

#[test]
fn string_equality_needs_equal_length() {
    let s = WlString::new("abc");
    assert!(s.eq_bytes(b"abc"));
    assert!(!s.eq_bytes(b"abc\0"));
    assert!(!s.eq_bytes(b"ab"));
    assert!(!(s == *"abc\0"));
}

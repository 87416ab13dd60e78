//! Tests of the frame codec: encode/decode round trips, the length-field
//! boundaries, masking, and truncated-buffer failures.

use wsrs::frame::{Frame, FrameError};
use wsrs::mask::xor_with_key;

fn round_trip_len(len: usize) {
    let payload: Vec<u8> = (0..len).map(|i| (i % 251) as u8).collect();
    let f = Frame::new(true, false, true, false, 2, false, &payload);
    let bytes = f.as_bytes();
    let g = Frame::parse(&bytes).expect("complete frame must decode");
    assert_eq!(g.fin, true);
    assert_eq!(g.rsv1, false);
    assert_eq!(g.rsv2, true);
    assert_eq!(g.rsv3, false);
    assert_eq!(g.opcode, 2);
    assert_eq!(g.mask, false);
    assert_eq!(g.payload, payload);
}

#[test]
fn round_trip_empty_payload() {
    round_trip_len(0);
}

#[test]
fn round_trip_one_byte_payload() {
    round_trip_len(1);
}

#[test]
fn round_trip_len_125() {
    round_trip_len(125);
}

#[test]
fn round_trip_len_126() {
    round_trip_len(126);
}

#[test]
fn round_trip_len_65535() {
    round_trip_len(65535);
}

#[test]
fn round_trip_len_65536() {
    round_trip_len(65536);
}

#[test]
fn round_trip_all_flags() {
    let payload = b"ping".to_vec();
    let f = Frame::new(false, true, true, true, 9, false, &payload);
    let bytes = f.as_bytes();
    let g = Frame::parse(&bytes).unwrap();
    assert_eq!(g.fin, false);
    assert_eq!(g.rsv1, true);
    assert_eq!(g.rsv2, true);
    assert_eq!(g.rsv3, true);
    assert_eq!(g.opcode, 9);
    assert_eq!(g.payload, payload);
}

#[test]
fn length_125_single_byte_field() {
    let f = Frame::new(true, false, false, false, 1, false, &[0u8; 125]);
    let bytes = f.as_bytes();
    assert_eq!(bytes[1], 125);
    assert_eq!(bytes.len(), 2 + 125);
}

#[test]
fn length_126_two_byte_field() {
    let f = Frame::new(true, false, false, false, 1, false, &[0u8; 126]);
    let bytes = f.as_bytes();
    assert_eq!(bytes[1], 126);
    assert_eq!(&bytes[2..4], &[0, 126]);
    assert_eq!(bytes.len(), 4 + 126);
}

#[test]
fn length_65535_two_byte_field() {
    let f = Frame::new(true, false, false, false, 1, false, &[0u8; 65535]);
    let bytes = f.as_bytes();
    assert_eq!(bytes[1], 126);
    assert_eq!(&bytes[2..4], &[0xff, 0xff]);
    assert_eq!(bytes.len(), 4 + 65535);
}

#[test]
fn length_65536_eight_byte_field() {
    let f = Frame::new(true, false, false, false, 1, false, &[0u8; 65536]);
    let bytes = f.as_bytes();
    assert_eq!(bytes[1], 127);
    assert_eq!(&bytes[2..10], &[0, 0, 0, 0, 0, 1, 0, 0]);
    assert_eq!(bytes.len(), 10 + 65536);
}

#[test]
fn first_byte_packs_flags_and_opcode() {
    let f = Frame::new(true, false, false, false, 1, false, b"x");
    let bytes = f.as_bytes();
    assert_eq!(bytes[0], 0x81);
    assert_eq!(bytes[1], 0x01);
    assert_eq!(bytes[2], b'x');
}

#[test]
fn masking_twice_restores_payload() {
    let payload = b"Some payload, longer than the key.".to_vec();
    let key = [0x37u8, 0xfa, 0x21, 0x3d];
    let once = xor_with_key(&payload, &key);
    assert_ne!(once, payload);
    let twice = xor_with_key(&once, &key);
    assert_eq!(twice, payload);
}

#[test]
fn masking_known_values() {
    let key = [0xffu8, 0x00, 0xff, 0x00];
    let masked = xor_with_key(&[0x12, 0x34, 0x56], &key);
    assert_eq!(masked, vec![0xed, 0x34, 0xa9]);
}

#[test]
fn parse_unmasked_hello() {
    let buf = [0x81u8, 0x05, b'H', b'e', b'l', b'l', b'o'];
    let f = Frame::parse(&buf).unwrap();
    assert_eq!(f.fin, true);
    assert_eq!(f.opcode, 1);
    assert_eq!(f.mask, false);
    assert_eq!(f.payload, b"Hello".to_vec());
}

#[test]
fn parse_masked_hello() {
    // The masked single-frame text message of the protocol's examples:
    // key 37 fa 21 3d over "Hello".
    let buf = [0x81u8, 0x85, 0x37, 0xfa, 0x21, 0x3d, 0x7f, 0x9f, 0x4d, 0x51, 0x58];
    let f = Frame::parse(&buf).unwrap();
    assert_eq!(f.fin, true);
    assert_eq!(f.opcode, 1);
    assert_eq!(f.mask, true);
    assert_eq!(f.payload, b"Hello".to_vec());
}

#[test]
fn parse_ignores_trailing_bytes() {
    let buf = [0x82u8, 0x01, 0xaa, 0xbb, 0xcc];
    let f = Frame::parse(&buf).unwrap();
    assert_eq!(f.opcode, 2);
    assert_eq!(f.payload, vec![0xaa]);
}

#[test]
fn truncated_two_byte_buffer_declaring_126() {
    let buf = [0x01u8, 126];
    assert!(matches!(Frame::parse(&buf), Err(FrameError::TruncatedFrame)));
}

#[test]
fn truncated_empty_and_one_byte_buffers() {
    assert!(matches!(Frame::parse(&[]), Err(FrameError::TruncatedFrame)));
    assert!(matches!(Frame::parse(&[0x81]), Err(FrameError::TruncatedFrame)));
}

#[test]
fn truncated_eight_byte_length_field() {
    let buf = [0x81u8, 127, 0, 0, 0];
    assert!(matches!(Frame::parse(&buf), Err(FrameError::TruncatedFrame)));
}

#[test]
fn truncated_missing_mask_key() {
    let buf = [0x81u8, 0x85, 0x37, 0xfa];
    assert!(matches!(Frame::parse(&buf), Err(FrameError::TruncatedFrame)));
}

#[test]
fn truncated_short_payload() {
    let buf = [0x81u8, 0x05, b'H', b'e'];
    assert!(matches!(Frame::parse(&buf), Err(FrameError::TruncatedFrame)));
}

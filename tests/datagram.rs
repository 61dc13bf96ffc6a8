use stableview::datagram::{decode_pose, encode_pose, DATAGRAM_LEN};

fn bits(sample: [f64; 6]) -> [u64; 6] {
    sample.map(|v| v.to_bits())
}

#[test]
fn test_socket_network() {
    let sample = [1.0f32, 2., 3., 4., 5., 6.].map(|v| v as f64);
    let bytes = encode_pose(&bits(sample));
    assert_eq!(bytes.len(), 48);
    let words = decode_pose(&bytes).unwrap();
    assert_eq!(words.map(f64::from_bits), [1.0, 2.0, 3.0, 4.0, 5.0, 6.0]);
}

#[test]
fn datagram_is_little_endian_doubles() {
    let bytes = encode_pose(&bits([1.0, 2.0, 3.0, 4.0, 5.0, 6.0]));
    assert_eq!(&bytes[0..8], &1.0f64.to_le_bytes());
    assert_eq!(&bytes[0..8], &[0, 0, 0, 0, 0, 0, 0xf0, 0x3f]);
    assert_eq!(&bytes[40..48], &6.0f64.to_le_bytes());
}

#[test]
fn datagram_round_trip_keeps_special_values() {
    let sample = [-0.0, f64::INFINITY, f64::MIN_POSITIVE, -123.456, 1e300, 0.1];
    let words = decode_pose(&encode_pose(&bits(sample))).unwrap();
    assert_eq!(words, bits(sample));
}

#[test]
fn datagram_wrong_length_is_rejected() {
    assert_eq!(decode_pose(&[0u8; 47]), None);
    assert_eq!(decode_pose(&[0u8; 49]), None);
    assert_eq!(decode_pose(&[]), None);
    assert_eq!(DATAGRAM_LEN, 48);
}

#[test]
fn datagram_decode_encode_bytes() {
    let bytes: Vec<u8> = (0..48).map(|i| (i * 7 + 3) as u8).collect();
    let words = decode_pose(&bytes).unwrap();
    assert_eq!(words[0], u64::from_le_bytes(bytes[0..8].try_into().unwrap()));
    assert_eq!(encode_pose(&words), bytes);
}

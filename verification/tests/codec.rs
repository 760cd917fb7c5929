use signalstream::codec::{encode, pack};

#[test]
fn encode_single_byte_msb_first() {
    let bits = encode(&vec![0xA5]);
    assert_eq!(bits, vec![true, false, true, false, false, true, false, true]);
}

#[test]
fn encode_empty_payload_has_no_bits() {
    assert_eq!(encode(&vec![]).len(), 0);
}

#[test]
fn encode_keeps_byte_order() {
    let bits = encode(&vec![0x80, 0x01]);
    let mut expected = vec![false; 16];
    expected[0] = true;
    expected[15] = true;
    assert_eq!(bits, expected);
}

#[test]
fn pack_roundtrips_a_payload() {
    let payload = vec![0u8, 1, 2, 0x7F, 0x80, 0xFF, 0xA5, 42];
    let bits = encode(&payload);
    let mut buf = vec![0u8; payload.len()];
    pack(&bits, &mut buf);
    assert_eq!(buf, payload);
}

#[test]
fn bit_order_roundtrips_every_byte() {
    for v in 0..=255u8 {
        let bits = encode(&vec![v]);
        let mut buf = vec![0u8; 1];
        pack(&bits, &mut buf);
        assert_eq!(buf[0], v);
    }
}

#[test]
fn pack_short_input_leaves_trailing_bits_zero() {
    let bits = vec![true, false, true, false];
    let mut buf = vec![0xFFu8; 2];
    pack(&bits, &mut buf);
    assert_eq!(buf, vec![0xA0, 0x00]);
}

#[test]
fn pack_into_empty_buffer_is_a_no_op() {
    let bits = vec![true, true];
    let mut buf: Vec<u8> = vec![];
    pack(&bits, &mut buf);
    assert_eq!(buf.len(), 0);
}

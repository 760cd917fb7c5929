use signalstream::codec::pack;
use signalstream::protocol::write_plan;
use signalstream::protocol::SignalKind::{DataOne, DataZero, Terminator};
use signalstream::receiver::Receiver;

#[test]
fn plan_of_single_byte_is_bits_then_terminator() {
    let plan = write_plan(&vec![0xC3]);
    assert_eq!(
        plan,
        vec![DataOne, DataOne, DataZero, DataZero, DataZero, DataZero, DataOne, DataOne, Terminator],
    );
}

#[test]
fn plan_of_empty_payload_is_terminator_only() {
    assert_eq!(write_plan(&vec![]), vec![Terminator]);
}

#[test]
fn receiver_roundtrips_a_full_buffer() {
    let payload = vec![0x48u8, 0x69];
    let plan = write_plan(&payload);
    let mut rcv = Receiver::new(8 * payload.len());
    let mut i = 0;
    while !rcv.is_stopped() {
        rcv.on_signal(plan[i]);
        i += 1;
    }
    assert_eq!(rcv.bit_count(), 16);
    let bits = rcv.bits_vec();
    let mut buf = vec![0u8; payload.len()];
    pack(&bits, &mut buf);
    assert_eq!(buf, payload);
}

#[test]
fn receiver_stops_on_early_terminator() {
    let plan = write_plan(&vec![0xFF]);
    let mut rcv = Receiver::new(24);
    let mut i = 0;
    while !rcv.is_stopped() {
        rcv.on_signal(plan[i]);
        i += 1;
    }
    assert_eq!(rcv.bit_count(), 8);
    let bits = rcv.bits_vec();
    let mut buf = vec![0u8; 3];
    pack(&bits, &mut buf);
    assert_eq!(buf, vec![0xFF, 0x00, 0x00]);
}

#[test]
fn receiver_stops_at_capacity_without_terminator() {
    let mut rcv = Receiver::new(8);
    for _ in 0..8 {
        assert!(!rcv.is_stopped());
        rcv.on_signal(DataOne);
    }
    assert!(rcv.is_stopped());
    assert_eq!(rcv.bit_count(), 8);
    let bits = rcv.bits_vec();
    let mut buf = vec![0u8; 1];
    pack(&bits, &mut buf);
    assert_eq!(buf[0], 0xFF);
}

#[test]
fn receiver_with_zero_capacity_starts_stopped() {
    let rcv = Receiver::new(0);
    assert!(rcv.is_stopped());
    assert_eq!(rcv.bit_count(), 0);
}

#[test]
fn receiver_terminator_first_yields_no_bits() {
    let mut rcv = Receiver::new(16);
    rcv.on_signal(Terminator);
    assert!(rcv.is_stopped());
    assert_eq!(rcv.bit_count(), 0);
}

//! The wire protocol: the three reserved signal kinds, the stream of kinds a
//! sender emits for a payload, and the model of how a receiver consumes an
//! incoming stream of kinds.

use vstd::prelude::*;

use crate::codec::{bits_of, encode, packed_byte, packed_bytes};

verus! {

/// The whole protocol alphabet: a signal kind for a zero bit, one for a one
/// bit, and one terminator marking end of transmission.
#[derive(Clone, Copy, Debug, PartialEq, Eq, Structural)]
pub enum SignalKind {
    /// Carries a single data bit with value 0.
    DataZero,
    /// Carries a single data bit with value 1.
    DataOne,
    /// Marks the end of a transmission; sent exactly once, after all bits.
    Terminator,
}

/// The data-signal kind that carries bit `b`.
pub open spec fn kind_of_bit(b: bool) -> SignalKind {
    if b {
        SignalKind::DataOne
    } else {
        SignalKind::DataZero
    }
}

/// The exact stream of signal kinds a sender emits for `bytes`: one data
/// signal per bit, most-significant bit of each byte first, then exactly one
/// terminator — also for an empty payload, which yields the terminator alone.
pub open spec fn plan_of(bytes: Seq<u8>) -> Seq<SignalKind> {
    bits_of(bytes).map(|i: int, b: bool| kind_of_bit(b)).push(SignalKind::Terminator)
}

/// Receiver state as a pair: the bits accumulated so far, and whether the
/// receiver has stopped listening (buffer full or terminator seen).
pub open spec fn recv_init(cap: nat) -> (Seq<bool>, bool) {
    (Seq::empty(), cap == 0)
}

/// One receiver step on an incoming kind: once stopped, nothing changes; a
/// terminator stops it; a data signal appends its bit and stops it when the
/// accumulator reaches `cap` bits.
pub open spec fn recv_step(st: (Seq<bool>, bool), k: SignalKind, cap: nat) -> (Seq<bool>, bool) {
    if st.1 {
        st
    } else if k == SignalKind::Terminator {
        (st.0, true)
    } else {
        let bits = st.0.push(k == SignalKind::DataOne);
        (bits, bits.len() >= cap)
    }
}

/// The receiver state after consuming the kinds of `stream` in order, into a
/// buffer of `cap` bits.
pub open spec fn recv_run(stream: Seq<SignalKind>, cap: nat) -> (Seq<bool>, bool)
    decreases stream.len(),
{
    if stream.len() == 0 {
        recv_init(cap)
    } else {
        recv_step(recv_run(stream.drop_last(), cap), stream.last(), cap)
    }
}

/// The byte count a read reports for `nbits` received bits into an
/// `nbytes`-byte buffer: every byte a bit reached counts, a partial trailing
/// byte included, capped at the buffer length.
pub open spec fn bytes_filled(nbits: nat, nbytes: nat) -> nat {
    if (nbits + 7) / 8 <= nbytes {
        (nbits + 7) / 8
    } else {
        nbytes
    }
}

/// Computes the stream of signal kinds to deliver for `payload`, in order:
/// one data signal per bit, most-significant bit first, then one terminator.
pub fn write_plan(payload: &Vec<u8>) -> (r: Vec<SignalKind>)
    ensures
        r@ == plan_of(payload@),
{
    let bits = encode(payload);
    let mut r: Vec<SignalKind> = Vec::new();
    let mut i: usize = 0;
    let n = bits.len();
    while i < n
        invariant
            i <= n,
            n == bits@.len(),
            bits@ == bits_of(payload@),
            r@.len() == i,
            forall|t: int| 0 <= t < i ==> r@[t] == kind_of_bit(bits@[t]),
        decreases n - i,
    {
        if bits[i] {
            r.push(SignalKind::DataOne);
        } else {
            r.push(SignalKind::DataZero);
        }
        i = i + 1;
    }
    r.push(SignalKind::Terminator);
    proof {
        assert(r@ =~= plan_of(payload@));
    }
    r
}

/// The accumulator never outgrows the buffer: a run holds at most `cap`
/// bits, and strictly fewer while the receiver is still listening.
pub proof fn lemma_run_len(stream: Seq<SignalKind>, cap: nat)
    ensures
        recv_run(stream, cap).0.len() <= cap,
        !recv_run(stream, cap).1 ==> recv_run(stream, cap).0.len() < cap,
    decreases stream.len(),
{
    if stream.len() > 0 {
        lemma_run_len(stream.drop_last(), cap);
    }
}

/// A receiver that consumes only data signals never stops early: after `s`
/// data kinds with `s.len() <= cap`, the accumulator holds exactly their
/// bits, and the receiver has stopped precisely when the buffer is full.
proof fn lemma_run_data(s: Seq<SignalKind>, cap: nat)
    requires
        s.len() <= cap,
        forall|i: int| 0 <= i < s.len() ==> s[i] != SignalKind::Terminator,
    ensures
        recv_run(s, cap).0 == s.map(|i: int, k: SignalKind| k == SignalKind::DataOne),
        recv_run(s, cap).1 == (s.len() == cap),
    decreases s.len(),
{
    let m = s.map(|i: int, k: SignalKind| k == SignalKind::DataOne);
    if s.len() == 0 {
        assert(recv_run(s, cap).0 =~= m);
    } else {
        let d = s.drop_last();
        lemma_run_data(d, cap);
        assert(recv_run(s, cap).0 =~= m);
    }
}

/// Once the receiver has stopped, any further kinds change nothing: the run
/// over a stream equals the run over the prefix at which it first stopped.
proof fn lemma_run_frozen(stream: Seq<SignalKind>, cap: nat, i: int)
    requires
        0 <= i <= stream.len(),
        recv_run(stream.take(i), cap).1,
    ensures
        recv_run(stream, cap) == recv_run(stream.take(i), cap),
    decreases stream.len() - i,
{
    if i < stream.len() {
        let t = stream.take(i + 1);
        assert(t.drop_last() =~= stream.take(i));
        lemma_run_frozen(stream, cap, i + 1);
    } else {
        assert(stream.take(i) =~= stream);
    }
}

/// Round trip: a receiver with a buffer of exactly `bytes.len()` bytes that
/// consumes the sender's stream for `bytes` accumulates precisely the bit
/// stream of `bytes`, stops, reports `bytes.len()` bytes filled, and the
/// packed buffer equals `bytes`.
pub proof fn lemma_round_trip(bytes: Seq<u8>)
    ensures
        recv_run(plan_of(bytes), 8 * bytes.len()).0 == bits_of(bytes),
        recv_run(plan_of(bytes), 8 * bytes.len()).1,
        bytes_filled(bits_of(bytes).len(), bytes.len()) == bytes.len(),
        packed_bytes(recv_run(plan_of(bytes), 8 * bytes.len()).0, bytes.len()) == bytes,
{
    let cap = 8 * bytes.len();
    let plan = plan_of(bytes);
    let data = bits_of(bytes).map(|i: int, b: bool| kind_of_bit(b));
    assert(plan.drop_last() =~= data);
    assert(forall|i: int| 0 <= i < data.len() ==> data[i] != SignalKind::Terminator);
    lemma_run_data(data, cap);
    assert(recv_run(plan, cap).0 =~= bits_of(bytes));
    crate::codec::lemma_pack_encode_roundtrip(bytes);
}

/// Early terminator: if the sender's payload is shorter than the receiver's
/// buffer, the receiver stops on the terminator with fewer bits than the
/// buffer holds, reports a count below the buffer length, and every trailing
/// buffer byte packs to zero.
pub proof fn lemma_early_terminator(bytes: Seq<u8>, nbytes: nat)
    requires
        bytes.len() < nbytes,
    ensures
        recv_run(plan_of(bytes), 8 * nbytes).0 == bits_of(bytes),
        recv_run(plan_of(bytes), 8 * nbytes).1,
        bytes_filled(bits_of(bytes).len(), nbytes) == bytes.len(),
        bytes_filled(bits_of(bytes).len(), nbytes) < nbytes,
        forall|j: int|
            bytes.len() <= j < nbytes ==> #[trigger] packed_bytes(
                recv_run(plan_of(bytes), 8 * nbytes).0,
                nbytes,
            )[j] == 0,
{
    let cap = 8 * nbytes;
    let plan = plan_of(bytes);
    let data = bits_of(bytes).map(|i: int, b: bool| kind_of_bit(b));
    assert(plan.drop_last() =~= data);
    lemma_run_data(data, cap);
    assert(recv_run(plan, cap).0 =~= bits_of(bytes));
}

/// Zero-length write: the sender's stream for an empty payload is the
/// terminator alone, and a receiver consuming it accumulates no bits and
/// reports zero bytes filled, whatever its buffer size.
pub proof fn lemma_zero_length_write(nbytes: nat)
    ensures
        plan_of(Seq::<u8>::empty()) == seq![SignalKind::Terminator],
        recv_run(plan_of(Seq::<u8>::empty()), 8 * nbytes).0 == Seq::<bool>::empty(),
        recv_run(plan_of(Seq::<u8>::empty()), 8 * nbytes).1,
        bytes_filled(recv_run(plan_of(Seq::<u8>::empty()), 8 * nbytes).0.len(), nbytes) == 0,
{
    let plan = plan_of(Seq::<u8>::empty());
    assert(plan =~= seq![SignalKind::Terminator]);
    assert(plan.drop_last() =~= Seq::<SignalKind>::empty());
    assert(plan.last() == SignalKind::Terminator);
    assert(plan.drop_last().len() == 0);
    assert(recv_run(plan.drop_last(), 8 * nbytes) == recv_init(8 * nbytes));
    assert(recv_run(plan, 8 * nbytes) == recv_step(
        recv_run(plan.drop_last(), 8 * nbytes),
        plan.last(),
        8 * nbytes,
    ));
    assert(recv_run(plan, 8 * nbytes).0 =~= Seq::<bool>::empty());
}

/// Full-buffer stop: when the first `cap` kinds of a stream are all data
/// signals, the receiver accumulates exactly those `cap` bits and stops
/// there, whatever follows — a later terminator included.
pub proof fn lemma_full_buffer_stop(stream: Seq<SignalKind>, cap: nat)
    requires
        cap <= stream.len(),
        forall|i: int| 0 <= i < cap ==> stream[i] != SignalKind::Terminator,
    ensures
        recv_run(stream, cap) == recv_run(stream.take(cap as int), cap),
        recv_run(stream, cap).0 == stream.take(cap as int).map(
            |i: int, k: SignalKind| k == SignalKind::DataOne,
        ),
        recv_run(stream, cap).0.len() == cap,
        recv_run(stream, cap).1,
{
    let pre = stream.take(cap as int);
    lemma_run_data(pre, cap);
    lemma_run_frozen(stream, cap, cap as int);
}

} // verus!

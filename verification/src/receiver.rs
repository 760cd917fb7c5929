//! The receiver state machine: accumulates incoming data bits into a
//! bit-vector until the buffer capacity is reached or a terminator arrives.

use vstd::prelude::*;

use crate::protocol::{lemma_run_len, recv_run, SignalKind};
use bitvec::order::Lsb0;
use bitvec::vec::BitVec;

verus! {

/// A bit accumulator backed by bitvec's `BitVec`.  Opaque to the verifier,
/// which sees its contents only through `bitvec_bits` and the wrappers below.
#[verifier::external_body]
pub struct BitAcc {
    inner: BitVec<usize, Lsb0>,
}

/// The ordered bit contents of the accumulator, lowest index first.
pub uninterp spec fn bitvec_bits(v: BitAcc) -> Seq<bool>;

/// Relies on bitvec::vec::BitVec::new: the new bit-vector is empty.
#[verifier::external_body]
fn bits_new() -> (r: BitAcc)
    ensures
        bitvec_bits(r) == Seq::<bool>::empty(),
{
    BitAcc { inner: BitVec::new() }
}

/// Relies on bitvec::vec::BitVec::push: appends one bit at the back.  It
/// panics only when the vector already holds its maximum number of bits,
/// which the precondition here stays well below.
#[verifier::external_body]
fn bits_push(v: &mut BitAcc, b: bool)
    requires
        bitvec_bits(*old(v)).len() < usize::MAX / 64,
    ensures
        bitvec_bits(*final(v)) == bitvec_bits(*old(v)).push(b),
{
    v.inner.push(b);
}

/// Relies on bitvec::vec::BitVec::len: the number of bits held.
#[verifier::external_body]
fn bits_len(v: &BitAcc) -> (r: usize)
    ensures
        r == bitvec_bits(*v).len(),
{
    v.inner.len()
}

/// Relies on the `Index` impl of bitvec's `BitSlice`: reads the bit at `i`.
#[verifier::external_body]
fn bits_get(v: &BitAcc, i: usize) -> (r: bool)
    requires
        i < bitvec_bits(*v).len(),
    ensures
        r == bitvec_bits(*v)[i as int],
{
    v.inner[i]
}

/// Accumulates the data bits of one transmission.  It listens until the
/// accumulator reaches its bit capacity or a terminator arrives, and records
/// (in ghost state) the exact stream of kinds it consumed.
pub struct Receiver {
    acc: BitAcc,
    cap: usize,
    stopped: bool,
    log: Ghost<Seq<SignalKind>>,
}

impl Receiver {
    /// The stream of signal kinds consumed so far, in arrival order.
    pub closed spec fn stream(&self) -> Seq<SignalKind> {
        self.log@
    }

    /// The capacity in bits: the hard upper bound on accepted data signals.
    pub closed spec fn cap_bits(&self) -> nat {
        self.cap as nat
    }

    /// The bits accumulated so far, as the receiver model dictates.
    pub open spec fn bits(&self) -> Seq<bool> {
        recv_run(self.stream(), self.cap_bits()).0
    }

    /// Whether the receiver has stopped listening (full or terminated).
    pub open spec fn stopped_spec(&self) -> bool {
        recv_run(self.stream(), self.cap_bits()).1
    }

    /// The accumulator and the stop flag agree with the model's run over the
    /// consumed stream, and the capacity stays below the accumulator's limit.
    pub closed spec fn wf(&self) -> bool {
        &&& bitvec_bits(self.acc) == recv_run(self.log@, self.cap as nat).0
        &&& self.stopped == recv_run(self.log@, self.cap as nat).1
        &&& self.cap <= usize::MAX / 64
    }

    /// A fresh receiver for a buffer of `cap_bits` bits: nothing consumed,
    /// and already stopped only when the capacity is zero.
    pub fn new(cap_bits: usize) -> (r: Receiver)
        requires
            cap_bits <= usize::MAX / 64,
        ensures
            r.wf(),
            r.stream() == Seq::<SignalKind>::empty(),
            r.cap_bits() == cap_bits,
    {
        Receiver { acc: bits_new(), cap: cap_bits, stopped: cap_bits == 0, log: Ghost(Seq::empty()) }
    }

    /// True once the receiver no longer accepts signals: the accumulator is
    /// full, or a terminator was consumed.
    pub fn is_stopped(&self) -> (r: bool)
        requires
            self.wf(),
        ensures
            r == self.stopped_spec(),
    {
        self.stopped
    }

    /// The number of bits accumulated so far.
    pub fn bit_count(&self) -> (r: usize)
        requires
            self.wf(),
        ensures
            r == self.bits().len(),
    {
        bits_len(&self.acc)
    }

    /// Consumes one incoming signal kind: a data signal appends its bit and
    /// stops the receiver when the accumulator reaches capacity; a terminator
    /// stops it at once.
    pub fn on_signal(&mut self, k: SignalKind)
        requires
            old(self).wf(),
            !old(self).stopped_spec(),
        ensures
            final(self).wf(),
            final(self).stream() == old(self).stream().push(k),
            final(self).cap_bits() == old(self).cap_bits(),
    {
        proof {
            let s = self.log@;
            assert(s.push(k).drop_last() =~= s);
            assert(s.push(k).last() == k);
            lemma_run_len(s, self.cap as nat);
        }
        self.log = Ghost(self.log@.push(k));
        match k {
            SignalKind::Terminator => {
                self.stopped = true;
            },
            SignalKind::DataZero => {
                bits_push(&mut self.acc, false);
                if bits_len(&self.acc) >= self.cap {
                    self.stopped = true;
                }
            },
            SignalKind::DataOne => {
                bits_push(&mut self.acc, true);
                if bits_len(&self.acc) >= self.cap {
                    self.stopped = true;
                }
            },
        }
    }

    /// The accumulated bits, copied out as a plain vector in arrival order.
    pub fn bits_vec(&self) -> (r: Vec<bool>)
        requires
            self.wf(),
        ensures
            r@ == self.bits(),
    {
        let n = bits_len(&self.acc);
        let mut r: Vec<bool> = Vec::new();
        let mut i: usize = 0;
        while i < n
            invariant
                i <= n,
                self.wf(),
                n == bitvec_bits(self.acc).len(),
                r@.len() == i,
                forall|t: int| 0 <= t < i ==> r@[t] == bitvec_bits(self.acc)[t],
            decreases n - i,
        {
            r.push(bits_get(&self.acc, i));
            i = i + 1;
        }
        proof {
            assert(r@ =~= self.bits());
        }
        r
    }
}

} // verus!

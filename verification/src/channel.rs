//! The signal channel: a process-wide subscription to the three reserved
//! signal kinds, a blocking verified `read`, and the exact delivery plan a
//! sender must follow for `write`.

use vstd::prelude::*;

use crate::codec::{pack, packed_bytes};
use crate::protocol::{
    bytes_filled, lemma_run_len, plan_of, recv_run, write_plan, SignalKind,
};
use crate::receiver::Receiver;

verus! {

/// The failures this channel surfaces.
#[derive(Debug)]
pub enum ChannelError {
    /// The three reserved signal kinds could not be subscribed at
    /// construction time.
    Subscribe(String),
    /// A signal outside the subscribed set arrived: the subscription
    /// contract was broken externally.  Never returned while the channel is
    /// well formed; kept as a defensive result rather than an abort.
    UnexpectedSignal(i32),
    /// The operation does nothing on this channel.
    Unsupported,
}

/// The process-wide subscription to the reserved signal kinds, backed by
/// signal_hook's blocking iterator.  Opaque to the verifier, which learns
/// what arrives only through `wait_signal`.
#[verifier::external_body]
struct Subscription {
    signals: signal_hook::iterator::Signals,
}

/// Relies on signal_hook::iterator::Signals::new: it registers exactly the
/// listed signals — here libc's SIGUSR1, SIGUSR2 and SIGSTKFLT, three
/// pairwise distinct signal numbers — replacing their default disposition,
/// and fails only when the OS subscription cannot be established.
#[verifier::external_body]
fn subscribe() -> (r: Result<(Subscription, i32, i32, i32), String>)
    ensures
        r matches Ok(t) ==> t.1 != t.2 && t.1 != t.3 && t.2 != t.3,
{
    match signal_hook::iterator::Signals::new([libc::SIGUSR1, libc::SIGUSR2, libc::SIGSTKFLT]) {
        Ok(signals) => Ok((
            Subscription { signals },
            libc::SIGUSR1,
            libc::SIGUSR2,
            libc::SIGSTKFLT,
        )),
        Err(e) => Err(format!("{}", e)),
    }
}

/// A channel to the peer process `peer()`, holding the process-wide
/// subscription to the three reserved signal kinds for its lifetime.
pub struct SignalStream {
    sub: Subscription,
    pid: u32,
    sig_zero: i32,
    sig_one: i32,
    sig_term: i32,
    received: Ghost<Seq<SignalKind>>,
}

/// Relies on signal_hook's blocking iterator (SignalsInfo::forever): it
/// suspends the thread until a signal arrives and yields only signals out of
/// the set registered at construction, which for this channel is exactly the
/// three numbers stored beside the subscription.  `None` is yielded only for
/// a closed handle, which this channel never closes.
#[verifier::external_body]
fn wait_signal(ch: &mut SignalStream) -> (r: i32)
    ensures
        final(ch).pid == old(ch).pid,
        final(ch).sig_zero == old(ch).sig_zero,
        final(ch).sig_one == old(ch).sig_one,
        final(ch).sig_term == old(ch).sig_term,
        final(ch).received@ == old(ch).received@,
        r == old(ch).sig_zero || r == old(ch).sig_one || r == old(ch).sig_term,
{
    loop {
        if let Some(s) = ch.sub.signals.forever().next() {
            return s;
        }
    }
}

impl SignalStream {
    /// The peer process id this channel addresses.
    pub closed spec fn peer(&self) -> u32 {
        self.pid
    }

    /// The three subscribed signal numbers are pairwise distinct, so each
    /// arriving number names exactly one protocol kind.
    pub closed spec fn wf(&self) -> bool {
        self.sig_zero != self.sig_one && self.sig_zero != self.sig_term && self.sig_one
            != self.sig_term
    }

    /// The stream of signal kinds the most recent `read` call consumed.
    pub closed spec fn last_stream(&self) -> Seq<SignalKind> {
        self.received@
    }

    /// The protocol kind that a raw signal number names on this channel.
    pub closed spec fn kind_of_raw(&self, s: i32) -> Option<SignalKind> {
        if s == self.sig_zero {
            Some(SignalKind::DataZero)
        } else if s == self.sig_one {
            Some(SignalKind::DataOne)
        } else if s == self.sig_term {
            Some(SignalKind::Terminator)
        } else {
            None
        }
    }

    /// The raw signal number this channel delivers for a protocol kind.
    pub closed spec fn raw_of_kind(&self, k: SignalKind) -> i32 {
        match k {
            SignalKind::DataZero => self.sig_zero,
            SignalKind::DataOne => self.sig_one,
            SignalKind::Terminator => self.sig_term,
        }
    }

    /// Whether a raw signal number is one of the three this channel
    /// subscribed.
    pub closed spec fn subscribed(&self, s: i32) -> bool {
        s == self.sig_zero || s == self.sig_one || s == self.sig_term
    }

    /// On a well-formed channel the raw number of each kind classifies back
    /// to that kind: sender and receiver agree on the whole alphabet.
    pub proof fn lemma_alphabet_consistent(&self, k: SignalKind)
        requires
            self.wf(),
        ensures
            self.kind_of_raw(self.raw_of_kind(k)) == Some(k),
    {
    }

    /// Invariant enforcement: a raw signal number names a protocol kind
    /// exactly when it is one of the three subscribed numbers.  A channel
    /// that only ever receives subscribed kinds therefore never reaches the
    /// fatal path, whatever the interleaving of data and terminator signals:
    /// `read`'s contract shows its defensive error is never returned.
    pub proof fn lemma_subscribed_never_fatal(&self, s: i32)
        ensures
            self.subscribed(s) <==> self.kind_of_raw(s) is Some,
    {
    }

    /// Constructor for a channel bound to the peer process `pid`.  Subscribes
    /// the calling process to the three reserved signal kinds; failure to
    /// subscribe is a construction-time error.
    pub fn new(pid: u32) -> (r: Result<SignalStream, ChannelError>)
        ensures
            r matches Ok(ch) ==> ch.wf() && ch.peer() == pid && ch.last_stream()
                == Seq::<SignalKind>::empty(),
            r matches Err(e) ==> e is Subscribe,
    {
        match subscribe() {
            Ok((sub, z, o, t)) => Ok(
                SignalStream {
                    sub,
                    pid,
                    sig_zero: z,
                    sig_one: o,
                    sig_term: t,
                    received: Ghost(Seq::empty()),
                },
            ),
            Err(msg) => Err(ChannelError::Subscribe(msg)),
        }
    }

    /// The peer process id supplied at construction.
    pub fn peer_pid(&self) -> (r: u32)
        ensures
            r == self.peer(),
    {
        self.pid
    }

    /// The protocol kind of an arriving raw signal number, if it is in the
    /// subscribed alphabet.
    fn classify(&self, s: i32) -> (r: Option<SignalKind>)
        ensures
            r == self.kind_of_raw(s),
    {
        if s == self.sig_zero {
            Some(SignalKind::DataZero)
        } else if s == self.sig_one {
            Some(SignalKind::DataOne)
        } else if s == self.sig_term {
            Some(SignalKind::Terminator)
        } else {
            None
        }
    }

    /// Reads one transmission into `buf`, blocking until the buffer is full
    /// or a terminator arrives, and returns the number of bytes filled —
    /// every byte a received bit reached, a partial trailing byte included.
    ///
    /// The consumed stream of kinds is recorded in `last_stream()`: the
    /// receiver stops exactly at its end and at no earlier point, the buffer
    /// holds the packed bits of the model's run over it, and while the
    /// channel is well formed no unexpected signal can arrive, so the
    /// defensive error path is provably never taken.
    ///
    /// This call must begin blocking strictly before the peer starts
    /// writing: signals delivered while nobody listens are lost by the OS.
    pub fn read(&mut self, buf: &mut Vec<u8>) -> (r: Result<usize, ChannelError>)
        requires
            old(self).wf(),
            old(buf).len() <= usize::MAX / 512,
        ensures
            final(self).wf(),
            final(self).peer() == old(self).peer(),
            recv_run(final(self).last_stream(), (8 * old(buf)@.len()) as nat).1,
            forall|i: int|
                0 <= i < final(self).last_stream().len() ==> !(#[trigger] recv_run(
                    final(self).last_stream().take(i),
                    (8 * old(buf)@.len()) as nat,
                ).1),
            final(buf)@ == packed_bytes(
                recv_run(final(self).last_stream(), (8 * old(buf)@.len()) as nat).0,
                old(buf)@.len(),
            ),
            r == Ok::<usize, ChannelError>(
                bytes_filled(
                    recv_run(final(self).last_stream(), (8 * old(buf)@.len()) as nat).0.len(),
                    old(buf)@.len(),
                ) as usize,
            ),
    {
        proof {
            assert(8 * (usize::MAX / 512) <= usize::MAX / 64);
        }
        let cap_bits: usize = 8 * buf.len();
        let ghost cap_n = cap_bits as nat;
        let mut rcv = Receiver::new(cap_bits);
        loop
            invariant_except_break
                self.wf(),
                self.pid == old(self).pid,
                self.sig_zero == old(self).sig_zero,
                self.sig_one == old(self).sig_one,
                self.sig_term == old(self).sig_term,
                rcv.wf(),
                rcv.cap_bits() == cap_n,
                forall|i: int|
                    0 <= i < rcv.stream().len() ==> !(#[trigger] recv_run(
                        rcv.stream().take(i),
                        cap_n,
                    ).1),
            ensures
                self.wf(),
                self.pid == old(self).pid,
                self.sig_zero == old(self).sig_zero,
                self.sig_one == old(self).sig_one,
                self.sig_term == old(self).sig_term,
                rcv.wf(),
                rcv.cap_bits() == cap_n,
                rcv.stopped_spec(),
                forall|i: int|
                    0 <= i < rcv.stream().len() ==> !(#[trigger] recv_run(
                        rcv.stream().take(i),
                        cap_n,
                    ).1),
            decreases cap_n - rcv.bits().len(),
        {
            if rcv.is_stopped() {
                break;
            }
            let s = wait_signal(self);
            let k = match self.classify(s) {
                Some(k) => k,
                None => {
                    // Unreachable while the subscription covers only the
                    // three kinds; kept as the defensive invariant check.
                    return Err(ChannelError::UnexpectedSignal(s));
                },
            };
            let ghost pre = rcv.stream();
            proof {
                lemma_run_len(pre, cap_n);
            }
            rcv.on_signal(k);
            proof {
                assert(rcv.stream() == pre.push(k));
                assert(rcv.stream().drop_last() =~= pre);
                assert(rcv.stream().last() == k);
                assert forall|i: int| 0 <= i < rcv.stream().len() implies !(#[trigger] recv_run(
                    rcv.stream().take(i),
                    cap_n,
                ).1) by {
                    assert(rcv.stream().take(i) =~= pre.take(i));
                    if i == pre.len() {
                        assert(pre.take(i) =~= pre);
                    }
                }
                lemma_run_len(rcv.stream(), cap_n);
            }
            if rcv.is_stopped() {
                break;
            }
        }
        let bits = rcv.bits_vec();
        pack(&bits, buf);
        let nbits = bits.len();
        proof {
            lemma_run_len(rcv.stream(), cap_n);
        }
        let mut count = (nbits + 7) / 8;
        if count > buf.len() {
            count = buf.len();
        }
        self.received = Ghost(rcv.stream());
        Ok(count)
    }

    /// The original stream interface carries a flush operation; a signal
    /// channel buffers nothing, and reports the call as unsupported.
    pub fn flush(&mut self) -> (r: Result<(), ChannelError>)
        ensures
            *final(self) == *old(self),
            r == Err::<(), ChannelError>(ChannelError::Unsupported),
    {
        Err(ChannelError::Unsupported)
    }

    /// The exact sequence of raw signal numbers a sender must deliver to this
    /// channel's peer for `payload`: one data signal per bit, in order,
    /// most-significant bit of each byte first, then exactly one terminator —
    /// also for an empty payload, which yields the terminator alone.
    ///
    /// Delivery itself — raw `kill` to the peer and the inter-bit pause that
    /// keeps the kernel from coalescing repeated identical signals — cannot
    /// be verified and stays with the caller.
    pub fn signal_plan(&self, payload: &Vec<u8>) -> (r: Vec<i32>)
        ensures
            r@ == plan_of(payload@).map(|i: int, k: SignalKind| self.raw_of_kind(k)),
    {
        let plan = write_plan(payload);
        let ghost mapped = plan_of(payload@).map(|i: int, k: SignalKind| self.raw_of_kind(k));
        let mut r: Vec<i32> = Vec::new();
        let mut i: usize = 0;
        let n = plan.len();
        while i < n
            invariant
                i <= n,
                n == plan@.len(),
                plan@ == plan_of(payload@),
                mapped == plan_of(payload@).map(|t: int, k: SignalKind| self.raw_of_kind(k)),
                r@.len() == i,
                forall|t: int| 0 <= t < i ==> r@[t] == mapped[t],
            decreases n - i,
        {
            let raw = match plan[i] {
                SignalKind::DataZero => self.sig_zero,
                SignalKind::DataOne => self.sig_one,
                SignalKind::Terminator => self.sig_term,
            };
            r.push(raw);
            i = i + 1;
        }
        proof {
            assert(r@ =~= mapped);
        }
        r
    }
}

} // verus!

//! The read timeout of a connection: while the server waits for a request's
//! header the read times out; while a response is being produced it does not.
use vstd::prelude::*;

verus! {

/// What the service tells the connection's timer.
#[derive(Debug, Clone, Copy, PartialEq, Eq, Structural)]
pub enum State {
    /// A request is being answered: stop timing reads until the response ends.
    Wait,
    /// The response has ended: time the reads again, from now.
    Reset,
}

/// What polling the timer's signal channel gave.
#[derive(Debug, Clone, Copy, PartialEq, Eq, Structural)]
pub enum SignalPoll {
    Received(State),
    /// Every sender is gone.
    Closed,
    Pending,
}

/// Whether reads of a connection are timed.
#[derive(Debug, Clone, Copy, PartialEq, Eq, Structural)]
pub enum StreamKind {
    UseTimeout { duration_ms: u64, waiting: bool, finished: bool },
    Bypass,
}

/// A connection's stream with its read timeout.
pub struct Stream<S> {
    pub inner: S,
    pub kind: StreamKind,
}

/// The kind after a signal: `Reset` times reads again, `Wait` stops timing
/// them, a closed channel is never polled again.
pub open spec fn kind_after(kind: StreamKind, sig: SignalPoll) -> StreamKind {
    match kind {
        StreamKind::UseTimeout { duration_ms, waiting, finished } => {
            if finished {
                kind
            } else {
                match sig {
                    SignalPoll::Received(State::Reset) => StreamKind::UseTimeout { duration_ms, waiting: false, finished },
                    SignalPoll::Received(State::Wait) => StreamKind::UseTimeout { duration_ms, waiting: true, finished },
                    SignalPoll::Closed => StreamKind::UseTimeout { duration_ms, waiting, finished: true },
                    SignalPoll::Pending => kind,
                }
            }
        },
        StreamKind::Bypass => kind,
    }
}

/// The read deadline is to be moved to `duration_ms` from now.
pub open spec fn resets_deadline(kind: StreamKind, sig: SignalPoll) -> bool {
    kind matches StreamKind::UseTimeout { finished, .. } && !finished && sig == SignalPoll::Received(State::Reset)
}

/// Reads are timed in this kind.
pub open spec fn timed(kind: StreamKind) -> bool {
    kind matches StreamKind::UseTimeout { waiting, .. } && !waiting
}

impl<S> Stream<S> {
    pub fn new(inner: S, kind: StreamKind) -> (s: Self)
        ensures
            s.inner == inner,
            s.kind == kind,
    {
        Stream { inner, kind }
    }

    /// A stream whose reads time out after `duration_ms` unless a response is
    /// being produced; its timer starts now.
    pub fn with_timeout(inner: S, duration_ms: u64) -> (s: Self)
        ensures
            s.inner == inner,
            s.kind == (StreamKind::UseTimeout { duration_ms, waiting: false, finished: false }),
    {
        Self::new(inner, StreamKind::UseTimeout { duration_ms, waiting: false, finished: false })
    }

    /// A stream whose reads are never timed.
    pub fn with_bypass(inner: S) -> (s: Self)
        ensures
            s.inner == inner,
            s.kind == StreamKind::Bypass,
    {
        Self::new(inner, StreamKind::Bypass)
    }

    /// Whether a read first polls the timer's signal channel.
    pub fn wants_signal(&self) -> (b: bool)
        ensures
            b == (self.kind matches StreamKind::UseTimeout { finished, .. } && !finished),
    {
        match self.kind {
            StreamKind::UseTimeout { finished, .. } => !finished,
            StreamKind::Bypass => false,
        }
    }

    /// Takes what the signal channel gave; says whether the read deadline is
    /// to be moved to the timeout's duration from now.
    pub fn on_signal(&mut self, sig: SignalPoll) -> (reset_deadline: bool)
        ensures
            final(self).kind == kind_after(old(self).kind, sig),
            reset_deadline == resets_deadline(old(self).kind, sig),
    {
        match self.kind {
            StreamKind::UseTimeout { duration_ms, waiting, finished } => {
                if finished {
                    return false;
                }
                match sig {
                    SignalPoll::Received(State::Reset) => {
                        self.kind = StreamKind::UseTimeout { duration_ms, waiting: false, finished };
                        true
                    },
                    SignalPoll::Received(State::Wait) => {
                        self.kind = StreamKind::UseTimeout { duration_ms, waiting: true, finished };
                        false
                    },
                    SignalPoll::Closed => {
                        self.kind = StreamKind::UseTimeout { duration_ms, waiting, finished: true };
                        false
                    },
                    SignalPoll::Pending => false,
                }
            },
            StreamKind::Bypass => false,
        }
    }

    /// Whether a read checks the timer: it fails with "request header read
    /// timed out" once the deadline has passed.
    pub fn checks_timer(&self) -> (b: bool)
        ensures
            b == timed(self.kind),
    {
        match self.kind {
            StreamKind::UseTimeout { waiting, .. } => !waiting,
            StreamKind::Bypass => false,
        }
    }
}

/// The service in front of a connection, which tells the timer when a
/// request is being answered.
pub struct Service<S> {
    pub inner: S,
    pub timed: bool,
}

impl<S> Service<S> {
    pub fn new(inner: S, timed: bool) -> (s: Self)
        ensures
            s.inner == inner,
            s.timed == timed,
    {
        Service { inner, timed }
    }

    /// The signal a call sends to the timer: `Wait`, when reads are timed.
    pub fn call_signal(&self) -> (sig: Option<State>)
        ensures
            sig == (if self.timed { Some(State::Wait) } else { None }),
    {
        if self.timed { Some(State::Wait) } else { None }
    }
}

/// The future of a service call; its response body carries the timer on.
pub struct ServiceFuture<F> {
    pub inner: F,
    pub timed: bool,
}

impl<F> ServiceFuture<F> {
    pub fn new(inner: F, timed: bool) -> (s: Self)
        ensures
            s.inner == inner,
            s.timed == timed,
    {
        ServiceFuture { inner, timed }
    }
}

/// A response body, which tells the timer when it ends.
pub struct Body<B> {
    pub inner: B,
    pub timed: bool,
}

impl<B> Body<B> {
    pub fn new(inner: B, timed: bool) -> (s: Self)
        ensures
            s.inner == inner,
            s.timed == timed,
    {
        Body { inner, timed }
    }

    /// The signal the body sends when polled or asked whether it has ended:
    /// `Reset` once it has ended, when reads are timed.
    pub fn end_signal(&self, ended: bool) -> (sig: Option<State>)
        ensures
            sig == (if self.timed && ended { Some(State::Reset) } else { None }),
    {
        if self.timed && ended { Some(State::Reset) } else { None }
    }
}

/// While a response is being produced no read times out, however many
/// reads there are; once it ends, reads are timed again from a fresh
/// deadline; a stream without timeout is never timed.
pub proof fn lemma_wait_then_reset(duration_ms: u64, waiting: bool)
    ensures
        ({
            let k0 = StreamKind::UseTimeout { duration_ms, waiting, finished: false };
            let k1 = kind_after(k0, SignalPoll::Received(State::Wait));
            let k2 = kind_after(k1, SignalPoll::Pending);
            let k3 = kind_after(k2, SignalPoll::Received(State::Reset));
            &&& !timed(k1) && !timed(k2)
            &&& resets_deadline(k2, SignalPoll::Received(State::Reset))
            &&& timed(k3)
        }),
        forall|sig: SignalPoll| !timed(#[trigger] kind_after(StreamKind::Bypass, sig)),
{
}

/// Once the signal channel is closed the timing no longer changes.
pub proof fn lemma_closed_is_final(kind: StreamKind, sig: SignalPoll)
    requires
        kind matches StreamKind::UseTimeout { finished, .. } && finished,
    ensures
        kind_after(kind, sig) == kind,
        !resets_deadline(kind, sig),
{
}

/// The kind after the signals `sigs`, taken in order.
pub open spec fn kind_after_all(kind: StreamKind, sigs: Seq<SignalPoll>) -> StreamKind
    decreases sigs.len(),
{
    if sigs.len() == 0 {
        kind
    } else {
        kind_after(kind_after_all(kind, sigs.drop_last()), sigs.last())
    }
}

/// The signal at `j` is taken while the channel is still open: no `Closed`
/// comes before it.
pub open spec fn taken_open(sigs: Seq<SignalPoll>, j: int) -> bool {
    forall|m: int| 0 <= m < j ==> sigs[m] != SignalPoll::Closed
}

/// Among the signals taken while the channel was open, a `Wait` came that
/// no `Reset` followed.
pub open spec fn waits_after(sigs: Seq<SignalPoll>) -> bool {
    exists|i: int|
        0 <= i < sigs.len() && #[trigger] taken_open(sigs, i) && sigs[i] == SignalPoll::Received(State::Wait)
            && forall|j: int| i < j < sigs.len() && #[trigger] taken_open(sigs, j) ==> sigs[j] != SignalPoll::Received(State::Reset)
}

/// A stream with a read timeout, over any sequence of signals: it keeps its
/// duration; it stops listening once the channel closes; and reads are timed
/// unless a `Wait` came, while the channel was open, that no `Reset` has
/// followed. A stream without timeout is never timed.
pub proof fn lemma_timeout_over_signals(duration_ms: u64, sigs: Seq<SignalPoll>)
    ensures
        kind_after_all(StreamKind::UseTimeout { duration_ms, waiting: false, finished: false }, sigs)
            == (StreamKind::UseTimeout { duration_ms, waiting: waits_after(sigs), finished: sigs.contains(SignalPoll::Closed) }),
        timed(kind_after_all(StreamKind::UseTimeout { duration_ms, waiting: false, finished: false }, sigs)) == !waits_after(sigs),
        kind_after_all(StreamKind::Bypass, sigs) == StreamKind::Bypass,
    decreases sigs.len(),
{
    if sigs.len() > 0 {
        let pre = sigs.drop_last();
        let x = sigs.last();
        let n = pre.len() as int;
        lemma_timeout_over_signals(duration_ms, pre);
        assert forall|j: int| 0 <= j <= n implies #[trigger] taken_open(sigs, j) == taken_open(pre, j) by {
            assert forall|m: int| 0 <= m < j implies sigs[m] == pre[m] by {}
        }
        assert(sigs.contains(SignalPoll::Closed) == (pre.contains(SignalPoll::Closed) || x == SignalPoll::Closed)) by {
            if sigs.contains(SignalPoll::Closed) && !(x == SignalPoll::Closed) {
                let m = choose|m: int| 0 <= m < sigs.len() && sigs[m] == SignalPoll::Closed;
                assert(pre[m] == SignalPoll::Closed);
            }
            if pre.contains(SignalPoll::Closed) {
                let m = choose|m: int| 0 <= m < pre.len() && pre[m] == SignalPoll::Closed;
                assert(sigs[m] == SignalPoll::Closed);
            }
            if x == SignalPoll::Closed {
                assert(sigs[n] == SignalPoll::Closed);
            }
        }
        assert(taken_open(sigs, n) == !pre.contains(SignalPoll::Closed)) by {
            if pre.contains(SignalPoll::Closed) {
                let m = choose|m: int| 0 <= m < pre.len() && pre[m] == SignalPoll::Closed;
                assert(sigs[m] == SignalPoll::Closed);
            }
        }
        // The last signal adds to what came before only when it is taken.
        if !taken_open(sigs, n) || x == SignalPoll::Pending || x == SignalPoll::Closed {
            assert(waits_after(sigs) == waits_after(pre)) by {
                if waits_after(sigs) {
                    let i = choose|i: int|
                        0 <= i < sigs.len() && #[trigger] taken_open(sigs, i) && sigs[i] == SignalPoll::Received(State::Wait)
                            && forall|j: int| i < j < sigs.len() && #[trigger] taken_open(sigs, j) ==> sigs[j] != SignalPoll::Received(State::Reset);
                    assert(i < n);
                    assert(taken_open(pre, i));
                    assert forall|j: int| i < j < pre.len() && #[trigger] taken_open(pre, j) implies pre[j] != SignalPoll::Received(State::Reset) by {
                        assert(taken_open(sigs, j));
                        assert(sigs[j] == pre[j]);
                    }
                }
                if waits_after(pre) {
                    let i = choose|i: int|
                        0 <= i < pre.len() && #[trigger] taken_open(pre, i) && pre[i] == SignalPoll::Received(State::Wait)
                            && forall|j: int| i < j < pre.len() && #[trigger] taken_open(pre, j) ==> pre[j] != SignalPoll::Received(State::Reset);
                    assert(taken_open(sigs, i));
                    assert(sigs[i] == pre[i]);
                    assert forall|j: int| i < j < sigs.len() && #[trigger] taken_open(sigs, j) implies sigs[j] != SignalPoll::Received(State::Reset) by {
                        if j < n {
                            assert(taken_open(pre, j));
                            assert(sigs[j] == pre[j]);
                        }
                    }
                }
            }
        } else if x == SignalPoll::Received(State::Wait) {
            assert(taken_open(sigs, n) && sigs[n] == SignalPoll::Received(State::Wait));
            assert(waits_after(sigs));
        } else {
            assert(x == SignalPoll::Received(State::Reset));
            if waits_after(sigs) {
                let i = choose|i: int|
                    0 <= i < sigs.len() && #[trigger] taken_open(sigs, i) && sigs[i] == SignalPoll::Received(State::Wait)
                        && forall|j: int| i < j < sigs.len() && #[trigger] taken_open(sigs, j) ==> sigs[j] != SignalPoll::Received(State::Reset);
                assert(i != n);
                assert(taken_open(sigs, n));
            }
        }
    }
}

/// Over any sequence of signals, the read deadline starts over exactly at
/// each `Reset` taken while the channel is open.
pub proof fn lemma_deadline_resets(duration_ms: u64, sigs: Seq<SignalPoll>, j: int)
    requires
        0 <= j < sigs.len(),
    ensures
        resets_deadline(
            kind_after_all(StreamKind::UseTimeout { duration_ms, waiting: false, finished: false }, sigs.subrange(0, j)),
            sigs[j],
        ) == (taken_open(sigs, j) && sigs[j] == SignalPoll::Received(State::Reset)),
{
    let pre = sigs.subrange(0, j);
    lemma_timeout_over_signals(duration_ms, pre);
    assert(pre.contains(SignalPoll::Closed) == !taken_open(sigs, j)) by {
        if pre.contains(SignalPoll::Closed) {
            let m = choose|m: int| 0 <= m < pre.len() && pre[m] == SignalPoll::Closed;
            assert(sigs[m] == SignalPoll::Closed);
        }
        if !taken_open(sigs, j) {
            let m = choose|m: int| 0 <= m < j && sigs[m] == SignalPoll::Closed;
            assert(pre[m] == SignalPoll::Closed);
        }
    }
}

} // verus!

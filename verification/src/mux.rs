//! Readiness-multiplexer state: per-connection life cycle and dispatch planning.
//!
//! One multiplexer drives many connections on a single thread. Each
//! connection is registered once and addressed by a dense integer token — its
//! index in the state array — so dispatch is a constant-time lookup. A
//! connection starts out connecting, becomes ready once its handshake
//! completes, and is closed on end of stream or a fatal read error; closed
//! connections take part in no further cycle.
//!
//! The loop that waits on the OS and performs reads lives with the caller;
//! this module decides. [`Multiplexer::plan_cycle`] turns one wait result into
//! a dispatch plan that serves every ready, still-open connection exactly
//! once — none skipped, none double-invoked, however often the wait reported
//! a token — which keeps connections sharing the thread fair.

use vstd::prelude::*;

verus! {

/// The life cycle of one connection.
#[derive(Clone, Copy, PartialEq, Eq, Structural, Debug)]
pub enum ConnState {
    /// Registered; connect/handshake not yet complete.
    Connecting,
    /// Handshake complete; reads are dispatched.
    Ready,
    /// End of stream or fatal error; excluded from further waits.
    Closed,
}

/// What one service step observed on a connection.
#[derive(Clone, Copy, PartialEq, Eq, Structural, Debug)]
pub enum ConnEvent {
    /// The readiness query reported the connect/handshake sequence complete.
    HandshakeDone,
    /// A read completed with payload bytes.
    DataRead { bytes: usize },
    /// A read returned zero bytes: end of stream.
    EndOfStream,
    /// A read failed with an unrecoverable error.
    FatalError,
    /// A read would have blocked; nothing to do.
    WouldBlock,
}

/// What the caller does with a connection the plan serves.
#[derive(Clone, Copy, PartialEq, Eq, Structural, Debug)]
pub enum ServiceAction {
    /// Still connecting: poll the handshake readiness query.
    PollHandshake,
    /// Ready: perform exactly one batched read.
    ReadBatch,
    /// Closed: nothing to do.
    Skip,
}

/// The connection's next state after an event. Closed is absorbing; a
/// handshake completion makes a connection ready; end of stream and fatal
/// errors close it; data and would-block leave the state alone.
pub open spec fn spec_next_state(s: ConnState, e: ConnEvent) -> ConnState {
    match s {
        ConnState::Closed => ConnState::Closed,
        _ => match e {
            ConnEvent::HandshakeDone => ConnState::Ready,
            ConnEvent::EndOfStream => ConnState::Closed,
            ConnEvent::FatalError => ConnState::Closed,
            ConnEvent::DataRead { .. } => s,
            ConnEvent::WouldBlock => s,
        },
    }
}

/// Applies the connection life cycle to one event.
pub fn next_state(s: ConnState, e: ConnEvent) -> (r: ConnState)
    ensures
        r == spec_next_state(s, e),
{
    match s {
        ConnState::Closed => ConnState::Closed,
        _ => match e {
            ConnEvent::HandshakeDone => ConnState::Ready,
            ConnEvent::EndOfStream => ConnState::Closed,
            ConnEvent::FatalError => ConnState::Closed,
            ConnEvent::DataRead { .. } => s,
            ConnEvent::WouldBlock => s,
        },
    }
}

/// The action one cycle takes on a connection in a given state.
pub open spec fn spec_action_for(s: ConnState) -> ServiceAction {
    match s {
        ConnState::Connecting => ServiceAction::PollHandshake,
        ConnState::Ready => ServiceAction::ReadBatch,
        ConnState::Closed => ServiceAction::Skip,
    }
}

/// Decides what to do with a connection the plan serves.
pub fn action_for(s: ConnState) -> (r: ServiceAction)
    ensures
        r == spec_action_for(s),
{
    match s {
        ConnState::Connecting => ServiceAction::PollHandshake,
        ConnState::Ready => ServiceAction::ReadBatch,
        ConnState::Closed => ServiceAction::Skip,
    }
}

proof fn lemma_push_contains(s: Seq<usize>, e: usize, x: usize)
    ensures
        s.push(e).contains(x) <==> (s.contains(x) || x == e),
{
    assert(s.push(e)[s.len() as int] == e);
    if s.contains(x) {
        let i = choose|i: int| 0 <= i < s.len() && s[i] == x;
        assert(s.push(e)[i] == x);
    }
    if s.push(e).contains(x) && x != e {
        let i = choose|i: int| 0 <= i < s.push(e).len() && s.push(e)[i] == x;
        assert(s[i] == x);
    }
}

fn tokens_contain(v: &Vec<usize>, x: usize) -> (r: bool)
    ensures
        r == v@.contains(x),
{
    let n: usize = v.len();
    let mut i: usize = 0;
    while i < n
        invariant
            i <= n,
            n == v@.len(),
            forall|j: int| 0 <= j < i ==> v@[j] != x,
        decreases n - i,
    {
        if v[i] == x {
            return true;
        }
        i = i + 1;
    }
    false
}

/// The per-connection states of one single-threaded multiplexer, indexed by
/// dense token.
pub struct Multiplexer {
    states: Vec<ConnState>,
}

impl Multiplexer {
    /// The state of every registered connection, by token.
    pub closed spec fn spec_states(self) -> Seq<ConnState> {
        self.states@
    }

    /// A multiplexer with no connections registered.
    pub fn new() -> (r: Self)
        ensures
            r.spec_states().len() == 0,
    {
        Multiplexer { states: Vec::new() }
    }

    /// How many connections have been registered.
    pub fn connection_count(&self) -> (r: usize)
        ensures
            r == self.spec_states().len(),
    {
        self.states.len()
    }

    /// Registers one connection and returns its token: the next dense index.
    /// The connection starts out connecting.
    pub fn register(&mut self) -> (token: usize)
        ensures
            token == old(self).spec_states().len(),
            final(self).spec_states() == old(self).spec_states().push(ConnState::Connecting),
    {
        let token: usize = self.states.len();
        self.states.push(ConnState::Connecting);
        token
    }

    /// The state of the connection a token names.
    pub fn state_of(&self, token: usize) -> (r: ConnState)
        requires
            token < self.spec_states().len(),
        ensures
            r == self.spec_states()[token as int],
    {
        self.states[token]
    }

    /// Steps one connection's life cycle by an event it alone observed; no
    /// other connection's state is touched.
    pub fn apply_event(&mut self, token: usize, e: ConnEvent)
        requires
            token < old(self).spec_states().len(),
        ensures
            final(self).spec_states() == old(self).spec_states().update(
                token as int,
                spec_next_state(old(self).spec_states()[token as int], e),
            ),
    {
        let next = next_state(self.states[token], e);
        self.states.set(token, next);
    }

    /// Turns one wait result into a dispatch plan.
    ///
    /// Law: the plan serves a token exactly once if and only if the wait
    /// reported it ready and it names a registered, still-open connection —
    /// none skipped, none double-invoked, even if the wait reported a token
    /// more than once.
    pub fn plan_cycle(&self, ready: &Vec<usize>) -> (plan: Vec<usize>)
        ensures
            forall|t: usize|
                #[trigger] plan@.contains(t) <==> (ready@.contains(t) && t
                    < self.spec_states().len() && self.spec_states()[t as int]
                    != ConnState::Closed),
            forall|i: int, j: int| 0 <= i < j < plan@.len() ==> plan@[i] != plan@[j],
    {
        let n: usize = ready.len();
        let mut plan: Vec<usize> = Vec::new();
        let mut k: usize = 0;
        while k < n
            invariant
                k <= n,
                n == ready@.len(),
                forall|t: usize|
                    #[trigger] plan@.contains(t) <==> (ready@.take(k as int).contains(t) && t
                        < self.spec_states().len() && self.spec_states()[t as int]
                        != ConnState::Closed),
                forall|i: int, j: int| 0 <= i < j < plan@.len() ==> plan@[i] != plan@[j],
            decreases n - k,
        {
            let t: usize = ready[k];
            let registered_open: bool = t < self.states.len() && !matches!(
                self.states[t],
                ConnState::Closed,
            );
            let ghost taken = ready@.take(k as int);
            proof {
                assert(ready@.take(k + 1 as int) =~= taken.push(ready@[k as int]));
            }
            if registered_open && !tokens_contain(&plan, t) {
                let ghost before = plan@;
                proof {
                    assert(forall|i: int| 0 <= i < before.len() ==> before[i] != t);
                }
                plan.push(t);
                proof {
                    assert forall|x: usize|
                        #[trigger] plan@.contains(x) <==> (ready@.take(k + 1 as int).contains(x)
                            && x < self.spec_states().len() && self.spec_states()[x as int]
                            != ConnState::Closed) by {
                        lemma_push_contains(before, t, x);
                        lemma_push_contains(taken, t, x);
                    }
                }
            } else {
                proof {
                    assert forall|x: usize|
                        #[trigger] plan@.contains(x) <==> (ready@.take(k + 1 as int).contains(x)
                            && x < self.spec_states().len() && self.spec_states()[x as int]
                            != ConnState::Closed) by {
                        lemma_push_contains(taken, t, x);
                    }
                }
            }
            k = k + 1;
        }
        proof {
            assert(ready@.take(n as int) =~= ready@);
        }
        plan
    }
}

} // verus!

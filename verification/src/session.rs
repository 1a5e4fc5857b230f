//! Single-host ping session: a state machine that sends one echo
//! request and polls a shared raw socket until the one reply carrying
//! its own correlation token arrives, a deadline passes, or the
//! transport fails. The socket work itself is the caller's; the
//! machine only decides.

use vstd::prelude::*;

use crate::icmp::ICMP_HEADER_SIZE;
use crate::icmp::IcmpV4;
use crate::icmp::EchoRequest;
use crate::icmp::EchoReply;
use crate::icmp::encoded_request;

verus! {

/// Length in bytes of the random correlation token carried as the
/// echo payload.
pub const TOKEN_SIZE: usize = 24;

/// Size of the buffer an encoded echo request occupies: header plus
/// token.
pub const ECHO_REQUEST_BUFFER_SIZE: usize = ICMP_HEADER_SIZE + TOKEN_SIZE;

/// Identifier written into every request; the token, not this field,
/// correlates replies.
pub const REQUEST_IDENT: u16 = 1;

/// Sequence counter written into every request.
pub const REQUEST_SEQ: u16 = 1;

/// How a session can fail. Decode failures never appear here: they
/// are absorbed by the polling loop.
#[derive(Debug)]
pub enum SessionError {
    /// Encoding the request did not fit its buffer; defensive, since
    /// the session sizes its buffer exactly.
    Internal,
    /// The socket could not be opened, configured, written or read.
    Transport(String),
    /// The outer deadline passed with no matching reply.
    Timeout,
}

/// The phases of one probe.
#[derive(Clone, Copy, Debug, PartialEq, Eq, Structural)]
pub enum SessionState {
    Idle,
    Sent,
    Polling,
    Matched,
    TimedOut,
    TransportFailed,
}

/// What one bounded socket read produced, handed back to the machine
/// by the caller that performs the I/O.
#[derive(Debug)]
pub enum PollEvent {
    /// The read returned these bytes; any ICMP traffic on the socket
    /// may appear here.
    Received(Vec<u8>),
    /// The read hit its own short timeout: expected, and only a cue
    /// to recheck the deadline.
    ReadTimedOut,
    /// The read failed for real; the message describes the failure.
    ReadFailed(String),
}

/// Whether the bytes decode as an echo reply: long enough for the
/// header and carrying the echo-reply type and code.
pub open spec fn decodable_reply(bytes: Seq<u8>) -> bool {
    &&& bytes.len() >= ICMP_HEADER_SIZE
    &&& bytes[0] == IcmpV4::ECHO_REPLY_TYPE
    &&& bytes[1] == IcmpV4::ECHO_REPLY_CODE
}

/// Whether the bytes are the reply this session is waiting for: an
/// echo reply whose payload equals the token, byte for byte and in
/// length.
pub open spec fn matching_reply(token: Seq<u8>, bytes: Seq<u8>) -> bool {
    &&& decodable_reply(bytes)
    &&& bytes.skip(ICMP_HEADER_SIZE as int) == token
}

/// The state one polling step moves to: a matching reply wins
/// immediately; otherwise a passed deadline times the session out; a
/// failed read is fatal; anything else keeps polling.
pub open spec fn step(token: Seq<u8>, timeout_ms: u64, event: PollEvent, elapsed_ms: u64) -> SessionState {
    match event {
        PollEvent::Received(bytes) => {
            if matching_reply(token, bytes@) {
                SessionState::Matched
            } else if elapsed_ms >= timeout_ms {
                SessionState::TimedOut
            } else {
                SessionState::Polling
            }
        },
        PollEvent::ReadTimedOut => {
            if elapsed_ms >= timeout_ms {
                SessionState::TimedOut
            } else {
                SessionState::Polling
            }
        },
        PollEvent::ReadFailed(_) => SessionState::TransportFailed,
    }
}

/// Where the machine stands after feeding it the given events in
/// order, each with the elapsed time observed at that step; terminal
/// states absorb whatever follows.
pub open spec fn run_from(
    token: Seq<u8>,
    timeout_ms: u64,
    state: SessionState,
    events: Seq<(PollEvent, u64)>,
) -> SessionState
    decreases events.len(),
{
    if events.len() == 0 {
        state
    } else if !(state is Polling) {
        state
    } else {
        run_from(token, timeout_ms, step(token, timeout_ms, events[0].0, events[0].1), events.skip(1))
    }
}

/// Whether two byte slices hold the same bytes.
pub fn bytes_equal(a: &[u8], b: &[u8]) -> (r: bool)
    ensures
        r == (a@ == b@),
{
    if a.len() != b.len() {
        return false;
    }
    let mut i: usize = 0;
    while i < a.len()
        invariant
            a@.len() == b@.len(),
            0 <= i <= a@.len(),
            forall|j: int| 0 <= j < i ==> a@[j] == b@[j],
        decreases a@.len() - i,
    {
        if a[i] != b[i] {
            return false;
        }
        i = i + 1;
    }
    proof {
        assert(a@ =~= b@);
    }
    true
}

/// One host's probe: the correlation token, the outer deadline in
/// milliseconds, and the current phase.
pub struct PingSession {
    pub token: Vec<u8>,
    pub timeout_ms: u64,
    pub state: SessionState,
}

/// Relies on rand::random for a byte array: a fresh pseudo-random
/// correlation token. Its value depends on the generator's state, so
/// nothing is promised of it beyond its length.
#[verifier::external_body]
fn random_token() -> (r: Vec<u8>)
    ensures
        r@.len() == TOKEN_SIZE,
{
    let token: [u8; TOKEN_SIZE] = rand::random();
    token.to_vec()
}

impl PingSession {
    /// The token has the fixed length every request and expected
    /// reply share.
    pub open spec fn wf(self) -> bool {
        self.token@.len() == TOKEN_SIZE
    }

    /// The wire bytes this session's request encodes to.
    pub open spec fn request_view(self) -> Seq<u8> {
        encoded_request(REQUEST_IDENT, REQUEST_SEQ, self.token@, Seq::<u8>::empty())
    }

    /// Begins a session in `Idle` with a fresh random correlation
    /// token and the given outer deadline. Sessions running at the
    /// same time are told apart by this token alone.
    pub fn new(timeout_ms: u64) -> (s: Self)
        ensures
            s.wf(),
            s.state is Idle,
            s.timeout_ms == timeout_ms,
    {
        PingSession::with_token(random_token(), timeout_ms)
    }

    /// Begins a session in `Idle` with the given correlation token
    /// and outer deadline.
    pub fn with_token(token: Vec<u8>, timeout_ms: u64) -> (s: Self)
        requires
            token@.len() == TOKEN_SIZE,
        ensures
            s.wf(),
            s.state is Idle,
            s.token@ == token@,
            s.timeout_ms == timeout_ms,
    {
        PingSession { token, timeout_ms, state: SessionState::Idle }
    }

    /// Encodes this session's echo request and moves to `Sent`. The
    /// buffer is sized exactly for header and token, so encoding
    /// cannot fail.
    pub fn start(&mut self) -> (r: Result<Vec<u8>, SessionError>)
        requires
            old(self).wf(),
            old(self).state is Idle,
        ensures
            final(self).wf(),
            final(self).token@ == old(self).token@,
            final(self).timeout_ms == old(self).timeout_ms,
            final(self).state is Sent,
            r matches Ok(buf) && buf@ == old(self).request_view(),
    {
        let mut buffer: Vec<u8> = Vec::new();
        let mut k: usize = 0;
        while k < ECHO_REQUEST_BUFFER_SIZE
            invariant
                0 <= k <= ECHO_REQUEST_BUFFER_SIZE,
                buffer@.len() == k,
            decreases ECHO_REQUEST_BUFFER_SIZE - k,
        {
            buffer.push(0u8);
            k = k + 1;
        }
        let ghost b0 = buffer@;
        let request = EchoRequest {
            ident: REQUEST_IDENT,
            seq_cnt: REQUEST_SEQ,
            payload: self.token.as_slice(),
        };
        let res = request.encode(buffer.as_mut_slice());
        proof {
            assert(res is Ok);
            assert(b0.skip((ICMP_HEADER_SIZE + TOKEN_SIZE) as int) =~= Seq::<u8>::empty());
        }
        self.state = SessionState::Sent;
        Ok(buffer)
    }

    /// Marks the request as on the wire: the session now polls
    /// against its deadline.
    pub fn begin_polling(&mut self)
        requires
            old(self).wf(),
            old(self).state is Sent,
        ensures
            final(self).wf(),
            final(self).token@ == old(self).token@,
            final(self).timeout_ms == old(self).timeout_ms,
            final(self).state is Polling,
    {
        self.state = SessionState::Polling;
    }

    /// Feeds the machine what one bounded read produced, together
    /// with the elapsed time since the probe began. Returns `None` to
    /// keep polling, or the session's final result: success on the
    /// matching reply, a timeout once the deadline has passed, a
    /// transport error on a failed read. Unrelated or malformed
    /// traffic never ends the session before the deadline.
    pub fn on_poll_event(&mut self, event: PollEvent, elapsed_ms: u64) -> (done: Option<
        Result<(), SessionError>,
    >)
        requires
            old(self).wf(),
            old(self).state is Polling,
        ensures
            final(self).wf(),
            final(self).token@ == old(self).token@,
            final(self).timeout_ms == old(self).timeout_ms,
            final(self).state == step(old(self).token@, old(self).timeout_ms, event, elapsed_ms),
            done is None <==> final(self).state is Polling,
            final(self).state is Matched ==> done == Some(Result::<(), SessionError>::Ok(())),
            final(self).state is TimedOut ==> (done matches Some(r) && r matches Err(e) && e is Timeout),
            final(self).state is TransportFailed ==> (event matches PollEvent::ReadFailed(m)
                && (done matches Some(r) && r matches Err(e) && e matches SessionError::Transport(d)
                && d@ == m@)),
    {
        match event {
            PollEvent::Received(bytes) => {
                let matched: bool = match EchoReply::decode(bytes.as_slice()) {
                    Ok(reply) => bytes_equal(reply.payload, self.token.as_slice()),
                    Err(_) => false,
                };
                if matched {
                    self.state = SessionState::Matched;
                    Some(Ok(()))
                } else if elapsed_ms >= self.timeout_ms {
                    self.state = SessionState::TimedOut;
                    Some(Err(SessionError::Timeout))
                } else {
                    None
                }
            },
            PollEvent::ReadTimedOut => {
                if elapsed_ms >= self.timeout_ms {
                    self.state = SessionState::TimedOut;
                    Some(Err(SessionError::Timeout))
                } else {
                    None
                }
            },
            PollEvent::ReadFailed(msg) => {
                self.state = SessionState::TransportFailed;
                Some(Err(SessionError::Transport(msg)))
            },
        }
    }
}

/// Law: a session's own request, echoed back with the type and code
/// overwritten by the echo-reply values as the network does, is a
/// matching reply for the session's token.
pub proof fn lemma_own_echo_matches(token: Seq<u8>)
    ensures
        ({
            let enc = encoded_request(REQUEST_IDENT, REQUEST_SEQ, token, Seq::<u8>::empty());
            let forced = enc.update(0, IcmpV4::ECHO_REPLY_TYPE).update(1, IcmpV4::ECHO_REPLY_CODE);
            matching_reply(token, forced)
        }),
{
    crate::icmp::lemma_encode_decode_symmetry(REQUEST_IDENT, REQUEST_SEQ, token);
}

/// Law: the outer deadline is authoritative. Once the elapsed time
/// has reached the timeout, any event at all moves the machine out of
/// `Polling`: a session never keeps waiting past its deadline.
pub proof fn lemma_deadline_is_final(token: Seq<u8>, timeout_ms: u64, event: PollEvent, elapsed_ms: u64)
    requires
        elapsed_ms >= timeout_ms,
    ensures
        !(step(token, timeout_ms, event, elapsed_ms) is Polling),
{
}

/// Law: a session cannot hang. Feed a polling session any sequence of
/// events in which at least one read was observed at or past the
/// deadline: the run ends in a decided state, never still polling.
/// With reads bounded by the inner poll timeout, such an event always
/// comes, so a session ends by the deadline plus one poll interval.
pub proof fn lemma_no_polling_past_deadline(
    token: Seq<u8>,
    timeout_ms: u64,
    events: Seq<(PollEvent, u64)>,
)
    requires
        exists|i: int| 0 <= i < events.len() && (#[trigger] events[i]).1 >= timeout_ms,
    ensures
        !(run_from(token, timeout_ms, SessionState::Polling, events) is Polling),
    decreases events.len(),
{
    let i = choose|i: int| 0 <= i < events.len() && (#[trigger] events[i]).1 >= timeout_ms;
    let next = step(token, timeout_ms, events[0].0, events[0].1);
    assert(events.len() > 0);
    assert(run_from(token, timeout_ms, SessionState::Polling, events)
        == run_from(token, timeout_ms, next, events.skip(1)));
    if next is Polling {
        if events[0].1 >= timeout_ms {
            lemma_deadline_is_final(token, timeout_ms, events[0].0, events[0].1);
        }
        assert(next == SessionState::Polling);
        assert(i >= 1);
        assert(events.skip(1)[i - 1] == events[i]);
        lemma_no_polling_past_deadline(token, timeout_ms, events.skip(1));
    } else {
        assert(run_from(token, timeout_ms, next, events.skip(1)) == next);
    }
}

/// Law: unrelated traffic is tolerated. A polling session fed any
/// number of decodable echo replies whose payloads differ from its
/// token, each before the deadline, and then one reply carrying the
/// matching token, ends in `Matched`.
pub proof fn lemma_unrelated_traffic_tolerance(
    token: Seq<u8>,
    timeout_ms: u64,
    noise: Seq<(PollEvent, u64)>,
    last: (PollEvent, u64),
)
    requires
        forall|i: int| #![trigger noise[i]] 0 <= i < noise.len() ==> {
            &&& noise[i].1 < timeout_ms
            &&& noise[i].0 matches PollEvent::Received(b)
            &&& decodable_reply(noise[i].0->Received_0@)
            &&& noise[i].0->Received_0@.skip(ICMP_HEADER_SIZE as int) != token
        },
        last.0 matches PollEvent::Received(lb) && matching_reply(token, lb@),
    ensures
        run_from(token, timeout_ms, SessionState::Polling, noise.push(last)) is Matched,
    decreases noise.len(),
{
    let events = noise.push(last);
    assert(events.len() == noise.len() + 1);
    assert(run_from(token, timeout_ms, SessionState::Polling, events)
        == run_from(token, timeout_ms, step(token, timeout_ms, events[0].0, events[0].1), events.skip(1)));
    if noise.len() == 0 {
        assert(events[0] == last);
        assert(step(token, timeout_ms, events[0].0, events[0].1) is Matched);
        assert(events.skip(1) =~= Seq::<(PollEvent, u64)>::empty());
        assert(run_from(token, timeout_ms, SessionState::Matched, events.skip(1)) is Matched);
    } else {
        let head = noise[0];
        assert(events[0] == head);
        assert(!matching_reply(token, head.0->Received_0@));
        assert(step(token, timeout_ms, events[0].0, events[0].1) is Polling);
        assert(events.skip(1) =~= noise.skip(1).push(last));
        assert(forall|i: int| #![trigger noise.skip(1)[i]] 0 <= i < noise.skip(1).len()
            ==> noise.skip(1)[i] == noise[i + 1]);
        lemma_unrelated_traffic_tolerance(token, timeout_ms, noise.skip(1), last);
        assert(run_from(token, timeout_ms, SessionState::Polling, noise.skip(1).push(last)) is Matched);
    }
}

} // verus!

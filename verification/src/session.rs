use vstd::prelude::*;

use crate::security::Security;
use crate::security::spec_after_check;
use crate::security::spec_is_locked;
use crate::spirit::Decision;
use crate::spirit::DenyReason;
use crate::spirit::Spirit;
use crate::spirit::spec_decide;
use crate::spirit::spec_map_after_decide;
use crate::store::CredentialRecord;
use crate::store::StoreError;

verus! {

/// The life cycle of one proxied connection. A denial jumps straight to
/// `Closed`: the connection is not kept alive for a retry.
#[derive(Clone, Copy, PartialEq, Eq, Structural, Debug)]
pub enum Phase {
    Connecting,
    AwaitingCredentials,
    Authenticating,
    Authenticated,
    Relaying,
    Closed,
}

/// What a client presents when it connects.
pub struct Credentials {
    pub username: String,
    pub password: String,
    pub ip: String,
}

/// One event of an upstream result stream: a data row, the completion of a
/// command, or a query-level error the upstream reported.
pub enum ResultEvent {
    Row(Vec<u8>),
    CommandComplete(String),
    QueryError(String),
}

/// One protocol message owed to the client.
pub enum ClientMessage {
    DataRow(Vec<u8>),
    CommandComplete(String),
    ErrorResponse(String),
}

/// What the session asks its driver (the I/O loop around it) to do next.
pub enum SessionAction {
    /// Nothing to send; await the next event.
    Wait,
    /// Ask the trust store for this username's record.
    LookupCredentials(String),
    /// Send the uniform denial text, then close the connection.
    SendDenialAndClose(String),
    /// Send the generic internal-failure text, then close the connection.
    SendFailureAndClose(String),
    /// Open an upstream session for this connection.
    OpenUpstream,
    /// Forward this query verbatim to the upstream session.
    ForwardQuery(String),
    /// Send this message to the client.
    SendToClient(ClientMessage),
    /// Release the upstream session, then close the transport.
    ReleaseUpstream,
    /// Close the transport; no upstream session is held.
    CloseTransport,
}

/// What the driver observed: a message from the client, an outcome of work
/// the session asked for, or a transport event.
pub enum SessionEvent {
    HandshakeComplete,
    CredentialsPresented(Credentials),
    LookupCompleted(Result<Option<CredentialRecord>, StoreError>),
    UpstreamOpened,
    UpstreamOpenFailed,
    QueryReceived(String),
    UpstreamResult(ResultEvent),
    UpstreamIoError,
    UpstreamClosed,
    ClientClosed,
}

/// The single outward denial text: identical for every denial cause, so a
/// response reveals nothing about which check failed.
pub open spec fn denial_text() -> Seq<char> {
    "Access denied."@
}

/// The generic notice for an internal fault; it carries no internal detail.
pub open spec fn failure_text() -> Seq<char> {
    "Internal error."@
}

/// The uniform denial response: the same bytes whatever the reason was.
pub fn denial_response(reason: &DenyReason) -> (r: String)
    ensures
        r@ == denial_text(),
{
    match reason {
        DenyReason::RateLimited => String::from_str("Access denied."),
        DenyReason::InvalidUsername => String::from_str("Access denied."),
        DenyReason::InvalidCredentialOrIp => String::from_str("Access denied."),
    }
}

/// The generic internal-failure response sent for a store or upstream fault.
pub fn failure_response() -> (r: String)
    ensures
        r@ == failure_text(),
{
    String::from_str("Internal error.")
}

/// The forwarding rule for one upstream result event: each event kind maps
/// to its client message, contents unchanged.
pub open spec fn spec_translate(e: ResultEvent) -> ClientMessage {
    match e {
        ResultEvent::Row(b) => ClientMessage::DataRow(b),
        ResultEvent::CommandComplete(t) => ClientMessage::CommandComplete(t),
        ResultEvent::QueryError(t) => ClientMessage::ErrorResponse(t),
    }
}

/// A whole result stream, translated in arrival order.
pub open spec fn spec_translated(s: Seq<ResultEvent>) -> Seq<ClientMessage>
    decreases s.len(),
{
    if s.len() == 0 {
        Seq::empty()
    } else {
        seq![spec_translate(s[0])] + spec_translated(s.drop_first())
    }
}

/// Translation is one-to-one and in order: message i of the translated
/// stream is exactly the translation of event i.
pub proof fn lemma_translated_pointwise(s: Seq<ResultEvent>)
    ensures
        spec_translated(s).len() == s.len(),
        forall|i: int| 0 <= i < s.len() ==> spec_translated(s)[i] == spec_translate(s[i]),
    decreases s.len(),
{
    if s.len() > 0 {
        lemma_translated_pointwise(s.drop_first());
    }
}

/// The relay-order law: the result stream of one query is relayed in full
/// before any event of the next query's stream, because translating the
/// concatenation of the two streams yields the translations of the first
/// followed by the translations of the second.
pub proof fn lemma_relay_preserves_order(q1: Seq<ResultEvent>, q2: Seq<ResultEvent>)
    ensures
        spec_translated(q1 + q2) == spec_translated(q1) + spec_translated(q2),
    decreases q1.len(),
{
    if q1.len() == 0 {
        assert(q1 + q2 =~= q2);
        assert(spec_translated(q1) + spec_translated(q2) =~= spec_translated(q2));
    } else {
        lemma_relay_preserves_order(q1.drop_first(), q2);
        assert((q1 + q2).drop_first() =~= q1.drop_first() + q2);
        assert((q1 + q2)[0] == q1[0]);
        assert(seq![spec_translate(q1[0])] + (spec_translated(q1.drop_first()) + spec_translated(
            q2,
        )) =~= (seq![spec_translate(q1[0])] + spec_translated(q1.drop_first())) + spec_translated(
            q2,
        ));
    }
}

/// Translate one upstream result event into the client message owed for it.
pub fn translate_event(e: ResultEvent) -> (m: ClientMessage)
    ensures
        m == spec_translate(e),
{
    match e {
        ResultEvent::Row(b) => ClientMessage::DataRow(b),
        ResultEvent::CommandComplete(t) => ClientMessage::CommandComplete(t),
        ResultEvent::QueryError(t) => ClientMessage::ErrorResponse(t),
    }
}

/// Relay a finite result stream in arrival order: every event is forwarded,
/// none is reordered, dropped or invented.
pub fn relay_events(events: Vec<ResultEvent>) -> (out: Vec<ClientMessage>)
    ensures
        out@ == spec_translated(events@),
{
    let ghost all = events@;
    let mut events = events;
    let mut out: Vec<ClientMessage> = Vec::new();
    proof {
        assert(out@ + spec_translated(events@) =~= spec_translated(all));
    }
    while events.len() > 0
        invariant
            spec_translated(all) == out@ + spec_translated(events@),
        decreases events.len(),
    {
        let ghost pre = events@;
        let e = events.remove(0);
        proof {
            assert(pre.remove(0) =~= pre.drop_first());
            assert(spec_translated(pre) == seq![spec_translate(pre[0])] + spec_translated(
                pre.drop_first(),
            ));
        }
        let m = translate_event(e);
        out.push(m);
        proof {
            assert(out@ + spec_translated(events@) =~= spec_translated(all));
        }
    }
    proof {
        assert(out@ + spec_translated(events@) =~= out@);
    }
    out
}

/// One proxied connection: its phase, whether its authentication gate has
/// passed, whether it holds an upstream session, and the credentials held
/// between the rate gate and the store lookup.
pub struct Session {
    pub phase: Phase,
    pub authenticated: bool,
    pub upstream_open: bool,
    pub pending: Option<Credentials>,
}

/// A transition on an event the current phase does not expect: the protocol
/// was violated, so the connection is torn down at once and nothing is
/// recorded against any username.
pub open spec fn violation_post(
    post: Session,
    m0: Map<Seq<char>, (u32, u64)>,
    m1: Map<Seq<char>, (u32, u64)>,
    a: SessionAction,
) -> bool {
    &&& post.phase == Phase::Closed
    &&& !post.upstream_open
    &&& m1 == m0
    &&& a == SessionAction::CloseTransport
}

/// The full transition table of one session step: for every phase and event,
/// the next session state, the attempt map afterwards, and the action owed
/// to the driver.
pub open spec fn step_post(
    pre: Session,
    post: Session,
    m0: Map<Seq<char>, (u32, u64)>,
    m1: Map<Seq<char>, (u32, u64)>,
    max_attempts: u32,
    lockout_duration: u64,
    event: SessionEvent,
    now: u64,
    a: SessionAction,
) -> bool {
    match event {
        SessionEvent::ClientClosed => {
            // The client went away: terminal, the upstream session is
            // released at once, and nothing is recorded against anyone.
            &&& post.phase == Phase::Closed
            &&& !post.upstream_open
            &&& m1 == m0
            &&& a == (if pre.upstream_open {
                SessionAction::ReleaseUpstream
            } else {
                SessionAction::CloseTransport
            })
        },
        SessionEvent::HandshakeComplete => {
            if pre.phase == Phase::Connecting {
                &&& post.phase == Phase::AwaitingCredentials
                &&& !post.authenticated
                &&& !post.upstream_open
                &&& m1 == m0
                &&& a == SessionAction::Wait
            } else {
                violation_post(post, m0, m1, a)
            }
        },
        SessionEvent::CredentialsPresented(c) => {
            if pre.phase == Phase::AwaitingCredentials {
                if spec_is_locked(m0, c.username@, max_attempts, lockout_duration, now) {
                    // Denied before any lookup: a locked-out username costs
                    // the store nothing and the response reveals nothing.
                    &&& post.phase == Phase::Closed
                    &&& !post.authenticated
                    &&& !post.upstream_open
                    &&& m1 == m0
                    &&& a matches SessionAction::SendDenialAndClose(msg) && msg@ == denial_text()
                } else {
                    &&& post.phase == Phase::Authenticating
                    &&& !post.authenticated
                    &&& !post.upstream_open
                    &&& post.pending == Some(c)
                    &&& m1 == spec_after_check(m0, c.username@, max_attempts, lockout_duration, now)
                    &&& a matches SessionAction::LookupCredentials(u) && u == c.username
                }
            } else {
                violation_post(post, m0, m1, a)
            }
        },
        SessionEvent::LookupCompleted(res) => {
            if pre.phase == Phase::Authenticating {
                match (pre.pending, res) {
                    (Some(c), Err(_)) => {
                        // Store fault: a generic internal failure, never a
                        // denial, and no failure is recorded.
                        &&& post.phase == Phase::Closed
                        &&& !post.authenticated
                        &&& !post.upstream_open
                        &&& m1 == m0
                        &&& a matches SessionAction::SendFailureAndClose(msg) && msg@
                            == failure_text()
                    },
                    (Some(c), Ok(l)) => {
                        if spec_decide(l, c.password@, c.ip@) == Decision::Allowed {
                            &&& post.phase == Phase::Authenticated
                            &&& post.authenticated
                            &&& !post.upstream_open
                            &&& m1 == m0
                            &&& a == SessionAction::OpenUpstream
                        } else {
                            &&& post.phase == Phase::Closed
                            &&& !post.authenticated
                            &&& !post.upstream_open
                            &&& m1 == spec_map_after_decide(
                                m0,
                                l,
                                c.username@,
                                c.password@,
                                c.ip@,
                                now,
                            )
                            &&& a matches SessionAction::SendDenialAndClose(msg) && msg@
                                == denial_text()
                        }
                    },
                    (None, _) => true,  // excluded by the session invariant
                }
            } else {
                violation_post(post, m0, m1, a)
            }
        },
        SessionEvent::UpstreamOpened => {
            if pre.phase == Phase::Authenticated {
                &&& post.phase == Phase::Relaying
                &&& post.authenticated
                &&& post.upstream_open
                &&& m1 == m0
                &&& a == SessionAction::Wait
            } else {
                violation_post(post, m0, m1, a)
            }
        },
        SessionEvent::UpstreamOpenFailed => {
            if pre.phase == Phase::Authenticated {
                &&& post.phase == Phase::Closed
                &&& !post.upstream_open
                &&& m1 == m0
                &&& a matches SessionAction::SendFailureAndClose(msg) && msg@ == failure_text()
            } else {
                violation_post(post, m0, m1, a)
            }
        },
        SessionEvent::QueryReceived(q) => {
            if pre.phase == Phase::Relaying {
                // The steady state: the query goes upstream verbatim.
                &&& post.phase == Phase::Relaying
                &&& post.authenticated
                &&& post.upstream_open
                &&& m1 == m0
                &&& a matches SessionAction::ForwardQuery(f) && f == q
            } else {
                violation_post(post, m0, m1, a)
            }
        },
        SessionEvent::UpstreamResult(ev) => {
            if pre.phase == Phase::Relaying {
                // Results stream back in the order received, untouched.
                &&& post.phase == Phase::Relaying
                &&& post.authenticated
                &&& post.upstream_open
                &&& m1 == m0
                &&& a matches SessionAction::SendToClient(msg) && msg == spec_translate(ev)
            } else {
                violation_post(post, m0, m1, a)
            }
        },
        SessionEvent::UpstreamIoError => {
            if pre.phase == Phase::Relaying {
                // Surfaced to the client as an error, never silently; the
                // session ends and the client must re-establish.
                &&& post.phase == Phase::Closed
                &&& !post.upstream_open
                &&& m1 == m0
                &&& a matches SessionAction::SendFailureAndClose(msg) && msg@ == failure_text()
            } else {
                violation_post(post, m0, m1, a)
            }
        },
        SessionEvent::UpstreamClosed => {
            if pre.phase == Phase::Relaying {
                &&& post.phase == Phase::Closed
                &&& !post.upstream_open
                &&& m1 == m0
                &&& a matches SessionAction::SendFailureAndClose(msg) && msg@ == failure_text()
            } else {
                violation_post(post, m0, m1, a)
            }
        },
    }
}

impl Session {
    /// The session invariant: an upstream session is held exactly while
    /// relaying, relaying happens only once authentication has succeeded,
    /// and credentials are held exactly while a lookup is outstanding.
    pub open spec fn wf(self) -> bool {
        &&& self.upstream_open <==> self.phase == Phase::Relaying
        &&& (self.phase == Phase::Authenticated || self.phase == Phase::Relaying)
            ==> self.authenticated
        &&& self.authenticated ==> (self.phase == Phase::Authenticated || self.phase
            == Phase::Relaying || self.phase == Phase::Closed)
        &&& (self.pending is Some) <==> self.phase == Phase::Authenticating
    }

    /// A fresh session for one accepted connection.
    pub fn new() -> (s: Session)
        ensures
            s.wf(),
            s.phase == Phase::Connecting,
            !s.authenticated,
            !s.upstream_open,
    {
        Session { phase: Phase::Connecting, authenticated: false, upstream_open: false, pending: None }
    }

    /// Tear the connection down after a protocol violation.
    fn close_on_violation(&mut self) -> (a: SessionAction)
        ensures
            final(self).phase == Phase::Closed,
            !final(self).upstream_open,
            final(self).pending is None,
            final(self).authenticated == old(self).authenticated,
            a == SessionAction::CloseTransport,
    {
        self.phase = Phase::Closed;
        self.upstream_open = false;
        self.pending = None;
        SessionAction::CloseTransport
    }

    /// One step of the session state machine: consume one event, update the
    /// session and the shared rate limiter, and owe the driver one action.
    /// The whole transition table is `step_post`.
    pub fn step(&mut self, security: &mut Security, event: SessionEvent, now: u64) -> (a:
        SessionAction)
        requires
            old(self).wf(),
            old(security).wf(),
        ensures
            final(self).wf(),
            final(security).wf(),
            final(security).spec_max_attempts() == old(security).spec_max_attempts(),
            final(security).spec_lockout_duration() == old(security).spec_lockout_duration(),
            step_post(
                *old(self),
                *final(self),
                old(security).attempts_map(),
                final(security).attempts_map(),
                old(security).spec_max_attempts(),
                old(security).spec_lockout_duration(),
                event,
                now,
                a,
            ),
    {
        match event {
            SessionEvent::ClientClosed => {
                let had_upstream = self.upstream_open;
                self.phase = Phase::Closed;
                self.upstream_open = false;
                self.pending = None;
                if had_upstream {
                    SessionAction::ReleaseUpstream
                } else {
                    SessionAction::CloseTransport
                }
            },
            SessionEvent::HandshakeComplete => {
                if self.phase == Phase::Connecting {
                    self.phase = Phase::AwaitingCredentials;
                    SessionAction::Wait
                } else {
                    self.close_on_violation()
                }
            },
            SessionEvent::CredentialsPresented(c) => {
                if self.phase == Phase::AwaitingCredentials {
                    if security.is_rate_limited(&c.username, now) {
                        self.phase = Phase::Closed;
                        SessionAction::SendDenialAndClose(
                            denial_response(&DenyReason::RateLimited),
                        )
                    } else {
                        let uname = c.username.clone();
                        self.phase = Phase::Authenticating;
                        self.pending = Some(c);
                        SessionAction::LookupCredentials(uname)
                    }
                } else {
                    self.close_on_violation()
                }
            },
            SessionEvent::LookupCompleted(res) => {
                if self.phase == Phase::Authenticating {
                    let taken = self.pending.take();
                    match taken {
                        Some(creds) => {
                            match Spirit::complete_authentication(
                                security,
                                &creds.username,
                                &creds.password,
                                &creds.ip,
                                res,
                                now,
                            ) {
                                Err(_) => {
                                    self.phase = Phase::Closed;
                                    SessionAction::SendFailureAndClose(failure_response())
                                },
                                Ok(Decision::Allowed) => {
                                    self.phase = Phase::Authenticated;
                                    self.authenticated = true;
                                    SessionAction::OpenUpstream
                                },
                                Ok(Decision::Denied(reason)) => {
                                    self.phase = Phase::Closed;
                                    SessionAction::SendDenialAndClose(denial_response(&reason))
                                },
                            }
                        },
                        None => {
                            proof {
                                assert(false);
                            }
                            self.close_on_violation()
                        },
                    }
                } else {
                    self.close_on_violation()
                }
            },
            SessionEvent::UpstreamOpened => {
                if self.phase == Phase::Authenticated {
                    self.phase = Phase::Relaying;
                    self.upstream_open = true;
                    SessionAction::Wait
                } else {
                    self.close_on_violation()
                }
            },
            SessionEvent::UpstreamOpenFailed => {
                if self.phase == Phase::Authenticated {
                    self.phase = Phase::Closed;
                    SessionAction::SendFailureAndClose(failure_response())
                } else {
                    self.close_on_violation()
                }
            },
            SessionEvent::QueryReceived(q) => {
                if self.phase == Phase::Relaying {
                    SessionAction::ForwardQuery(q)
                } else {
                    self.close_on_violation()
                }
            },
            SessionEvent::UpstreamResult(ev) => {
                if self.phase == Phase::Relaying {
                    SessionAction::SendToClient(translate_event(ev))
                } else {
                    self.close_on_violation()
                }
            },
            SessionEvent::UpstreamIoError => {
                if self.phase == Phase::Relaying {
                    self.phase = Phase::Closed;
                    self.upstream_open = false;
                    SessionAction::SendFailureAndClose(failure_response())
                } else {
                    self.close_on_violation()
                }
            },
            SessionEvent::UpstreamClosed => {
                if self.phase == Phase::Relaying {
                    self.phase = Phase::Closed;
                    self.upstream_open = false;
                    SessionAction::SendFailureAndClose(failure_response())
                } else {
                    self.close_on_violation()
                }
            },
        }
    }
}

/// The no-leak law: whatever state a well-formed session is in, one step on
/// the client's disconnect leaves it closed with no upstream session held.
pub proof fn lemma_client_close_releases_upstream(
    pre: Session,
    post: Session,
    m0: Map<Seq<char>, (u32, u64)>,
    m1: Map<Seq<char>, (u32, u64)>,
    max_attempts: u32,
    lockout_duration: u64,
    now: u64,
    a: SessionAction,
)
    requires
        pre.wf(),
        step_post(pre, post, m0, m1, max_attempts, lockout_duration, SessionEvent::ClientClosed, now, a),
    ensures
        post.phase == Phase::Closed,
        !post.upstream_open,
        pre.upstream_open ==> a == SessionAction::ReleaseUpstream,
        m1 == m0,
{
}

} // verus!

//! The session negotiation state machine: `New` to `Negotiating` to
//! `Authenticating` to `Established`, with terminal `Finished` and `Failed`
//! reachable from any pre-established state. No message, notification or
//! command is accepted before `Established`.

use crate::envelope::{
    opt_str_v, strs_v, Envelope, EnvelopeV, ProtocolError, SessionState,
};
use crate::value::str_eq;
use vstd::prelude::*;

verus! {

/// What the connection's driver must do after a negotiation step.
#[derive(Debug)]
pub enum NegotiationAction {
    /// Send the peer the available option lists.
    SendOffer,
    /// Selection accepted; the next envelope must carry credentials.
    AwaitCredentials,
    /// Ask the credential store about this identity and scheme material.
    CheckCredentials { node: String, scheme: String },
    /// The peer ended the session; deregister and close cleanly.
    CloseFinished,
    /// Protocol failure: report the reason to the peer and close without
    /// registering.
    Reject(ProtocolError),
}

#[verifier::ext_equal]
pub enum ActionV {
    SendOffer,
    AwaitCredentials,
    CheckCredentials { node: Seq<char>, scheme: Seq<char> },
    CloseFinished,
    Reject(ProtocolError),
}

impl View for NegotiationAction {
    type V = ActionV;

    open spec fn view(&self) -> ActionV {
        match self {
            NegotiationAction::SendOffer => ActionV::SendOffer,
            NegotiationAction::AwaitCredentials => ActionV::AwaitCredentials,
            NegotiationAction::CheckCredentials { node, scheme } => ActionV::CheckCredentials {
                node: node@,
                scheme: scheme@,
            },
            NegotiationAction::CloseFinished => ActionV::CloseFinished,
            NegotiationAction::Reject(e) => ActionV::Reject(*e),
        }
    }
}

/// One connection's negotiation: its state, what the server offered, and the
/// identity being authenticated.
#[derive(Debug)]
pub struct Negotiation {
    pub state: SessionState,
    pub offered_encryption: Vec<String>,
    pub offered_compression: Vec<String>,
    pub offered_schemes: Vec<String>,
    /// Identity whose credentials are being checked.
    pub pending_node: Option<String>,
    /// Identity once established.
    pub node: Option<String>,
}

#[verifier::ext_equal]
pub struct NegotiationV {
    pub state: SessionState,
    pub offered_encryption: Seq<Seq<char>>,
    pub offered_compression: Seq<Seq<char>>,
    pub offered_schemes: Seq<Seq<char>>,
    pub pending_node: Option<Seq<char>>,
    pub node: Option<Seq<char>>,
}

impl View for Negotiation {
    type V = NegotiationV;

    open spec fn view(&self) -> NegotiationV {
        NegotiationV {
            state: self.state,
            offered_encryption: strs_v(self.offered_encryption),
            offered_compression: strs_v(self.offered_compression),
            offered_schemes: strs_v(self.offered_schemes),
            pending_node: opt_str_v(self.pending_node),
            node: opt_str_v(self.node),
        }
    }
}

/// A selection is valid when it is drawn from the offered list; making no
/// selection keeps the default.
pub open spec fn valid_choice(ch: Option<Seq<char>>, offered: Seq<Seq<char>>) -> bool {
    match ch {
        None => true,
        Some(x) => offered.contains(x),
    }
}

pub open spec fn pre_established(s: SessionState) -> bool {
    s == SessionState::New || s == SessionState::Negotiating || s
        == SessionState::Authenticating
}

/// The transition relation: one received envelope against the current state.
pub open spec fn spec_on_envelope(n: NegotiationV, e: EnvelopeV) -> (NegotiationV, ActionV) {
    if e matches EnvelopeV::SessionRequest(rq) && rq.state == SessionState::Finished {
        (NegotiationV { state: SessionState::Finished, ..n }, ActionV::CloseFinished)
    } else {
        match n.state {
            SessionState::New => match e {
                EnvelopeV::SessionRequest(_) => (
                    NegotiationV { state: SessionState::Negotiating, ..n },
                    ActionV::SendOffer,
                ),
                _ => (
                    NegotiationV { state: SessionState::Failed, ..n },
                    ActionV::Reject(ProtocolError::UnexpectedEnvelope),
                ),
            },
            SessionState::Negotiating => match e {
                EnvelopeV::SessionResponse(rs) => {
                    if valid_choice(rs.encryption, n.offered_encryption) && valid_choice(
                        rs.compression,
                        n.offered_compression,
                    ) && valid_choice(rs.scheme, n.offered_schemes) {
                        (
                            NegotiationV { state: SessionState::Authenticating, ..n },
                            ActionV::AwaitCredentials,
                        )
                    } else {
                        (
                            NegotiationV { state: SessionState::Failed, ..n },
                            ActionV::Reject(ProtocolError::InvalidOption),
                        )
                    }
                },
                _ => (
                    NegotiationV { state: SessionState::Failed, ..n },
                    ActionV::Reject(ProtocolError::UnexpectedEnvelope),
                ),
            },
            SessionState::Authenticating => match e {
                EnvelopeV::SessionResponse(rs) => match (rs.from, rs.scheme) {
                    (Some(nd), Some(sc)) => (
                        NegotiationV { pending_node: Some(nd), ..n },
                        ActionV::CheckCredentials { node: nd, scheme: sc },
                    ),
                    _ => (
                        NegotiationV { state: SessionState::Failed, ..n },
                        ActionV::Reject(ProtocolError::AuthenticationFailed),
                    ),
                },
                _ => (
                    NegotiationV { state: SessionState::Failed, ..n },
                    ActionV::Reject(ProtocolError::UnexpectedEnvelope),
                ),
            },
            _ => (n, ActionV::Reject(ProtocolError::UnexpectedEnvelope)),
        }
    }
}

fn contains_str(v: &Vec<String>, x: &String) -> (r: bool)
    ensures
        r == strs_v(*v).contains(x@),
{
    let mut i: usize = 0;
    while i < v.len()
        invariant
            i <= v@.len(),
            forall|j: int| 0 <= j < i ==> v@[j]@ != x@,
        decreases v.len() - i,
    {
        if str_eq(v[i].as_str(), x.as_str()) {
            proof {
                assert(strs_v(*v)[i as int] == x@);
            }
            return true;
        }
        i = i + 1;
    }
    proof {
        if strs_v(*v).contains(x@) {
            let j = choose|j: int| 0 <= j < strs_v(*v).len() && strs_v(*v)[j] == x@;
            assert(v@[j]@ == x@);
        }
    }
    false
}

fn choice_ok(ch: &Option<String>, offered: &Vec<String>) -> (r: bool)
    ensures
        r == valid_choice(opt_str_v(*ch), strs_v(*offered)),
{
    match ch {
        None => true,
        Some(x) => contains_str(offered, x),
    }
}

impl Negotiation {
    /// A fresh connection: state `New`, with the lists the server will offer.
    pub fn new(enc: Vec<String>, cmp: Vec<String>, sch: Vec<String>) -> (n: Self)
        ensures
            n@.state == SessionState::New,
            n@.offered_encryption == strs_v(enc),
            n@.offered_compression == strs_v(cmp),
            n@.offered_schemes == strs_v(sch),
            n@.pending_node is None,
            n@.node is None,
    {
        Negotiation {
            state: SessionState::New,
            offered_encryption: enc,
            offered_compression: cmp,
            offered_schemes: sch,
            pending_node: None,
            node: None,
        }
    }

    /// Drives one received envelope through the machine. Only called before
    /// the session is established; afterwards envelopes are routed instead.
    pub fn on_envelope(&mut self, env: &Envelope) -> (act: NegotiationAction)
        requires
            pre_established(old(self)@.state),
        ensures
            (final(self)@, act@) == spec_on_envelope(old(self)@, env@),
    {
        if let Envelope::SessionRequest(rq) = env {
            if matches!(rq.state, SessionState::Finished) {
                self.state = SessionState::Finished;
                return NegotiationAction::CloseFinished;
            }
        }
        match self.state {
            SessionState::New => match env {
                Envelope::SessionRequest(_) => {
                    self.state = SessionState::Negotiating;
                    NegotiationAction::SendOffer
                },
                _ => {
                    self.state = SessionState::Failed;
                    NegotiationAction::Reject(ProtocolError::UnexpectedEnvelope)
                },
            },
            SessionState::Negotiating => match env {
                Envelope::SessionResponse(rs) => {
                    let enc_ok = choice_ok(&rs.encryption, &self.offered_encryption);
                    let cmp_ok = choice_ok(&rs.compression, &self.offered_compression);
                    let sch_ok = choice_ok(&rs.scheme, &self.offered_schemes);
                    if enc_ok && cmp_ok && sch_ok {
                        self.state = SessionState::Authenticating;
                        NegotiationAction::AwaitCredentials
                    } else {
                        self.state = SessionState::Failed;
                        NegotiationAction::Reject(ProtocolError::InvalidOption)
                    }
                },
                _ => {
                    self.state = SessionState::Failed;
                    NegotiationAction::Reject(ProtocolError::UnexpectedEnvelope)
                },
            },
            _ => match env {
                Envelope::SessionResponse(rs) => match (&rs.from, &rs.scheme) {
                    (Some(nd), Some(sc)) => {
                        let node = nd.clone();
                        let scheme = sc.clone();
                        self.pending_node = Some(node.clone());
                        NegotiationAction::CheckCredentials { node, scheme }
                    },
                    _ => {
                        self.state = SessionState::Failed;
                        NegotiationAction::Reject(ProtocolError::AuthenticationFailed)
                    },
                },
                _ => {
                    self.state = SessionState::Failed;
                    NegotiationAction::Reject(ProtocolError::UnexpectedEnvelope)
                },
            },
        }
    }

    /// Feeds back the credential store's verdict. On success the connection
    /// is established under the checked identity, which the caller must
    /// register in the routing table; on refusal the negotiation fails.
    pub fn on_auth_result(&mut self, ok: bool) -> (r: Option<String>)
        requires
            old(self)@.state == SessionState::Authenticating,
            old(self)@.pending_node is Some,
        ensures
            ok ==> final(self)@ == (NegotiationV {
                state: SessionState::Established,
                node: old(self)@.pending_node,
                ..old(self)@
            }) && (r matches Some(nd) && Some(nd@) == old(self)@.pending_node),
            !ok ==> final(self)@ == (NegotiationV {
                state: SessionState::Failed,
                ..old(self)@
            }) && r is None,
    {
        if ok {
            self.state = SessionState::Established;
            let nd = match &self.pending_node {
                Some(s) => s.clone(),
                None => {
                    // unreachable under the precondition
                    String::new()
                },
            };
            self.node = Some(nd.clone());
            proof {
                assert(self@ =~= NegotiationV {
                    state: SessionState::Established,
                    node: old(self)@.pending_node,
                    ..old(self)@
                });
            }
            Some(nd)
        } else {
            self.state = SessionState::Failed;
            proof {
                assert(self@ =~= NegotiationV { state: SessionState::Failed, ..old(self)@ });
            }
            None
        }
    }
}

/// Negotiation safety: while a connection is in any pre-established state, a
/// message, notification or command is never accepted — the machine fails
/// the connection with `UnexpectedEnvelope`.
pub proof fn lemma_no_traffic_before_established(n: NegotiationV, e: EnvelopeV)
    requires
        pre_established(n.state),
        e matches EnvelopeV::Message(_) || e matches EnvelopeV::Notification(_) || (
        e matches EnvelopeV::Command(_)),
    ensures
        spec_on_envelope(n, e).0.state == SessionState::Failed,
        spec_on_envelope(n, e).1 == ActionV::Reject(ProtocolError::UnexpectedEnvelope),
{
}

/// An authentication attempt (any session response) received in state `New`,
/// before any session request, is rejected as `UnexpectedEnvelope` and the
/// connection fails.
pub proof fn lemma_auth_attempt_in_new_rejected(n: NegotiationV, e: EnvelopeV)
    requires
        n.state == SessionState::New,
        e matches EnvelopeV::SessionResponse(_),
    ensures
        spec_on_envelope(n, e).0.state == SessionState::Failed,
        spec_on_envelope(n, e).1 == ActionV::Reject(ProtocolError::UnexpectedEnvelope),
{
}

} // verus!

//! The guaranteed-delivery outbound sink and the shared routing table.
//!
//! Each connection's sink owns an ordered pending queue and a single-flight
//! guard: at most one write is in progress, and envelopes are handed to the
//! transport in enqueue order. The routing table maps node identity to its
//! sink; entries appear on successful authentication and are removed on
//! disconnect.

use crate::envelope::{
    spec_envelope_from, spec_envelope_id, spec_envelope_to, Envelope, EnvelopeV, NotificationEvent,
    NotificationV, EventV, Notification, Reason, ReasonV,
};
use crate::value::str_eq;
use vstd::prelude::*;
use vstd::seq_lib::*;

verus! {

/// Reason code reported to a sender whose destination is not registered.
pub const DESTINATION_UNKNOWN_CODE: u8 = 1;

pub open spec fn envs_v(q: Seq<Envelope>) -> Seq<EnvelopeV> {
    q.map_values(|e: Envelope| e@)
}

/// The outbound half of one connection: its pending envelopes and the
/// single-flight guard. What has been handed to the transport, in order, is
/// kept as the ghost history `handed`.
pub struct ClientSink {
    pub queue: Vec<Envelope>,
    pub in_flight: bool,
    pub handed: Ghost<Seq<EnvelopeV>>,
}

/// A sink's abstract state: (handed history, pending queue, write in flight).
pub type SinkM = (Seq<EnvelopeV>, Seq<EnvelopeV>, bool);

/// The two things that happen to a sink.
pub enum SinkOp {
    Enqueue(EnvelopeV),
    WriteDone,
}

/// One abstract step: enqueueing hands the envelope straight to the
/// transport when idle, else appends; a completed write starts the next
/// queued envelope, or goes idle.
pub open spec fn sink_step(m: SinkM, op: SinkOp) -> SinkM {
    match op {
        SinkOp::Enqueue(e) => if m.2 {
            (m.0, m.1.push(e), true)
        } else {
            (m.0.push(e), m.1, true)
        },
        SinkOp::WriteDone => if !m.2 {
            m
        } else if m.1.len() == 0 {
            (m.0, m.1, false)
        } else {
            (m.0.push(m.1[0]), m.1.subrange(1, m.1.len() as int), true)
        },
    }
}

pub open spec fn sink_run(m: SinkM, ops: Seq<SinkOp>) -> SinkM
    decreases ops.len(),
{
    if ops.len() == 0 {
        m
    } else {
        sink_run(sink_step(m, ops[0]), ops.subrange(1, ops.len() as int))
    }
}

impl ClientSink {
    /// With no write in flight nothing is pending: an idle sink starts a
    /// write the moment something is enqueued.
    pub open spec fn wf(&self) -> bool {
        !self.in_flight ==> self.queue@.len() == 0
    }

    pub open spec fn model(&self) -> SinkM {
        (self.handed@, envs_v(self.queue@), self.in_flight)
    }

    pub fn new() -> (s: Self)
        ensures
            s.wf(),
            s.model() == (Seq::<EnvelopeV>::empty(), Seq::<EnvelopeV>::empty(), false),
    {
        let s = ClientSink { queue: Vec::new(), in_flight: false, handed: Ghost(Seq::empty()) };
        proof {
            assert(envs_v(s.queue@) =~= Seq::<EnvelopeV>::empty());
        }
        s
    }

    /// Guaranteed delivery, in order: appends the envelope, and if no write
    /// is in flight hands it out to be written now.
    pub fn send_envelope(&mut self, env: Envelope) -> (w: Option<Envelope>)
        requires
            old(self).wf(),
        ensures
            final(self).wf(),
            final(self).model() == sink_step(old(self).model(), SinkOp::Enqueue(env@)),
            old(self).in_flight ==> w is None,
            !old(self).in_flight ==> w == Some(env),
    {
        if self.in_flight {
            let ghost qpre = self.queue@;
            let ghost ev = env@;
            self.queue.push(env);
            proof {
                assert(envs_v(self.queue@) =~= envs_v(qpre).push(ev));
            }
            None
        } else {
            self.in_flight = true;
            self.handed = Ghost(self.handed@.push(env@));
            Some(env)
        }
    }

    /// After one write completes, hands out the next queued envelope, or
    /// goes idle when nothing is pending.
    pub fn try_send_next(&mut self) -> (w: Option<Envelope>)
        requires
            old(self).wf(),
            old(self).in_flight,
        ensures
            final(self).wf(),
            final(self).model() == sink_step(old(self).model(), SinkOp::WriteDone),
            old(self).queue@.len() == 0 ==> w is None,
            old(self).queue@.len() > 0 ==> w == Some(old(self).queue@[0]),
    {
        if self.queue.len() == 0 {
            self.in_flight = false;
            None
        } else {
            let ghost qpre = self.queue@;
            let e = self.queue.remove(0);
            self.handed = Ghost(self.handed@.push(e@));
            proof {
                assert(qpre.remove(0) =~= qpre.subrange(1, qpre.len() as int));
                assert(envs_v(self.queue@) =~= envs_v(qpre).subrange(
                    1,
                    envs_v(qpre).len() as int,
                ));
            }
            Some(e)
        }
    }

    /// A failed write tears this sink down: already queued envelopes are
    /// dropped with the connection, never rerouted.
    pub fn on_write_failed(&mut self)
        ensures
            final(self).wf(),
            final(self).queue@.len() == 0,
            !final(self).in_flight,
            final(self).handed == old(self).handed,
    {
        self.queue = Vec::new();
        self.in_flight = false;
    }
}

/// An idle sink holds nothing pending.
pub open spec fn sink_wf(m: SinkM) -> bool {
    !m.2 ==> m.1.len() == 0
}

pub proof fn lemma_sink_step_extends(m: SinkM, op: SinkOp)
    requires
        sink_wf(m),
    ensures
        sink_wf(sink_step(m, op)),
        m.0.is_prefix_of(sink_step(m, op).0),
        (m.0 + m.1).is_prefix_of(sink_step(m, op).0 + sink_step(m, op).1),
{
    match op {
        SinkOp::Enqueue(e) => {
            if m.2 {
                assert((m.0 + m.1).is_prefix_of(m.0 + m.1.push(e)));
            } else {
                assert(m.0.push(e) + m.1 =~= (m.0 + m.1).push(e));
                assert((m.0 + m.1).is_prefix_of(m.0.push(e) + m.1));
            }
        },
        SinkOp::WriteDone => {
            if m.2 && m.1.len() > 0 {
                assert(m.0.push(m.1[0]) + m.1.subrange(1, m.1.len() as int) =~= m.0 + m.1);
            }
        },
    }
}

pub proof fn lemma_sink_run_extends(m: SinkM, ops: Seq<SinkOp>)
    requires
        sink_wf(m),
    ensures
        sink_wf(sink_run(m, ops)),
        m.0.is_prefix_of(sink_run(m, ops).0),
        (m.0 + m.1).is_prefix_of(sink_run(m, ops).0 + sink_run(m, ops).1),
    decreases ops.len(),
{
    if ops.len() == 0 {
        assert(m.0.is_prefix_of(m.0));
        assert((m.0 + m.1).is_prefix_of(m.0 + m.1));
    } else {
        lemma_sink_step_extends(m, ops[0]);
        lemma_sink_run_extends(sink_step(m, ops[0]), ops.subrange(1, ops.len() as int));
    }
}

/// Routing order: two envelopes enqueued on one sink, `a` then `b`, are
/// handed to the transport in that order — whatever writes complete or
/// further envelopes arrive afterwards, wherever `b` appears in the handed
/// history, `a` stands immediately before it at the fixed positions their
/// enqueues gave them.
pub proof fn lemma_fifo_order(m: SinkM, a: EnvelopeV, b: EnvelopeV, ops: Seq<SinkOp>)
    requires
        sink_wf(m),
    ensures
        ({
            let m2 = sink_step(sink_step(m, SinkOp::Enqueue(a)), SinkOp::Enqueue(b));
            let mf = sink_run(m2, ops);
            let ia = (m.0.len() + m.1.len()) as int;
            ia + 1 < mf.0.len() ==> mf.0[ia] == a && mf.0[ia + 1] == b
        }),
{
    let m1 = sink_step(m, SinkOp::Enqueue(a));
    let m2 = sink_step(m1, SinkOp::Enqueue(b));
    lemma_sink_step_extends(m, SinkOp::Enqueue(a));
    lemma_sink_step_extends(m1, SinkOp::Enqueue(b));
    let mf = sink_run(m2, ops);
    let ia = (m.0.len() + m.1.len()) as int;
    assert(m1.0 + m1.1 =~= (m.0 + m.1).push(a));
    assert(m2.0 + m2.1 =~= (m.0 + m.1).push(a).push(b));
    lemma_sink_run_extends(m2, ops);
    assert((m2.0 + m2.1).is_prefix_of(mf.0 + mf.1));
    if ia + 1 < mf.0.len() {
        assert((mf.0 + mf.1)[ia] == (m2.0 + m2.1)[ia]);
        assert((mf.0 + mf.1)[ia + 1] == (m2.0 + m2.1)[ia + 1]);
        assert((m2.0 + m2.1)[ia] == a);
        assert((m2.0 + m2.1)[ia + 1] == b);
        assert(mf.0[ia] == (mf.0 + mf.1)[ia]);
        assert(mf.0[ia + 1] == (mf.0 + mf.1)[ia + 1]);
    }
}

/// What routing an envelope produced.
pub enum RouteOutcome {
    /// Enqueued at the destination's sink; holds the write to start now, if
    /// the sink was idle.
    Delivered(Option<Envelope>),
    /// No such node: a failure notification addressed back to the sender,
    /// to be routed or written by the caller. The router itself does not
    /// fail.
    Undeliverable(Envelope),
    /// No destination, or no sender to report to: the frame is dropped.
    Dropped,
}

/// The failure notification synthesized for an unknown destination.
pub open spec fn bounce_of(e: EnvelopeV, sender: Seq<char>) -> EnvelopeV {
    EnvelopeV::Notification(
        NotificationV {
            to: Some(sender),
            from: None,
            pp: None,
            id: match spec_envelope_id(e) {
                Some(i) => i,
                None => 0,
            },
            metadata: None,
            event: EventV::Failed(
                Some(ReasonV { code: DESTINATION_UNKNOWN_CODE, description: None }),
            ),
            other: Seq::empty(),
        },
    )
}

/// The shared routing table: node identity to that node's sink.
pub struct NodeTable {
    pub entries: Vec<(String, ClientSink)>,
}

impl NodeTable {
    /// Node identities are unique and every sink is well-formed.
    pub open spec fn wf(&self) -> bool {
        (forall|i: int, j: int|
            0 <= i < j < self.entries@.len() ==> self.entries@[i].0@ != self.entries@[j].0@)
            && (forall|i: int| 0 <= i < self.entries@.len() ==> self.entries@[i].1.wf())
    }

    pub open spec fn contains_node(&self, n: Seq<char>) -> bool {
        exists|i: int| 0 <= i < self.entries@.len() && self.entries@[i].0@ == n
    }

    pub fn new() -> (t: Self)
        ensures
            t.wf(),
            t.entries@.len() == 0,
    {
        NodeTable { entries: Vec::new() }
    }

    fn find_node(&self, node: &String) -> (r: Option<usize>)
        ensures
            match r {
                Some(i) => i < self.entries@.len() && self.entries@[i as int].0@ == node@,
                None => !self.contains_node(node@),
            },
    {
        let mut i: usize = 0;
        while i < self.entries.len()
            invariant
                i <= self.entries@.len(),
                forall|j: int| 0 <= j < i ==> self.entries@[j].0@ != node@,
            decreases self.entries.len() - i,
        {
            if str_eq(self.entries[i].0.as_str(), node.as_str()) {
                return Some(i);
            }
            i = i + 1;
        }
        proof {
            if self.contains_node(node@) {
                let j = choose|j: int|
                    0 <= j < self.entries@.len() && self.entries@[j].0@ == node@;
                assert(false);
            }
        }
        None
    }

    /// Registers a node's sink; refuses a second registration of the same
    /// identity.
    pub fn register(&mut self, node: String, sink: ClientSink) -> (ok: bool)
        requires
            old(self).wf(),
            sink.wf(),
        ensures
            final(self).wf(),
            !old(self).contains_node(node@) ==> ok && final(self).entries@ == old(self).entries@.push((node, sink)),
            old(self).contains_node(node@) ==> !ok && final(self).entries@ == old(self).entries@,
    {
        match self.find_node(&node) {
            Some(_) => false,
            None => {
                self.entries.push((node, sink));
                true
            },
        }
    }

    /// Removes a node on disconnect. Deregistering an absent node is a
    /// no-op, not an error.
    pub fn deregister(&mut self, node: &String) -> (was: bool)
        requires
            old(self).wf(),
        ensures
            final(self).wf(),
            !old(self).contains_node(node@) ==> !was && final(self).entries@ == old(self).entries@,
            old(self).contains_node(node@) ==> was && !final(self).contains_node(node@) && (
            exists|i: int|
                0 <= i < old(self).entries@.len() && old(self).entries@[i].0@ == node@ && final(self).entries@ == old(self).entries@.remove(i)),
    {
        match self.find_node(node) {
            None => false,
            Some(i) => {
                let ghost pre = self.entries@;
                let _ = self.entries.remove(i);
                proof {
                    assert forall|a: int, b: int|
                        0 <= a < b < self.entries@.len() implies self.entries@[a].0@
                        != self.entries@[b].0@ by {
                        assert(self.entries@[a] == (if a < i as int {
                            pre[a]
                        } else {
                            pre[a + 1]
                        }));
                        assert(self.entries@[b] == (if b < i as int {
                            pre[b]
                        } else {
                            pre[b + 1]
                        }));
                    }
                    assert forall|a: int| 0 <= a < self.entries@.len() implies self.entries@[
                        a
                    ].1.wf() by {
                        assert(self.entries@[a] == (if a < i as int {
                            pre[a]
                        } else {
                            pre[a + 1]
                        }));
                    }
                    if self.contains_node(node@) {
                        let j = choose|j: int|
                            0 <= j < self.entries@.len() && self.entries@[j].0@ == node@;
                        assert(self.entries@[j] == (if j < i as int {
                            pre[j]
                        } else {
                            pre[j + 1]
                        }));
                        assert(false);
                    }
                }
                true
            },
        }
    }

    /// Routes one envelope by its destination address: deliver to the
    /// registered sink, else report back to the sender; never a crash.
    pub fn route(&mut self, env: Envelope) -> (out: RouteOutcome)
        requires
            old(self).wf(),
        ensures
            final(self).wf(),
            match spec_envelope_to(env@) {
                None => out is Dropped && final(self).entries@ == old(self).entries@,
                Some(addr) => if !old(self).contains_node(addr) {
                    final(self).entries@ == old(self).entries@ && (match spec_envelope_from(env@) {
                        Some(snd) => out matches RouteOutcome::Undeliverable(b) && b@ == bounce_of(
                            env@,
                            snd,
                        ),
                        None => out is Dropped,
                    })
                } else {
                    exists|i: int|
                        0 <= i < old(self).entries@.len() && old(self).entries@[i].0@ == addr
                            && final(self).entries@ == old(self).entries@.update(
                            i,
                            final(self).entries@[i],
                        ) && final(self).entries@.len() == old(self).entries@.len() && final(self).entries@[i].0 == old(self).entries@[i].0 && final(self).entries@[i].1.model() == sink_step(
                            old(self).entries@[i].1.model(),
                            SinkOp::Enqueue(env@),
                        ) && (out matches RouteOutcome::Delivered(w) && (old(self).entries@[i].1.in_flight ==> w is None) && (!old(self).entries@[i].1.in_flight ==> w == Some(env)))
                },
            },
    {
        let addr: Option<String> = match env.to_address() {
            Some(s) => Some(s.clone()),
            None => None,
        };
        let addr = match addr {
            Some(a) => a,
            None => {
                return RouteOutcome::Dropped;
            },
        };
        match self.find_node(&addr) {
            Some(i) => {
                let ghost pre = self.entries@;
                let mut ent = self.entries.remove(i);
                let w = ent.1.send_envelope(env);
                self.entries.insert(i, ent);
                proof {
                    assert(self.entries@ =~= pre.update(i as int, self.entries@[i as int]));
                    assert forall|a: int, b: int|
                        0 <= a < b < self.entries@.len() implies self.entries@[a].0@
                        != self.entries@[b].0@ by {
                        assert(self.entries@[a].0 == pre[a].0);
                        assert(self.entries@[b].0 == pre[b].0);
                    }
                }
                RouteOutcome::Delivered(w)
            },
            None => {
                let sender: Option<String> = match env.from_address() {
                    Some(s) => Some(s.clone()),
                    None => None,
                };
                match sender {
                    None => RouteOutcome::Dropped,
                    Some(snd) => {
                        let oe: Vec<(String, crate::value::JsonValue)> = Vec::new();
                        proof {
                            assert(crate::value::fields_view(oe) =~= Seq::<(Seq<char>,
                                crate::value::JVal)>::empty());
                        }
                        let id: u64 = match env.id() {
                            Some(i) => i,
                            None => 0,
                        };
                        let bounce = Envelope::Notification(
                            Notification {
                                to: Some(snd),
                                from: None,
                                pp: None,
                                id,
                                metadata: None,
                                event: NotificationEvent::Failed(
                                    Some(
                                        Reason {
                                            code: DESTINATION_UNKNOWN_CODE,
                                            description: None,
                                        },
                                    ),
                                ),
                                other: oe,
                            },
                        );
                        RouteOutcome::Undeliverable(bounce)
                    },
                }
            },
        }
    }
}

} // verus!

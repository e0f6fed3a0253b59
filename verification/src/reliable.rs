//! Numbering, acknowledgement and retransmission of signaling messages.
use crate::dtls_signaling::{MessageModel, SignalingMessage};
use vstd::prelude::*;

verus! {

/// A span of time, or a moment on a clock that runs forward, in nanoseconds.
pub type Nanos = u128;

/// The longest span that `std::time::Duration` can hold.
pub const MAX_NANOS: u128 = 18446744073709551615999999999;

/// `std::time::Instant`, a moment on the monotonic clock.
#[verifier::external_type_specification]
#[verifier::external_body]
pub struct ExInstant(std::time::Instant);

/// `std::time::Instant::now`: the moment of the call. Nothing is claimed of it.
#[verifier::external_body]
fn clock_start() -> std::time::Instant {
    std::time::Instant::now()
}

/// `std::time::Instant::elapsed`: the time since `start`. It is a `Duration`, so it has a bound;
/// nothing else is claimed of it.
#[verifier::external_body]
fn clock_elapsed(start: &std::time::Instant) -> (r: Nanos)
    ensures
        r <= MAX_NANOS,
{
    start.elapsed().as_nanos()
}

/// A message that was sent and not acknowledged yet.
#[derive(Debug)]
pub struct PendingMessage {
    pub seq: u64,
    pub msg: SignalingMessage,
    pub retransmit_count: u32,
    pub deadline: Nanos,
}

/// What a [`PendingMessage`] says.
#[verifier::ext_equal]
pub struct PendingModel {
    pub seq: u64,
    pub msg: MessageModel,
    pub retransmit_count: u32,
    pub deadline: Nanos,
}

impl DeepView for PendingMessage {
    type V = PendingModel;

    open spec fn deep_view(&self) -> PendingModel {
        PendingModel {
            seq: self.seq,
            msg: self.msg.deep_view(),
            retransmit_count: self.retransmit_count,
            deadline: self.deadline,
        }
    }
}

impl Clone for PendingMessage {
    fn clone(&self) -> (r: PendingMessage)
        ensures
            r.deep_view() == self.deep_view(),
    {
        PendingMessage {
            seq: self.seq,
            msg: self.msg.clone(),
            retransmit_count: self.retransmit_count,
            deadline: self.deadline,
        }
    }
}

/// One side of a session in which messages are numbered and acknowledged.
pub struct ReliableSession {
    next_seq: u64,
    last_recv_seq: Option<u64>,
    pending: Vec<PendingMessage>,
    peer_reliable: bool,
    rto: Nanos,
    max_retransmits: u32,
    exhausted: bool,
    start: std::time::Instant,
}

/// The state of a [`ReliableSession`].
#[verifier::ext_equal]
pub struct ReliableModel {
    /// The number of the next message.
    pub next_seq: u64,
    /// The last number that came from the peer.
    pub last_recv_seq: Option<u64>,
    /// The tracked messages that are neither acknowledged nor handed out again.
    pub pending: Seq<PendingModel>,
    /// Whether the peer has sent a number.
    pub peer_reliable: bool,
    /// How long after a message was sent it is due again.
    pub rto: Nanos,
    /// How often a message may be sent again.
    pub max_retransmits: u32,
    /// Whether some message was due but had been sent too often.
    pub exhausted: bool,
}

/// `msg` with these numbers, for the kinds of message that carry numbers.
pub open spec fn numbered(msg: MessageModel, seq: Option<u64>, ack: Option<u64>) -> MessageModel {
    match msg {
        MessageModel::Offer { session_id, agent_id, offer_sdp, targets, .. } => MessageModel::Offer {
            session_id,
            agent_id,
            offer_sdp,
            targets,
            seq,
            ack,
        },
        MessageModel::Answer { session_id, answer_sdp, .. } => MessageModel::Answer {
            session_id,
            answer_sdp,
            seq,
            ack,
        },
        MessageModel::Candidate { session_id, candidate, .. } => MessageModel::Candidate {
            session_id,
            candidate,
            seq,
            ack,
        },
        MessageModel::EndOfCandidates { session_id, .. } => MessageModel::EndOfCandidates {
            session_id,
            seq,
            ack,
        },
        MessageModel::Error { session_id, reason, .. } => MessageModel::Error {
            session_id,
            reason,
            seq,
            ack,
        },
        MessageModel::Ack { session_id, ack_seq, .. } => MessageModel::Ack {
            session_id,
            ack_seq,
            seq,
            ack,
        },
        other => other,
    }
}

/// The number and the acknowledgement that a message brings. An `Ack` acknowledges what its
/// `ack_seq` says, and its own number does not count.
pub open spec fn numbers_of(msg: MessageModel) -> (Option<u64>, Option<u64>) {
    match msg {
        MessageModel::Offer { seq, ack, .. } => (seq, ack),
        MessageModel::Answer { seq, ack, .. } => (seq, ack),
        MessageModel::Candidate { seq, ack, .. } => (seq, ack),
        MessageModel::EndOfCandidates { seq, ack, .. } => (seq, ack),
        MessageModel::Error { seq, ack, .. } => (seq, ack),
        MessageModel::Ack { ack_seq, .. } => (None, Some(ack_seq)),
        _ => (None, None),
    }
}

/// Whether a pending message is to be sent again at `now`.
pub open spec fn is_due(p: PendingModel, now: Nanos, max_retransmits: u32) -> bool {
    p.deadline <= now && p.retransmit_count < max_retransmits
}

/// Whether a pending message would be due at `now` but has been sent too often.
pub open spec fn is_spent(p: PendingModel, now: Nanos, max_retransmits: u32) -> bool {
    p.deadline <= now && p.retransmit_count >= max_retransmits
}

/// A due message as it is handed out.
pub open spec fn resent(p: PendingModel, now: Nanos, rto: Nanos) -> PendingModel {
    PendingModel {
        retransmit_count: (p.retransmit_count + 1) as u32,
        deadline: (now + rto) as u128,
        ..p
    }
}

impl ReliableModel {
    /// The pending messages are in the order of their numbers, and all of them were given out.
    pub open spec fn wf(self) -> bool {
        &&& self.rto <= MAX_NANOS
        &&& forall|i: int, j: int|
            0 <= i < j < self.pending.len() ==> self.pending[i].seq < self.pending[j].seq
        &&& forall|i: int| 0 <= i < self.pending.len() ==> #[trigger] self.pending[i].seq < self.next_seq
    }

    /// The message that goes out when `msg` is to be sent.
    pub open spec fn outgoing(self, msg: MessageModel) -> MessageModel {
        numbered(msg, Some(self.next_seq), self.last_recv_seq)
    }

    /// The state after `msg` was sent at `now`.
    pub open spec fn sent(self, msg: MessageModel, track: bool, now: Nanos) -> ReliableModel {
        ReliableModel {
            next_seq: (self.next_seq + 1) as u64,
            pending: if track {
                self.pending.push(
                    PendingModel {
                        seq: self.next_seq,
                        msg: self.outgoing(msg),
                        retransmit_count: 0,
                        deadline: (now + self.rto) as u128,
                    },
                )
            } else {
                self.pending
            },
            ..self
        }
    }

    /// The state after `msg` came in.
    pub open spec fn received(self, msg: MessageModel) -> ReliableModel {
        let (seq, ack) = numbers_of(msg);
        ReliableModel {
            peer_reliable: self.peer_reliable || seq is Some,
            last_recv_seq: if seq is Some {
                seq
            } else {
                self.last_recv_seq
            },
            pending: match ack {
                Some(a) => self.pending.filter(|p: PendingModel| p.seq > a),
                None => self.pending,
            },
            ..self
        }
    }

    /// The messages to send again at `now`.
    pub open spec fn due(self, now: Nanos) -> Seq<PendingModel> {
        if self.exhausted {
            Seq::empty()
        } else {
            self.pending.filter(|p: PendingModel| is_due(p, now, self.max_retransmits)).map_values(
                |p: PendingModel| resent(p, now, self.rto),
            )
        }
    }

    /// The state after the due messages were handed out at `now`. They are no longer pending.
    pub open spec fn after_due(self, now: Nanos) -> ReliableModel {
        if self.exhausted {
            self
        } else {
            ReliableModel {
                pending: self.pending.filter(
                    |p: PendingModel| !is_due(p, now, self.max_retransmits),
                ),
                exhausted: exists|i: int|
                    0 <= i < self.pending.len() && #[trigger] is_spent(
                        self.pending[i],
                        now,
                        self.max_retransmits,
                    ),
                ..self
            }
        }
    }
}

impl View for ReliableSession {
    type V = ReliableModel;

    closed spec fn view(&self) -> ReliableModel {
        ReliableModel {
            next_seq: self.next_seq,
            last_recv_seq: self.last_recv_seq,
            pending: self.pending.deep_view(),
            peer_reliable: self.peer_reliable,
            rto: self.rto,
            max_retransmits: self.max_retransmits,
            exhausted: self.exhausted,
        }
    }
}

impl ReliableSession {
    /// A session in which nothing was sent yet.
    pub fn new(rto: Nanos, max_retransmits: u32) -> (r: ReliableSession)
        requires
            rto <= MAX_NANOS,
        ensures
            r@.wf(),
            r@ == (ReliableModel {
                next_seq: 1,
                last_recv_seq: None,
                pending: Seq::empty(),
                peer_reliable: false,
                rto,
                max_retransmits,
                exhausted: false,
            }),
    {
        let r = ReliableSession {
            next_seq: 1,
            last_recv_seq: None,
            pending: Vec::new(),
            peer_reliable: false,
            rto,
            max_retransmits,
            exhausted: false,
            start: clock_start(),
        };
        assert(r@.pending =~= Seq::empty());
        r
    }

    /// The time on the clock of this session.
    pub fn now(&self) -> (r: Nanos)
        ensures
            r <= MAX_NANOS,
    {
        clock_elapsed(&self.start)
    }

    fn attach_seq_ack(&self, msg: &mut SignalingMessage, seq: Option<u64>, ack: Option<u64>)
        ensures
            final(msg).deep_view() == numbered(old(msg).deep_view(), seq, ack),
    {
        match msg {
            SignalingMessage::Offer { seq: s, ack: a, .. } => {
                *s = seq;
                *a = ack;
            },
            SignalingMessage::Answer { seq: s, ack: a, .. } => {
                *s = seq;
                *a = ack;
            },
            SignalingMessage::Candidate { seq: s, ack: a, .. } => {
                *s = seq;
                *a = ack;
            },
            SignalingMessage::EndOfCandidates { seq: s, ack: a, .. } => {
                *s = seq;
                *a = ack;
            },
            SignalingMessage::Error { seq: s, ack: a, .. } => {
                *s = seq;
                *a = ack;
            },
            SignalingMessage::Ack { seq: s, ack: a, .. } => {
                *s = seq;
                *a = ack;
            },
            _ => {},
        }
    }

    fn extract_seq_ack(&self, msg: &SignalingMessage) -> (r: (Option<u64>, Option<u64>))
        ensures
            r == numbers_of(msg.deep_view()),
    {
        match msg {
            SignalingMessage::Offer { seq, ack, .. } => (*seq, *ack),
            SignalingMessage::Answer { seq, ack, .. } => (*seq, *ack),
            SignalingMessage::Candidate { seq, ack, .. } => (*seq, *ack),
            SignalingMessage::EndOfCandidates { seq, ack, .. } => (*seq, *ack),
            SignalingMessage::Error { seq, ack, .. } => (*seq, *ack),
            SignalingMessage::Ack { ack_seq, .. } => (None, Some(*ack_seq)),
            _ => (None, None),
        }
    }

    /// Numbers an outgoing message and acknowledges the last one received, at the time `now`.
    /// If `track` is true, the message is added to the retransmit queue.
    pub fn prepare_send_at(&mut self, msg: &mut SignalingMessage, track: bool, now: Nanos)
        requires
            old(self)@.wf(),
            old(self)@.next_seq < u64::MAX,
            now <= MAX_NANOS,
        ensures
            final(self)@ == old(self)@.sent(old(msg).deep_view(), track, now),
            final(self)@.wf(),
            final(msg).deep_view() == old(self)@.outgoing(old(msg).deep_view()),
    {
        let seq = self.next_seq;
        self.next_seq = self.next_seq + 1;
        let ack = self.last_recv_seq;
        self.attach_seq_ack(msg, Some(seq), ack);
        if track {
            let p = PendingMessage {
                seq,
                msg: msg.clone(),
                retransmit_count: 0,
                deadline: now + self.rto,
            };
            self.pending.push(p);
        }
        proof {
            assert(self@.pending =~= old(self)@.sent(old(msg).deep_view(), track, now).pending);
        }
    }

    /// Attaches seq and ack to an outgoing message.
    /// If `track` is true, the message is added to the retransmit queue, to be due again when the
    /// retransmission time has passed from now.
    pub fn prepare_send(&mut self, msg: &mut SignalingMessage, track: bool)
        requires
            old(self)@.wf(),
            old(self)@.next_seq < u64::MAX,
        ensures
            exists|now: Nanos|
                now <= MAX_NANOS && final(self)@ == #[trigger] old(self)@.sent(
                    old(msg).deep_view(),
                    track,
                    now,
                ),
            final(self)@.wf(),
            final(msg).deep_view() == old(self)@.outgoing(old(msg).deep_view()),
    {
        let now = self.now();
        self.prepare_send_at(msg, track, now);
    }

    /// Processes an incoming message: notes its number and drops what it acknowledges.
    /// Returns the seq to acknowledge if the peer sent one.
    pub fn process_recv(&mut self, msg: &SignalingMessage) -> (r: Option<u64>)
        requires
            old(self)@.wf(),
        ensures
            final(self)@ == old(self)@.received(msg.deep_view()),
            final(self)@.wf(),
            r == numbers_of(msg.deep_view()).0,
    {
        let (peer_seq, peer_ack) = self.extract_seq_ack(msg);
        if peer_seq.is_some() {
            self.peer_reliable = true;
            self.last_recv_seq = peer_seq;
        }
        if let Some(a) = peer_ack {
            let mut pending: Vec<PendingMessage> = Vec::new();
            std::mem::swap(&mut pending, &mut self.pending);
            let ghost all = pending.deep_view();
            let ghost keep = |p: PendingModel| p.seq > a;
            let mut kept: Vec<PendingMessage> = Vec::new();
            for p in it: pending
                invariant
                    it.seq().len() == all.len(),
                    forall|i: int| 0 <= i < all.len() ==> (#[trigger] it.seq()[i]).deep_view() == all[i],
                    kept.deep_view() == all.take(it.index() as int).filter(keep),
                    keep == (|p: PendingModel| p.seq > a),
            {
                let ghost i = it.index() as int;
                proof {
                    lemma_filter_step(all, i, keep);
                }
                let ghost kept_before = kept.deep_view();
                if p.seq > a {
                    kept.push(p);
                    assert(kept.deep_view() =~= kept_before.push(all[i]));
                }
            }
            proof {
                assert(all.take(all.len() as int) =~= all);
            }
            self.pending = kept;
        }
        proof {
            lemma_received_wf(old(self)@, msg.deep_view());
        }
        peer_seq
    }

    /// Returns the pending messages whose retransmit deadline has passed. They leave the queue.
    pub fn due_retransmits(&mut self, now: Nanos) -> (r: Vec<PendingMessage>)
        requires
            old(self)@.wf(),
            now <= MAX_NANOS,
        ensures
            r.deep_view() == old(self)@.due(now),
            final(self)@ == old(self)@.after_due(now),
            final(self)@.wf(),
    {
        let mut due: Vec<PendingMessage> = Vec::new();
        if self.exhausted {
            assert(due.deep_view() =~= Seq::empty());
            return due;
        }
        let max_retransmits = self.max_retransmits;
        let rto = self.rto;
        let mut pending: Vec<PendingMessage> = Vec::new();
        std::mem::swap(&mut pending, &mut self.pending);
        let ghost all = pending.deep_view();
        let ghost yes = |p: PendingModel| is_due(p, now, max_retransmits);
        let ghost no = |p: PendingModel| !is_due(p, now, max_retransmits);
        let ghost resend = |p: PendingModel| resent(p, now, rto);
        let mut kept: Vec<PendingMessage> = Vec::new();
        let mut spent: bool = false;
        for p in it: pending
            invariant
                it.seq().len() == all.len(),
                forall|i: int| 0 <= i < all.len() ==> (#[trigger] it.seq()[i]).deep_view() == all[i],
                rto <= MAX_NANOS,
                now <= MAX_NANOS,
                kept.deep_view() == all.take(it.index() as int).filter(no),
                due.deep_view() == all.take(it.index() as int).filter(yes).map_values(resend),
                spent == exists|i: int|
                    0 <= i < it.index() && #[trigger] is_spent(all[i], now, max_retransmits),
                yes == (|p: PendingModel| is_due(p, now, max_retransmits)),
                no == (|p: PendingModel| !is_due(p, now, max_retransmits)),
                resend == (|p: PendingModel| resent(p, now, rto)),
        {
            let ghost i = it.index() as int;
            proof {
                lemma_filter_step(all, i, yes);
                lemma_filter_step(all, i, no);
            }
            let ghost kept_before = kept.deep_view();
            let ghost due_before = due.deep_view();
            if p.deadline <= now {
                if p.retransmit_count < max_retransmits {
                    let mut again = p.clone();
                    again.retransmit_count = again.retransmit_count + 1;
                    again.deadline = now + rto;
                    due.push(again);
                    assert(due.deep_view() =~= due_before.push(resent(all[i], now, rto)));
                    assert(due.deep_view() =~= all.take(i + 1).filter(yes).map_values(resend));
                } else {
                    assert(is_spent(all[i], now, max_retransmits));
                    spent = true;
                    kept.push(p);
                    assert(kept.deep_view() =~= kept_before.push(all[i]));
                }
            } else {
                kept.push(p);
                assert(kept.deep_view() =~= kept_before.push(all[i]));
            }
        }
        proof {
            assert(all.take(all.len() as int) =~= all);
            lemma_after_due_wf(old(self)@, now);
        }
        self.pending = kept;
        self.exhausted = spent;
        due
    }

    /// Whether there are numbers left for `count` more messages.
    pub fn can_send(&self, count: u64) -> (r: bool)
        ensures
            r == (self@.next_seq + count <= u64::MAX),
    {
        count <= u64::MAX - self.next_seq
    }

    /// Whether the peer numbers its messages.
    pub fn is_peer_reliable(&self) -> (r: bool)
        ensures
            r == self@.peer_reliable,
    {
        self.peer_reliable
    }

    /// The last number that came from the peer.
    pub fn last_recv_seq(&self) -> (r: Option<u64>)
        ensures
            r == self@.last_recv_seq,
    {
        self.last_recv_seq
    }

    /// Whether some tracked message is neither acknowledged nor handed out again.
    pub fn has_pending(&self) -> (r: bool)
        ensures
            r == (self@.pending.len() > 0),
    {
        self.pending.len() > 0
    }

    /// Gives up on retransmission.
    pub fn mark_exhausted(&mut self)
        ensures
            final(self)@ == (ReliableModel { exhausted: true, ..old(self)@ }),
    {
        self.exhausted = true;
    }

    /// Whether retransmission was given up.
    pub fn is_exhausted(&self) -> (r: bool)
        ensures
            r == self@.exhausted,
    {
        self.exhausted
    }
}

proof fn lemma_filter_step(all: Seq<PendingModel>, i: int, f: spec_fn(PendingModel) -> bool)
    requires
        0 <= i < all.len(),
    ensures
        all.take(i + 1).filter(f) == if f(all[i]) {
            all.take(i).filter(f).push(all[i])
        } else {
            all.take(i).filter(f)
        },
{
    reveal(Seq::filter);
    assert(all.take(i + 1).drop_last() =~= all.take(i));
}

/// Filtering keeps the order of the numbers, and leaves only what was there.
proof fn lemma_filter_ordered(all: Seq<PendingModel>, f: spec_fn(PendingModel) -> bool)
    requires
        forall|i: int, j: int| 0 <= i < j < all.len() ==> all[i].seq < all[j].seq,
    ensures
        forall|i: int, j: int|
            0 <= i < j < all.filter(f).len() ==> all.filter(f)[i].seq < all.filter(f)[j].seq,
        forall|i: int| 0 <= i < all.filter(f).len() ==> #[trigger] f(all.filter(f)[i]),
        forall|i: int| 0 <= i < all.filter(f).len() ==> all.contains(#[trigger] all.filter(f)[i]),
        forall|i: int| 0 <= i < all.len() && f(all[i]) ==> all.filter(f).contains(#[trigger] all[i]),
    decreases all.len(),
{
    reveal(Seq::filter);
    if all.len() > 0 {
        let init = all.drop_last();
        lemma_filter_ordered(init, f);
        let kept = init.filter(f);
        assert forall|i: int| 0 <= i < kept.len() implies all.contains(#[trigger] kept[i]) && kept[i].seq < all.last().seq by {
            assert(init.contains(kept[i]));
            let k = choose|k: int| 0 <= k < init.len() && init[k] == kept[i];
            assert(all[k] == kept[i]);
        }
        if f(all.last()) {
            let more = kept.push(all.last());
            assert(all.filter(f) == more);
            assert(more[kept.len() as int] == all.last());
            assert(all[all.len() - 1] == all.last());
            assert forall|i: int| 0 <= i < more.len() implies all.contains(#[trigger] more[i]) by {
                if i < kept.len() {
                    assert(more[i] == kept[i]);
                }
            }
            assert forall|i: int| 0 <= i < all.len() && f(all[i]) implies more.contains(#[trigger] all[i]) by {
                if i < init.len() {
                    assert(kept.contains(init[i]));
                    let k = choose|k: int| 0 <= k < kept.len() && kept[k] == init[i];
                    assert(more[k] == all[i]);
                } else {
                    assert(more[kept.len() as int] == all[i]);
                }
            }
        } else {
            assert(all.filter(f) == kept);
            assert forall|i: int| 0 <= i < all.len() && f(all[i]) implies kept.contains(#[trigger] all[i]) by {
                assert(init[i] == all[i]);
            }
        }
    }
}

pub proof fn lemma_received_wf(m: ReliableModel, msg: MessageModel)
    requires
        m.wf(),
    ensures
        m.received(msg).wf(),
{
    if let Some(a) = numbers_of(msg).1 {
        let f = |p: PendingModel| p.seq > a;
        lemma_filter_ordered(m.pending, f);
        assert forall|i: int| 0 <= i < m.pending.filter(f).len() implies #[trigger] m.pending.filter(f)[i].seq < m.next_seq by {
            assert(m.pending.contains(m.pending.filter(f)[i]));
        }
    }
}

pub proof fn lemma_after_due_wf(m: ReliableModel, now: Nanos)
    requires
        m.wf(),
    ensures
        m.after_due(now).wf(),
{
    let f = |p: PendingModel| !is_due(p, now, m.max_retransmits);
    lemma_filter_ordered(m.pending, f);
    assert forall|i: int| 0 <= i < m.pending.filter(f).len() implies #[trigger] m.pending.filter(f)[i].seq < m.next_seq by {
        assert(m.pending.contains(m.pending.filter(f)[i]));
    }
}

/// An acknowledgement of `a` settles every message up to `a` and no other.
pub proof fn law_ack_settles_exactly(m: ReliableModel, msg: MessageModel, a: u64)
    requires
        m.wf(),
        numbers_of(msg).1 == Some(a),
    ensures
        forall|i: int| 0 <= i < m.received(msg).pending.len() ==> #[trigger] m.received(msg).pending[i].seq > a,
        forall|p: PendingModel|
            #[trigger] m.received(msg).pending.contains(p) <==> m.pending.contains(p) && p.seq > a,
{
    let f = |p: PendingModel| p.seq > a;
    lemma_filter_ordered(m.pending, f);
    let kept = m.received(msg).pending;
    assert(kept == m.pending.filter(f));
    assert forall|i: int| 0 <= i < kept.len() implies #[trigger] kept[i].seq > a by {
        assert(f(kept[i]));
    }
    assert forall|p: PendingModel| #[trigger] kept.contains(p) <==> m.pending.contains(p) && p.seq > a by {
        if kept.contains(p) {
            let i = choose|i: int| 0 <= i < kept.len() && kept[i] == p;
            assert(f(kept[i]));
            assert(m.pending.contains(kept[i]));
        }
        if m.pending.contains(p) && p.seq > a {
            let i = choose|i: int| 0 <= i < m.pending.len() && m.pending[i] == p;
            assert(f(m.pending[i]));
            assert(kept.contains(m.pending[i]));
        }
    }
}

/// Receiving the same message twice changes nothing more than receiving it once.
pub proof fn law_duplicate_receive_is_idempotent(m: ReliableModel, msg: MessageModel)
    ensures
        m.received(msg).received(msg) == m.received(msg),
{
    if let Some(a) = numbers_of(msg).1 {
        let f = |p: PendingModel| p.seq > a;
        lemma_filter_idempotent(m.pending, f);
        assert(m.received(msg).received(msg).pending == m.received(msg).pending);
    }
}

proof fn lemma_filter_idempotent(all: Seq<PendingModel>, f: spec_fn(PendingModel) -> bool)
    ensures
        all.filter(f).filter(f) == all.filter(f),
    decreases all.len(),
{
    reveal(Seq::filter);
    if all.len() > 0 {
        lemma_filter_idempotent(all.drop_last(), f);
        let kept = all.drop_last().filter(f);
        if f(all.last()) {
            assert(kept.push(all.last()).drop_last() =~= kept);
        }
    }
}

/// What is handed out for retransmission is no longer pending, and nothing else leaves the queue.
pub proof fn law_due_messages_leave_the_queue(m: ReliableModel, now: Nanos)
    requires
        m.wf(),
        !m.exhausted,
    ensures
        m.due(now).len() + m.after_due(now).pending.len() == m.pending.len(),
        forall|p: PendingModel|
            #[trigger] m.after_due(now).pending.contains(p) <==> m.pending.contains(p) && !is_due(
                p,
                now,
                m.max_retransmits,
            ),
        forall|p: PendingModel|
            m.pending.contains(p) && is_due(p, now, m.max_retransmits) ==> m.due(now).contains(
                #[trigger] resent(p, now, m.rto),
            ),
{
    let yes = |p: PendingModel| is_due(p, now, m.max_retransmits);
    let no = |p: PendingModel| !is_due(p, now, m.max_retransmits);
    lemma_filter_partition(m.pending, yes, no);
    lemma_filter_ordered(m.pending, yes);
    lemma_filter_ordered(m.pending, no);
    let kept = m.after_due(now).pending;
    assert(kept == m.pending.filter(no));
    assert forall|p: PendingModel| #[trigger] kept.contains(p) <==> m.pending.contains(p) && !is_due(
        p,
        now,
        m.max_retransmits,
    ) by {
        if kept.contains(p) {
            let i = choose|i: int| 0 <= i < kept.len() && kept[i] == p;
            assert(no(kept[i]));
            assert(m.pending.contains(kept[i]));
        }
        if m.pending.contains(p) && no(p) {
            let i = choose|i: int| 0 <= i < m.pending.len() && m.pending[i] == p;
            assert(kept.contains(m.pending[i]));
        }
    }
    assert forall|p: PendingModel| m.pending.contains(p) && is_due(p, now, m.max_retransmits) implies m.due(
        now,
    ).contains(#[trigger] resent(p, now, m.rto)) by {
        let i = choose|i: int| 0 <= i < m.pending.len() && m.pending[i] == p;
        assert(yes(m.pending[i]));
        assert(m.pending.filter(yes).contains(m.pending[i]));
        let k = choose|k: int| 0 <= k < m.pending.filter(yes).len() && m.pending.filter(yes)[k] == p;
        assert(m.due(now)[k] == resent(p, now, m.rto));
    }
}

proof fn lemma_filter_partition(
    all: Seq<PendingModel>,
    yes: spec_fn(PendingModel) -> bool,
    no: spec_fn(PendingModel) -> bool,
)
    requires
        forall|p: PendingModel| #[trigger] yes(p) == !no(p),
    ensures
        all.filter(yes).len() + all.filter(no).len() == all.len(),
    decreases all.len(),
{
    reveal(Seq::filter);
    if all.len() > 0 {
        lemma_filter_partition(all.drop_last(), yes, no);
        assert(yes(all.last()) == !no(all.last()));
    }
}

/// A message that is handed out carries the number of a message that was pending and due.
pub proof fn lemma_due_was_pending(m: ReliableModel, now: Nanos, i: int)
    requires
        m.wf(),
        0 <= i < m.due(now).len(),
    ensures
        exists|p: PendingModel|
            #[trigger] m.pending.contains(p) && is_due(p, now, m.max_retransmits) && p.seq == m.due(
                now,
            )[i].seq,
{
    let yes = |p: PendingModel| is_due(p, now, m.max_retransmits);
    lemma_filter_ordered(m.pending, yes);
    let p = m.pending.filter(yes)[i];
    assert(yes(p));
    assert(m.pending.contains(p));
}

/// Once retransmission is given up, nothing is handed out any more and the state stays.
pub proof fn law_exhausted_stays_silent(m: ReliableModel, now: Nanos)
    requires
        m.exhausted,
    ensures
        m.due(now).len() == 0,
        m.after_due(now) == m,
{
}

/// Numbers are given out in order, without gaps, whether or not the message is tracked, and no
/// message that is pending carries a number that is still to be given out.
pub proof fn law_numbers_are_consecutive(
    m: ReliableModel,
    first: MessageModel,
    second: MessageModel,
    track: bool,
    now: Nanos,
)
    requires
        m.wf(),
        m.next_seq < u64::MAX,
    ensures
        m.sent(first, track, now).next_seq == m.next_seq + 1,
        m.sent(first, track, now).outgoing(second) == numbered(
            second,
            Some((m.next_seq + 1) as u64),
            m.last_recv_seq,
        ),
        forall|i: int|
            0 <= i < m.sent(first, track, now).pending.len() ==> #[trigger] m.sent(
                first,
                track,
                now,
            ).pending[i].seq <= m.next_seq,
{
}

/// Whether a message brings its number to the peer when it is sent.
pub open spec fn brings_number(msg: MessageModel) -> bool {
    msg is Offer || msg is Answer || msg is Candidate || msg is EndOfCandidates || msg is Error
}

/// Two sessions settle what they say to each other: once the peer has taken in a message, its next
/// reply, or an `Ack` of the number it has noted, leaves the sender with nothing pending.
pub proof fn law_reply_settles_all(
    sender: ReliableModel,
    peer: ReliableModel,
    msg: MessageModel,
    track: bool,
    now: Nanos,
    reply: MessageModel,
)
    requires
        sender.wf(),
        sender.next_seq < u64::MAX,
        brings_number(msg),
        brings_number(reply) || (reply matches MessageModel::Ack { ack_seq, .. } && Some(ack_seq)
            == peer.received(sender.outgoing(msg)).last_recv_seq),
    ensures
        ({
            let noted = peer.received(sender.outgoing(msg));
            &&& noted.last_recv_seq == Some(sender.next_seq)
            &&& noted.peer_reliable
            &&& sender.sent(msg, track, now).received(noted.outgoing(reply)).pending.len() == 0
        }),
{
    let noted = peer.received(sender.outgoing(msg));
    let sent = sender.sent(msg, track, now);
    let after = sent.received(noted.outgoing(reply));
    assert(sent.wf());
    law_ack_settles_exactly(sent, noted.outgoing(reply), sender.next_seq);
    if after.pending.len() > 0 {
        assert(after.pending.contains(after.pending[0]));
        assert(sent.pending.contains(after.pending[0]));
        let i = choose|i: int| 0 <= i < sent.pending.len() && sent.pending[i] == after.pending[0];
        assert(sent.pending[i].seq < sent.next_seq);
    }
}

/// A message goes out with the next number of its sender and the last number that came, and is
/// otherwise as it was. Kinds of message that carry no numbers are not touched.
pub proof fn law_numbering_changes_the_numbers_alone(m: ReliableModel, msg: MessageModel)
    ensures
        m.outgoing(msg) == match msg {
            MessageModel::Offer { session_id, agent_id, offer_sdp, targets, .. } =>
                MessageModel::Offer {
                session_id,
                agent_id,
                offer_sdp,
                targets,
                seq: Some(m.next_seq),
                ack: m.last_recv_seq,
            },
            MessageModel::Answer { session_id, answer_sdp, .. } => MessageModel::Answer {
                session_id,
                answer_sdp,
                seq: Some(m.next_seq),
                ack: m.last_recv_seq,
            },
            MessageModel::Candidate { session_id, candidate, .. } => MessageModel::Candidate {
                session_id,
                candidate,
                seq: Some(m.next_seq),
                ack: m.last_recv_seq,
            },
            MessageModel::EndOfCandidates { session_id, .. } => MessageModel::EndOfCandidates {
                session_id,
                seq: Some(m.next_seq),
                ack: m.last_recv_seq,
            },
            MessageModel::Error { session_id, reason, .. } => MessageModel::Error {
                session_id,
                reason,
                seq: Some(m.next_seq),
                ack: m.last_recv_seq,
            },
            MessageModel::Ack { session_id, ack_seq, .. } => MessageModel::Ack {
                session_id,
                ack_seq,
                seq: Some(m.next_seq),
                ack: m.last_recv_seq,
            },
            MessageModel::Register { .. } | MessageModel::IceServers { .. }
            | MessageModel::GetIceServers | MessageModel::Ping | MessageModel::Pong => msg,
        },
{
}

/// A tracked message joins the queue behind those that are there, as it goes out, due once the
/// retransmission time has passed. One that is not tracked does not. Sending changes nothing else
/// but the next number.
pub proof fn law_tracked_messages_are_queued(
    m: ReliableModel,
    msg: MessageModel,
    track: bool,
    now: Nanos,
)
    requires
        m.wf(),
        m.next_seq < u64::MAX,
        now <= MAX_NANOS,
    ensures
        ({
            let after = m.sent(msg, track, now);
            &&& after.next_seq == m.next_seq + 1
            &&& !track ==> after.pending == m.pending
            &&& track ==> {
                &&& after.pending.len() == m.pending.len() + 1
                &&& after.pending.drop_last() == m.pending
                &&& after.pending.last().seq == m.next_seq
                &&& after.pending.last().msg == m.outgoing(msg)
                &&& after.pending.last().retransmit_count == 0
                &&& after.pending.last().deadline == now + m.rto
            }
            &&& after.last_recv_seq == m.last_recv_seq
            &&& after.peer_reliable == m.peer_reliable
            &&& after.rto == m.rto
            &&& after.max_retransmits == m.max_retransmits
            &&& after.exhausted == m.exhausted
        }),
{
    assert(m.sent(msg, true, now).pending.drop_last() =~= m.pending);
}

/// The number that came last is remembered. A message without a number, and an `Ack`, leave it; a
/// message without an acknowledgement settles nothing. Receiving changes nothing else.
pub proof fn law_last_number_is_remembered(m: ReliableModel, msg: MessageModel, seq: Option<u64>, ack: Option<u64>)
    requires
        match msg {
            MessageModel::Offer { seq: s, ack: a, .. } => s == seq && a == ack,
            MessageModel::Answer { seq: s, ack: a, .. } => s == seq && a == ack,
            MessageModel::Candidate { seq: s, ack: a, .. } => s == seq && a == ack,
            MessageModel::EndOfCandidates { seq: s, ack: a, .. } => s == seq && a == ack,
            MessageModel::Error { seq: s, ack: a, .. } => s == seq && a == ack,
            MessageModel::Ack { ack_seq, .. } => seq is None && ack == Some(ack_seq),
            _ => seq is None && ack is None,
        },
    ensures
        ({
            let after = m.received(msg);
            &&& seq is Some ==> after.last_recv_seq == seq && after.peer_reliable
            &&& seq is None ==> after.last_recv_seq == m.last_recv_seq && after.peer_reliable
                == m.peer_reliable
            &&& ack is None ==> after.pending == m.pending
            &&& after.next_seq == m.next_seq
            &&& after.rto == m.rto
            &&& after.max_retransmits == m.max_retransmits
            &&& after.exhausted == m.exhausted
        }),
        m.wf() ==> (ack matches Some(a) ==> forall|p: PendingModel|
            #[trigger] m.received(msg).pending.contains(p) <==> m.pending.contains(p) && p.seq > a),
{
    if m.wf() {
        if let Some(a) = ack {
            law_ack_settles_exactly(m, msg, a);
        }
    }
}

/// A pending message is sent again exactly if its time has come and it was not sent too often. It is
/// sent as it was, with its number, counted once more, and due again after the retransmission time.
pub proof fn law_what_is_sent_again(m: ReliableModel, now: Nanos, p: PendingModel)
    requires
        m.wf(),
        !m.exhausted,
        now <= MAX_NANOS,
        m.pending.contains(p),
    ensures
        p.deadline <= now && p.retransmit_count < m.max_retransmits <==> !m.after_due(
            now,
        ).pending.contains(p),
        p.deadline <= now && p.retransmit_count < m.max_retransmits ==> exists|q: PendingModel|
            #[trigger] m.due(now).contains(q) && q.seq == p.seq && q.msg == p.msg
                && q.retransmit_count == p.retransmit_count + 1 && q.deadline == now + m.rto,
{
    law_due_messages_leave_the_queue(m, now);
    if is_due(p, now, m.max_retransmits) {
        let q = resent(p, now, m.rto);
        assert(m.due(now).contains(q));
    }
}

/// Nothing is sent again that was not pending, whose time has not come, or that was sent too often.
pub proof fn law_nothing_else_is_sent_again(m: ReliableModel, now: Nanos, i: int)
    requires
        m.wf(),
        0 <= i < m.due(now).len(),
    ensures
        exists|p: PendingModel|
            #[trigger] m.pending.contains(p) && p.deadline <= now && p.retransmit_count
                < m.max_retransmits && p.seq == m.due(now)[i].seq && p.msg == m.due(now)[i].msg,
{
    let yes = |p: PendingModel| is_due(p, now, m.max_retransmits);
    lemma_filter_ordered(m.pending, yes);
    let p = m.pending.filter(yes)[i];
    assert(yes(p));
    assert(m.pending.contains(p));
}

/// Retransmission is given up exactly when the time of a message has come that was sent often
/// enough. Handing out messages changes nothing but the queue and that.
pub proof fn law_when_retransmission_is_given_up(m: ReliableModel, now: Nanos)
    requires
        !m.exhausted,
    ensures
        m.after_due(now).exhausted <==> exists|p: PendingModel|
            #[trigger] m.pending.contains(p) && p.deadline <= now && p.retransmit_count
                >= m.max_retransmits,
        m.after_due(now).next_seq == m.next_seq,
        m.after_due(now).last_recv_seq == m.last_recv_seq,
        m.after_due(now).peer_reliable == m.peer_reliable,
        m.after_due(now).rto == m.rto,
        m.after_due(now).max_retransmits == m.max_retransmits,
{
    if m.after_due(now).exhausted {
        let i = choose|i: int|
            0 <= i < m.pending.len() && #[trigger] is_spent(m.pending[i], now, m.max_retransmits);
        assert(m.pending.contains(m.pending[i]));
    }
    if exists|p: PendingModel|
        #[trigger] m.pending.contains(p) && p.deadline <= now && p.retransmit_count
            >= m.max_retransmits {
        let p = choose|p: PendingModel|
            #[trigger] m.pending.contains(p) && p.deadline <= now && p.retransmit_count
                >= m.max_retransmits;
        let i = choose|i: int| 0 <= i < m.pending.len() && m.pending[i] == p;
        assert(is_spent(m.pending[i], now, m.max_retransmits));
    }
}

} // verus!

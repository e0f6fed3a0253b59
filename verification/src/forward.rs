//! Forwarding of a byte stream over a data channel.
//!
//! [`Forwarding`] decides what happens to one forwarded connection, from the wait for its channel
//! to its end. Reading, writing and sleeping are done by its user, who reports what came of them.
use crate::peer::PeerState;
use crate::reliable::{Nanos, MAX_NANOS};
use crate::webrtc_config::SECOND;
use vstd::prelude::*;

verus! {

/// How long a lost connection may take to come back.
pub const DISCONNECT_GRACE: u128 = 15000000000;

/// How long the remote side may go on after the local input has ended.
pub const DRAIN_TIMEOUT: u128 = 5000000000;

/// How long a channel may take to open, in seconds, if nothing else is configured.
pub const DEFAULT_CONNECT_TIMEOUT: u32 = 30;

/// How much went through a forwarding, or through several together. The counters wrap around.
#[derive(Debug, Clone, Copy, PartialEq, Eq, Structural)]
pub struct ForwardStats {
    pub bytes_sent: u64,
    pub bytes_recv: u64,
    pub packets_sent: u64,
    pub packets_recv: u64,
}

/// `a + b` on a counter of 64 bits.
pub open spec fn wrapped(a: int, b: int) -> u64 {
    ((a + b) % 0x10000000000000000) as u64
}

impl ForwardStats {
    /// The counters after a packet of `n` bytes was sent.
    pub open spec fn after_sent(self, n: int) -> ForwardStats {
        ForwardStats {
            bytes_sent: wrapped(self.bytes_sent as int, n),
            packets_sent: wrapped(self.packets_sent as int, 1),
            ..self
        }
    }

    /// The counters after a packet of `n` bytes was received.
    pub open spec fn after_recv(self, n: int) -> ForwardStats {
        ForwardStats {
            bytes_recv: wrapped(self.bytes_recv as int, n),
            packets_recv: wrapped(self.packets_recv as int, 1),
            ..self
        }
    }

    /// Counts a packet of `n` bytes as sent.
    pub fn note_sent(&mut self, n: u64)
        ensures
            *final(self) == old(self).after_sent(n as int),
    {
        self.bytes_sent = self.bytes_sent.wrapping_add(n);
        self.packets_sent = self.packets_sent.wrapping_add(1);
    }

    /// Counts a packet of `n` bytes as received.
    pub fn note_recv(&mut self, n: u64)
        ensures
            *final(self) == old(self).after_recv(n as int),
    {
        self.bytes_recv = self.bytes_recv.wrapping_add(n);
        self.packets_recv = self.packets_recv.wrapping_add(1);
    }
}

impl Default for ForwardStats {
    fn default() -> (r: ForwardStats)
        ensures
            r == (ForwardStats {
                bytes_sent: 0,
                bytes_recv: 0,
                packets_sent: 0,
                packets_recv: 0,
            }),
    {
        ForwardStats { bytes_sent: 0, bytes_recv: 0, packets_sent: 0, packets_recv: 0 }
    }
}

/// Turns totals into what was added since the last look at them.
#[derive(Debug, Clone, Copy, PartialEq, Eq, Structural)]
pub struct RateMeter {
    pub prev_sent: u64,
    pub prev_recv: u64,
}

/// `a - b`, or zero if that is negative.
pub open spec fn growth(a: u64, b: u64) -> u64 {
    if a > b {
        (a - b) as u64
    } else {
        0
    }
}

impl RateMeter {
    /// A meter that has seen nothing yet.
    pub fn new() -> (r: RateMeter)
        ensures
            r == (RateMeter { prev_sent: 0, prev_recv: 0 }),
    {
        RateMeter { prev_sent: 0, prev_recv: 0 }
    }

    /// Takes in the totals and gives what was sent and received since the last time.
    pub fn advance(&mut self, sent: u64, recv: u64) -> (r: (u64, u64))
        ensures
            r == (growth(sent, old(self).prev_sent), growth(recv, old(self).prev_recv)),
            *final(self) == (RateMeter { prev_sent: sent, prev_recv: recv }),
    {
        let d_sent: u64 = if sent > self.prev_sent {
            sent - self.prev_sent
        } else {
            0
        };
        let d_recv: u64 = if recv > self.prev_recv {
            recv - self.prev_recv
        } else {
            0
        };
        self.prev_sent = sent;
        self.prev_recv = recv;
        (d_sent, d_recv)
    }
}

/// How the peer connection of a forwarding is doing.
#[derive(Debug, Clone, Copy, PartialEq, Eq, Structural)]
pub enum Link {
    /// Nothing is wrong.
    Up,
    /// The peer is gone, and has until `deadline` to come back.
    Grace { deadline: Nanos },
    /// Nothing more will be heard of the connection.
    Unwatched,
}

/// Where a forwarding stands.
#[derive(Debug, Clone, Copy, PartialEq, Eq, Structural)]
pub enum Phase {
    /// The data channel is not open yet.
    Opening,
    /// Data goes both ways.
    Running(Link),
    /// The local input has ended; the remote side may go on for a while.
    Draining,
    /// It is over.
    Finished,
}

/// What happens to a forwarding.
#[derive(Debug, Clone, Copy, PartialEq, Eq, Structural)]
pub enum ForwardEvent {
    /// The data channel is open.
    ChannelOpen,
    /// A message of `len` bytes came over the data channel. An empty one marks the end of the
    /// remote stream.
    ChannelMessage { len: usize },
    /// The data channel was closed.
    ChannelClose,
    /// There will be no more events of the data channel.
    ChannelEnded,
    /// The channel did not open in time.
    OpenTimedOut,
    /// The peer connection has changed its state.
    Peer(PeerState),
    /// There will be no more states of the peer connection.
    PeerWatchEnded,
    /// The time for the peer to come back is over.
    GraceElapsed,
    /// `len` bytes were read from the local input. None means that it has ended.
    InputRead { len: usize },
    /// The local input cannot be read, or what was read could not be sent.
    InputFailed,
    /// The local output takes nothing more.
    OutputEnded,
    /// The time for the remote side to go on is over.
    DrainElapsed,
}

/// What to do about a [`ForwardEvent`].
#[derive(Debug, Clone, Copy, PartialEq, Eq, Structural)]
pub enum ForwardAction {
    /// Nothing.
    Wait,
    /// The channel is open: start to read the input and to watch the peer connection.
    Start,
    /// Write the message that came to the local output.
    Deliver,
    /// Send the bytes that were read over the data channel.
    Send { len: usize },
    /// Nothing more comes for the output over this channel.
    CloseOutput,
    /// Report [`ForwardEvent::GraceElapsed`] at `deadline`.
    AwaitPeer { deadline: Nanos },
    /// Stop waiting for the peer: it is back.
    PeerBack,
    /// Report [`ForwardEvent::DrainElapsed`] after [`DRAIN_TIMEOUT`].
    Drain,
    /// End the forwarding; nothing is wrong.
    Finish,
    /// End the forwarding with the error of [`open_timeout_message`].
    FailOpening,
}

/// What is said when a channel does not open in time.
pub open spec fn open_timeout_error() -> Seq<char> {
    "Data channel open timeout"@
}

/// What is said when a channel does not open in time.
pub fn open_timeout_message() -> (r: &'static str)
    ensures
        r@ == open_timeout_error(),
{
    "Data channel open timeout"
}

/// How long a channel may take to open, in nanoseconds.
pub open spec fn open_timeout(configured: Option<u32>) -> Nanos {
    match configured {
        Some(s) => (s * SECOND) as u128,
        None => (DEFAULT_CONNECT_TIMEOUT * SECOND) as u128,
    }
}

/// How long a channel may take to open.
pub fn connect_timeout(configured: Option<u32>) -> (r: Nanos)
    ensures
        r == open_timeout(configured),
{
    match configured {
        Some(s) => s as u128 * SECOND,
        None => DEFAULT_CONNECT_TIMEOUT as u128 * SECOND,
    }
}

/// What a peer state means for a connection that is watched, at `now`. `None` means that the
/// connection is dead.
pub open spec fn link_after(link: Link, state: PeerState, now: Nanos) -> Option<Link> {
    match link {
        Link::Up => if state.lost() {
            None
        } else if state is Disconnected {
            Some(Link::Grace { deadline: (now + DISCONNECT_GRACE) as u128 })
        } else {
            Some(Link::Up)
        },
        Link::Grace { deadline } => if state.lost() {
            None
        } else if state is Connected {
            Some(Link::Up)
        } else {
            Some(Link::Grace { deadline })
        },
        Link::Unwatched => Some(Link::Unwatched),
    }
}

/// What an event at `now` leads to: the next phase, and what to do.
pub open spec fn forward_step(phase: Phase, event: ForwardEvent, now: Nanos) -> (
    Phase,
    ForwardAction,
) {
    match phase {
        Phase::Finished => (Phase::Finished, ForwardAction::Wait),
        Phase::Opening => match event {
            ForwardEvent::ChannelOpen => (Phase::Running(Link::Up), ForwardAction::Start),
            ForwardEvent::ChannelMessage { len } if len > 0 => (phase, ForwardAction::Deliver),
            ForwardEvent::ChannelMessage { .. } | ForwardEvent::ChannelClose
            | ForwardEvent::ChannelEnded => (Phase::Finished, ForwardAction::Finish),
            ForwardEvent::OpenTimedOut => (Phase::Finished, ForwardAction::FailOpening),
            _ => (phase, ForwardAction::Wait),
        },
        Phase::Running(link) => match event {
            ForwardEvent::ChannelMessage { len } if len > 0 => (phase, ForwardAction::Deliver),
            ForwardEvent::ChannelMessage { .. } | ForwardEvent::ChannelClose
            | ForwardEvent::OutputEnded => (Phase::Finished, ForwardAction::Finish),
            ForwardEvent::ChannelEnded => (phase, ForwardAction::CloseOutput),
            ForwardEvent::Peer(state) => match link_after(link, state, now) {
                None => (Phase::Finished, ForwardAction::Finish),
                Some(next) => (
                    Phase::Running(next),
                    match (link, next) {
                        (Link::Up, Link::Grace { deadline }) => ForwardAction::AwaitPeer { deadline },
                        (Link::Grace { .. }, Link::Up) => ForwardAction::PeerBack,
                        _ => ForwardAction::Wait,
                    },
                ),
            },
            ForwardEvent::PeerWatchEnded => match link {
                Link::Grace { .. } => (Phase::Finished, ForwardAction::Finish),
                _ => (Phase::Running(Link::Unwatched), ForwardAction::Wait),
            },
            ForwardEvent::GraceElapsed => match link {
                Link::Grace { .. } => (Phase::Finished, ForwardAction::Finish),
                _ => (phase, ForwardAction::Wait),
            },
            ForwardEvent::InputRead { len } if len > 0 => (phase, ForwardAction::Send { len }),
            ForwardEvent::InputRead { .. } | ForwardEvent::InputFailed => (
                Phase::Draining,
                ForwardAction::Drain,
            ),
            _ => (phase, ForwardAction::Wait),
        },
        Phase::Draining => match event {
            ForwardEvent::ChannelMessage { len } if len > 0 => (phase, ForwardAction::Deliver),
            ForwardEvent::ChannelMessage { .. } | ForwardEvent::ChannelClose
            | ForwardEvent::OutputEnded | ForwardEvent::DrainElapsed => (
                Phase::Finished,
                ForwardAction::Finish,
            ),
            ForwardEvent::ChannelEnded => (phase, ForwardAction::CloseOutput),
            _ => (phase, ForwardAction::Wait),
        },
    }
}

/// The counters after an event that led to `action`.
pub open spec fn counted(
    stats: ForwardStats,
    event: ForwardEvent,
    action: ForwardAction,
) -> ForwardStats {
    match (event, action) {
        (ForwardEvent::ChannelMessage { len }, ForwardAction::Deliver) => stats.after_recv(
            len as int,
        ),
        (_, ForwardAction::Send { len }) => stats.after_sent(len as int),
        _ => stats,
    }
}

/// One forwarded connection.
#[derive(Debug, Clone, Copy, PartialEq, Eq, Structural)]
pub struct Forwarding {
    pub phase: Phase,
}

fn peer_changed(link: Link, state: PeerState, now: Nanos) -> (r: (Phase, ForwardAction))
    requires
        now <= MAX_NANOS,
    ensures
        r == forward_step(Phase::Running(link), ForwardEvent::Peer(state), now),
{
    match link {
        Link::Up => {
            if state.is_lost() {
                (Phase::Finished, ForwardAction::Finish)
            } else if state == PeerState::Disconnected {
                let deadline: Nanos = now + DISCONNECT_GRACE;
                (Phase::Running(Link::Grace { deadline }), ForwardAction::AwaitPeer { deadline })
            } else {
                (Phase::Running(Link::Up), ForwardAction::Wait)
            }
        },
        Link::Grace { deadline } => {
            if state.is_lost() {
                (Phase::Finished, ForwardAction::Finish)
            } else if state == PeerState::Connected {
                (Phase::Running(Link::Up), ForwardAction::PeerBack)
            } else {
                (Phase::Running(Link::Grace { deadline }), ForwardAction::Wait)
            }
        },
        Link::Unwatched => (Phase::Running(Link::Unwatched), ForwardAction::Wait),
    }
}

fn decide(phase: Phase, event: ForwardEvent, now: Nanos) -> (r: (Phase, ForwardAction))
    requires
        now <= MAX_NANOS,
    ensures
        r == forward_step(phase, event, now),
{
    match phase {
        Phase::Finished => (Phase::Finished, ForwardAction::Wait),
        Phase::Opening => match event {
            ForwardEvent::ChannelOpen => (Phase::Running(Link::Up), ForwardAction::Start),
            ForwardEvent::ChannelMessage { len } => if len > 0 {
                (phase, ForwardAction::Deliver)
            } else {
                (Phase::Finished, ForwardAction::Finish)
            },
            ForwardEvent::ChannelClose | ForwardEvent::ChannelEnded => (
                Phase::Finished,
                ForwardAction::Finish,
            ),
            ForwardEvent::OpenTimedOut => (Phase::Finished, ForwardAction::FailOpening),
            _ => (phase, ForwardAction::Wait),
        },
        Phase::Running(link) => match event {
            ForwardEvent::ChannelMessage { len } => if len > 0 {
                (phase, ForwardAction::Deliver)
            } else {
                (Phase::Finished, ForwardAction::Finish)
            },
            ForwardEvent::ChannelClose | ForwardEvent::OutputEnded => (
                Phase::Finished,
                ForwardAction::Finish,
            ),
            ForwardEvent::ChannelEnded => (phase, ForwardAction::CloseOutput),
            ForwardEvent::Peer(state) => peer_changed(link, state, now),
            ForwardEvent::PeerWatchEnded => match link {
                Link::Grace { .. } => (Phase::Finished, ForwardAction::Finish),
                _ => (Phase::Running(Link::Unwatched), ForwardAction::Wait),
            },
            ForwardEvent::GraceElapsed => match link {
                Link::Grace { .. } => (Phase::Finished, ForwardAction::Finish),
                _ => (phase, ForwardAction::Wait),
            },
            ForwardEvent::InputRead { len } => if len > 0 {
                (phase, ForwardAction::Send { len })
            } else {
                (Phase::Draining, ForwardAction::Drain)
            },
            ForwardEvent::InputFailed => (Phase::Draining, ForwardAction::Drain),
            _ => (phase, ForwardAction::Wait),
        },
        Phase::Draining => match event {
            ForwardEvent::ChannelMessage { len } => if len > 0 {
                (phase, ForwardAction::Deliver)
            } else {
                (Phase::Finished, ForwardAction::Finish)
            },
            ForwardEvent::ChannelClose | ForwardEvent::OutputEnded | ForwardEvent::DrainElapsed => (
                Phase::Finished,
                ForwardAction::Finish,
            ),
            ForwardEvent::ChannelEnded => (phase, ForwardAction::CloseOutput),
            _ => (phase, ForwardAction::Wait),
        },
    }
}

impl Forwarding {
    /// A forwarding whose data channel is not open yet.
    pub fn new() -> (r: Forwarding)
        ensures
            r.phase == Phase::Opening,
    {
        Forwarding { phase: Phase::Opening }
    }

    /// Takes in an event at the time `now`, says what to do, and counts what goes through.
    pub fn step(&mut self, stats: &mut ForwardStats, event: ForwardEvent, now: Nanos) -> (r:
        ForwardAction)
        requires
            now <= MAX_NANOS,
        ensures
            (final(self).phase, r) == forward_step(old(self).phase, event, now),
            *final(stats) == counted(*old(stats), event, r),
    {
        let (phase, action) = decide(self.phase, event, now);
        self.phase = phase;
        match action {
            ForwardAction::Deliver => {
                if let ForwardEvent::ChannelMessage { len } = event {
                    stats.note_recv(len as u64);
                }
            },
            ForwardAction::Send { len } => {
                stats.note_sent(len as u64);
            },
            _ => {},
        }
        action
    }
}

/// What is said when the local input ends, if the connection was lost before.
pub open spec fn input_end_warning(
    state: PeerState,
    channel_closed: bool,
    reason: Option<Seq<char>>,
) -> Option<Seq<char>> {
    if state.lost() || channel_closed {
        Some(
            "Connection lost: remote WebRTC disconnected"@ + (match reason {
                Some(r) => " ("@ + r + ")"@,
                None => ""@,
            }) + " — session terminated"@,
        )
    } else {
        None
    }
}

/// What to say when the local input ends: nothing, or that the connection was lost before.
pub fn input_end_message(
    state: PeerState,
    channel_closed: bool,
    reason: Option<&str>,
) -> (r: Option<String>)
    ensures
        r.deep_view() == input_end_warning(
            state,
            channel_closed,
            match reason {
                Some(t) => Some(t@),
                None => None,
            },
        ),
{
    if state.is_lost() || channel_closed {
        let why = match reason {
            Some(t) => " (".to_owned().concat(t).concat(")"),
            None => "".to_owned(),
        };
        Some(
            "Connection lost: remote WebRTC disconnected".to_owned().concat(why.as_str()).concat(
                " — session terminated",
            ),
        )
    } else {
        None
    }
}

/// What comes over a data channel that the peer has opened.
#[derive(Debug, Clone, Copy, PartialEq, Eq, Structural)]
pub enum RemoteChannelEvent {
    Open,
    Message,
    Close,
}

/// What to do about a [`RemoteChannelEvent`].
#[derive(Debug, Clone, Copy, PartialEq, Eq, Structural)]
pub enum RemoteChannelAction {
    /// Hand the message on to the output.
    Forward,
    /// Stop listening to the channel.
    Stop,
    /// Nothing.
    Ignore,
}

/// What to do about an event of a data channel that the peer has opened.
pub fn remote_channel(event: RemoteChannelEvent) -> (r: RemoteChannelAction)
    ensures
        r is Forward <==> event is Message,
        r is Stop <==> event is Close,
{
    match event {
        RemoteChannelEvent::Message => RemoteChannelAction::Forward,
        RemoteChannelEvent::Close => RemoteChannelAction::Stop,
        RemoteChannelEvent::Open => RemoteChannelAction::Ignore,
    }
}

/// What becomes of a forwarding when events come one after the other.
#[verifier::ext_equal]
pub struct ForwardRun {
    pub phase: Phase,
    pub stats: ForwardStats,
    pub actions: Seq<ForwardAction>,
}

/// A forwarding that takes in `events`, each with its time.
pub open spec fn forward_run(
    phase: Phase,
    stats: ForwardStats,
    events: Seq<(ForwardEvent, Nanos)>,
) -> ForwardRun
    decreases events.len(),
{
    if events.len() == 0 {
        ForwardRun { phase, stats, actions: Seq::empty() }
    } else {
        let before = forward_run(phase, stats, events.drop_last());
        let (event, now) = events.last();
        let (next, action) = forward_step(before.phase, event, now);
        ForwardRun {
            phase: next,
            stats: counted(before.stats, event, action),
            actions: before.actions.push(action),
        }
    }
}

/// How many bytes of the messages of `events` were delivered.
pub open spec fn delivered(events: Seq<(ForwardEvent, Nanos)>, actions: Seq<ForwardAction>) -> int
    decreases events.len(),
{
    if events.len() == 0 || actions.len() != events.len() {
        0
    } else {
        delivered(events.drop_last(), actions.drop_last()) + match (
            events.last().0,
            actions.last(),
        ) {
            (ForwardEvent::ChannelMessage { len }, ForwardAction::Deliver) => len as int,
            _ => 0,
        }
    }
}

/// How many bytes were sent.
pub open spec fn handed_over(actions: Seq<ForwardAction>) -> int
    decreases actions.len(),
{
    if actions.len() == 0 {
        0
    } else {
        handed_over(actions.drop_last()) + match actions.last() {
            ForwardAction::Send { len } => len as int,
            _ => 0,
        }
    }
}

/// How many packets were delivered.
pub open spec fn deliveries(actions: Seq<ForwardAction>) -> int
    decreases actions.len(),
{
    if actions.len() == 0 {
        0
    } else {
        deliveries(actions.drop_last()) + if actions.last() is Deliver {
            1int
        } else {
            0
        }
    }
}

/// How many packets were sent.
pub open spec fn sendings(actions: Seq<ForwardAction>) -> int
    decreases actions.len(),
{
    if actions.len() == 0 {
        0
    } else {
        sendings(actions.drop_last()) + if actions.last() is Send {
            1int
        } else {
            0
        }
    }
}

/// The counters hold, modulo their width, exactly the bytes and the packets that were delivered and
/// sent.
pub proof fn law_counters_add_up(
    phase: Phase,
    stats: ForwardStats,
    events: Seq<(ForwardEvent, Nanos)>,
)
    ensures
        ({
            let run = forward_run(phase, stats, events);
            &&& run.actions.len() == events.len()
            &&& run.stats.bytes_recv == wrapped(
                stats.bytes_recv as int,
                delivered(events, run.actions),
            )
            &&& run.stats.bytes_sent == wrapped(stats.bytes_sent as int, handed_over(run.actions))
            &&& run.stats.packets_recv == wrapped(
                stats.packets_recv as int,
                deliveries(run.actions),
            )
            &&& run.stats.packets_sent == wrapped(stats.packets_sent as int, sendings(run.actions))
            &&& delivered(events, run.actions) >= 0
            &&& handed_over(run.actions) >= 0
            &&& deliveries(run.actions) >= 0
            &&& sendings(run.actions) >= 0
        }),
    decreases events.len(),
{
    if events.len() > 0 {
        law_counters_add_up(phase, stats, events.drop_last());
        let before = forward_run(phase, stats, events.drop_last());
        let run = forward_run(phase, stats, events);
        assert(run.actions.drop_last() =~= before.actions);
        let (event, now) = events.last();
        let action = forward_step(before.phase, event, now).1;
        lemma_wrapped_adds(
            stats.bytes_recv as int,
            delivered(events.drop_last(), before.actions),
            match (event, action) {
                (ForwardEvent::ChannelMessage { len }, ForwardAction::Deliver) => len as int,
                _ => 0,
            },
        );
        lemma_wrapped_adds(
            stats.bytes_sent as int,
            handed_over(before.actions),
            match action {
                ForwardAction::Send { len } => len as int,
                _ => 0,
            },
        );
        lemma_wrapped_adds(
            stats.packets_recv as int,
            deliveries(before.actions),
            if action is Deliver {
                1int
            } else {
                0
            },
        );
        lemma_wrapped_adds(
            stats.packets_sent as int,
            sendings(before.actions),
            if action is Send {
                1int
            } else {
                0
            },
        );
    }
}

proof fn lemma_wrapped_adds(a: int, b: int, c: int)
    requires
        a >= 0,
        b >= 0,
        c >= 0,
    ensures
        wrapped(wrapped(a, b) as int, c) == wrapped(a, b + c),
        0 <= a < 0x10000000000000000 ==> wrapped(a, 0) == a,
{
    vstd::arithmetic::div_mod::lemma_add_mod_noop(a + b, c, 0x10000000000000000);
    vstd::arithmetic::div_mod::lemma_add_mod_noop((a + b) % 0x10000000000000000, c, 0x10000000000000000);
    vstd::arithmetic::div_mod::lemma_mod_twice(a + b, 0x10000000000000000);
}

/// Once a forwarding is over it stays over: nothing more is delivered, sent or counted.
pub proof fn law_finished_is_final(stats: ForwardStats, events: Seq<(ForwardEvent, Nanos)>)
    ensures
        ({
            let run = forward_run(Phase::Finished, stats, events);
            &&& run.phase == Phase::Finished
            &&& run.stats == stats
            &&& forall|i: int| 0 <= i < run.actions.len() ==> run.actions[i] == ForwardAction::Wait
        }),
    decreases events.len(),
{
    if events.len() > 0 {
        law_finished_is_final(stats, events.drop_last());
    }
}

/// The marker for the end of the remote stream ends a forwarding in every phase, and is never
/// delivered.
pub proof fn law_end_marker_finishes(phase: Phase, now: Nanos)
    ensures
        forward_step(phase, ForwardEvent::ChannelMessage { len: 0 }, now).0 == Phase::Finished,
        forward_step(phase, ForwardEvent::ChannelMessage { len: 0 }, now).1 != ForwardAction::Deliver,
{
}

/// Nothing is sent before the channel is open or after the input has ended, and nothing of the
/// remote stream is lost before the end: every message that is not empty is delivered.
pub proof fn law_data_flows_only_when_it_should(phase: Phase, event: ForwardEvent, now: Nanos)
    ensures
        forward_step(phase, event, now).1 is Send ==> phase is Running && event is InputRead,
        event matches ForwardEvent::ChannelMessage { len } && len > 0 && phase != Phase::Finished
            ==> forward_step(phase, event, now) == (phase, ForwardAction::Deliver),
{
}

/// A peer that comes back within its grace leaves the forwarding as if it had never been gone.
pub proof fn law_peer_may_come_back(now: Nanos, later: Nanos)
    ensures
        ({
            let gone = forward_step(
                Phase::Running(Link::Up),
                ForwardEvent::Peer(PeerState::Disconnected),
                now,
            ).0;
            &&& gone == Phase::Running(
                Link::Grace { deadline: (now + DISCONNECT_GRACE) as u128 },
            )
            &&& forward_step(gone, ForwardEvent::Peer(PeerState::Connected), later) == (
                Phase::Running(Link::Up),
                ForwardAction::PeerBack,
            )
            &&& forward_step(gone, ForwardEvent::GraceElapsed, later).0 == Phase::Finished
        }),
{
}

/// Nothing of the local input is lost: whatever state the peer connection is in, a read of some
/// bytes leads to sending exactly these bytes, and the forwarding goes on as it was.
pub proof fn law_input_is_sent_whole(link: Link, len: usize, now: Nanos)
    requires
        len > 0,
    ensures
        forward_step(Phase::Running(link), ForwardEvent::InputRead { len }, now) == (
            Phase::Running(link),
            ForwardAction::Send { len },
        ),
{
}

/// How many bytes were read from the local input while data went both ways.
pub open spec fn read_while_running(
    phase: Phase,
    stats: ForwardStats,
    events: Seq<(ForwardEvent, Nanos)>,
) -> int
    decreases events.len(),
{
    if events.len() == 0 {
        0
    } else {
        read_while_running(phase, stats, events.drop_last()) + match events.last().0 {
            ForwardEvent::InputRead { len } if forward_run(
                phase,
                stats,
                events.drop_last(),
            ).phase is Running => len as int,
            _ => 0,
        }
    }
}

/// How many bytes came over the data channel before the forwarding was over.
pub open spec fn came_before_the_end(
    phase: Phase,
    stats: ForwardStats,
    events: Seq<(ForwardEvent, Nanos)>,
) -> int
    decreases events.len(),
{
    if events.len() == 0 {
        0
    } else {
        came_before_the_end(phase, stats, events.drop_last()) + match events.last().0 {
            ForwardEvent::ChannelMessage { len } if !(forward_run(
                phase,
                stats,
                events.drop_last(),
            ).phase is Finished) => len as int,
            _ => 0,
        }
    }
}

/// Over a run, the bytes that are sent are those that were read while data went both ways, and the
/// bytes that are delivered are those that came before the end. The byte counters grow by as much,
/// modulo their width.
pub proof fn law_no_byte_is_lost(
    phase: Phase,
    stats: ForwardStats,
    events: Seq<(ForwardEvent, Nanos)>,
)
    ensures
        ({
            let run = forward_run(phase, stats, events);
            let sent = read_while_running(phase, stats, events);
            let came = came_before_the_end(phase, stats, events);
            &&& handed_over(run.actions) == sent
            &&& delivered(events, run.actions) == came
            &&& run.stats.bytes_sent == (stats.bytes_sent + sent) % 0x10000000000000000
            &&& run.stats.bytes_recv == (stats.bytes_recv + came) % 0x10000000000000000
        }),
    decreases events.len(),
{
    law_counters_add_up(phase, stats, events);
    if events.len() > 0 {
        law_no_byte_is_lost(phase, stats, events.drop_last());
        law_counters_add_up(phase, stats, events.drop_last());
        let before = forward_run(phase, stats, events.drop_last());
        let run = forward_run(phase, stats, events);
        assert(run.actions.drop_last() =~= before.actions);
    }
}

/// Every packet is counted once, on the side that it went: reading some bytes while data goes both
/// ways counts them as sent, a message before the end counts its bytes as received, and nothing
/// else is counted.
pub proof fn law_each_event_is_counted(
    phase: Phase,
    stats: ForwardStats,
    event: ForwardEvent,
    now: Nanos,
)
    ensures
        ({
            let after = counted(stats, event, forward_step(phase, event, now).1);
            let sent: int = match event {
                ForwardEvent::InputRead { len } if phase is Running => len as int,
                _ => 0,
            };
            let came: int = match event {
                ForwardEvent::ChannelMessage { len } if !(phase is Finished) => len as int,
                _ => 0,
            };
            &&& after.bytes_sent == (stats.bytes_sent + sent) % 0x10000000000000000
            &&& after.bytes_recv == (stats.bytes_recv + came) % 0x10000000000000000
            &&& after.packets_sent == (stats.packets_sent + if sent > 0 {
                1int
            } else {
                0
            }) % 0x10000000000000000
            &&& after.packets_recv == (stats.packets_recv + if came > 0 {
                1int
            } else {
                0
            }) % 0x10000000000000000
        }),
{
}

/// Nothing goes out before the channel is open. Opening it starts the forwarding; not opening it in
/// time is an error; a channel that goes before it was open ends the forwarding without one. All
/// else is waited out.
pub proof fn law_opening(event: ForwardEvent, now: Nanos)
    ensures
        ({
            let (next, action) = forward_step(Phase::Opening, event, now);
            &&& event is ChannelOpen ==> next == Phase::Running(Link::Up) && action
                == ForwardAction::Start
            &&& event is OpenTimedOut ==> next == Phase::Finished && action
                == ForwardAction::FailOpening
            &&& event is ChannelClose || event is ChannelEnded ==> next == Phase::Finished && action
                == ForwardAction::Finish
            &&& event is Peer || event is PeerWatchEnded || event is GraceElapsed
                || event is InputRead || event is InputFailed || event is OutputEnded
                || event is DrainElapsed ==> next == Phase::Opening && action == ForwardAction::Wait
        }),
{
}

/// Only the channel, the output, a lost peer, or one of the time limits ends a forwarding, and only
/// the limit for opening ends it with an error.
pub proof fn law_only_an_end_ends(phase: Phase, event: ForwardEvent, now: Nanos)
    requires
        phase != Phase::Finished,
    ensures
        ({
            let (next, action) = forward_step(phase, event, now);
            &&& next == Phase::Finished <==> action is Finish || action is FailOpening
            &&& action is FailOpening <==> phase is Opening && event is OpenTimedOut
            &&& next == Phase::Finished <==> match event {
                ForwardEvent::ChannelMessage { len } => len == 0,
                ForwardEvent::ChannelClose => true,
                ForwardEvent::ChannelEnded | ForwardEvent::OpenTimedOut => phase is Opening,
                ForwardEvent::OutputEnded => !(phase is Opening),
                ForwardEvent::DrainElapsed => phase is Draining,
                ForwardEvent::GraceElapsed | ForwardEvent::PeerWatchEnded => phase matches Phase::Running(
                    Link::Grace { .. },
                ),
                ForwardEvent::Peer(state) => (state is Failed || state is Closed) && (phase
                    == Phase::Running(Link::Up) || phase matches Phase::Running(Link::Grace { .. })),
                ForwardEvent::ChannelOpen | ForwardEvent::InputRead { .. }
                | ForwardEvent::InputFailed => false,
            }
        }),
{
}

/// When the local input ends or fails, the remote side may go on for a while: the forwarding drains,
/// whatever state the peer connection is in. While it drains, what comes is still delivered,
/// nothing is sent, and the peer connection is not looked at any more.
pub proof fn law_input_end_drains(link: Link, event: ForwardEvent, now: Nanos)
    ensures
        event == (ForwardEvent::InputRead { len: 0 }) || event is InputFailed ==> forward_step(
            Phase::Running(link),
            event,
            now,
        ) == (Phase::Draining, ForwardAction::Drain),
        event matches ForwardEvent::ChannelMessage { len } && len > 0 ==> forward_step(
            Phase::Draining,
            event,
            now,
        ) == (Phase::Draining, ForwardAction::Deliver),
        event is Peer || event is PeerWatchEnded || event is GraceElapsed || event is InputRead
            || event is InputFailed || event is ChannelOpen || event is OpenTimedOut ==> forward_step(
            Phase::Draining,
            event,
            now,
        ) == (Phase::Draining, ForwardAction::Wait),
        event is ChannelEnded ==> forward_step(Phase::Draining, event, now) == (
            Phase::Draining,
            ForwardAction::CloseOutput,
        ),
        event is ChannelEnded ==> forward_step(Phase::Running(link), event, now) == (
            Phase::Running(link),
            ForwardAction::CloseOutput,
        ),
        DRAIN_TIMEOUT == 5 * 1000000000,
{
}

/// A peer that is gone has fifteen seconds from that moment to come back. Until then nothing but its
/// return, its loss or the end of the time changes that, and a second report of its absence does
/// not give it more time.
pub proof fn law_grace_is_fifteen_seconds(now: Nanos, deadline: Nanos, state: PeerState)
    requires
        now <= MAX_NANOS,
    ensures
        ({
            let (next, action) = forward_step(
                Phase::Running(Link::Up),
                ForwardEvent::Peer(PeerState::Disconnected),
                now,
            );
            &&& next matches Phase::Running(Link::Grace { deadline: d }) && d == now + 15 * 1000000000
            &&& action matches ForwardAction::AwaitPeer { deadline: d } && d == now + 15 * 1000000000
        }),
        state is New || state is Connecting || state is Disconnected ==> forward_step(
            Phase::Running(Link::Grace { deadline }),
            ForwardEvent::Peer(state),
            now,
        ) == (Phase::Running(Link::Grace { deadline }), ForwardAction::Wait),
        state is Connected ==> forward_step(
            Phase::Running(Link::Grace { deadline }),
            ForwardEvent::Peer(state),
            now,
        ) == (Phase::Running(Link::Up), ForwardAction::PeerBack),
        state is New || state is Connecting || state is Connected ==> forward_step(
            Phase::Running(Link::Up),
            ForwardEvent::Peer(state),
            now,
        ) == (Phase::Running(Link::Up), ForwardAction::Wait),
        forward_step(Phase::Running(Link::Unwatched), ForwardEvent::Peer(state), now) == (
            Phase::Running(Link::Unwatched),
            ForwardAction::Wait,
        ),
        forward_step(Phase::Running(Link::Up), ForwardEvent::PeerWatchEnded, now) == (
            Phase::Running(Link::Unwatched),
            ForwardAction::Wait,
        ),
        forward_step(Phase::Running(Link::Unwatched), ForwardEvent::PeerWatchEnded, now) == (
            Phase::Running(Link::Unwatched),
            ForwardAction::Wait,
        ),
        forward_step(Phase::Running(Link::Up), ForwardEvent::GraceElapsed, now) == (
            Phase::Running(Link::Up),
            ForwardAction::Wait,
        ),
{
}

/// What is configured for opening a channel is a number of seconds; without it there are thirty.
pub proof fn law_open_timeout_is_in_seconds(s: u32)
    ensures
        open_timeout(Some(s)) == s * 1000000000,
        open_timeout(None) == 30 * 1000000000,
{
}

/// What is added between two looks at a total is their difference, so the parts of a total that
/// only grows add up to the whole. A total that starts anew adds nothing.
pub proof fn law_growth_adds_up(a: u64, b: u64, c: u64)
    ensures
        a <= b <= c ==> growth(b, a) + growth(c, b) == c - a,
        a <= b ==> growth(b, a) == b - a,
        b < a ==> growth(b, a) == 0,
{
}

/// The end of the input is reported as the loss of the connection exactly if the peer is lost or the
/// channel was closed, and the report names the reason where there is one.
pub proof fn law_lost_connection_is_reported(
    state: PeerState,
    channel_closed: bool,
    reason: Option<Seq<char>>,
)
    ensures
        input_end_warning(state, channel_closed, reason) is Some <==> state is Failed
            || state is Closed || channel_closed,
        (state is Failed || state is Closed || channel_closed) && reason is Some
            ==> input_end_warning(state, channel_closed, reason) == Some(
            "Connection lost: remote WebRTC disconnected"@ + (" ("@ + reason->Some_0 + ")"@)
                + " — session terminated"@,
        ),
        reason is None && (state is Failed || state is Closed || channel_closed)
            ==> input_end_warning(state, channel_closed, reason) == Some(
            "Connection lost: remote WebRTC disconnected"@ + ""@ + " — session terminated"@,
        ),
{
}

/// What comes over a channel that the peer has opened goes on to the output, until it is closed.
pub proof fn law_remote_channel(event: RemoteChannelEvent, r: RemoteChannelAction)
    requires
        call_ensures(remote_channel, (event,), r),
    ensures
        r == match event {
            RemoteChannelEvent::Open => RemoteChannelAction::Ignore,
            RemoteChannelEvent::Message => RemoteChannelAction::Forward,
            RemoteChannelEvent::Close => RemoteChannelAction::Stop,
        },
{
}

/// The forwarding itself sends every byte that was read while data goes both ways, and counts it.
pub proof fn law_step_sends_what_was_read(
    forwarding: &mut Forwarding,
    stats: &mut ForwardStats,
    len: usize,
    now: Nanos,
    r: ForwardAction,
)
    requires
        len > 0,
        old(forwarding).phase is Running,
        call_ensures(Forwarding::step, (forwarding, stats, ForwardEvent::InputRead { len }, now), r),
    ensures
        r == (ForwardAction::Send { len }),
        final(forwarding).phase == old(forwarding).phase,
        final(stats).bytes_sent == (old(stats).bytes_sent + len) % 0x10000000000000000,
{
}

/// The forwarding itself delivers every message that is not empty until it is over, and counts it.
pub proof fn law_step_delivers_what_came(
    forwarding: &mut Forwarding,
    stats: &mut ForwardStats,
    len: usize,
    now: Nanos,
    r: ForwardAction,
)
    requires
        len > 0,
        !(old(forwarding).phase is Finished),
        call_ensures(
            Forwarding::step,
            (forwarding, stats, ForwardEvent::ChannelMessage { len }, now),
            r,
        ),
    ensures
        r == ForwardAction::Deliver,
        final(forwarding).phase == old(forwarding).phase,
        final(stats).bytes_recv == (old(stats).bytes_recv + len) % 0x10000000000000000,
{
}

/// A meter gives what was added since it last looked: two looks together give what was added over
/// both, as long as the totals grow.
pub proof fn law_meter_adds_up(
    meter: &mut RateMeter,
    sent: u64,
    recv: u64,
    r: (u64, u64),
)
    requires
        call_ensures(RateMeter::advance, (meter, sent, recv), r),
    ensures
        old(meter).prev_sent <= sent ==> old(meter).prev_sent + r.0 == final(meter).prev_sent,
        old(meter).prev_recv <= recv ==> old(meter).prev_recv + r.1 == final(meter).prev_recv,
        sent < old(meter).prev_sent ==> r.0 == 0,
        recv < old(meter).prev_recv ==> r.1 == 0,
        final(meter).prev_sent == sent && final(meter).prev_recv == recv,
{
}

} // verus!

use rport::forward::{
    connect_timeout, input_end_message, open_timeout_message, remote_channel, ForwardAction,
    ForwardEvent, ForwardStats, Forwarding, Link, Phase, RateMeter, RemoteChannelAction,
    RemoteChannelEvent, DISCONNECT_GRACE,
};
use rport::peer::PeerState;

fn running() -> (Forwarding, ForwardStats) {
    let mut f = Forwarding::new();
    let mut stats = ForwardStats::default();
    assert_eq!(f.step(&mut stats, ForwardEvent::ChannelOpen, 0), ForwardAction::Start);
    (f, stats)
}

#[test]
fn data_goes_both_ways_and_is_counted() {
    let (mut f, mut s) = running();
    assert_eq!(
        f.step(&mut s, ForwardEvent::ChannelMessage { len: 7 }, 0),
        ForwardAction::Deliver
    );
    assert_eq!(
        f.step(&mut s, ForwardEvent::ChannelMessage { len: 5 }, 0),
        ForwardAction::Deliver
    );
    assert_eq!(
        f.step(&mut s, ForwardEvent::InputRead { len: 3 }, 0),
        ForwardAction::Send { len: 3 }
    );
    assert_eq!(
        s,
        ForwardStats { bytes_sent: 3, bytes_recv: 12, packets_sent: 1, packets_recv: 2 }
    );
}

#[test]
fn counters_wrap_around() {
    let mut s = ForwardStats {
        bytes_sent: u64::MAX,
        bytes_recv: u64::MAX - 1,
        packets_sent: u64::MAX,
        packets_recv: 0,
    };
    s.note_sent(2);
    s.note_recv(5);
    assert_eq!(
        s,
        ForwardStats { bytes_sent: 1, bytes_recv: 3, packets_sent: 0, packets_recv: 1 }
    );
}

#[test]
fn an_empty_message_is_the_end() {
    for phase in [Phase::Opening, Phase::Running(Link::Up), Phase::Draining] {
        let mut f = Forwarding { phase };
        let mut s = ForwardStats::default();
        assert_eq!(
            f.step(&mut s, ForwardEvent::ChannelMessage { len: 0 }, 0),
            ForwardAction::Finish
        );
        assert_eq!(f.phase, Phase::Finished);
        assert_eq!(s, ForwardStats::default());
    }
}

#[test]
fn the_channel_has_to_open() {
    let mut f = Forwarding::new();
    let mut s = ForwardStats::default();
    assert_eq!(
        f.step(&mut s, ForwardEvent::ChannelMessage { len: 1 }, 0),
        ForwardAction::Deliver
    );
    assert_eq!(f.phase, Phase::Opening);
    assert_eq!(
        f.step(&mut s, ForwardEvent::OpenTimedOut, 0),
        ForwardAction::FailOpening
    );
    assert_eq!(open_timeout_message(), "Data channel open timeout");
    assert_eq!(connect_timeout(None), 30_000_000_000);
    assert_eq!(connect_timeout(Some(2)), 2_000_000_000);
}

#[test]
fn the_input_ends_before_the_output() {
    let (mut f, mut s) = running();
    assert_eq!(
        f.step(&mut s, ForwardEvent::InputRead { len: 0 }, 0),
        ForwardAction::Drain
    );
    assert_eq!(f.phase, Phase::Draining);
    assert_eq!(
        f.step(&mut s, ForwardEvent::ChannelMessage { len: 2 }, 0),
        ForwardAction::Deliver
    );
    assert_eq!(
        f.step(&mut s, ForwardEvent::Peer(PeerState::Failed), 0),
        ForwardAction::Wait
    );
    assert_eq!(
        f.step(&mut s, ForwardEvent::DrainElapsed, 0),
        ForwardAction::Finish
    );
    let (mut g, mut t) = running();
    assert_eq!(g.step(&mut t, ForwardEvent::InputFailed, 0), ForwardAction::Drain);
    assert_eq!(g.step(&mut t, ForwardEvent::OutputEnded, 0), ForwardAction::Finish);
}

#[test]
fn a_peer_may_come_back() {
    let (mut f, mut s) = running();
    assert_eq!(
        f.step(&mut s, ForwardEvent::Peer(PeerState::Disconnected), 100),
        ForwardAction::AwaitPeer { deadline: 100 + DISCONNECT_GRACE }
    );
    assert_eq!(
        f.step(&mut s, ForwardEvent::Peer(PeerState::Connecting), 101),
        ForwardAction::Wait
    );
    assert_eq!(
        f.step(&mut s, ForwardEvent::Peer(PeerState::Connected), 102),
        ForwardAction::PeerBack
    );
    assert_eq!(f.phase, Phase::Running(Link::Up));
    assert_eq!(f.step(&mut s, ForwardEvent::GraceElapsed, 103), ForwardAction::Wait);
}

#[test]
fn a_peer_that_stays_away_ends_the_forwarding() {
    for last in [
        ForwardEvent::GraceElapsed,
        ForwardEvent::PeerWatchEnded,
        ForwardEvent::Peer(PeerState::Failed),
        ForwardEvent::Peer(PeerState::Closed),
    ] {
        let (mut f, mut s) = running();
        let _ = f.step(&mut s, ForwardEvent::Peer(PeerState::Disconnected), 0);
        assert_eq!(f.step(&mut s, last, 1), ForwardAction::Finish);
    }
    let (mut f, mut s) = running();
    assert_eq!(
        f.step(&mut s, ForwardEvent::Peer(PeerState::Closed), 0),
        ForwardAction::Finish
    );
}

#[test]
fn nothing_more_is_heard_of_the_peer() {
    let (mut f, mut s) = running();
    assert_eq!(f.step(&mut s, ForwardEvent::PeerWatchEnded, 0), ForwardAction::Wait);
    assert_eq!(f.phase, Phase::Running(Link::Unwatched));
    assert_eq!(
        f.step(&mut s, ForwardEvent::Peer(PeerState::Failed), 0),
        ForwardAction::Wait
    );
}

#[test]
fn a_channel_that_is_gone_closes_the_output() {
    let (mut f, mut s) = running();
    assert_eq!(
        f.step(&mut s, ForwardEvent::ChannelEnded, 0),
        ForwardAction::CloseOutput
    );
    assert_eq!(f.step(&mut s, ForwardEvent::OutputEnded, 0), ForwardAction::Finish);
    let (mut g, mut t) = running();
    assert_eq!(g.step(&mut t, ForwardEvent::ChannelClose, 0), ForwardAction::Finish);
    let mut h = Forwarding::new();
    assert_eq!(h.step(&mut t, ForwardEvent::ChannelEnded, 0), ForwardAction::Finish);
}

#[test]
fn what_is_over_stays_over() {
    let mut f = Forwarding { phase: Phase::Finished };
    let mut s = ForwardStats::default();
    for event in [
        ForwardEvent::ChannelOpen,
        ForwardEvent::ChannelMessage { len: 9 },
        ForwardEvent::InputRead { len: 9 },
        ForwardEvent::DrainElapsed,
    ] {
        assert_eq!(f.step(&mut s, event, 0), ForwardAction::Wait);
        assert_eq!(f.phase, Phase::Finished);
    }
    assert_eq!(s, ForwardStats::default());
}

#[test]
fn the_end_of_the_input_is_reported() {
    assert_eq!(input_end_message(PeerState::Connected, false, Some("x")), None);
    assert_eq!(
        input_end_message(PeerState::Failed, false, Some("x")).unwrap(),
        "Connection lost: remote WebRTC disconnected (x) — session terminated"
    );
    assert_eq!(
        input_end_message(PeerState::Connected, true, None).unwrap(),
        "Connection lost: remote WebRTC disconnected — session terminated"
    );
}

#[test]
fn channels_that_the_peer_opens() {
    assert_eq!(
        remote_channel(RemoteChannelEvent::Message),
        RemoteChannelAction::Forward
    );
    assert_eq!(remote_channel(RemoteChannelEvent::Close), RemoteChannelAction::Stop);
    assert_eq!(remote_channel(RemoteChannelEvent::Open), RemoteChannelAction::Ignore);
}

#[test]
fn rates_are_what_was_added() {
    let mut m = RateMeter::new();
    assert_eq!(m.advance(10, 20), (10, 20));
    assert_eq!(m.advance(15, 20), (5, 0));
    assert_eq!(m.advance(1, 25), (0, 5));
    assert_eq!(m.advance(2, 25), (1, 0));
}

#[test]
fn packets_add_up() {
    let mut f = Forwarding::new();
    let mut s = ForwardStats { bytes_sent: 0, bytes_recv: 0, packets_sent: u64::MAX, packets_recv: 7 };
    let events = [
        ForwardEvent::ChannelMessage { len: 4 },
        ForwardEvent::ChannelOpen,
        ForwardEvent::InputRead { len: 10 },
        ForwardEvent::ChannelMessage { len: 1 },
        ForwardEvent::InputRead { len: 20 },
        ForwardEvent::InputRead { len: 30 },
        ForwardEvent::InputRead { len: 0 },
        ForwardEvent::ChannelMessage { len: 2 },
        ForwardEvent::ChannelClose,
        ForwardEvent::ChannelMessage { len: 9 },
    ];
    let (mut sent, mut delivered) = (0, 0);
    for event in events {
        match f.step(&mut s, event, 0) {
            ForwardAction::Send { .. } => sent += 1,
            ForwardAction::Deliver => delivered += 1,
            _ => {}
        }
    }
    assert_eq!((sent, delivered), (3, 3));
    assert_eq!(
        s,
        ForwardStats { bytes_sent: 60, bytes_recv: 7, packets_sent: 2, packets_recv: 10 }
    );
}

use solarscape::connection::{decoded, Closed, Error, Event, Frame, Outgoing, PingTracker, Reaction, Step};

#[test]
fn close_frames() {
    assert_eq!(Error::Dropped.close_frame(), (1011, "Internal Error"));
    assert_eq!(Error::Invalid.close_frame(), (1007, "Invalid Data"));
    assert_eq!(Error::TimedOut.close_frame(), (1002, "Timed Out"));
    assert_eq!(Error::Unknown(String::from("boom")).close_frame(), (1011, "Internal Error"));
}

#[test]
fn pong_without_ping_is_invalid() {
    let mut tracker = PingTracker::new();
    assert!(matches!(tracker.pong(&[0; 32], 5), Err(Error::Invalid)));
}

#[test]
fn unanswered_ping_times_out() {
    let mut tracker = PingTracker::new();
    assert!(tracker.ping_due([1; 32]).is_ok());
    assert!(matches!(tracker.ping_due([2; 32]), Err(Error::TimedOut)));
}

#[test]
fn pong_with_other_data_is_invalid() {
    let mut tracker = PingTracker::new();
    assert!(tracker.ping_due([1; 32]).is_ok());
    assert!(matches!(tracker.pong(&[2; 32], 5), Err(Error::Invalid)));
    assert!(matches!(tracker.pong(&[1; 31], 5), Err(Error::Invalid)));
    assert!(matches!(tracker.pong(&[1; 32], 1200), Ok(100)));
}

#[test]
fn latency_is_mean_of_last_twelve_round_trips() {
    let mut tracker = PingTracker::new();
    let mut latency = 0;
    for round in 0..12u8 {
        assert!(tracker.ping_due([round; 32]).is_ok());
        latency = match tracker.pong(&[round; 32], 12) {
            Ok(latency) => latency,
            Err(_) => panic!("pong refused"),
        };
    }
    assert_eq!(latency, 12);
    assert!(tracker.ping_due([99; 32]).is_ok());
    assert!(matches!(tracker.pong(&[99; 32], 24), Ok(13)));
    assert!(tracker.ping_due([100; 32]).is_ok());
    assert!(matches!(tracker.pong(&[100; 32], 5), Ok(12)));
}

#[test]
fn received_frames() {
    let mut tracker = PingTracker::new();
    assert!(matches!(tracker.receive(Frame::Text, 0), Err(Error::Invalid)));
    assert!(matches!(tracker.receive(Frame::Binary(vec![1, 2]), 0), Ok(Reaction::Deliver(data)) if data == vec![1, 2]));
    assert!(matches!(tracker.receive(Frame::Ping(vec![3]), 0), Ok(Reaction::Reply(data)) if data == vec![3]));
    assert!(matches!(tracker.receive(Frame::Close(None), 0), Ok(Reaction::PeerClosed(None))));
    match tracker.receive(Frame::Close(Some((1000, String::from("bye")))), 0) {
        Ok(Reaction::PeerClosed(Some((code, reason)))) => {
            assert_eq!(code, 1000);
            assert_eq!(reason, "bye");
        }
        _ => panic!("close frame not passed on"),
    }
    assert!(matches!(tracker.receive(Frame::Pong(vec![0; 32]), 0), Err(Error::Invalid)));
    assert!(tracker.ping_due([4; 32]).is_ok());
    assert!(matches!(tracker.receive(Frame::Pong(vec![4; 32]), 24), Ok(Reaction::Latency(2))));
}

#[test]
fn an_error_closes_from_this_side_with_its_frame() {
    let closed = Error::TimedOut.closing();
    assert!(closed.sends_close());
    assert_eq!(closed.logged_frame(), (1002, "Timed Out"));
    assert_eq!(Error::Unknown(String::from("boom")).closing().logged_frame(), (1011, "Internal Error"));
    assert_eq!(Error::Invalid.closing().logged_frame(), (1007, "Invalid Data"));
}

#[test]
fn closes_without_a_frame_log_a_default() {
    assert_eq!(Closed::Peer(None).logged_frame(), (1006, "Abnormal"));
    assert_eq!(Closed::Local(None).logged_frame(), (1011, "Unknown"));
    assert!(!Closed::Peer(None).sends_close());
    assert!(Closed::Local(None).sends_close());
    let given = Closed::Peer(Some((1000, String::from("bye"))));
    assert_eq!(given.logged_frame(), (1000, "bye"));
    assert!(!given.sends_close());
}

#[test]
fn undecodable_messages_are_invalid() {
    assert!(matches!(decoded::<u32>(None), Err(Error::Invalid)));
    assert!(matches!(decoded(Some(7u32)), Ok(7)));
}

#[test]
fn loop_events_end_or_continue_the_connection() {
    let mut tracker = PingTracker::new();
    match tracker.step(Event::Disconnect(Some((1000, String::from("done")))), 0) {
        Ok(Step::End(Closed::Local(Some((1000, reason))))) => assert_eq!(reason, "done"),
        _ => panic!("disconnect must end the connection from this side"),
    }
    assert!(matches!(tracker.step(Event::Disconnect(None), 0), Ok(Step::End(Closed::Local(None)))));
    assert!(matches!(tracker.step(Event::Received(None), 0), Ok(Step::End(Closed::Peer(None)))));
    match tracker.step(Event::Received(Some(Frame::Close(Some((1001, String::from("away")))))), 0) {
        Ok(Step::End(Closed::Peer(Some((1001, reason))))) => assert_eq!(reason, "away"),
        _ => panic!("close frame must end the connection from the peer"),
    }
    assert!(matches!(tracker.step(Event::Outgoing(None), 0), Err(Error::Dropped)));
    assert!(matches!(tracker.step(Event::IncomingClosed, 0), Err(Error::Dropped)));
    match tracker.step(Event::Outgoing(Some(vec![1, 2, 3])), 0) {
        Ok(Step::Send(Outgoing::Binary(bytes))) => assert_eq!(bytes, vec![1, 2, 3]),
        _ => panic!("message must be sent as one binary frame"),
    }
    match tracker.step(Event::Received(Some(Frame::Ping(vec![4]))), 0) {
        Ok(Step::Send(Outgoing::Pong(bytes))) => assert_eq!(bytes, vec![4]),
        _ => panic!("ping must be answered"),
    }
    assert!(matches!(tracker.step(Event::Received(Some(Frame::Text)), 0), Err(Error::Invalid)));
}

#[test]
fn loop_pings_time_out_and_measure_latency() {
    let mut tracker = PingTracker::new();
    assert!(matches!(tracker.step(Event::PingDue([5; 32]), 0), Ok(Step::Send(Outgoing::Ping([5, ..])))));
    assert!(matches!(tracker.step(Event::PingDue([6; 32]), 0), Err(Error::TimedOut)));
    assert!(matches!(tracker.step(Event::Received(Some(Frame::Pong(vec![6; 32]))), 0), Err(Error::Invalid)));
    assert!(matches!(tracker.step(Event::Received(Some(Frame::Pong(vec![5; 32]))), 1200), Ok(Step::Latency(100))));
    assert!(matches!(tracker.step(Event::PingDue([7; 32]), 0), Ok(Step::Send(Outgoing::Ping(_)))));
}

//! The decisions of a game connection's handler: how incoming frames are
//! answered, how pings time out, how the latency is measured from the last
//! twelve round trips, and which close frame an error ends the connection
//! with.

use vstd::prelude::*;

verus! {

/// Why a connection handler stopped.
pub enum Error {
    /// The other half of the connection was dropped.
    Dropped,
    /// The peer sent data that breaks the protocol.
    Invalid,
    /// The peer did not answer a ping before the next one was due.
    TimedOut,
    /// Any other failure; its text, which is logged.
    Unknown(String),
}

/// WebSocket close code for an internal error (1011).
pub const CLOSE_ERROR: u16 = 1011;
/// WebSocket close code for invalid payload data (1007).
pub const CLOSE_INVALID: u16 = 1007;
/// WebSocket close code for a protocol error (1002).
pub const CLOSE_PROTOCOL: u16 = 1002;

impl Error {
    /// The close code and reason the connection is closed with.
    pub fn close_frame(&self) -> (frame: (u16, &'static str))
        ensures
            frame == (match self {
                Error::Dropped => (CLOSE_ERROR, "Internal Error"),
                Error::Invalid => (CLOSE_INVALID, "Invalid Data"),
                Error::TimedOut => (CLOSE_PROTOCOL, "Timed Out"),
                Error::Unknown(_) => (CLOSE_ERROR, "Internal Error"),
            }),
    {
        match self {
            Error::Dropped => (CLOSE_ERROR, "Internal Error"),
            Error::Invalid => (CLOSE_INVALID, "Invalid Data"),
            Error::TimedOut => (CLOSE_PROTOCOL, "Timed Out"),
            Error::Unknown(_) => (CLOSE_ERROR, "Internal Error"),
        }
    }
}

/// WebSocket close code for an abnormal closure (1006), logged when the peer
/// went away without a close frame.
pub const CLOSE_ABNORMAL: u16 = 1006;

/// How a connection ended, with the close frame (code and reason) when one
/// was given. The same rules hold on the client and on the server, each
/// seeing the other as the peer.
pub enum Closed {
    /// The peer closed the connection, or it went away.
    Peer(Option<(u16, String)>),
    /// This side closed it; the frame is sent to the peer.
    Local(Option<(u16, String)>),
}

impl Error {
    /// The end of a connection that this error stops: this side closes it
    /// with the error's close frame.
    pub fn closing(&self) -> (closed: Closed)
        ensures
            match closed {
                Closed::Local(Some((code, reason))) => (code, reason@) == (match self {
                    Error::Dropped => (CLOSE_ERROR, "Internal Error"@),
                    Error::Invalid => (CLOSE_INVALID, "Invalid Data"@),
                    Error::TimedOut => (CLOSE_PROTOCOL, "Timed Out"@),
                    Error::Unknown(_) => (CLOSE_ERROR, "Internal Error"@),
                }),
                _ => false,
            },
    {
        let (code, reason) = self.close_frame();
        Closed::Local(Some((code, reason.to_owned())))
    }
}

impl Closed {
    /// The close code and reason logged when the connection ends: the frame
    /// given, else 1006 "Abnormal" for a peer that went away, else 1011
    /// "Unknown" for this side.
    pub fn logged_frame(&self) -> (frame: (u16, &str))
        ensures
            match self {
                Closed::Peer(Some((code, reason))) => frame.0 == code && frame.1@ == reason@,
                Closed::Local(Some((code, reason))) => frame.0 == code && frame.1@ == reason@,
                Closed::Peer(None) => frame.0 == CLOSE_ABNORMAL && frame.1@ == "Abnormal"@,
                Closed::Local(None) => frame.0 == CLOSE_ERROR && frame.1@ == "Unknown"@,
            },
    {
        match self {
            Closed::Peer(Some((code, reason))) => (*code, reason.as_str()),
            Closed::Local(Some((code, reason))) => (*code, reason.as_str()),
            Closed::Peer(None) => (CLOSE_ABNORMAL, "Abnormal"),
            Closed::Local(None) => (CLOSE_ERROR, "Unknown"),
        }
    }

    /// Whether a close frame is sent to the peer: only when this side closed
    /// the connection.
    pub fn sends_close(&self) -> (send: bool)
        ensures
            send == (self is Local),
    {
        match self {
            Closed::Peer(_) => false,
            Closed::Local(_) => true,
        }
    }
}

/// The message a binary frame carries, as its decoder gave it (`None` when
/// the bytes are not a message): a frame that does not decode breaks the
/// protocol.
pub fn decoded<M>(message: Option<M>) -> (result: Result<M, Error>)
    ensures
        match message {
            Some(m) => result matches Ok(r) && r == m,
            None => result matches Err(Error::Invalid),
        },
{
    match message {
        Some(m) => Ok(m),
        None => Err(Error::Invalid),
    }
}

/// A frame received from the peer.
pub enum Frame {
    Text,
    Binary(Vec<u8>),
    Ping(Vec<u8>),
    Pong(Vec<u8>),
    /// The peer closes the connection, with its close frame (code and
    /// reason) if it gave one.
    Close(Option<(u16, String)>),
}

/// What the handler does with a received frame.
pub enum Reaction {
    /// Hand the binary message on.
    Deliver(Vec<u8>),
    /// Answer a ping with a pong carrying the same data.
    Reply(Vec<u8>),
    /// The pending ping was answered; the new latency in nanoseconds.
    Latency(u64),
    /// The peer closed the connection; the close frame it gave, if any.
    PeerClosed(Option<(u16, String)>),
}

/// Something the connection handler's loop waits for.
pub enum Event {
    /// This side asks to close the connection, with the close frame to send;
    /// `None` also when the asking half was dropped without a frame.
    Disconnect(Option<(u16, String)>),
    /// The ping interval fired; the random data of the next ping.
    PingDue([u8; 32]),
    /// A message to send, already encoded; `None` when the channel of
    /// outgoing messages has closed.
    Outgoing(Option<Vec<u8>>),
    /// A frame from the peer; `None` when the stream has ended.
    Received(Option<Frame>),
    /// A message could not be handed on: its receiver is gone.
    IncomingClosed,
}

/// A frame the handler sends to the peer.
pub enum Outgoing {
    Ping([u8; 32]),
    Pong(Vec<u8>),
    Binary(Vec<u8>),
}

/// What the handler does after an event, when the connection goes on or
/// ends normally.
pub enum Step {
    /// Send a frame.
    Send(Outgoing),
    /// Hand a received binary message on (to be decoded).
    Deliver(Vec<u8>),
    /// The pending ping was answered; the new latency in nanoseconds.
    Latency(u64),
    /// The connection is over.
    End(Closed),
}

/// Number of round trips the latency is averaged over.
pub const WINDOW: usize = 12;

/// Tracks the ping awaiting its pong and the last twelve round-trip times.
pub struct PingTracker {
    last_pings: [u64; 12],
    pending: Option<[u8; 32]>,
}

/// Sum of a sequence of round-trip times.
pub open spec fn total(times: Seq<u64>) -> int
    decreases times.len(),
{
    if times.len() == 0 {
        0
    } else {
        total(times.drop_last()) + times.last()
    }
}

/// The latency for a window of round-trip times: their mean, rounded down.
pub open spec fn average(times: Seq<u64>) -> int {
    total(times) / 12
}

impl PingTracker {
    /// The last twelve round-trip times in nanoseconds, oldest first.
    pub closed spec fn window(&self) -> Seq<u64> {
        self.last_pings@
    }

    /// The data of the ping awaiting its pong, if any.
    pub closed spec fn pending_ping(&self) -> Option<Seq<u8>> {
        match self.pending {
            Some(ping) => Some(ping@),
            None => None,
        }
    }

    /// A tracker with no ping pending and twelve zero round trips.
    pub fn new() -> (tracker: PingTracker)
        ensures
            tracker.window() == Seq::new(12, |i: int| 0u64),
            tracker.pending_ping() is None,
    {
        let tracker = PingTracker { last_pings: [0; 12], pending: None };
        assert(tracker.window() == Seq::new(12, |i: int| 0u64));
        tracker
    }

    /// A ping is due. If none is pending, `ping` becomes the pending ping and
    /// is to be sent; if one is still pending, the peer timed out.
    pub fn ping_due(&mut self, ping: [u8; 32]) -> (result: Result<(), Error>)
        ensures
            final(self).window() == old(self).window(),
            old(self).pending_ping() is None ==> (result is Ok && final(self).pending_ping() == Some(ping@)),
            old(self).pending_ping() is Some ==> (result matches Err(Error::TimedOut)
                && final(self).pending_ping() == old(self).pending_ping()),
    {
        match self.pending {
            None => {
                self.pending = Some(ping);
                Ok(())
            },
            Some(_) => Err(Error::TimedOut),
        }
    }

    /// A pong arrived `round_trip` nanoseconds after the pending ping was
    /// sent. A pong with no ping pending, or with other data than the
    /// pending ping, is invalid. Otherwise the round trip joins the window,
    /// dropping the oldest, no ping is pending any more, and the new latency
    /// is the window's average.
    pub fn pong(&mut self, pong: &[u8], round_trip: u64) -> (result: Result<u64, Error>)
        ensures
            old(self).pending_ping() == Some(pong@) ==> {
                &&& final(self).window() == old(self).window().drop_first().push(round_trip)
                &&& final(self).pending_ping() is None
                &&& result matches Ok(latency)
                &&& latency == average(final(self).window())
            },
            old(self).pending_ping() != Some(pong@) ==> {
                &&& result matches Err(Error::Invalid)
                &&& *final(self) == *old(self)
            },
    {
        let expected = match self.pending {
            None => return Err(Error::Invalid),
            Some(expected) => expected,
        };
        assert(expected@.len() == 32);
        assert(old(self).pending_ping() == Some(expected@));
        if pong.len() != 32 {
            assert(pong@ != expected@);
            return Err(Error::Invalid);
        }
        let mut k: usize = 0;
        while k < 32
            invariant
                k <= 32,
                pong@.len() == 32,
                expected@.len() == 32,
                *self == *old(self),
                old(self).pending_ping() == Some(expected@),
                forall|j: int| 0 <= j < k ==> pong@[j] == expected@[j],
            decreases 32 - k,
        {
            if pong[k] != expected[k] {
                assert(pong@[k as int] != expected@[k as int]);
                return Err(Error::Invalid);
            }
            k = k + 1;
        }
        assert(pong@ == expected@);
        let ghost before = self.last_pings@;
        let mut i: usize = 0;
        while i < 11
            invariant
                i <= 11,
                self.last_pings@.len() == 12,
                forall|j: int| 0 <= j < i ==> self.last_pings@[j] == before[j + 1],
                forall|j: int| i <= j < 12 ==> self.last_pings@[j] == before[j],
            decreases 11 - i,
        {
            self.last_pings[i] = self.last_pings[i + 1];
            i = i + 1;
        }
        self.last_pings[11] = round_trip;
        self.pending = None;
        assert(self.last_pings@ == before.drop_first().push(round_trip));
        let mut sum: u128 = 0;
        let mut n: usize = 0;
        while n < 12
            invariant
                n <= 12,
                self.last_pings@.len() == 12,
                sum == total(self.last_pings@.take(n as int)),
                sum <= n * 0xffff_ffff_ffff_ffffu128,
            decreases 12 - n,
        {
            assert(self.last_pings@.take(n + 1).drop_last() == self.last_pings@.take(n as int));
            sum = sum + self.last_pings[n] as u128;
            n = n + 1;
        }
        assert(self.last_pings@.take(12) == self.last_pings@);
        Ok((sum / 12) as u64)
    }

    /// The handler's answer to a received frame: text is invalid, a binary
    /// message is handed on, a ping is answered with its data, a pong is
    /// checked against the pending ping, and a close ends the connection.
    /// `round_trip` is the time since the pending ping was sent, used only
    /// for a pong.
    pub fn receive(&mut self, frame: Frame, round_trip: u64) -> (result: Result<Reaction, Error>)
        ensures
            match frame {
                Frame::Text => result matches Err(Error::Invalid) && *final(self) == *old(self),
                Frame::Binary(data) => result matches Ok(Reaction::Deliver(d)) && d@ == data@
                    && *final(self) == *old(self),
                Frame::Ping(data) => result matches Ok(Reaction::Reply(d)) && d@ == data@
                    && *final(self) == *old(self),
                Frame::Close(frame) => result matches Ok(Reaction::PeerClosed(given)) && given == frame
                    && *final(self) == *old(self),
                Frame::Pong(data) => if old(self).pending_ping() == Some(data@) {
                    &&& final(self).window() == old(self).window().drop_first().push(round_trip)
                    &&& final(self).pending_ping() is None
                    &&& result matches Ok(Reaction::Latency(latency))
                    &&& latency == average(final(self).window())
                } else {
                    &&& result matches Err(Error::Invalid)
                    &&& *final(self) == *old(self)
                },
            },
    {
        match frame {
            Frame::Text => Err(Error::Invalid),
            Frame::Binary(data) => Ok(Reaction::Deliver(data)),
            Frame::Ping(data) => Ok(Reaction::Reply(data)),
            Frame::Close(frame) => Ok(Reaction::PeerClosed(frame)),
            Frame::Pong(data) => match self.pong(data.as_slice(), round_trip) {
                Ok(latency) => Ok(Reaction::Latency(latency)),
                Err(error) => Err(error),
            },
        }
    }

    /// The handler's answer to one event of its loop. A disconnect ends the
    /// connection from this side with the frame given; the end of the
    /// stream ends it from the peer's side with no frame; a closed channel,
    /// either way, is `Dropped`; an outgoing message is sent as one binary
    /// frame; a due ping is sent unless one is still pending (`TimedOut`);
    /// and a received frame is answered as by [`Self::receive`], a close
    /// frame ending the connection from the peer's side with its frame.
    pub fn step(&mut self, event: Event, round_trip: u64) -> (result: Result<Step, Error>)
        ensures
            match event {
                Event::Disconnect(frame) => result matches Ok(Step::End(Closed::Local(given))) && given == frame
                    && *final(self) == *old(self),
                Event::PingDue(ping) => if old(self).pending_ping() is None {
                    &&& result matches Ok(Step::Send(Outgoing::Ping(sent))) && sent == ping
                    &&& final(self).pending_ping() == Some(ping@)
                    &&& final(self).window() == old(self).window()
                } else {
                    &&& result matches Err(Error::TimedOut)
                    &&& final(self).pending_ping() == old(self).pending_ping()
                    &&& final(self).window() == old(self).window()
                },
                Event::Outgoing(None) => result matches Err(Error::Dropped) && *final(self) == *old(self),
                Event::Outgoing(Some(message)) => result matches Ok(Step::Send(Outgoing::Binary(sent)))
                    && sent@ == message@ && *final(self) == *old(self),
                Event::IncomingClosed => result matches Err(Error::Dropped) && *final(self) == *old(self),
                Event::Received(None) => result matches Ok(Step::End(Closed::Peer(None))) && *final(self) == *old(self),
                Event::Received(Some(frame)) => match frame {
                    Frame::Text => result matches Err(Error::Invalid) && *final(self) == *old(self),
                    Frame::Binary(data) => result matches Ok(Step::Deliver(d)) && d@ == data@
                        && *final(self) == *old(self),
                    Frame::Ping(data) => result matches Ok(Step::Send(Outgoing::Pong(d))) && d@ == data@
                        && *final(self) == *old(self),
                    Frame::Close(frame) => result matches Ok(Step::End(Closed::Peer(given))) && given == frame
                        && *final(self) == *old(self),
                    Frame::Pong(data) => if old(self).pending_ping() == Some(data@) {
                        &&& final(self).window() == old(self).window().drop_first().push(round_trip)
                        &&& final(self).pending_ping() is None
                        &&& result matches Ok(Step::Latency(latency))
                        &&& latency == average(final(self).window())
                    } else {
                        &&& result matches Err(Error::Invalid)
                        &&& *final(self) == *old(self)
                    },
                },
            },
    {
        match event {
            Event::Disconnect(frame) => Ok(Step::End(Closed::Local(frame))),
            Event::PingDue(ping) => match self.ping_due(ping) {
                Ok(()) => Ok(Step::Send(Outgoing::Ping(ping))),
                Err(error) => Err(error),
            },
            Event::Outgoing(None) => Err(Error::Dropped),
            Event::Outgoing(Some(message)) => Ok(Step::Send(Outgoing::Binary(message))),
            Event::IncomingClosed => Err(Error::Dropped),
            Event::Received(None) => Ok(Step::End(Closed::Peer(None))),
            Event::Received(Some(frame)) => match self.receive(frame, round_trip) {
                Ok(Reaction::Deliver(data)) => Ok(Step::Deliver(data)),
                Ok(Reaction::Reply(data)) => Ok(Step::Send(Outgoing::Pong(data))),
                Ok(Reaction::Latency(latency)) => Ok(Step::Latency(latency)),
                Ok(Reaction::PeerClosed(frame)) => Ok(Step::End(Closed::Peer(frame))),
                Err(error) => Err(error),
            },
        }
    }
}

} // verus!

//! The per-connection decisions of a live-update socket: what to do with
//! each published event and each inbound frame.
use vstd::prelude::*;

verus! {

/// The number of events the shared broadcast buffer holds.
pub const HUB_CAPACITY: usize = 64;

/// What the subscriber's receive produced.
pub enum HubEvent {
    Message(String),
    /// This many events were overwritten before this subscriber read them.
    Lagged(u64),
    Closed,
}

/// What the peer's receive produced.
pub enum PeerFrame {
    Close,
    Ping(Vec<u8>),
    Other,
    Error,
    /// The peer's stream ended.
    Ended,
}

/// What the connection does next.
pub enum SessionAction {
    /// Send this text to the peer.
    Forward(String),
    /// Answer a ping with these bytes.
    Pong(Vec<u8>),
    /// Note that this many events were skipped, and go on.
    Skipped(u64),
    /// Nothing to do; go on.
    Ignore,
    /// End the session.
    End,
}

/// Published text is forwarded, a lag is noted and skipped, and a closed
/// publisher ends the session.
pub fn on_hub_event(ev: HubEvent) -> (r: SessionAction)
    ensures
        match ev {
            HubEvent::Message(t) => r == SessionAction::Forward(t),
            HubEvent::Lagged(n) => r == SessionAction::Skipped(n),
            HubEvent::Closed => r is End,
        },
{
    match ev {
        HubEvent::Message(t) => SessionAction::Forward(t),
        HubEvent::Lagged(n) => SessionAction::Skipped(n),
        HubEvent::Closed => SessionAction::End,
    }
}

/// A ping is answered with a pong of the same bytes; a close frame, an
/// error or the end of the stream ends the session; anything else is
/// ignored.
pub fn on_peer_frame(f: PeerFrame) -> (r: SessionAction)
    ensures
        match f {
            PeerFrame::Ping(d) => r == SessionAction::Pong(d),
            PeerFrame::Other => r is Ignore,
            _ => r is End,
        },
{
    match f {
        PeerFrame::Ping(d) => SessionAction::Pong(d),
        PeerFrame::Other => SessionAction::Ignore,
        _ => SessionAction::End,
    }
}

/// A forwarded event that could not be delivered ends the session.
pub fn after_forward(delivered: bool) -> (r: SessionAction)
    ensures
        if delivered {
            r is Ignore
        } else {
            r is End
        },
{
    if delivered {
        SessionAction::Ignore
    } else {
        SessionAction::End
    }
}

} // verus!

//! The passive-mode data channel: at most one per session, used once.
use vstd::prelude::*;

verus! {

/// Where a session's data channel stands.
#[derive(Clone, Copy, Debug, PartialEq, Eq, Structural)]
pub enum ChannelState {
    /// No listener and no connection.
    Idle,
    /// A listener is bound and waits for its one connection.
    Listening,
    /// The connection is there, waiting for a transfer.
    Connected,
}

/// The data channel of one session.
#[derive(Clone, Copy, Debug, PartialEq, Eq, Structural)]
pub struct DataChannel {
    pub state: ChannelState,
}

impl DataChannel {
    pub fn new() -> (r: DataChannel)
        ensures
            r.state == ChannelState::Idle,
    {
        DataChannel { state: ChannelState::Idle }
    }

    /// Whether a listener or a connection is open.
    pub fn is_open(&self) -> (r: bool)
        ensures
            r == (self.state != ChannelState::Idle),
    {
        self.state != ChannelState::Idle
    }

    /// Starts listening, if nothing is open yet. Returns whether it did;
    /// an open channel is left as it is.
    pub fn request_passive(&mut self) -> (r: bool)
        ensures
            r == (old(self).state == ChannelState::Idle),
            r ==> final(self).state == ChannelState::Listening,
            !r ==> *final(self) == *old(self),
    {
        if self.state == ChannelState::Idle {
            self.state = ChannelState::Listening;
            true
        } else {
            false
        }
    }

    /// The listener's one connection arrived. Returns whether a listener
    /// was waiting for it.
    pub fn accept(&mut self) -> (r: bool)
        ensures
            r == (old(self).state == ChannelState::Listening),
            r ==> final(self).state == ChannelState::Connected,
            !r ==> *final(self) == *old(self),
    {
        if self.state == ChannelState::Listening {
            self.state = ChannelState::Connected;
            true
        } else {
            false
        }
    }

    /// Binding or accepting failed: back to idle.
    pub fn reset(&mut self)
        ensures
            final(self).state == ChannelState::Idle,
    {
        self.state = ChannelState::Idle;
    }

    /// Hands the connection to one transfer. Returns whether there was one;
    /// either way the channel is idle afterwards.
    pub fn take(&mut self) -> (r: bool)
        ensures
            r == (old(self).state == ChannelState::Connected),
            final(self).state == ChannelState::Idle,
    {
        let connected = self.state == ChannelState::Connected;
        self.state = ChannelState::Idle;
        connected
    }
}

} // verus!

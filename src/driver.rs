//! The decisions of the connection loops. The loop itself (connecting,
//! accepting, reading, sleeping) runs outside; it reports each outcome here
//! and carries out the [`Step`] it is given back.
//!
//! A client tries to connect until it succeeds, reads messages until a read
//! fails, then tries again. A server binds (retrying until that succeeds),
//! then accepts one client at a time, greets it, reads its messages until a
//! read fails, and then awaits the next client.

use vstd::prelude::*;
use vstd::string::*;
use crate::channel::Channel;
use crate::wire::ProtocolError;

verus! {

/// Where a connection loop stands.
#[derive(Clone, Copy, Debug, PartialEq, Eq, Structural)]
pub enum Phase {
    /// A server that has not yet bound its port.
    Binding,
    /// Trying to connect (client) or awaiting a client (server).
    Connecting,
    /// A connection is open and messages are read from it.
    Connected,
}

/// Why a read on the connection gave no message.
#[derive(Clone, Copy, Debug, PartialEq, Eq, Structural)]
pub enum ReadFault {
    /// The peer's bytes broke the framing.
    Protocol(ProtocolError),
    /// The stream itself failed or was closed by the peer.
    Transport,
}

/// Which end of the connection a loop runs.
#[derive(Debug)]
pub enum Role {
    /// Connects out to a server.
    Client,
    /// Accepts clients; `host` is named in the greeting.
    Server { host: String },
}

/// What the loop does next.
#[derive(Debug)]
pub enum Step {
    /// Pause for the retry interval, then try to bind or connect again.
    Retry,
    /// Read the next message from the connection.
    Receive,
    /// Send this greeting on the new connection, ignoring a failure, then
    /// read the next message.
    Greet(String),
    /// Hand this message to the receiver, and once it returns read the next.
    Dispatch(String),
    /// Send these notices on the connection that failed, ignoring failures,
    /// then drop it and go back to connecting or awaiting a client.
    Disconnect(Vec<String>),
}

/// State of one connection loop.
pub struct Driver {
    pub role: Role,
    pub phase: Phase,
}

/// The notice a peer gets when its frame opened with a wrong tag.
pub open spec fn diagnostic_text() -> Seq<char> {
    "Receiving error: Invalid string packet encounterd."@
}

/// The notice a server sends a client whose connection it drops.
pub open spec fn farewell_text() -> Seq<char> {
    "Failed to read message. Disconnecting from server."@
}

/// The greeting a server sends a new client.
pub open spec fn greeting_text(host: Seq<char>) -> Seq<char> {
    "Connected to server. Host: "@ + host
}

/// The notices sent when a read fails with `e`: the tag diagnostic, if the
/// fault was a wrong tag, then the server's farewell.
pub open spec fn disconnect_notices(role: Role, e: ReadFault) -> Seq<Seq<char>> {
    (if e == ReadFault::Protocol(ProtocolError::UnexpectedTag) {
        seq![diagnostic_text()]
    } else {
        seq![]
    }) + (if role is Server {
        seq![farewell_text()]
    } else {
        seq![]
    })
}

/// The greeting a server named `host` sends each new client.
pub fn greeting(host: &str) -> (r: String)
    ensures
        r@ == greeting_text(host@),
{
    let mut g = String::from_str("Connected to server. Host: ");
    g.append(host);
    g
}

impl Driver {
    /// A client loop, about to connect.
    pub fn client() -> (r: Driver)
        ensures
            r.role is Client,
            r.phase == Phase::Connecting,
    {
        Driver { role: Role::Client, phase: Phase::Connecting }
    }

    /// A server loop named `host`, about to bind.
    pub fn server(host: &str) -> (r: Driver)
        ensures
            r.role matches Role::Server { host: h } && h@ == host@,
            r.phase == Phase::Binding,
    {
        Driver { role: Role::Server { host: String::from_str(host) }, phase: Phase::Binding }
    }

    /// A bind or connect attempt failed: wait and try again, for ever.
    pub fn setup_failed(&mut self) -> (r: Step)
        ensures
            final(self).role == old(self).role,
            final(self).phase == old(self).phase,
            r is Retry,
    {
        Step::Retry
    }

    /// The server's port is bound: await a client.
    pub fn bound(&mut self)
        ensures
            final(self).role == old(self).role,
            final(self).phase == Phase::Connecting,
    {
        self.phase = Phase::Connecting;
    }

    /// A connection was made or accepted: it becomes the current one. A
    /// client starts reading; a server first greets its client.
    pub fn established<C>(&mut self, channel: &mut Channel<C>, conn: C) -> (r: Step)
        ensures
            final(self).role == old(self).role,
            final(self).phase == Phase::Connected,
            final(channel)@ == Some(conn),
            old(self).role is Client ==> r is Receive,
            old(self).role matches Role::Server { host } ==> (r matches Step::Greet(g) && g@
                == greeting_text(host@)),
    {
        channel.install(conn);
        self.phase = Phase::Connected;
        match &self.role {
            Role::Client => Step::Receive,
            Role::Server { host } => Step::Greet(greeting(host.as_str())),
        }
    }

    /// A read on the current connection ended with `outcome`. A message is
    /// dispatched and the connection kept; any fault ends the connection:
    /// it is cleared from `channel` and the peer gets the notices owed.
    pub fn received<C>(&mut self, channel: &mut Channel<C>, outcome: Result<String, ReadFault>) -> (r: Step)
        ensures
            final(self).role == old(self).role,
            outcome matches Ok(m) ==> (r == Step::Dispatch(m) && final(self).phase == old(
                self,
            ).phase && final(channel)@ == old(channel)@),
            outcome matches Err(e) ==> (r matches Step::Disconnect(notices) && notices@.map_values(
                |t: String| t@,
            ) == disconnect_notices(old(self).role, e) && final(self).phase == Phase::Connecting
                && final(channel)@ is None),
    {
        match outcome {
            Ok(m) => Step::Dispatch(m),
            Err(e) => {
                let mut notices: Vec<String> = Vec::new();
                if e == ReadFault::Protocol(ProtocolError::UnexpectedTag) {
                    notices.push(String::from_str("Receiving error: Invalid string packet encounterd."));
                }
                if let Role::Server { .. } = &self.role {
                    notices.push(String::from_str("Failed to read message. Disconnecting from server."));
                }
                assert(notices@.map_values(|t: String| t@) == disconnect_notices(self.role, e));
                channel.clear();
                self.phase = Phase::Connecting;
                Step::Disconnect(notices)
            },
        }
    }
}

} // verus!

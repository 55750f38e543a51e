//! The wire commands peers exchange.  Framing, sockets and delivery live
//! with the driver; this module owns the message shapes and what can be read
//! off them without I/O.

use vstd::prelude::*;

verus! {

/// A peer's identity as the wire protocol carries it.  The key material
/// itself lives with the signature scheme; the nonce identifies the node
/// within the known committee.
#[derive(Clone, Copy, Debug, PartialEq, Eq, Structural)]
pub struct PubKey {
    /// The node's index in the committee.
    pub nonce: u64,
}

/// Represents a network message.
#[derive(Debug, PartialEq, Eq)]
pub enum Command<T> {
    /// A message that was broadcast to all nodes.
    Broadcast {
        /// Message being sent.
        inner: T,
        /// Who is sending it.
        from: PubKey,
        /// Message ID.
        id: u64,
    },
    /// A message that was sent directly to this node.
    Direct {
        /// Message being sent.
        inner: T,
        /// Who is sending it.
        from: PubKey,
        /// Who it is being sent to.
        to: PubKey,
        /// Message ID.
        id: u64,
    },
    /// A message identifying the sending node.
    Identify {
        /// Who the message is from.
        from: PubKey,
        /// Message ID.
        id: u64,
    },
    /// Ping keepalive message.
    Ping {
        /// Message ID.
        id: u64,
    },
    /// Acknowledge.
    Ack {
        /// Message being acknowledged.
        ack_id: u64,
        /// Message ID.
        id: u64,
    },
}

impl<T> Command<T> {
    /// The message ID, whatever the command's shape.
    pub open spec fn spec_id(&self) -> u64 {
        match self {
            Command::Broadcast { id, .. } => *id,
            Command::Direct { id, .. } => *id,
            Command::Identify { id, .. } => *id,
            Command::Ping { id, .. } => *id,
            Command::Ack { id, .. } => *id,
        }
    }

    /// Returns the ID of this command.
    pub fn id(&self) -> (r: u64)
        ensures
            r == self.spec_id(),
    {
        match self {
            Command::Broadcast { id, .. }
            | Command::Direct { id, .. }
            | Command::Identify { id, .. }
            | Command::Ping { id, .. }
            | Command::Ack { id, .. } => *id,
        }
    }
}

} // verus!

//! What the blocking client and the blocking server tell each other.

use vstd::prelude::*;

use crate::double::Double;

verus! {

/// A change at a player, or the time that it has come to.
#[derive(Debug, Clone, Copy)]
pub enum ClientMessage {
    Timestamp { time: Double },
    Seek { time: Double },
    Pause { time: Double },
    Resume { time: Double },
    SpeedChange { factor: Double },
}

/// What kind of message it is.
#[derive(Debug, Clone, Copy, PartialEq, Eq, Structural)]
pub enum MessageKind {
    Timestamp,
    Seek,
    Pause,
    Resume,
    SpeedChange,
}

impl ClientMessage {
    /// What kind of message it is.
    pub open spec fn of_kind(self) -> MessageKind {
        match self {
            ClientMessage::Timestamp { .. } => MessageKind::Timestamp,
            ClientMessage::Seek { .. } => MessageKind::Seek,
            ClientMessage::Pause { .. } => MessageKind::Pause,
            ClientMessage::Resume { .. } => MessageKind::Resume,
            ClientMessage::SpeedChange { .. } => MessageKind::SpeedChange,
        }
    }

    /// What kind of message it is.
    pub fn kind(&self) -> (kind: MessageKind)
        ensures
            kind == self.of_kind(),
    {
        match self {
            ClientMessage::Timestamp { .. } => MessageKind::Timestamp,
            ClientMessage::Seek { .. } => MessageKind::Seek,
            ClientMessage::Pause { .. } => MessageKind::Pause,
            ClientMessage::Resume { .. } => MessageKind::Resume,
            ClientMessage::SpeedChange { .. } => MessageKind::SpeedChange,
        }
    }
}

/// Messages are of one kind exactly if they are made alike.
pub proof fn law_kind_is_how_a_message_is_made(message: ClientMessage, kind: MessageKind)
    requires
        call_ensures(ClientMessage::kind, (&message,), kind),
    ensures
        kind == MessageKind::Timestamp <==> message is Timestamp,
        kind == MessageKind::Seek <==> message is Seek,
        kind == MessageKind::Pause <==> message is Pause,
        kind == MessageKind::Resume <==> message is Resume,
        kind == MessageKind::SpeedChange <==> message is SpeedChange,
{
}

} // verus!

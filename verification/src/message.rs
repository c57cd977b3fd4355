//! Control-plane messages and their validation.
//!
//! Serialising these to the wire happens outside the library; the shapes
//! and the validation rules live here.

use vstd::prelude::*;
use crate::packet::UserId;
use crate::packet::ChannelId;
use crate::user::UserStatus;

verus! {

/// An envelope of the notification bus.
#[derive(Debug, Clone)]
pub struct Message {
    /// Identifier of the message, chosen by the sender.
    pub id: u128,
    /// What the message says.
    pub message_type: MessageType,
    /// Milliseconds since the epoch when created.
    pub timestamp: u64,
}

/// Events carried on the notification bus.
#[derive(Debug, Clone)]
pub enum MessageType {
    /// A user connected.
    Connect {
        /// The user.
        user_id: UserId,
    },
    /// A user disconnected.
    Disconnect {
        /// The user.
        user_id: UserId,
    },
    /// A user joined a channel.
    JoinChannel {
        /// The channel.
        channel_id: ChannelId,
        /// The user.
        user_id: UserId,
    },
    /// A user left a channel.
    LeaveChannel {
        /// The channel.
        channel_id: ChannelId,
        /// The user.
        user_id: UserId,
    },
    /// The member list of a channel.
    ChannelUserList {
        /// The channel.
        channel_id: ChannelId,
        /// Its members.
        users: Vec<UserId>,
    },
    /// A user started speaking.
    AudioStart {
        /// The user.
        user_id: UserId,
        /// The channel.
        channel_id: ChannelId,
    },
    /// A user stopped speaking.
    AudioStop {
        /// The user.
        user_id: UserId,
        /// The channel.
        channel_id: ChannelId,
    },
    /// A user's presence changed.
    UserStatusUpdate {
        /// The user.
        user_id: UserId,
        /// The new presence.
        status: UserStatus,
    },
    /// Something went wrong.
    Error {
        /// Description.
        message: String,
    },
    /// Liveness probe.
    Ping,
    /// Liveness answer.
    Pong,
}

impl Message {
    /// Wraps an event in an envelope. The caller supplies the identifier
    /// and the clock reading.
    pub fn new(message_type: MessageType, id: u128, timestamp: u64) -> (m: Message)
        ensures
            m.id == id,
            m.message_type == message_type,
            m.timestamp == timestamp,
    {
        Message { id, message_type, timestamp }
    }
}

/// Requests a client sends to the server.
#[derive(Debug, Clone)]
pub enum ClientMessage {
    /// Log in under a name.
    Authenticate {
        /// Desired login name.
        username: String,
    },
    /// Join a channel.
    JoinChannel {
        /// The channel.
        channel_id: ChannelId,
        /// Password, when required.
        password: Option<String>,
    },
    /// Leave a channel.
    LeaveChannel {
        /// The channel.
        channel_id: ChannelId,
    },
    /// Change presence.
    SetStatus {
        /// The new presence.
        status: UserStatus,
    },
    /// Announce the start of speaking.
    StartAudio {
        /// The channel.
        channel_id: ChannelId,
    },
    /// Announce the end of speaking.
    StopAudio {
        /// The channel.
        channel_id: ChannelId,
    },
    /// Liveness probe.
    Ping,
}

/// Events the server sends to a client.
#[derive(Debug, Clone)]
pub enum ServerMessage {
    /// The login succeeded.
    Authenticated {
        /// The identifier assigned.
        user_id: UserId,
    },
    /// The client joined a channel.
    JoinedChannel {
        /// The channel.
        channel_id: ChannelId,
    },
    /// The client left a channel.
    LeftChannel {
        /// The channel.
        channel_id: ChannelId,
    },
    /// Another user joined.
    UserJoined {
        /// The channel.
        channel_id: ChannelId,
        /// The user.
        user_id: UserId,
    },
    /// Another user left.
    UserLeft {
        /// The channel.
        channel_id: ChannelId,
        /// The user.
        user_id: UserId,
    },
    /// The member list of a channel.
    ChannelUsers {
        /// The channel.
        channel_id: ChannelId,
        /// Its members.
        users: Vec<UserId>,
    },
    /// A user's presence changed.
    UserStatusChanged {
        /// The user.
        user_id: UserId,
        /// The new presence.
        status: UserStatus,
    },
    /// A user started speaking.
    AudioStarted {
        /// The channel.
        channel_id: ChannelId,
        /// The user.
        user_id: UserId,
    },
    /// A user stopped speaking.
    AudioStopped {
        /// The channel.
        channel_id: ChannelId,
        /// The user.
        user_id: UserId,
    },
    /// Something went wrong.
    Error {
        /// Description.
        message: String,
    },
    /// Liveness answer.
    Pong,
}

/// Whether a byte is ASCII whitespace.
pub open spec fn spec_is_ws(b: u8) -> bool {
    b == 0x20 || b == 0x09 || b == 0x0A || b == 0x0D || b == 0x0B || b == 0x0C
}

/// Whether a name holds at least one byte that is not ASCII whitespace.
pub open spec fn spec_nonblank(bytes: Seq<u8>) -> bool {
    exists|i: int| 0 <= i < bytes.len() && !spec_is_ws(#[trigger] bytes[i])
}

/// Whether a text holds at least one byte besides ASCII whitespace.
pub fn is_nonblank(text: &String) -> (r: bool)
    ensures
        r == spec_nonblank(vstd::utf8::encode_utf8(text@)),
{
    let slice = text.as_str();
    let bytes = slice.as_bytes();
    let n = bytes.len();
    let mut i: usize = 0;
    while i < n
        invariant
            n == bytes@.len(),
            i <= n,
            bytes@ == vstd::utf8::encode_utf8(text@),
            forall|j: int| 0 <= j < i ==> spec_is_ws(#[trigger] bytes@[j]),
        decreases n - i,
    {
        let b = *vstd::slice::slice_index_get(bytes, i);
        if !(b == 0x20 || b == 0x09 || b == 0x0A || b == 0x0D || b == 0x0B || b == 0x0C) {
            proof {
                assert(!spec_is_ws(vstd::utf8::encode_utf8(text@)[i as int]));
            }
            return true;
        }
        i = i + 1;
    }
    false
}

/// Validation of client messages.
pub struct WebSocketHandlers {
}

impl WebSocketHandlers {
    /// Creates the validator.
    pub fn new() -> (h: WebSocketHandlers)
    {
        WebSocketHandlers {  }
    }

    /// Whether a client message is acceptable: a login name must hold
    /// something besides whitespace; every other message is accepted.
    pub fn validate_message(&self, message: &ClientMessage) -> (r: bool)
        ensures
            r == match message {
                ClientMessage::Authenticate { username } => spec_nonblank(
                    vstd::utf8::encode_utf8(username@),
                ),
                _ => true,
            },
    {
        match message {
            ClientMessage::Authenticate { username } => is_nonblank(username),
            _ => true,
        }
    }
}

} // verus!

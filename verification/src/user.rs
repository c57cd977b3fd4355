//! User model: presence status and channel membership of one user.

use vstd::prelude::*;
use crate::packet::UserId;
use crate::packet::ChannelId;

verus! {

/// Presence of a user.
#[derive(Debug, Clone, Copy, PartialEq, Eq, Structural)]
pub enum UserStatus {
    /// Connected and idle.
    Online,
    /// Connected but away.
    Away,
    /// Sitting in a channel.
    InChannel,
    /// Not connected.
    Offline,
}

/// A registered user.
#[derive(Debug, Clone)]
pub struct User {
    /// The user's identifier.
    pub id: UserId,
    /// The user's name.
    pub username: String,
    /// Presence status.
    pub status: UserStatus,
    /// Channel the user sits in, if any.
    pub current_channel: Option<ChannelId>,
    /// Seconds since the epoch when created.
    pub created_at: u64,
    /// Seconds since the epoch when last seen.
    pub last_seen: u64,
}

impl User {
    /// Creates an online user outside any channel. The caller supplies
    /// the identifier and the clock reading.
    pub fn new(id: UserId, username: String, now: u64) -> (u: User)
        ensures
            u.id == id,
            u.username == username,
            u.status == UserStatus::Online,
            u.current_channel is None,
            u.created_at == now,
            u.last_seen == now,
    {
        User {
            id,
            username,
            status: UserStatus::Online,
            current_channel: None,
            created_at: now,
            last_seen: now,
        }
    }

    /// Puts the user in a channel and marks the presence.
    pub fn join_channel(&mut self, channel_id: ChannelId, now: u64)
        ensures
            final(self).current_channel == Some(channel_id),
            final(self).status == UserStatus::InChannel,
            final(self).last_seen == now,
            final(self).id == old(self).id,
            final(self).username == old(self).username,
            final(self).created_at == old(self).created_at,
    {
        self.current_channel = Some(channel_id);
        self.status = UserStatus::InChannel;
        self.last_seen = now;
    }

    /// Takes the user out of any channel, back to plain presence.
    pub fn leave_channel(&mut self, now: u64)
        ensures
            final(self).current_channel is None,
            final(self).status == UserStatus::Online,
            final(self).last_seen == now,
            final(self).id == old(self).id,
            final(self).username == old(self).username,
            final(self).created_at == old(self).created_at,
    {
        self.current_channel = None;
        self.status = UserStatus::Online;
        self.last_seen = now;
    }

    /// Stamps the user as seen now.
    pub fn update_last_seen(&mut self, now: u64)
        ensures
            final(self).last_seen == now,
            final(self).id == old(self).id,
            final(self).username == old(self).username,
            final(self).status == old(self).status,
            final(self).current_channel == old(self).current_channel,
            final(self).created_at == old(self).created_at,
    {
        self.last_seen = now;
    }

    /// Sets the presence status and stamps the user as seen.
    pub fn set_status(&mut self, status: UserStatus, now: u64)
        ensures
            final(self).status == status,
            final(self).last_seen == now,
            final(self).id == old(self).id,
            final(self).username == old(self).username,
            final(self).current_channel == old(self).current_channel,
            final(self).created_at == old(self).created_at,
    {
        self.status = status;
        self.last_seen = now;
    }
}

/// Request to register a user.
#[derive(Debug, Clone)]
pub struct CreateUserRequest {
    /// Desired login name.
    pub username: String,
}

/// A user as reported to clients.
#[derive(Debug, Clone)]
pub struct UserResponse {
    /// The user's identifier.
    pub id: UserId,
    /// The user's name.
    pub username: String,
    /// Presence status.
    pub status: UserStatus,
    /// Channel the user sits in, if any.
    pub current_channel: Option<ChannelId>,
}

impl UserResponse {
    /// Summarises a user for clients.
    pub fn of_user(u: &User) -> (r: UserResponse)
        ensures
            r.id == u.id,
            r.username == u.username,
            r.status == u.status,
            r.current_channel == u.current_channel,
    {
        UserResponse {
            id: u.id,
            username: u.username.clone(),
            status: u.status,
            current_channel: u.current_channel,
        }
    }
}

} // verus!

//! Channel model: membership, capacity and password rules.

use vstd::prelude::*;
use crate::packet::UserId;
use crate::packet::ChannelId;

verus! {

/// A logical room users join to exchange audio.
#[derive(Debug, Clone)]
pub struct Channel {
    /// The channel's identifier.
    pub id: ChannelId,
    /// The channel's name.
    pub name: String,
    /// An optional description.
    pub description: Option<String>,
    /// The user who owns the channel.
    pub owner_id: UserId,
    /// Most members admitted.
    pub max_users: usize,
    /// Current members, in join order.
    pub current_users: Vec<UserId>,
    /// Whether the channel is hidden from listings.
    pub is_private: bool,
    /// Password required to join, if any.
    pub password: Option<String>,
    /// Seconds since the epoch when created.
    pub created_at: u64,
}

impl Channel {
    /// Whether `user_id` is a member.
    pub open spec fn spec_has_member(self, user_id: UserId) -> bool {
        self.current_users@.contains(user_id)
    }

    /// Whether a join attempt succeeds: members may always rejoin; a full
    /// channel admits nobody else; a password-protected channel requires
    /// the matching password.
    pub open spec fn spec_can_join(self, user_id: UserId, password: Option<String>) -> bool {
        if self.spec_has_member(user_id) {
            true
        } else if self.current_users@.len() >= self.max_users {
            false
        } else {
            match self.password {
                Some(required) => match password {
                    Some(provided) => required@ == provided@,
                    None => false,
                },
                None => true,
            }
        }
    }

    /// Creates a channel with no members. The caller supplies the
    /// identifier and the clock reading.
    pub fn new(
        id: ChannelId,
        name: String,
        description: Option<String>,
        owner_id: UserId,
        max_users: usize,
        is_private: bool,
        password: Option<String>,
        created_at: u64,
    ) -> (c: Channel)
        ensures
            c.id == id,
            c.name == name,
            c.description == description,
            c.owner_id == owner_id,
            c.max_users == max_users,
            c.current_users@.len() == 0,
            c.is_private == is_private,
            c.password == password,
            c.created_at == created_at,
    {
        Channel {
            id,
            name,
            description,
            owner_id,
            max_users,
            current_users: Vec::new(),
            is_private,
            password,
            created_at,
        }
    }

    /// Whether `user_id` is a member.
    pub fn has_member(&self, user_id: UserId) -> (r: bool)
        ensures
            r == self.spec_has_member(user_id),
    {
        let n = self.current_users.len();
        let mut i: usize = 0;
        while i < n
            invariant
                n == self.current_users@.len(),
                i <= n,
                forall|j: int| 0 <= j < i ==> self.current_users@[j] != user_id,
            decreases n - i,
        {
            if self.current_users[i] == user_id {
                proof {
                    assert(self.current_users@[i as int] == user_id);
                }
                return true;
            }
            i = i + 1;
        }
        proof {
            assert forall|j: int|
                0 <= j < self.current_users@.len() implies self.current_users@[j] != user_id by {}
        }
        false
    }

    /// Whether a join attempt with the given password would succeed.
    pub fn can_join(&self, user_id: UserId, password: Option<&String>) -> (r: bool)
        ensures
            r == self.spec_can_join(
                user_id,
                match password {
                    Some(p) => Some(*p),
                    None => None,
                },
            ),
    {
        if self.has_member(user_id) {
            return true;
        }
        if self.current_users.len() >= self.max_users {
            return false;
        }
        match &self.password {
            Some(required) => match password {
                Some(provided) => *required == *provided,
                None => false,
            },
            None => true,
        }
    }

    /// Admits a user: succeeds iff the user is new and the channel has
    /// room, appending the user to the member list.
    pub fn add_user(&mut self, user_id: UserId) -> (added: bool)
        ensures
            added == (!old(self).spec_has_member(user_id) && old(self).current_users@.len() < old(
                self,
            ).max_users),
            added ==> final(self).current_users@ == old(self).current_users@.push(user_id),
            !added ==> final(self).current_users@ == old(self).current_users@,
            final(self).id == old(self).id,
            final(self).name == old(self).name,
            final(self).max_users == old(self).max_users,
            final(self).password == old(self).password,
    {
        if !self.has_member(user_id) && self.current_users.len() < self.max_users {
            self.current_users.push(user_id);
            true
        } else {
            false
        }
    }

    /// Removes a user: succeeds iff the user was a member, taking out the
    /// first occurrence and keeping the others in order.
    pub fn remove_user(&mut self, user_id: UserId) -> (removed: bool)
        ensures
            removed == old(self).spec_has_member(user_id),
            removed ==> exists|i: int|
                {
                    &&& 0 <= i < old(self).current_users@.len()
                    &&& old(self).current_users@[i] == user_id
                    &&& #[trigger] final(self).current_users@ == old(self).current_users@.remove(i)
                    &&& forall|j: int| 0 <= j < i ==> old(self).current_users@[j] != user_id
                },
            !removed ==> final(self).current_users@ == old(self).current_users@,
            final(self).id == old(self).id,
            final(self).name == old(self).name,
            final(self).max_users == old(self).max_users,
            final(self).password == old(self).password,
    {
        let n = self.current_users.len();
        let mut i: usize = 0;
        while i < n
            invariant
                self == old(self),
                n == self.current_users@.len(),
                i <= n,
                forall|j: int| 0 <= j < i ==> self.current_users@[j] != user_id,
            decreases n - i,
        {
            if self.current_users[i] == user_id {
                let removed_id = self.current_users.remove(i);
                proof {
                    assert(old(self).current_users@[i as int] == user_id);
                }
                return true;
            }
            i = i + 1;
        }
        false
    }

    /// Whether `user_id` owns the channel.
    pub fn is_owner(&self, user_id: UserId) -> (r: bool)
        ensures
            r == (self.owner_id == user_id),
    {
        self.owner_id == user_id
    }

    /// Whether the channel has no members.
    pub fn is_empty(&self) -> (r: bool)
        ensures
            r == (self.current_users@.len() == 0),
    {
        self.current_users.len() == 0
    }

    /// Number of members.
    pub fn user_count(&self) -> (n: usize)
        ensures
            n == self.current_users@.len(),
    {
        self.current_users.len()
    }
}

/// Request to create a channel.
#[derive(Debug, Clone)]
pub struct CreateChannelRequest {
    /// Desired name.
    pub name: String,
    /// Optional description.
    pub description: Option<String>,
    /// Optional member cap.
    pub max_users: Option<usize>,
    /// Whether the channel is private.
    pub is_private: Option<bool>,
    /// Optional password.
    pub password: Option<String>,
}

/// Request to join a channel.
#[derive(Debug, Clone)]
pub struct JoinChannelRequest {
    /// Password, when the channel requires one.
    pub password: Option<String>,
}

/// Join request arriving over the control surface.
#[derive(Debug, Clone)]
pub struct HttpJoinChannelRequest {
    /// The joining user, as text.
    pub user_id: String,
    /// UDP port the client listens on.
    pub udp_port: Option<u16>,
}

/// A channel as reported in listings.
#[derive(Debug, Clone)]
pub struct ChannelResponse {
    /// The channel's identifier.
    pub id: ChannelId,
    /// The channel's name.
    pub name: String,
    /// An optional description.
    pub description: Option<String>,
    /// The owner.
    pub owner_id: UserId,
    /// Most members admitted.
    pub max_users: usize,
    /// Current member count.
    pub current_user_count: usize,
    /// Whether the channel is private.
    pub is_private: bool,
    /// Whether a password is required.
    pub has_password: bool,
    /// Seconds since the epoch when created.
    pub created_at: u64,
}

impl ChannelResponse {
    /// Summarises a channel for a listing.
    pub fn of_channel(c: &Channel) -> (r: ChannelResponse)
        ensures
            r.id == c.id,
            r.name == c.name,
            r.description == c.description,
            r.owner_id == c.owner_id,
            r.max_users == c.max_users,
            r.current_user_count == c.current_users@.len(),
            r.is_private == c.is_private,
            r.has_password == (c.password is Some),
            r.created_at == c.created_at,
    {
        ChannelResponse {
            id: c.id,
            name: c.name.clone(),
            description: match &c.description {
                Some(d) => Some(d.clone()),
                None => None,
            },
            owner_id: c.owner_id,
            max_users: c.max_users,
            current_user_count: c.current_users.len(),
            is_private: c.is_private,
            has_password: c.password.is_some(),
            created_at: c.created_at,
        }
    }
}

/// A channel with its full member list, as reported to administrators.
#[derive(Debug, Clone)]
pub struct DetailedChannelResponse {
    /// The channel's identifier.
    pub id: ChannelId,
    /// The channel's name.
    pub name: String,
    /// An optional description.
    pub description: Option<String>,
    /// The owner.
    pub owner_id: UserId,
    /// Most members admitted.
    pub max_users: usize,
    /// The members.
    pub current_users: Vec<UserId>,
    /// Whether the channel is private.
    pub is_private: bool,
    /// Whether a password is required.
    pub has_password: bool,
    /// Seconds since the epoch when created.
    pub created_at: u64,
}

impl DetailedChannelResponse {
    /// Reports a channel with its member list.
    pub fn of_channel(c: &Channel) -> (r: DetailedChannelResponse)
        ensures
            r.id == c.id,
            r.name == c.name,
            r.current_users@ == c.current_users@,
            r.max_users == c.max_users,
            r.has_password == (c.password is Some),
    {
        DetailedChannelResponse {
            id: c.id,
            name: c.name.clone(),
            description: match &c.description {
                Some(d) => Some(d.clone()),
                None => None,
            },
            owner_id: c.owner_id,
            max_users: c.max_users,
            current_users: c.current_users.clone(),
            is_private: c.is_private,
            has_password: c.password.is_some(),
            created_at: c.created_at,
        }
    }
}

} // verus!

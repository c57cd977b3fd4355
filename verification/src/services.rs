//! Directory services: the user and channel registries the data plane
//! consults as its membership oracle.
//!
//! Identifier generation and clocks live outside the library: creation
//! calls take the fresh identifier and the clock reading as arguments.

use vstd::prelude::*;
use crate::packet::UserId;
use crate::packet::ChannelId;
use crate::channel::Channel;
use crate::channel::ChannelResponse;
use crate::channel::CreateChannelRequest;
use crate::channel::DetailedChannelResponse;
use crate::channel::JoinChannelRequest;
use crate::config::LimitsConfig;
use crate::table::IdTable;
use crate::user::CreateUserRequest;
use crate::user::User;
use crate::user::UserResponse;
use crate::user::UserStatus;

verus! {

/// Identifier of the default channel every deployment starts with.
pub const DEFAULT_CHANNEL_ID: u128 = 1;

/// Identifier of the system user that owns the default channel.
pub const SYSTEM_USER_ID: u128 = 0;

/// Why a directory operation was refused.
#[derive(Debug, Clone, Copy, PartialEq, Eq, Structural)]
pub enum ServiceError {
    /// The supplied identifier is already in use.
    IdentifierTaken,
    /// No user has this identifier.
    UserNotFound,
    /// Another user already has this name.
    UsernameTaken,
    /// The name holds nothing but whitespace.
    UsernameEmpty,
    /// The name exceeds fifty bytes.
    UsernameTooLong,
    /// No channel has this identifier.
    ChannelNotFound,
    /// Another channel already has this name.
    ChannelNameTaken,
    /// The name holds nothing but whitespace.
    ChannelNameEmpty,
    /// The name exceeds one hundred bytes.
    ChannelNameTooLong,
    /// The deployment's channel cap is reached.
    ChannelLimitReached,
    /// The channel is full or the password does not match.
    CannotJoin,
    /// The user is not a member of the channel.
    NotInChannel,
    /// The default channel cannot be deleted.
    CannotDeleteDefault,
    /// Only the owner may delete a channel.
    NotOwner,
    /// The session has not authenticated yet.
    NotAuthenticated,
}

/// Whether some registered user carries this name.
pub open spec fn spec_username_taken(t: IdTable<User>, name: Seq<char>) -> bool {
    exists|i: int| 0 <= i < t.entries@.len() && (#[trigger] t.entries@[i]).1.username@ == name
}

/// Whether some channel carries this name.
pub open spec fn spec_channel_name_taken(t: IdTable<Channel>, name: Seq<char>) -> bool {
    exists|i: int| 0 <= i < t.entries@.len() && (#[trigger] t.entries@[i]).1.name@ == name
}

/// The user registry.
pub struct UserService {
    /// Registered users by identifier.
    pub users: IdTable<User>,
}

impl UserService {
    /// The registry is well formed.
    pub open spec fn wf(self) -> bool {
        self.users.wf()
    }

    /// An empty registry.
    pub fn new() -> (s: UserService)
        ensures
            s.wf(),
            s.users.entries@.len() == 0,
    {
        UserService { users: IdTable::new() }
    }

    /// Registers a user under a fresh identifier: refused when the
    /// identifier or the name is taken, the name is blank, or the name
    /// exceeds fifty bytes.
    pub fn create_user(&mut self, request: CreateUserRequest, id: UserId, now: u64) -> (r: Result<
        UserResponse,
        ServiceError,
    >)
        requires
            old(self).wf(),
        ensures
            final(self).wf(),
            old(self).users.spec_contains(id) ==> r == Err::<UserResponse, ServiceError>(
                ServiceError::IdentifierTaken,
            ) && final(self).users.entries@ == old(self).users.entries@,
            !old(self).users.spec_contains(id) && spec_username_taken(
                old(self).users,
                request.username@,
            ) ==> r == Err::<UserResponse, ServiceError>(ServiceError::UsernameTaken) && final(self).users.entries@ == old(self).users.entries@,
            !old(self).users.spec_contains(id) && !spec_username_taken(
                old(self).users,
                request.username@,
            ) && !crate::message::spec_nonblank(vstd::utf8::encode_utf8(request.username@)) ==> r
                == Err::<UserResponse, ServiceError>(ServiceError::UsernameEmpty),
            !old(self).users.spec_contains(id) && !spec_username_taken(
                old(self).users,
                request.username@,
            ) && crate::message::spec_nonblank(vstd::utf8::encode_utf8(request.username@))
                && vstd::utf8::encode_utf8(request.username@).len() > 50 ==> r == Err::<
                UserResponse,
                ServiceError,
            >(ServiceError::UsernameTooLong),
            !old(self).users.spec_contains(id) && !spec_username_taken(
                old(self).users,
                request.username@,
            ) && crate::message::spec_nonblank(vstd::utf8::encode_utf8(request.username@))
                && vstd::utf8::encode_utf8(request.username@).len() <= 50 ==> r is Ok,
            r matches Ok(resp) ==> {
                &&& resp.id == id
                &&& resp.username == request.username
                &&& resp.status == UserStatus::Online
                &&& resp.current_channel is None
                &&& final(self).users.spec_get(id) matches Some(u) && u.id == id && u.username@
                    == request.username@ && u.created_at == now
                &&& forall|u2: UserId|
                    u2 != id ==> #[trigger] final(self).users.spec_get(u2) == old(self).users.spec_get(u2)
            },
    {
        if self.users.contains_key(id) {
            return Err(ServiceError::IdentifierTaken);
        }
        let n = self.users.entries.len();
        let mut i: usize = 0;
        while i < n
            invariant
                self == old(self),
                old(self).wf(),
                !old(self).users.spec_contains(id),
                n == self.users.entries@.len(),
                i <= n,
                forall|j: int|
                    0 <= j < i ==> (#[trigger] self.users.entries@[j]).1.username@
                        != request.username@,
            decreases n - i,
        {
            if self.users.entries[i].1.username == request.username {
                return Err(ServiceError::UsernameTaken);
            }
            i = i + 1;
        }
        if !crate::message::is_nonblank(&request.username) {
            return Err(ServiceError::UsernameEmpty);
        }
        if request.username.as_str().as_bytes().len() > 50 {
            return Err(ServiceError::UsernameTooLong);
        }
        let user = User::new(id, request.username.clone(), now);
        let response = UserResponse::of_user(&user);
        self.users.insert(id, user);
        Ok(response)
    }

    /// Looks a user up by identifier.
    pub fn get_user(&self, user_id: UserId) -> (r: Result<UserResponse, ServiceError>)
        requires
            self.wf(),
        ensures
            self.users.spec_contains(user_id) <==> r is Ok,
            r matches Ok(resp) ==> {
                let u = self.users.spec_get(user_id).unwrap();
                resp.id == u.id && resp.username == u.username && resp.status == u.status
                    && resp.current_channel == u.current_channel
            },
            r matches Err(e) ==> e == ServiceError::UserNotFound,
    {
        match self.users.get(user_id) {
            Some(u) => Ok(UserResponse::of_user(u)),
            None => Err(ServiceError::UserNotFound),
        }
    }

    /// Looks a user up by name.
    pub fn get_user_by_username(&self, username: &String) -> (r: Result<UserResponse, ServiceError>)
        requires
            self.wf(),
        ensures
            r is Ok <==> spec_username_taken(self.users, username@),
            r matches Ok(resp) ==> resp.username@ == username@,
            r matches Ok(resp) ==> exists|i: int|
                0 <= i < self.users.entries@.len() && (#[trigger] self.users.entries@[i]).1.username@ == username@ && resp.id == self.users.entries@[i].1.id,
    {
        let n = self.users.entries.len();
        let mut i: usize = 0;
        while i < n
            invariant
                self.wf(),
                n == self.users.entries@.len(),
                i <= n,
                forall|j: int|
                    0 <= j < i ==> (#[trigger] self.users.entries@[j]).1.username@ != username@,
            decreases n - i,
        {
            if self.users.entries[i].1.username == *username {
                return Ok(UserResponse::of_user(&self.users.entries[i].1));
            }
            i = i + 1;
        }
        Err(ServiceError::UserNotFound)
    }

    /// Sets a user's presence status.
    pub fn update_user_status(&mut self, user_id: UserId, status: UserStatus, now: u64) -> (r:
        Result<(), ServiceError>)
        requires
            old(self).wf(),
        ensures
            final(self).wf(),
            r is Ok <==> old(self).users.spec_contains(user_id),
            r is Ok ==> (final(self).users.spec_get(user_id) matches Some(u) && u.status
                == status && u.last_seen == now),
            r is Err ==> final(self).users.entries@ == old(self).users.entries@,
            forall|u2: UserId|
                u2 != user_id ==> #[trigger] final(self).users.spec_get(u2) == old(self).users.spec_get(u2),
    {
        match self.users.remove(user_id) {
            Some(mut user) => {
                user.set_status(status, now);
                self.users.insert(user_id, user);
                Ok(())
            },
            None => Err(ServiceError::UserNotFound),
        }
    }

    /// Marks a user as sitting in a channel.
    pub fn user_join_channel(&mut self, user_id: UserId, channel_id: ChannelId, now: u64) -> (r:
        Result<(), ServiceError>)
        requires
            old(self).wf(),
        ensures
            final(self).wf(),
            r is Ok <==> old(self).users.spec_contains(user_id),
            r is Ok ==> (final(self).users.spec_get(user_id) matches Some(u)
                && u.current_channel == Some(channel_id) && u.status == UserStatus::InChannel),
            r is Err ==> final(self).users.entries@ == old(self).users.entries@,
            forall|u2: UserId|
                u2 != user_id ==> #[trigger] final(self).users.spec_get(u2) == old(self).users.spec_get(u2),
    {
        match self.users.remove(user_id) {
            Some(mut user) => {
                user.join_channel(channel_id, now);
                self.users.insert(user_id, user);
                Ok(())
            },
            None => Err(ServiceError::UserNotFound),
        }
    }

    /// Marks a user as outside any channel.
    pub fn user_leave_channel(&mut self, user_id: UserId, now: u64) -> (r: Result<
        (),
        ServiceError,
    >)
        requires
            old(self).wf(),
        ensures
            final(self).wf(),
            r is Ok <==> old(self).users.spec_contains(user_id),
            r is Ok ==> (final(self).users.spec_get(user_id) matches Some(u)
                && u.current_channel is None && u.status == UserStatus::Online),
            r is Err ==> final(self).users.entries@ == old(self).users.entries@,
            forall|u2: UserId|
                u2 != user_id ==> #[trigger] final(self).users.spec_get(u2) == old(self).users.spec_get(u2),
    {
        match self.users.remove(user_id) {
            Some(mut user) => {
                user.leave_channel(now);
                self.users.insert(user_id, user);
                Ok(())
            },
            None => Err(ServiceError::UserNotFound),
        }
    }

    /// Deletes a user.
    pub fn remove_user(&mut self, user_id: UserId) -> (r: Result<(), ServiceError>)
        requires
            old(self).wf(),
        ensures
            final(self).wf(),
            r is Ok <==> old(self).users.spec_contains(user_id),
            !final(self).users.spec_contains(user_id),
            forall|u2: UserId|
                u2 != user_id ==> #[trigger] final(self).users.spec_get(u2) == old(self).users.spec_get(u2),
    {
        match self.users.remove(user_id) {
            Some(removed) => Ok(()),
            None => Err(ServiceError::UserNotFound),
        }
    }

    /// Every registered user, in registration order.
    pub fn list_users(&self) -> (out: Vec<UserResponse>)
        requires
            self.wf(),
        ensures
            out@.len() == self.users.entries@.len(),
            forall|i: int|
                0 <= i < out@.len() ==> (#[trigger] out@[i]).id == self.users.entries@[i].1.id
                    && out@[i].username == self.users.entries@[i].1.username,
    {
        let n = self.users.entries.len();
        let mut out: Vec<UserResponse> = Vec::new();
        let mut i: usize = 0;
        while i < n
            invariant
                self.wf(),
                n == self.users.entries@.len(),
                i <= n,
                out@.len() == i,
                forall|k: int|
                    0 <= k < i ==> (#[trigger] out@[k]).id == self.users.entries@[k].1.id
                        && out@[k].username == self.users.entries@[k].1.username,
            decreases n - i,
        {
            out.push(UserResponse::of_user(&self.users.entries[i].1));
            i = i + 1;
        }
        out
    }
}

/// The channel registry.
pub struct ChannelService {
    /// Channels by identifier.
    pub channels: IdTable<Channel>,
    /// Deployment limits.
    pub limits: LimitsConfig,
}

impl ChannelService {
    /// The registry is well formed.
    pub open spec fn wf(self) -> bool {
        self.channels.wf()
    }

    /// A registry holding only the default channel, owned by the system
    /// user and capped at the deployment's per-channel limit.
    pub fn new(limits: LimitsConfig, now: u64) -> (s: ChannelService)
        ensures
            s.wf(),
            s.channels.spec_get(DEFAULT_CHANNEL_ID) matches Some(c) && c.owner_id == SYSTEM_USER_ID
                && c.max_users == limits.max_users_per_channel && !c.is_private && c.password
                is None,
            s.limits == limits,
    {
        let mut channels: IdTable<Channel> = IdTable::new();
        let default_channel = Channel {
            id: DEFAULT_CHANNEL_ID,
            name: "General".to_owned(),
            description: Some("Default channel for all users".to_owned()),
            owner_id: SYSTEM_USER_ID,
            max_users: limits.max_users_per_channel,
            current_users: Vec::new(),
            is_private: false,
            password: None,
            created_at: now,
        };
        channels.insert(DEFAULT_CHANNEL_ID, default_channel);
        ChannelService { channels, limits }
    }

    /// Creates a channel under a fresh identifier: refused when the cap
    /// is reached, the identifier or name is taken, the name is blank, or
    /// the name exceeds one hundred bytes. The member cap is the
    /// requested one, itself capped by the deployment limit.
    pub fn create_channel(
        &mut self,
        request: CreateChannelRequest,
        owner_id: UserId,
        id: ChannelId,
        now: u64,
    ) -> (r: Result<ChannelResponse, ServiceError>)
        requires
            old(self).wf(),
        ensures
            final(self).wf(),
            old(self).channels.entries@.len() >= old(self).limits.max_channels ==> r == Err::<
                ChannelResponse,
                ServiceError,
            >(ServiceError::ChannelLimitReached),
            old(self).channels.entries@.len() < old(self).limits.max_channels && !old(
                self,
            ).channels.spec_contains(id) && crate::message::spec_nonblank(
                vstd::utf8::encode_utf8(request.name@),
            ) && vstd::utf8::encode_utf8(request.name@).len() <= 100 && spec_channel_name_taken(
                old(self).channels,
                request.name@,
            ) ==> r == Err::<ChannelResponse, ServiceError>(ServiceError::ChannelNameTaken),
            old(self).channels.entries@.len() < old(self).limits.max_channels && !old(
                self,
            ).channels.spec_contains(id) && crate::message::spec_nonblank(
                vstd::utf8::encode_utf8(request.name@),
            ) && vstd::utf8::encode_utf8(request.name@).len() <= 100 && !spec_channel_name_taken(
                old(self).channels,
                request.name@,
            ) ==> r is Ok,
            r matches Ok(resp) ==> {
                &&& resp.id == id
                &&& resp.name == request.name
                &&& resp.owner_id == owner_id
                &&& resp.current_user_count == 0
                &&& final(self).channels.spec_get(id) matches Some(c) && c.id == id && c.name@
                    == request.name@ && c.owner_id == owner_id && c.current_users@.len() == 0
                    && c.max_users <= old(self).limits.max_users_per_channel
                &&& forall|c2: ChannelId|
                    c2 != id ==> #[trigger] final(self).channels.spec_get(c2) == old(self).channels.spec_get(c2)
            },
    {
        if self.channels.len() >= self.limits.max_channels {
            return Err(ServiceError::ChannelLimitReached);
        }
        if self.channels.contains_key(id) {
            return Err(ServiceError::IdentifierTaken);
        }
        if !crate::message::is_nonblank(&request.name) {
            return Err(ServiceError::ChannelNameEmpty);
        }
        if request.name.as_str().as_bytes().len() > 100 {
            return Err(ServiceError::ChannelNameTooLong);
        }
        let n = self.channels.entries.len();
        let mut i: usize = 0;
        while i < n
            invariant
                self == old(self),
                old(self).wf(),
                !old(self).channels.spec_contains(id),
                n < self.limits.max_channels,
                n == self.channels.entries@.len(),
                i <= n,
                forall|j: int|
                    0 <= j < i ==> (#[trigger] self.channels.entries@[j]).1.name@ != request.name@,
            decreases n - i,
        {
            if self.channels.entries[i].1.name == request.name {
                return Err(ServiceError::ChannelNameTaken);
            }
            i = i + 1;
        }
        let max_users = match request.max_users {
            Some(m) => if m > self.limits.max_users_per_channel {
                self.limits.max_users_per_channel
            } else {
                m
            },
            None => self.limits.max_users_per_channel,
        };
        let is_private = match request.is_private {
            Some(p) => p,
            None => false,
        };
        let channel = Channel::new(
            id,
            request.name,
            request.description,
            owner_id,
            max_users,
            is_private,
            request.password,
            now,
        );
        let response = ChannelResponse::of_channel(&channel);
        self.channels.insert(id, channel);
        Ok(response)
    }

    /// Looks a channel up, with its member list.
    pub fn get_channel(&self, channel_id: ChannelId) -> (r: Result<
        DetailedChannelResponse,
        ServiceError,
    >)
        requires
            self.wf(),
        ensures
            self.channels.spec_contains(channel_id) <==> r is Ok,
            r matches Ok(resp) ==> {
                let c = self.channels.spec_get(channel_id).unwrap();
                resp.id == c.id && resp.name == c.name && resp.current_users@ == c.current_users@
            },
            r matches Err(e) ==> e == ServiceError::ChannelNotFound,
    {
        match self.channels.get(channel_id) {
            Some(c) => Ok(DetailedChannelResponse::of_channel(c)),
            None => Err(ServiceError::ChannelNotFound),
        }
    }

    /// The public channels, in registration order.
    pub fn list_channels(&self) -> (out: Vec<ChannelResponse>)
        requires
            self.wf(),
        ensures
            forall|i: int| 0 <= i < out@.len() ==> !(#[trigger] out@[i]).is_private,
    {
        let n = self.channels.entries.len();
        let mut out: Vec<ChannelResponse> = Vec::new();
        let mut i: usize = 0;
        while i < n
            invariant
                self.wf(),
                n == self.channels.entries@.len(),
                i <= n,
                forall|k: int| 0 <= k < out@.len() ==> !(#[trigger] out@[k]).is_private,
            decreases n - i,
        {
            if !self.channels.entries[i].1.is_private {
                out.push(ChannelResponse::of_channel(&self.channels.entries[i].1));
            }
            i = i + 1;
        }
        out
    }

    /// Admits a user to a channel: members may rejoin; a full channel or
    /// a wrong password refuses.
    pub fn join_channel(
        &mut self,
        channel_id: ChannelId,
        user_id: UserId,
        request: Option<JoinChannelRequest>,
    ) -> (r: Result<(), ServiceError>)
        requires
            old(self).wf(),
        ensures
            final(self).wf(),
            !old(self).channels.spec_contains(channel_id) ==> r == Err::<(), ServiceError>(
                ServiceError::ChannelNotFound,
            ) && final(self).channels.entries@ == old(self).channels.entries@,
            r is Ok ==> (final(self).channels.spec_get(channel_id) matches Some(c)
                && c.spec_has_member(user_id)),
            (r is Ok <==> (old(self).channels.spec_get(channel_id) matches Some(c)
                && c.spec_can_join(
                user_id,
                match request {
                    Some(req) => req.password,
                    None => None,
                },
            ))),
            (old(self).channels.spec_get(channel_id) matches Some(c) && !c.spec_can_join(
                user_id,
                match request {
                    Some(req) => req.password,
                    None => None,
                },
            )) ==> r == Err::<(), ServiceError>(ServiceError::CannotJoin),
            forall|c2: ChannelId|
                c2 != channel_id ==> #[trigger] final(self).channels.spec_get(c2) == old(self).channels.spec_get(c2),
    {
        let mut channel = match self.channels.remove(channel_id) {
            Some(c) => c,
            None => {
                return Err(ServiceError::ChannelNotFound);
            },
        };
        let password = match &request {
            Some(req) => match &req.password {
                Some(p) => Some(p),
                None => None,
            },
            None => None,
        };
        if !channel.can_join(user_id, password) {
            self.channels.insert(channel_id, channel);
            return Err(ServiceError::CannotJoin);
        }
        let was_member = channel.has_member(user_id);
        let added = channel.add_user(user_id);
        if added || was_member {
            proof {
                if added {
                    assert(channel.current_users@[channel.current_users@.len() - 1] == user_id);
                }
                assert(channel.spec_has_member(user_id));
            }
            self.channels.insert(channel_id, channel);
            Ok(())
        } else {
            self.channels.insert(channel_id, channel);
            Err(ServiceError::CannotJoin)
        }
    }

    /// Removes a user from a channel; refused when the user is not a
    /// member.
    pub fn leave_channel(&mut self, channel_id: ChannelId, user_id: UserId) -> (r: Result<
        (),
        ServiceError,
    >)
        requires
            old(self).wf(),
        ensures
            final(self).wf(),
            !old(self).channels.spec_contains(channel_id) ==> r == Err::<(), ServiceError>(
                ServiceError::ChannelNotFound,
            ),
            r is Ok <==> (old(self).channels.spec_get(channel_id) matches Some(c)
                && c.spec_has_member(user_id)),
            old(self).channels.spec_contains(channel_id) ==> final(self).channels.spec_contains(
                channel_id,
            ),
            r is Ok ==> (old(self).channels.spec_get(channel_id) matches Some(c0)
                && final(self).channels.spec_get(channel_id) matches Some(c1) && (exists|i: int|
                {
                    &&& 0 <= i < c0.current_users@.len()
                    &&& c0.current_users@[i] == user_id
                    &&& #[trigger] c1.current_users@ == c0.current_users@.remove(i)
                    &&& forall|j: int| 0 <= j < i ==> c0.current_users@[j] != user_id
                })),
            forall|c2: ChannelId|
                c2 != channel_id ==> #[trigger] final(self).channels.spec_get(c2) == old(self).channels.spec_get(c2),
    {
        let mut channel = match self.channels.remove(channel_id) {
            Some(c) => c,
            None => {
                return Err(ServiceError::ChannelNotFound);
            },
        };
        let removed = channel.remove_user(user_id);
        self.channels.insert(channel_id, channel);
        if removed {
            Ok(())
        } else {
            Err(ServiceError::NotInChannel)
        }
    }

    /// Deletes a channel: never the default one, and only for its owner.
    pub fn delete_channel(&mut self, channel_id: ChannelId, requester_id: UserId) -> (r: Result<
        (),
        ServiceError,
    >)
        requires
            old(self).wf(),
        ensures
            final(self).wf(),
            channel_id == DEFAULT_CHANNEL_ID ==> r == Err::<(), ServiceError>(
                ServiceError::CannotDeleteDefault,
            ) && final(self).channels.entries@ == old(self).channels.entries@,
            r is Ok ==> !final(self).channels.spec_contains(channel_id),
            r is Ok ==> (old(self).channels.spec_get(channel_id) matches Some(c) && c.owner_id
                == requester_id),
            forall|c2: ChannelId|
                c2 != channel_id ==> #[trigger] final(self).channels.spec_get(c2) == old(self).channels.spec_get(c2),
    {
        if channel_id == DEFAULT_CHANNEL_ID {
            return Err(ServiceError::CannotDeleteDefault);
        }
        let owner_ok = match self.channels.get(channel_id) {
            Some(c) => c.owner_id == requester_id,
            None => {
                return Err(ServiceError::ChannelNotFound);
            },
        };
        if !owner_ok {
            return Err(ServiceError::NotOwner);
        }
        let removed = self.channels.remove(channel_id);
        Ok(())
    }

    /// The members of a channel.
    pub fn get_users_in_channel(&self, channel_id: ChannelId) -> (r: Result<
        Vec<UserId>,
        ServiceError,
    >)
        requires
            self.wf(),
        ensures
            self.channels.spec_contains(channel_id) <==> r is Ok,
            r matches Ok(users) ==> users@ == self.channels.spec_get(
                channel_id,
            ).unwrap().current_users@,
    {
        match self.channels.get(channel_id) {
            Some(c) => Ok(c.current_users.clone()),
            None => Err(ServiceError::ChannelNotFound),
        }
    }

    /// Whether a user belongs to a channel: the membership oracle of the
    /// data plane.
    pub fn is_member(&self, user_id: UserId, channel_id: ChannelId) -> (r: bool)
        requires
            self.wf(),
        ensures
            r == (self.channels.spec_get(channel_id) matches Some(c) && c.spec_has_member(
                user_id,
            )),
    {
        match self.channels.get(channel_id) {
            Some(c) => c.has_member(user_id),
            None => false,
        }
    }

    /// Removes a user from every channel, as on disconnect.
    pub fn remove_user_from_all_channels(&mut self, user_id: UserId)
        requires
            old(self).wf(),
        ensures
            final(self).wf(),
            final(self).channels.entries@.len() == old(self).channels.entries@.len(),
            forall|i: int|
                0 <= i < final(self).channels.entries@.len() ==> (#[trigger] final(self).channels.entries@[i]).0 == old(self).channels.entries@[i].0 && !final(self).channels.entries@[i].1.spec_has_member(user_id),
    {
        let n = self.channels.entries.len();
        let mut i: usize = 0;
        while i < n
            invariant
                n == self.channels.entries@.len(),
                self.channels.entries@.len() == old(self).channels.entries@.len(),
                self.wf(),
                i <= n,
                self.limits == old(self).limits,
                forall|j: int|
                    i <= j < n ==> #[trigger] self.channels.entries@[j] == old(self).channels.entries@[j],
                forall|j: int|
                    0 <= j < i ==> (#[trigger] self.channels.entries@[j]).0 == old(self).channels.entries@[j].0 && !self.channels.entries@[j].1.spec_has_member(
                        user_id,
                    ),
            decreases n - i,
        {
            let ghost pre = self.channels.entries@;
            let (k, mut channel) = self.channels.entries.remove(i);
            while channel.has_member(user_id)
                decreases channel.current_users@.len(),
            {
                let removed = channel.remove_user(user_id);
                proof {
                    assert(removed);
                }
            }
            self.channels.entries.insert(i, (k, channel));
            proof {
                assert forall|a: int, b: int|
                    0 <= a < b < self.channels.entries@.len() implies ((
                #[trigger] self.channels.entries@[a]).0 != (
                #[trigger] self.channels.entries@[b]).0) by {
                    assert(self.channels.entries@[a].0 == pre[a].0);
                    assert(self.channels.entries@[b].0 == pre[b].0);
                }
            }
            i = i + 1;
        }
    }
}

} // verus!
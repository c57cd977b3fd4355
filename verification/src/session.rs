//! Control-plane session logic: what one client message does to the
//! directories, what the client is told, and what the room is told.
//!
//! The socket loop outside the library reads a message, calls
//! `handle_client_message`, performs the returned deliveries, and keeps
//! the returned authentication for the next message.

use vstd::prelude::*;
use crate::packet::UserId;
use crate::packet::ChannelId;
use crate::message::ClientMessage;
use crate::message::ServerMessage;
use crate::services::ChannelService;
use crate::services::ServiceError;
use crate::services::UserService;
use crate::services::spec_username_taken;
use crate::user::UserStatus;

verus! {

/// One delivery the caller performs after a session step.
#[derive(Debug, Clone)]
pub enum Outbound {
    /// Send to one user's control connection.
    ToUser {
        /// The recipient.
        user_id: UserId,
        /// What to send.
        message: ServerMessage,
    },
    /// Send to every member of a channel, possibly excluding one.
    ToChannel {
        /// The channel addressed.
        channel_id: ChannelId,
        /// A member to skip, usually the actor.
        exclude: Option<UserId>,
        /// What to send.
        message: ServerMessage,
    },
    /// Send to every connected user.
    Global {
        /// What to send.
        message: ServerMessage,
    },
}

/// The outcome of one session step.
#[derive(Debug)]
pub struct SessionStep {
    /// Who the session speaks for after the step.
    pub authenticated: Option<UserId>,
    /// The direct reply, or the error to report.
    pub reply: Result<Option<ServerMessage>, ServiceError>,
    /// Deliveries the caller performs.
    pub outbound: Vec<Outbound>,
}

/// Applies one client message to the directories: authentication binds
/// the session to an existing user by name; joining and leaving a
/// channel update both directories and notify the room; status changes
/// broadcast; speech announcements notify the room; a ping just answers.
/// Every message except authentication requires an authenticated session.
pub fn handle_client_message(
    users: &mut UserService,
    channels: &mut ChannelService,
    session_user: Option<UserId>,
    message: ClientMessage,
    now: u64,
) -> (step: SessionStep)
    requires
        old(users).wf(),
        old(channels).wf(),
    ensures
        final(users).wf(),
        final(channels).wf(),
        (message matches ClientMessage::Authenticate { username } ==> {
            &&& final(users).users.entries@ == old(users).users.entries@
            &&& final(channels).channels.entries@ == old(channels).channels.entries@
            &&& (spec_username_taken(old(users).users, username@) <==> step.reply is Ok)
            &&& (step.reply is Err ==> step.authenticated == session_user)
            &&& (step.reply matches Ok(m) ==> step.authenticated is Some && m == Some(
                ServerMessage::Authenticated { user_id: step.authenticated.unwrap() },
            ))
            &&& (step.reply is Ok ==> (exists|i: int|
                0 <= i < old(users).users.entries@.len() && (#[trigger] old(
                    users,
                ).users.entries@[i]).1.username@ == username@ && step.authenticated == Some(
                    old(users).users.entries@[i].1.id,
                )))
        }),
        (!(message matches ClientMessage::Authenticate { username: u2 }) ==> step.authenticated
            == session_user),
        (!(message matches ClientMessage::Authenticate { username: u3 }) && session_user is None
            ==> step.reply == Err::<Option<ServerMessage>, ServiceError>(
            ServiceError::NotAuthenticated,
        ) && step.outbound@.len() == 0 && final(users).users.entries@ == old(
            users,
        ).users.entries@ && final(channels).channels.entries@ == old(channels).channels.entries@),
        (message matches ClientMessage::JoinChannel { channel_id, password } ==> (session_user
            matches Some(uid) ==> {
            &&& ((old(channels).channels.spec_get(channel_id) matches Some(c)
                && c.spec_can_join(uid, password) && old(users).users.spec_contains(uid))
                ==> step.reply is Ok)
            &&& (step.reply is Ok ==> {
                &&& (final(channels).channels.spec_get(channel_id) matches Some(c)
                    && c.spec_has_member(uid))
                &&& step.reply == Ok::<Option<ServerMessage>, ServiceError>(
                    Some(ServerMessage::JoinedChannel { channel_id }),
                )
                &&& final(users).users.spec_get(uid) matches Some(u) && u.current_channel
                    == Some(channel_id) && u.status == UserStatus::InChannel
                &&& step.outbound@.len() == 2
                &&& step.outbound@[0] == (Outbound::ToChannel {
                    channel_id,
                    exclude: Some(uid),
                    message: ServerMessage::UserJoined { channel_id, user_id: uid },
                })
                &&& (step.outbound@[1] matches Outbound::ToUser { user_id: uj, message: mj }
                    && uj == uid && (mj matches ServerMessage::ChannelUsers {
                    channel_id: chj,
                    users: usj,
                } && chj == channel_id && usj@ == final(channels).channels.spec_get(
                    channel_id,
                ).unwrap().current_users@))
            })
        })),
        (message matches ClientMessage::LeaveChannel { channel_id } ==> (session_user
            matches Some(uid) ==> {
            &&& (step.reply is Ok <==> (old(channels).channels.spec_get(channel_id)
                matches Some(c) && c.spec_has_member(uid) && old(users).users.spec_contains(uid)))
            &&& (step.reply is Ok ==> {
                &&& step.reply == Ok::<Option<ServerMessage>, ServiceError>(
                    Some(ServerMessage::LeftChannel { channel_id }),
                )
                &&& step.outbound@ =~= seq![
                    (Outbound::ToChannel {
                        channel_id,
                        exclude: Some(uid),
                        message: ServerMessage::UserLeft { channel_id, user_id: uid },
                    }),
                ]
                &&& final(users).users.spec_get(uid) matches Some(u) && u.current_channel is None
                    && u.status == UserStatus::Online
                &&& (old(channels).channels.spec_get(channel_id) matches Some(c0)
                    && final(channels).channels.spec_get(channel_id) matches Some(c1) && (exists|
                    i: int,
                |
                    {
                        &&& 0 <= i < c0.current_users@.len()
                        &&& c0.current_users@[i] == uid
                        &&& #[trigger] c1.current_users@ == c0.current_users@.remove(i)
                        &&& forall|j: int| 0 <= j < i ==> c0.current_users@[j] != uid
                    }))
            })
        })),
        (message matches ClientMessage::SetStatus { status } ==> (session_user matches Some(uid)
            ==> {
            &&& (step.reply is Ok <==> old(users).users.spec_contains(uid))
            &&& (step.reply is Ok ==> {
                &&& step.reply == Ok::<Option<ServerMessage>, ServiceError>(None)
                &&& step.outbound@ =~= seq![
                    (Outbound::Global {
                        message: ServerMessage::UserStatusChanged { user_id: uid, status },
                    }),
                ]
                &&& final(users).users.spec_get(uid) matches Some(u) && u.status == status
            })
            &&& final(channels).channels.entries@ == old(channels).channels.entries@
        })),
        (message matches ClientMessage::StartAudio { channel_id } ==> (session_user
            matches Some(uid) ==> {
            &&& step.reply == Ok::<Option<ServerMessage>, ServiceError>(None)
            &&& step.outbound@ =~= seq![
                (Outbound::ToChannel {
                    channel_id,
                    exclude: None,
                    message: ServerMessage::AudioStarted { channel_id, user_id: uid },
                }),
            ]
            &&& final(users).users.entries@ == old(users).users.entries@
            &&& final(channels).channels.entries@ == old(channels).channels.entries@
        })),
        (message matches ClientMessage::StopAudio { channel_id } ==> (session_user
            matches Some(uid) ==> {
            &&& step.reply == Ok::<Option<ServerMessage>, ServiceError>(None)
            &&& step.outbound@ =~= seq![
                (Outbound::ToChannel {
                    channel_id,
                    exclude: None,
                    message: ServerMessage::AudioStopped { channel_id, user_id: uid },
                }),
            ]
            &&& final(users).users.entries@ == old(users).users.entries@
            &&& final(channels).channels.entries@ == old(channels).channels.entries@
        })),
        (message matches ClientMessage::Ping ==> (session_user is Some ==> step.reply == Ok::<
            Option<ServerMessage>,
            ServiceError,
        >(Some(ServerMessage::Pong)) && step.outbound@.len() == 0 && final(users).users.entries@
            == old(users).users.entries@ && final(channels).channels.entries@ == old(
            channels,
        ).channels.entries@)),
{
    match message {
        ClientMessage::Authenticate { username } => {
            let found = users.get_user_by_username(&username);
            match found {
                Ok(resp) => SessionStep {
                    authenticated: Some(resp.id),
                    reply: Ok(Some(ServerMessage::Authenticated { user_id: resp.id })),
                    outbound: Vec::new(),
                },
                Err(e) => SessionStep {
                    authenticated: session_user,
                    reply: Err(e),
                    outbound: Vec::new(),
                },
            }
        },
        ClientMessage::JoinChannel { channel_id, password } => {
            let uid = match session_user {
                Some(uid) => uid,
                None => {
                    return SessionStep {
                        authenticated: session_user,
                        reply: Err(ServiceError::NotAuthenticated),
                        outbound: Vec::new(),
                    };
                },
            };
            let join_request = crate::channel::JoinChannelRequest { password };
            match channels.join_channel(channel_id, uid, Some(join_request)) {
                Ok(unit) => {},
                Err(e) => {
                    return SessionStep {
                        authenticated: session_user,
                        reply: Err(e),
                        outbound: Vec::new(),
                    };
                },
            }
            match users.user_join_channel(uid, channel_id, now) {
                Ok(unit) => {},
                Err(e) => {
                    return SessionStep {
                        authenticated: session_user,
                        reply: Err(e),
                        outbound: Vec::new(),
                    };
                },
            }
            let members = match channels.get_users_in_channel(channel_id) {
                Ok(m) => m,
                Err(e) => Vec::new(),
            };
            let mut outbound: Vec<Outbound> = Vec::new();
            outbound.push(
                Outbound::ToChannel {
                    channel_id,
                    exclude: Some(uid),
                    message: ServerMessage::UserJoined { channel_id, user_id: uid },
                },
            );
            outbound.push(
                Outbound::ToUser {
                    user_id: uid,
                    message: ServerMessage::ChannelUsers { channel_id, users: members },
                },
            );
            SessionStep {
                authenticated: session_user,
                reply: Ok(Some(ServerMessage::JoinedChannel { channel_id })),
                outbound,
            }
        },
        ClientMessage::LeaveChannel { channel_id } => {
            let uid = match session_user {
                Some(uid) => uid,
                None => {
                    return SessionStep {
                        authenticated: session_user,
                        reply: Err(ServiceError::NotAuthenticated),
                        outbound: Vec::new(),
                    };
                },
            };
            match channels.leave_channel(channel_id, uid) {
                Ok(unit) => {},
                Err(e) => {
                    return SessionStep {
                        authenticated: session_user,
                        reply: Err(e),
                        outbound: Vec::new(),
                    };
                },
            }
            match users.user_leave_channel(uid, now) {
                Ok(unit) => {},
                Err(e) => {
                    return SessionStep {
                        authenticated: session_user,
                        reply: Err(e),
                        outbound: Vec::new(),
                    };
                },
            }
            let mut outbound: Vec<Outbound> = Vec::new();
            outbound.push(
                Outbound::ToChannel {
                    channel_id,
                    exclude: Some(uid),
                    message: ServerMessage::UserLeft { channel_id, user_id: uid },
                },
            );
            SessionStep {
                authenticated: session_user,
                reply: Ok(Some(ServerMessage::LeftChannel { channel_id })),
                outbound,
            }
        },
        ClientMessage::SetStatus { status } => {
            let uid = match session_user {
                Some(uid) => uid,
                None => {
                    return SessionStep {
                        authenticated: session_user,
                        reply: Err(ServiceError::NotAuthenticated),
                        outbound: Vec::new(),
                    };
                },
            };
            match users.update_user_status(uid, status, now) {
                Ok(unit) => {},
                Err(e) => {
                    return SessionStep {
                        authenticated: session_user,
                        reply: Err(e),
                        outbound: Vec::new(),
                    };
                },
            }
            let mut outbound: Vec<Outbound> = Vec::new();
            outbound.push(
                Outbound::Global {
                    message: ServerMessage::UserStatusChanged { user_id: uid, status },
                },
            );
            SessionStep { authenticated: session_user, reply: Ok(None), outbound }
        },
        ClientMessage::StartAudio { channel_id } => {
            let uid = match session_user {
                Some(uid) => uid,
                None => {
                    return SessionStep {
                        authenticated: session_user,
                        reply: Err(ServiceError::NotAuthenticated),
                        outbound: Vec::new(),
                    };
                },
            };
            let mut outbound: Vec<Outbound> = Vec::new();
            outbound.push(
                Outbound::ToChannel {
                    channel_id,
                    exclude: None,
                    message: ServerMessage::AudioStarted { channel_id, user_id: uid },
                },
            );
            SessionStep { authenticated: session_user, reply: Ok(None), outbound }
        },
        ClientMessage::StopAudio { channel_id } => {
            let uid = match session_user {
                Some(uid) => uid,
                None => {
                    return SessionStep {
                        authenticated: session_user,
                        reply: Err(ServiceError::NotAuthenticated),
                        outbound: Vec::new(),
                    };
                },
            };
            let mut outbound: Vec<Outbound> = Vec::new();
            outbound.push(
                Outbound::ToChannel {
                    channel_id,
                    exclude: None,
                    message: ServerMessage::AudioStopped { channel_id, user_id: uid },
                },
            );
            SessionStep { authenticated: session_user, reply: Ok(None), outbound }
        },
        ClientMessage::Ping => {
            match session_user {
                Some(uid) => SessionStep {
                    authenticated: session_user,
                    reply: Ok(Some(ServerMessage::Pong)),
                    outbound: Vec::new(),
                },
                None => SessionStep {
                    authenticated: session_user,
                    reply: Err(ServiceError::NotAuthenticated),
                    outbound: Vec::new(),
                },
            }
        },
    }
}

/// Cleans up after a disconnect: the user leaves every channel and goes
/// offline; the caller announces the departures it needs to.
pub fn handle_user_disconnect(users: &mut UserService, channels: &mut ChannelService, user_id: UserId, now: u64)
    requires
        old(users).wf(),
        old(channels).wf(),
    ensures
        final(users).wf(),
        final(channels).wf(),
        forall|i: int|
            0 <= i < final(channels).channels.entries@.len() ==> !(#[trigger] final(
                channels
            ).channels.entries@[i]).1.spec_has_member(user_id),
        old(users).users.spec_contains(user_id) ==> (final(users).users.spec_get(user_id)
            matches Some(u) && u.status == UserStatus::Offline),
{
    channels.remove_user_from_all_channels(user_id);
    let updated = users.update_user_status(user_id, UserStatus::Offline, now);
}

} // verus!

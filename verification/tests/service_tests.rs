use voicechat::channel::CreateChannelRequest;
use voicechat::config::LimitsConfig;
use voicechat::message::ClientMessage;
use voicechat::message::ServerMessage;
use voicechat::services::ChannelService;
use voicechat::services::ServiceError;
use voicechat::services::UserService;
use voicechat::services::DEFAULT_CHANNEL_ID;
use voicechat::session::handle_client_message;
use voicechat::session::handle_user_disconnect;
use voicechat::user::CreateUserRequest;
use voicechat::user::UserStatus;

fn limits() -> LimitsConfig {
    LimitsConfig { max_users_per_channel: 4, max_channels: 3, max_concurrent_connections: 10 }
}

fn user_request(name: &str) -> CreateUserRequest {
    CreateUserRequest { username: name.to_string() }
}

fn channel_request(name: &str) -> CreateChannelRequest {
    CreateChannelRequest {
        name: name.to_string(),
        description: None,
        max_users: None,
        is_private: None,
        password: None,
    }
}

#[test]
fn test_create_user_rules() {
    let mut users = UserService::new();
    let ok = users.create_user(user_request("alice"), 7, 100).unwrap();
    assert_eq!(ok.id, 7);
    assert_eq!(ok.username, "alice");
    assert_eq!(ok.status, UserStatus::Online);

    // the identifier and the name are both unique
    assert!(matches!(
        users.create_user(user_request("bob"), 7, 100),
        Err(ServiceError::IdentifierTaken)
    ));
    assert!(matches!(
        users.create_user(user_request("alice"), 8, 100),
        Err(ServiceError::UsernameTaken)
    ));
    // blank and overlong names are refused
    assert!(matches!(
        users.create_user(user_request("  "), 9, 100),
        Err(ServiceError::UsernameEmpty)
    ));
    let long = "x".repeat(51);
    assert!(matches!(
        users.create_user(user_request(&long), 9, 100),
        Err(ServiceError::UsernameTooLong)
    ));

    let by_name = users.get_user_by_username(&"alice".to_string()).unwrap();
    assert_eq!(by_name.id, 7);
    assert!(users.get_user(999).is_err());
}

#[test]
fn test_channel_service_rules() {
    let mut channels = ChannelService::new(limits(), 0);
    // the default channel is there from the start
    assert!(channels.get_channel(DEFAULT_CHANNEL_ID).is_ok());

    let ok = channels.create_channel(channel_request("music"), 7, 50, 10).unwrap();
    assert_eq!(ok.id, 50);
    assert_eq!(ok.current_user_count, 0);

    assert!(matches!(
        channels.create_channel(channel_request("music"), 7, 51, 10),
        Err(ServiceError::ChannelNameTaken)
    ));

    channels.create_channel(channel_request("spare"), 7, 52, 10).unwrap();
    // the third creation hits the deployment cap of three channels
    assert!(matches!(
        channels.create_channel(channel_request("extra"), 7, 53, 10),
        Err(ServiceError::ChannelLimitReached)
    ));
}

#[test]
fn test_join_and_leave() {
    let mut channels = ChannelService::new(limits(), 0);
    channels.create_channel(channel_request("music"), 7, 50, 10).unwrap();

    assert!(channels.join_channel(50, 1, None).is_ok());
    assert!(channels.is_member(1, 50));
    assert_eq!(channels.get_users_in_channel(50).unwrap(), vec![1]);

    // members cap: four seats
    for u in 2..=4u128 {
        assert!(channels.join_channel(50, u, None).is_ok());
    }
    assert!(matches!(channels.join_channel(50, 5, None), Err(ServiceError::CannotJoin)));

    assert!(channels.leave_channel(50, 1).is_ok());
    assert!(!channels.is_member(1, 50));
    assert!(matches!(channels.leave_channel(50, 1), Err(ServiceError::NotInChannel)));
    assert!(matches!(channels.join_channel(99, 1, None), Err(ServiceError::ChannelNotFound)));
}

#[test]
fn test_delete_channel_rules() {
    let mut channels = ChannelService::new(limits(), 0);
    channels.create_channel(channel_request("music"), 7, 50, 10).unwrap();

    assert!(matches!(
        channels.delete_channel(DEFAULT_CHANNEL_ID, 7),
        Err(ServiceError::CannotDeleteDefault)
    ));
    assert!(matches!(channels.delete_channel(50, 8), Err(ServiceError::NotOwner)));
    assert!(channels.delete_channel(50, 7).is_ok());
    assert!(channels.get_channel(50).is_err());
}

#[test]
fn test_session_flow() {
    let mut users = UserService::new();
    let mut channels = ChannelService::new(limits(), 0);
    users.create_user(user_request("alice"), 7, 100).unwrap();

    // everything but authentication needs a session
    let step = handle_client_message(
        &mut users,
        &mut channels,
        None,
        ClientMessage::Ping,
        200,
    );
    assert!(matches!(step.reply, Err(ServiceError::NotAuthenticated)));

    // authentication binds the session to the registered user
    let step = handle_client_message(
        &mut users,
        &mut channels,
        None,
        ClientMessage::Authenticate { username: "alice".to_string() },
        200,
    );
    assert_eq!(step.authenticated, Some(7));
    assert!(matches!(step.reply, Ok(Some(ServerMessage::Authenticated { user_id: 7 }))));

    // joining the default channel notifies the room and lists the members
    let step = handle_client_message(
        &mut users,
        &mut channels,
        Some(7),
        ClientMessage::JoinChannel { channel_id: DEFAULT_CHANNEL_ID, password: None },
        300,
    );
    assert!(matches!(
        step.reply,
        Ok(Some(ServerMessage::JoinedChannel { channel_id: DEFAULT_CHANNEL_ID }))
    ));
    assert_eq!(step.outbound.len(), 2);
    assert!(channels.is_member(7, DEFAULT_CHANNEL_ID));
    assert_eq!(users.get_user(7).unwrap().status, UserStatus::InChannel);

    // leaving reverses it
    let step = handle_client_message(
        &mut users,
        &mut channels,
        Some(7),
        ClientMessage::LeaveChannel { channel_id: DEFAULT_CHANNEL_ID },
        400,
    );
    assert!(matches!(
        step.reply,
        Ok(Some(ServerMessage::LeftChannel { channel_id: DEFAULT_CHANNEL_ID }))
    ));
    assert!(!channels.is_member(7, DEFAULT_CHANNEL_ID));
    assert_eq!(users.get_user(7).unwrap().status, UserStatus::Online);
}

#[test]
fn test_speech_announcements() {
    let mut users = UserService::new();
    let mut channels = ChannelService::new(limits(), 0);
    users.create_user(user_request("alice"), 7, 100).unwrap();
    channels.join_channel(DEFAULT_CHANNEL_ID, 7, None).unwrap();

    let step = handle_client_message(
        &mut users,
        &mut channels,
        Some(7),
        ClientMessage::StartAudio { channel_id: DEFAULT_CHANNEL_ID },
        200,
    );
    assert!(matches!(step.reply, Ok(None)));
    assert_eq!(step.outbound.len(), 1);
    assert!(matches!(
        step.outbound[0],
        voicechat::session::Outbound::ToChannel {
            channel_id: DEFAULT_CHANNEL_ID,
            exclude: None,
            message: ServerMessage::AudioStarted { channel_id: DEFAULT_CHANNEL_ID, user_id: 7 },
        }
    ));

    let step = handle_client_message(
        &mut users,
        &mut channels,
        Some(7),
        ClientMessage::StopAudio { channel_id: DEFAULT_CHANNEL_ID },
        300,
    );
    assert!(matches!(step.reply, Ok(None)));
    assert_eq!(step.outbound.len(), 1);
    assert!(matches!(
        step.outbound[0],
        voicechat::session::Outbound::ToChannel {
            channel_id: DEFAULT_CHANNEL_ID,
            exclude: None,
            message: ServerMessage::AudioStopped { channel_id: DEFAULT_CHANNEL_ID, user_id: 7 },
        }
    ));
}

#[test]
fn test_disconnect_cleanup() {
    let mut users = UserService::new();
    let mut channels = ChannelService::new(limits(), 0);
    users.create_user(user_request("alice"), 7, 100).unwrap();
    channels.join_channel(DEFAULT_CHANNEL_ID, 7, None).unwrap();

    handle_user_disconnect(&mut users, &mut channels, 7, 500);
    assert!(!channels.is_member(7, DEFAULT_CHANNEL_ID));
    assert_eq!(users.get_user(7).unwrap().status, UserStatus::Offline);
}

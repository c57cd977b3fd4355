use voicechat::api::AdvancedApiConfig;
use voicechat::api::PaginationInfo;
use voicechat::api::paginate;
use voicechat::channel::Channel;
use voicechat::config::Config;
use voicechat::message::ClientMessage;
use voicechat::message::WebSocketHandlers;
use voicechat::metrics::AlertThresholds;
use voicechat::metrics::MetricsConfig;
use voicechat::metrics::create_empty_metrics;
use voicechat::metrics::detect_alerts;
use voicechat::state::AppState;
use voicechat::state::ConnectionState;
use voicechat::state::UserState;
use voicechat::user::User;
use voicechat::user::UserStatus;

#[test]
fn test_pagination_info() {
    let info = PaginationInfo {
        current_page: 2,
        total_pages: 5,
        total_items: 100,
        items_per_page: 20,
        has_next: true,
        has_previous: true,
    };

    assert!(info.has_next);
    assert!(info.has_previous);
    assert_eq!(info.current_page, 2);
}

#[test]
fn test_advanced_api_config() {
    let config = AdvancedApiConfig::default();
    assert!(config.enable_admin_endpoints);
    assert!(config.enable_audio_control);
    assert_eq!(config.max_pagination_limit, 100);
}

#[test]
fn test_paginate_formula() {
    let info = paginate(Some(2), Some(20), 100, 100);
    assert_eq!(info.total_pages, 5);
    assert_eq!(info.items_per_page, 20);
    assert!(info.has_next);
    assert!(info.has_previous);

    let first = paginate(None, None, 50, 100);
    assert_eq!(first.current_page, 1);
    assert_eq!(first.items_per_page, 20);
    assert_eq!(first.total_pages, 3);
    assert!(!first.has_previous);

    let capped = paginate(Some(1), Some(500), 10, 100);
    assert_eq!(capped.items_per_page, 100);
    assert_eq!(capped.total_pages, 1);
    assert!(!capped.has_next);

    let empty = paginate(Some(1), Some(20), 0, 100);
    assert_eq!(empty.total_pages, 0);
}

#[test]
fn test_metrics_config_creation() {
    let config = MetricsConfig::default();
    assert_eq!(config.collection_interval_s, 5);
    assert_eq!(config.history_retention_s, 24 * 3600);
    assert!(config.enable_detailed_metrics);
}

#[test]
fn test_alert_detection() {
    let metrics = create_empty_metrics();
    let thresholds = AlertThresholds::default();

    let alerts = detect_alerts(&metrics, &thresholds);
    assert!(alerts.is_empty());
}

#[test]
fn test_alert_detection_triggers() {
    let mut metrics = create_empty_metrics();
    metrics.timestamp = 777;
    metrics.audio_metrics.average_latency_ms = 200;
    metrics.performance_metrics.cpu_usage_percent = 95;
    let thresholds = AlertThresholds::default();

    let alerts = detect_alerts(&metrics, &thresholds);
    assert_eq!(alerts.len(), 2);
    assert_eq!(alerts[0].id, "latency");
    assert_eq!(alerts[0].component, "audio");
    assert_eq!(alerts[0].timestamp, 777);
    assert_eq!(alerts[1].id, "cpu");
}

#[test]
fn test_connection_state() {
    let state = ConnectionState::Disconnected;
    assert!(state.is_disconnected());
    assert!(!state.is_connected());

    let state = ConnectionState::Connected;
    assert!(state.is_connected());
    assert!(!state.is_disconnected());
}

#[test]
fn test_app_state_creation() {
    let state = AppState::new();
    assert!(state.user.is_none());
    assert!(state.channels.is_empty());
    assert!(state.get_current_channel().is_none());
    assert!(state.get_connection_state().is_disconnected());
}

#[test]
fn test_user_state_management() {
    let mut state = AppState::new();
    let user = UserState { id: 11, username: "test_user".to_string(), connected_at: 1234567890 };

    state.set_user(user.clone());
    let retrieved_user = state.user.clone();
    assert!(retrieved_user.is_some());
    assert_eq!(retrieved_user.unwrap().username, user.username);

    state.clear_user();
    assert!(state.user.is_none());
}

#[test]
fn test_channel_join_rules() {
    let mut channel = Channel::new(
        1,
        "general".to_string(),
        None,
        42,
        2,
        false,
        Some("secret".to_string()),
        0,
    );
    // wrong or missing password fails
    assert!(!channel.can_join(7, None));
    assert!(!channel.can_join(7, Some(&"wrong".to_string())));
    assert!(channel.can_join(7, Some(&"secret".to_string())));

    assert!(channel.add_user(7));
    // a member can always rejoin, password or not
    assert!(channel.can_join(7, None));
    // adding twice fails
    assert!(!channel.add_user(7));

    assert!(channel.add_user(8));
    // full channel admits nobody new
    assert!(!channel.can_join(9, Some(&"secret".to_string())));
    assert!(!channel.add_user(9));
    assert_eq!(channel.user_count(), 2);

    assert!(channel.remove_user(7));
    assert!(!channel.remove_user(7));
    assert_eq!(channel.user_count(), 1);
    assert!(channel.is_owner(42));
    assert!(!channel.is_empty());
}

#[test]
fn test_user_lifecycle() {
    let mut user = User::new(5, "alice".to_string(), 100);
    assert_eq!(user.status, UserStatus::Online);
    assert!(user.current_channel.is_none());

    user.join_channel(9, 200);
    assert_eq!(user.status, UserStatus::InChannel);
    assert_eq!(user.current_channel, Some(9));
    assert_eq!(user.last_seen, 200);

    user.leave_channel(300);
    assert_eq!(user.status, UserStatus::Online);
    assert!(user.current_channel.is_none());
}

#[test]
fn test_validate_message() {
    let handlers = WebSocketHandlers::new();
    assert!(handlers.validate_message(&ClientMessage::Authenticate {
        username: "alice".to_string(),
    }));
    assert!(!handlers.validate_message(&ClientMessage::Authenticate {
        username: "   ".to_string(),
    }));
    assert!(!handlers.validate_message(&ClientMessage::Authenticate {
        username: "".to_string(),
    }));
    assert!(handlers.validate_message(&ClientMessage::Ping));
    assert!(handlers.validate_message(&ClientMessage::LeaveChannel { channel_id: 9 }));
}

#[test]
fn test_config_defaults() {
    let config = Config::default();
    assert_eq!(config.server.http_port, 8080);
    assert_eq!(config.audio.sample_rate, 48000);
    assert_eq!(config.audio.channels, 1);
    assert!(!config.audio.loopback_mode);
    assert_eq!(config.limits.max_users_per_channel, 10);
    assert!(config.validate());

    let mut broken = Config::default();
    broken.audio.sample_rate = 0;
    assert!(!broken.validate());
}

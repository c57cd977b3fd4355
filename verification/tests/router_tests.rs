use voicechat::packet::AudioPacket;
use voicechat::router::AudioRouter;
use voicechat::router::ChannelRoutingConfig;
use voicechat::router::Endpoint;
use voicechat::router::QualityMode;
use voicechat::router::RouteDecision;
use voicechat::router::RoutingStats;
use voicechat::router::adaptive_decision;

fn ep(port: u16) -> Endpoint {
    Endpoint { ip: 0x7F000001, port }
}

fn audio(user: u128, channel: u128, seq: u32, ts: u64) -> AudioPacket {
    AudioPacket::audio(user, channel, seq, vec![1, 2], ts, 48000, 1)
}

#[test]
fn test_fanout_excludes_sender() {
    let mut router = AudioRouter::new();
    let channel: u128 = 9;
    router.register_client(1, ep(5001));
    router.register_client(2, ep(5002));
    router.add_user_to_channel(1, channel, 0);
    router.add_user_to_channel(2, channel, 0);

    let packet = audio(1, channel, 0, 0);
    let dest = router.route_packet(&packet, 1, channel);
    assert_eq!(dest, vec![ep(5002)]);

    // the sender never receives its own audio
    assert!(!dest.contains(&ep(5001)));

    let stats = router.get_channel_stats(channel).unwrap();
    assert_eq!(stats.packets_received, 1);
    assert_eq!(stats.packets_routed, 1);
    assert_eq!(stats.bytes_received, 2);
    assert_eq!(stats.packet_loss_permille, 0);
    assert_eq!(stats.connected_users, 2);
}

#[test]
fn test_unregistered_recipient_skipped() {
    let mut router = AudioRouter::new();
    let channel: u128 = 9;
    router.register_client(1, ep(5001));
    router.add_user_to_channel(1, channel, 0);
    router.add_user_to_channel(2, channel, 0);
    // user 2 has no endpoint: routed counts the member, destinations skip it
    let packet = audio(1, channel, 0, 0);
    let dest = router.route_packet(&packet, 1, channel);
    assert!(dest.is_empty());
    let stats = router.get_channel_stats(channel).unwrap();
    assert_eq!(stats.packets_routed, 1);
}

#[test]
fn test_membership_lifecycle() {
    let mut router = AudioRouter::new();
    let channel: u128 = 9;
    router.add_user_to_channel(7, channel, 123);
    assert_eq!(router.get_channel_users(channel), vec![7]);
    assert_eq!(router.get_channel_stats(channel).unwrap().connected_users, 1);

    router.remove_user_from_channel(7, channel);
    assert!(router.get_channel_users(channel).is_empty());
    assert_eq!(router.get_channel_stats(channel).unwrap().connected_users, 0);
}

#[test]
fn test_unregister_frees_buffers() {
    let mut router = AudioRouter::new();
    router.register_client(1, ep(5001));
    router.add_user_to_channel(1, 9, 0);
    router.add_user_to_channel(1, 10, 0);
    router.unregister_client(1);
    assert!(router.get_channel_users(9).is_empty());
    assert!(router.get_channel_users(10).is_empty());
    let (clients, _, buffers) = router.get_global_stats();
    assert_eq!(clients, 0);
    assert_eq!(buffers, 0);
}

#[test]
fn test_ingest_and_drain_in_order() {
    let mut router = AudioRouter::new();
    let channel: u128 = 9;
    router.add_user_to_channel(1, channel, 0);

    let base: u64 = 1_000_000;
    for seq in 0..10u32 {
        let accepted = router.ingest(audio(1, channel, seq, base + (seq as u64) * 20_000));
        assert!(accepted);
    }
    // far past every deadline: all ten come out, in send order
    let out = router.get_packets_for_user(1, channel, base + 10_000_000);
    let seqs: Vec<u32> = out.iter().map(|p| p.header.sequence).collect();
    assert_eq!(seqs, (0..10).collect::<Vec<u32>>());

    // drop counter untouched
    let report = router.get_channel_stats(channel).unwrap();
    assert_eq!(report.packet_loss_permille, 0);
}

#[test]
fn test_ingest_unknown_pair_rejected() {
    let mut router = AudioRouter::new();
    assert!(!router.ingest(audio(1, 9, 0, 0)));
}

#[test]
fn test_configure_channel() {
    let mut router = AudioRouter::new();
    let channel: u128 = 9;
    assert!(router.get_channel_config(channel).is_none());
    let mut config = ChannelRoutingConfig::default();
    config.quality_mode = QualityMode::Adaptive;
    config.latency_target_ms = 80;
    router.configure_channel(channel, config);
    let got = router.get_channel_config(channel).unwrap();
    assert_eq!(got.quality_mode, QualityMode::Adaptive);
    assert_eq!(got.latency_target_ms, 80);
}

#[test]
fn test_adaptive_route_decision() {
    // an adaptive channel without statistics routes plainly
    let mut router = AudioRouter::new();
    let channel: u128 = 9;
    let mut config = ChannelRoutingConfig::default();
    config.quality_mode = QualityMode::Adaptive;
    router.configure_channel(channel, config);

    let packet = audio(1, channel, 0, 444);
    let (_, decision) = router.intelligent_route(&packet, 1, channel);
    assert_eq!(decision, RouteDecision::Medium);

    // clean statistics pick the quality path
    router.add_user_to_channel(1, channel, 0);
    let packet2 = audio(1, channel, 1, 555);
    let (_, decision2) = router.intelligent_route(&packet2, 1, channel);
    assert_eq!(decision2, RouteDecision::High);
}

#[test]
fn test_fixed_mode_decisions() {
    let mut router = AudioRouter::new();
    let channel: u128 = 9;
    let mut config = ChannelRoutingConfig::default();
    config.quality_mode = QualityMode::Low;
    router.configure_channel(channel, config);
    let packet = audio(1, channel, 0, 0);
    let (_, decision) = router.intelligent_route(&packet, 1, channel);
    assert_eq!(decision, RouteDecision::Low);
}

#[test]
fn test_sweep_drops_stale() {
    let mut router = AudioRouter::new();
    let channel: u128 = 9;
    router.add_user_to_channel(1, channel, 0);
    let now: u64 = 10_000_000;
    assert!(router.ingest(audio(1, channel, 0, now - 200_000)));
    router.cleanup_buffers(now);
    let out = router.get_packets_for_user(1, channel, now + 1_000_000);
    assert!(out.is_empty());
}

#[test]
fn test_cleanup_channel() {
    let mut router = AudioRouter::new();
    router.add_user_to_channel(1, 9, 0);
    router.add_user_to_channel(2, 9, 0);
    router.add_user_to_channel(1, 10, 0);
    router.cleanup_channel(9);
    assert!(router.get_channel_users(9).is_empty());
    assert_eq!(router.get_channel_users(10), vec![1]);
    assert!(router.get_channel_stats(9).is_none());
}

#[test]
fn test_activity_counter() {
    let mut router = AudioRouter::new();
    router.add_user_to_channel(1, 9, 0);
    router.update_user_activity(9, true);
    router.update_user_activity(9, true);
    assert_eq!(router.get_channel_stats(9).unwrap().active_users, 2);
    router.update_user_activity(9, false);
    assert_eq!(router.get_channel_stats(9).unwrap().active_users, 1);
}

fn stats_with(loss_permille: u64, jitter_ms: u64) -> RoutingStats {
    RoutingStats {
        packets_received: 100,
        packets_routed: 100,
        packets_sent: 100,
        bytes_received: 0,
        bytes_sent: 0,
        active_users: 0,
        connected_users: 2,
        average_latency_ms: 10,
        packet_loss_permille: loss_permille,
        jitter_ms,
        created_at_us: 0,
    }
}

#[test]
fn test_adaptive_downgrade() {
    // six percent loss degrades to the bandwidth-saving path even with
    // low jitter
    assert_eq!(adaptive_decision(Some(stats_with(60, 10))), RouteDecision::Low);
    // clean conditions pick the quality path
    assert_eq!(adaptive_decision(Some(stats_with(5, 10))), RouteDecision::High);
    // middling conditions stay on the plain path
    assert_eq!(adaptive_decision(Some(stats_with(30, 50))), RouteDecision::Medium);
    assert_eq!(adaptive_decision(None), RouteDecision::Medium);
}

#[test]
fn test_performance_report() {
    let mut router = AudioRouter::new();
    let channel: u128 = 9;
    assert!(router.analyze_channel_performance(channel, 0).is_none());
    router.add_user_to_channel(1, channel, 0);
    let report = router.analyze_channel_performance(channel, 777).unwrap();
    assert_eq!(report.channel_id, channel);
    assert_eq!(report.connected_users, 1);
    assert_eq!(report.quality_score_permille, 1000);
    assert!(report.recommendations.is_empty());
    assert_eq!(report.generated_at_us, 777);

    // a degraded channel earns advice
    router.adjust_channel_latency(channel, 200);
    let degraded = router.analyze_channel_performance(channel, 888).unwrap();
    assert_eq!(degraded.recommendations.len(), 1);
    assert_eq!(degraded.recommendations[0], "high latency: tune the buffer configuration");
    assert!(degraded.quality_score_permille < 1000);
}

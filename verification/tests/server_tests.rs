use voicechat::packet::AudioPacket;
use voicechat::packet::PacketType;
use voicechat::router::AudioRouter;
use voicechat::router::Endpoint;
use voicechat::server::AudioServerConfig;
use voicechat::server::AudioUdpServer;
use voicechat::server::DispatchError;
use voicechat::server::LOOPBACK_PLAYBACK_PORT;

fn ep(port: u16) -> Endpoint {
    Endpoint { ip: 0x7F000001, port }
}

fn audio(user: u128, channel: u128, seq: u32, ts: u64) -> AudioPacket {
    AudioPacket::audio(user, channel, seq, vec![1, 2, 3, 4], ts, 48000, 1)
}

#[test]
fn test_dispatch_fans_out_audio() {
    let mut server = AudioUdpServer::new(AudioServerConfig::default(), false, 0);
    let mut router = AudioRouter::new();
    let channel: u128 = 9;
    router.register_client(2, ep(6002));
    router.register_client(3, ep(6003));
    router.add_user_to_channel(1, channel, 0);
    router.add_user_to_channel(2, channel, 0);
    router.add_user_to_channel(3, channel, 0);

    let packet = audio(1, channel, 0, 100);
    let sends = server.dispatch_packet(&mut router, packet, ep(6001), true, 100).unwrap();
    assert_eq!(sends.len(), 2);
    assert_eq!(sends[0].1, ep(6002));
    assert_eq!(sends[1].1, ep(6003));
    assert_eq!(sends[0].0.payload, vec![1, 2, 3, 4]);
    // the sender's endpoint was learned
    assert_eq!(server.get_stats(100).active_connections, 1);
}

#[test]
fn test_dispatch_sync_echoes() {
    let mut server = AudioUdpServer::new(AudioServerConfig::default(), false, 0);
    let mut router = AudioRouter::new();
    let sync = AudioPacket::new(PacketType::Sync, 1, 9, 0, Vec::new(), 50, 48000, 1);
    let sends = server.dispatch_packet(&mut router, sync, ep(6001), true, 100).unwrap();
    assert_eq!(sends.len(), 1);
    assert_eq!(sends[0].1, ep(6001));
    assert_eq!(sends[0].0.header.packet_type, PacketType::Sync);
}

#[test]
fn test_dispatch_silence_absorbed() {
    let mut server = AudioUdpServer::new(AudioServerConfig::default(), false, 0);
    let mut router = AudioRouter::new();
    let silence = AudioPacket::silence(1, 9, 0, 50, 48000, 1);
    let sends = server.dispatch_packet(&mut router, silence, ep(6001), true, 100).unwrap();
    assert!(sends.is_empty());
}

#[test]
fn test_dispatch_loopback() {
    let mut server = AudioUdpServer::new(AudioServerConfig::default(), true, 0);
    let mut router = AudioRouter::new();
    let packet = audio(1, 9, 0, 50);
    let sends = server.dispatch_packet(&mut router, packet, ep(6001), true, 100).unwrap();
    assert_eq!(sends.len(), 1);
    assert_eq!(sends[0].1, Endpoint { ip: 0x7F000001, port: LOOPBACK_PLAYBACK_PORT });
}

#[test]
fn test_dispatch_rejects_non_member() {
    let mut server = AudioUdpServer::new(AudioServerConfig::default(), false, 0);
    let mut router = AudioRouter::new();
    let packet = audio(1, 9, 0, 50);
    let errors_before = server.get_stats(0).packet_errors;
    let r = server.dispatch_packet(&mut router, packet, ep(6001), false, 100);
    assert!(matches!(r, Err(DispatchError::NotAMember)));
    assert_eq!(server.get_stats(0).packet_errors, errors_before + 1);
}

#[test]
fn test_control_packets_fan_out() {
    let mut server = AudioUdpServer::new(AudioServerConfig::default(), false, 0);
    let mut router = AudioRouter::new();
    let channel: u128 = 9;
    router.register_client(2, ep(6002));
    router.add_user_to_channel(1, channel, 0);
    router.add_user_to_channel(2, channel, 0);

    let start = AudioPacket::audio_start(1, channel, 0, 50);
    let sends = server.dispatch_packet(&mut router, start, ep(6001), true, 100).unwrap();
    assert_eq!(sends.len(), 1);
    assert_eq!(sends[0].0.header.packet_type, PacketType::AudioStart);
    assert_eq!(sends[0].1, ep(6002));
}

#[test]
fn test_dispatch_feeds_jitter_buffer() {
    // a dispatched audio packet lands in the sender's jitter buffer and
    // is released once its age reaches the latency target
    let mut server = AudioUdpServer::new(AudioServerConfig::default(), false, 0);
    let mut router = AudioRouter::new();
    let channel: u128 = 9;
    router.add_user_to_channel(1, channel, 0);
    router.add_user_to_channel(2, channel, 0);

    let packet = audio(1, channel, 7, 100);
    server.dispatch_packet(&mut router, packet, ep(6001), true, 100).unwrap();

    let released = router.get_audio_data(1, channel, 600_100).unwrap();
    assert_eq!(released.len(), 1);
    assert_eq!(released[0].header.sequence, 7);
}

#[test]
fn test_connection_expiry() {
    let mut config = AudioServerConfig::default();
    config.connection_timeout_us = 30_000_000;
    let mut server = AudioUdpServer::new(config, false, 0);
    let mut router = AudioRouter::new();

    let now: u64 = 1_000_000;
    let p1 = audio(1, 9, 0, now);
    server.dispatch_packet(&mut router, p1, ep(6001), true, now).unwrap();
    let p2 = audio(2, 9, 0, now);
    server.dispatch_packet(&mut router, p2, ep(6002), true, now + 20_000_000).unwrap();

    // thirty-one seconds after the first packet only the second endpoint
    // remains
    server.cleanup_expired_connections(now + 31_000_000);
    let connections = server.get_connections();
    assert_eq!(connections.len(), 1);
    assert_eq!(connections[0].addr, ep(6002));
}

#[test]
fn test_server_counters() {
    let mut server = AudioUdpServer::new(AudioServerConfig::default(), false, 5_000_000);
    server.record_ingress(100);
    server.record_ingress(50);
    server.record_egress(70);
    server.record_error();
    let stats = server.get_stats(6_000_000);
    assert_eq!(stats.total_packets_received, 2);
    assert_eq!(stats.bytes_received, 150);
    assert_eq!(stats.total_packets_sent, 1);
    assert_eq!(stats.bytes_sent, 70);
    assert_eq!(stats.packet_errors, 1);
    assert_eq!(stats.uptime_us, 1_000_000);
}

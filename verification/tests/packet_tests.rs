use voicechat::packet::AudioPacket;
use voicechat::packet::DecodeError;
use voicechat::packet::PacketType;
use voicechat::packet::SequenceManager;
use voicechat::packet::HEADER_LEN;

#[test]
fn test_audio_packet_creation() {
    let user_id: u128 = 0x11112222333344445555666677778888;
    let channel_id: u128 = 0x99990000aaaabbbbccccddddeeeeffff;
    let audio_data: Vec<u8> = vec![1, 2, 3, 4];

    let packet = AudioPacket::audio(user_id, channel_id, 0, audio_data.clone(), 777, 48000, 1);

    assert_eq!(packet.header.packet_type, PacketType::Audio);
    assert_eq!(packet.header.user_id, user_id);
    assert_eq!(packet.header.channel_id, channel_id);
    assert_eq!(packet.header.sequence, 0);
    assert_eq!(packet.header.payload_size, 4);
    assert_eq!(packet.payload, audio_data);
}

#[test]
fn test_packet_serialization() {
    let user_id: u128 = 42;
    let channel_id: u128 = 77;
    let packet = AudioPacket::silence(user_id, channel_id, 1, 123456, 48000, 1);

    let bytes = packet.to_bytes();
    let deserialized = AudioPacket::from_bytes(&bytes).unwrap();

    assert_eq!(deserialized.header.packet_type, packet.header.packet_type);
    assert_eq!(deserialized.header.user_id, packet.header.user_id);
    assert_eq!(deserialized.header.sequence, packet.header.sequence);
}

#[test]
fn test_audio_packet_serialization() {
    let user_id: u128 = 3;
    let channel_id: u128 = 4;
    let audio_data: Vec<u8> = vec![63, 218, 101, 243];

    let packet = AudioPacket::audio(user_id, channel_id, 42, audio_data, 555, 48000, 1);

    let bytes = packet.to_bytes();
    assert!(bytes.len() >= 32);
}

#[test]
fn test_sequence_manager() {
    let mut seq_mgr = SequenceManager::new();

    assert_eq!(seq_mgr.next(), 0);
    assert_eq!(seq_mgr.next(), 1);
    assert_eq!(seq_mgr.next(), 2);

    assert!(seq_mgr.is_in_order(3));
    assert!(seq_mgr.is_in_order(12));
    assert!(!seq_mgr.is_in_order(100));
}

#[test]
fn test_sequence_wraps() {
    let mut seq_mgr = SequenceManager::new();
    assert_eq!(seq_mgr.next(), 0);
    // a fresh stream tolerates sequences just below the wrap point
    assert!(seq_mgr.is_in_order(u32::MAX - 5));
    assert!(!seq_mgr.is_in_order(5000));
}

#[test]
fn test_header_len_exact() {
    let payload: Vec<u8> = vec![0; 100];
    let packet = AudioPacket::audio(1, 2, 3, payload, 4, 48000, 2);
    let bytes = packet.to_bytes();
    assert_eq!(bytes.len(), HEADER_LEN + 100);

    let empty = AudioPacket::silence(1, 2, 3, 4, 48000, 1);
    assert_eq!(empty.to_bytes().len(), HEADER_LEN);
}

#[test]
fn test_wire_layout() {
    let packet = AudioPacket::audio(0x0102, 0x0304, 0x05060708, vec![0xAB, 0xCD], 0x1122334455667788, 48000, 2);
    let bytes = packet.to_bytes();
    assert_eq!(bytes.len(), 57);
    // type byte
    assert_eq!(bytes[0], 0);
    // user id, little endian
    assert_eq!(bytes[1], 0x02);
    assert_eq!(bytes[2], 0x01);
    assert_eq!(bytes[3], 0x00);
    // channel id starts at offset 17
    assert_eq!(bytes[17], 0x04);
    assert_eq!(bytes[18], 0x03);
    // sequence at 33
    assert_eq!(bytes[33], 0x08);
    assert_eq!(bytes[36], 0x05);
    // timestamp at 37
    assert_eq!(bytes[37], 0x88);
    assert_eq!(bytes[44], 0x11);
    // payload size at 45
    assert_eq!(bytes[45], 2);
    assert_eq!(bytes[46], 0);
    // sample rate at 47 (48000 = 0xBB80)
    assert_eq!(bytes[47], 0x80);
    assert_eq!(bytes[48], 0xBB);
    // channels at 51, reserved zero
    assert_eq!(bytes[51], 2);
    assert_eq!(bytes[52], 0);
    assert_eq!(bytes[53], 0);
    assert_eq!(bytes[54], 0);
    // payload
    assert_eq!(bytes[55], 0xAB);
    assert_eq!(bytes[56], 0xCD);
}

#[test]
fn test_roundtrip_with_payload() {
    let payload: Vec<u8> = (0u16..200).map(|i| (i % 256) as u8).collect();
    let packet = AudioPacket::audio(
        0xdeadbeef_deadbeef_deadbeef_deadbeef,
        7,
        0xFFFF_FFFF,
        payload.clone(),
        u64::MAX,
        44100,
        2,
    );
    let decoded = AudioPacket::from_bytes(&packet.to_bytes()).unwrap();
    assert_eq!(decoded.header.user_id, packet.header.user_id);
    assert_eq!(decoded.header.channel_id, packet.header.channel_id);
    assert_eq!(decoded.header.sequence, packet.header.sequence);
    assert_eq!(decoded.header.timestamp, packet.header.timestamp);
    assert_eq!(decoded.header.sample_rate, packet.header.sample_rate);
    assert_eq!(decoded.header.channels, packet.header.channels);
    assert_eq!(decoded.payload, payload);
}

#[test]
fn test_decode_truncated() {
    assert!(matches!(AudioPacket::from_bytes(&[0u8; 10]), Err(DecodeError::Truncated)));
    // header declares 4 payload bytes, none present
    let packet = AudioPacket::audio(1, 2, 3, vec![9, 9, 9, 9], 4, 48000, 1);
    let mut bytes = packet.to_bytes();
    bytes.truncate(55);
    assert!(matches!(AudioPacket::from_bytes(&bytes), Err(DecodeError::Truncated)));
}

#[test]
fn test_decode_bad_type() {
    let packet = AudioPacket::silence(1, 2, 3, 4, 48000, 1);
    let mut bytes = packet.to_bytes();
    bytes[0] = 9;
    assert!(matches!(AudioPacket::from_bytes(&bytes), Err(DecodeError::BadType)));
}

#[test]
fn test_staleness() {
    let packet = AudioPacket::audio(1, 2, 3, vec![0, 0], 1_000_000, 48000, 1);
    assert!(!packet.header.is_stale(1_050_000));
    assert!(!packet.header.is_stale(1_100_000));
    assert!(packet.header.is_stale(1_100_001));
    // a clock that runs behind the sender never makes a packet stale
    assert!(!packet.header.is_stale(0));
}

#[test]
fn test_packet_kind_predicates() {
    let audio = AudioPacket::audio(1, 2, 0, vec![0, 0], 0, 48000, 1);
    assert!(audio.has_audio());
    assert!(!audio.is_control());
    let start = AudioPacket::audio_start(1, 2, 0, 0);
    assert!(!start.has_audio());
    assert!(start.is_control());
    let stop = AudioPacket::audio_stop(1, 2, 0, 0);
    assert!(stop.is_control());
    assert_eq!(stop.header.payload_size, 0);
}

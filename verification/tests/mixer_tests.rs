use voicechat::mixer::AudioMixer;
use voicechat::mixer::ChannelMixConfig;
use voicechat::mixer::UserAudioControls;
use voicechat::mixer::bytes_to_samples;
use voicechat::packet::AudioPacket;

fn pcm(samples: &[i16]) -> Vec<u8> {
    let mut out: Vec<u8> = Vec::new();
    for s in samples {
        let b = s.to_le_bytes();
        out.push(b[0]);
        out.push(b[1]);
    }
    out
}

fn decode(bytes: &[u8]) -> Vec<i16> {
    bytes.chunks_exact(2).map(|c| i16::from_le_bytes([c[0], c[1]])).collect()
}

fn audio_from(user: u128, channel: u128, samples: &[i16]) -> AudioPacket {
    AudioPacket::audio(user, channel, 0, pcm(samples), 0, 48000, 1)
}

// plain gain-only controls: no suppression, no high-pass
fn clean_controls(mixer: &mut AudioMixer, user: u128, channel: u128) {
    let mut c = UserAudioControls::default();
    c.noise_suppression_milli = 0;
    c.high_pass_enabled = false;
    mixer.set_user_controls(user, channel, c);
}

#[test]
fn test_mixer_creation() {
    let mixer = AudioMixer::new(48000, 2);
    assert_eq!(mixer.sample_rate, 48000);
    assert_eq!(mixer.channels, 2);
}

#[test]
fn test_user_controls() {
    let mut mixer = AudioMixer::new(48000, 1);
    let user_id: u128 = 10;
    let channel_id: u128 = 20;

    let controls = mixer.get_user_controls(user_id, channel_id);
    assert_eq!(controls.volume_milli, 1000);
    assert!(!controls.muted);

    mixer.set_user_volume(user_id, channel_id, 500);
    let controls = mixer.get_user_controls(user_id, channel_id);
    assert_eq!(controls.volume_milli, 500);

    mixer.set_user_muted(user_id, channel_id, true);
    let controls = mixer.get_user_controls(user_id, channel_id);
    assert!(controls.muted);
}

#[test]
fn test_volume_clamped() {
    let mut mixer = AudioMixer::new(48000, 1);
    mixer.set_user_volume(1, 2, 9999);
    assert_eq!(mixer.get_user_controls(1, 2).volume_milli, 2000);
    mixer.set_user_pan(1, 2, -5000);
    assert_eq!(mixer.get_user_controls(1, 2).pan_milli, -1000);
}

#[test]
fn test_channel_config() {
    let mut mixer = AudioMixer::new(48000, 1);
    let channel_id: u128 = 20;

    let config = mixer.get_channel_config(channel_id);
    assert_eq!(config.master_volume_milli, 1000);
    assert!(config.auto_gain_control);

    let mut new_config = ChannelMixConfig::default();
    new_config.master_volume_milli = 800;
    mixer.set_channel_config(channel_id, new_config);

    let config = mixer.get_channel_config(channel_id);
    assert_eq!(config.master_volume_milli, 800);
}

#[test]
fn test_empty_packets() {
    let mut mixer = AudioMixer::new(48000, 1);
    let channel_id: u128 = 20;

    assert!(mixer.mix_packets_advanced(vec![], channel_id).is_none());
}

#[test]
fn test_bytes_conversion() {
    let bytes: Vec<u8> = vec![0x00, 0x01, 0xFF, 0x7F];
    let samples = bytes_to_samples(&bytes).unwrap();
    assert_eq!(samples.len(), 2);
    assert_eq!(samples[0], 256);
    assert_eq!(samples[1], 32767);

    let invalid_bytes: Vec<u8> = vec![0x00, 0x01, 0xFF];
    assert!(bytes_to_samples(&invalid_bytes).is_err());
}

#[test]
fn test_bytes_conversion_negative() {
    let bytes: Vec<u8> = vec![0xFF, 0xFF, 0x00, 0x80];
    let samples = bytes_to_samples(&bytes).unwrap();
    assert_eq!(samples[0], -1);
    assert_eq!(samples[1], i16::MIN);
}

#[test]
fn test_two_voice_sum() {
    // two voices of constant +1000 and +2000 mix to exactly +3000 with
    // AGC off and unity gains
    let mut mixer = AudioMixer::new(48000, 1);
    let channel: u128 = 5;
    let mut cfg = ChannelMixConfig::default();
    cfg.auto_gain_control = false;
    mixer.set_channel_config(channel, cfg);
    clean_controls(&mut mixer, 1, channel);
    clean_controls(&mut mixer, 2, channel);

    let a = audio_from(1, channel, &[1000; 960]);
    let b = audio_from(2, channel, &[2000; 960]);

    let out = mixer.mix_packets_advanced(vec![a, b], channel).unwrap();
    let samples = decode(&out);
    assert_eq!(samples.len(), 960);
    for s in samples {
        assert!(s >= 2999 && s <= 3001);
        assert_eq!(s, 3000);
    }
    let stats = mixer.get_stats(channel).unwrap();
    assert_eq!(stats.active_voices, 2);
    assert!(!stats.clipping_detected);
}

#[test]
fn test_shortest_payload_sets_length() {
    let mut mixer = AudioMixer::new(48000, 1);
    let channel: u128 = 5;
    let mut cfg = ChannelMixConfig::default();
    cfg.auto_gain_control = false;
    mixer.set_channel_config(channel, cfg);

    let a = audio_from(1, channel, &[1000; 100]);
    let b = audio_from(2, channel, &[2000; 40]);
    let out = mixer.mix_packets_advanced(vec![a, b], channel).unwrap();
    assert_eq!(out.len(), 80);
}

#[test]
fn test_solo_suppresses_others() {
    let mut mixer = AudioMixer::new(48000, 1);
    let channel: u128 = 5;
    let mut cfg = ChannelMixConfig::default();
    cfg.auto_gain_control = false;
    mixer.set_channel_config(channel, cfg);
    mixer.set_user_solo(1, channel, true);

    let a = audio_from(1, channel, &[10000; 64]);
    let b = audio_from(2, channel, &[7000; 64]);
    let d = audio_from(3, channel, &[-4000; 64]);

    let out = mixer.mix_packets_advanced(vec![a, b, d], channel).unwrap();
    let samples = decode(&out);
    for s in samples {
        assert_eq!(s, 10000);
    }
    assert_eq!(mixer.get_stats(channel).unwrap().active_voices, 1);
}

#[test]
fn test_mute_overrides_solo() {
    // a muted solo sender still puts the mix in solo mode but contributes
    // nothing, so nothing is mixed at all
    let mut mixer = AudioMixer::new(48000, 1);
    let channel: u128 = 5;
    mixer.set_user_solo(1, channel, true);
    mixer.set_user_muted(1, channel, true);

    let a = audio_from(1, channel, &[10000; 64]);
    let b = audio_from(2, channel, &[7000; 64]);

    let out = mixer.mix_packets_advanced(vec![a, b], channel);
    assert!(out.is_none());
}

#[test]
fn test_muted_user_excluded() {
    let mut mixer = AudioMixer::new(48000, 1);
    let channel: u128 = 5;
    let mut cfg = ChannelMixConfig::default();
    cfg.auto_gain_control = false;
    mixer.set_channel_config(channel, cfg);
    mixer.set_user_muted(2, channel, true);

    let a = audio_from(1, channel, &[6000; 32]);
    let b = audio_from(2, channel, &[7000; 32]);
    let out = mixer.mix_packets_advanced(vec![a, b], channel).unwrap();
    for s in decode(&out) {
        assert_eq!(s, 6000);
    }
}

#[test]
fn test_clip_safety() {
    // many loud voices saturate the limiter; every output sample stays
    // strictly inside the 16-bit range
    let mut mixer = AudioMixer::new(48000, 1);
    let channel: u128 = 5;
    let packets: Vec<AudioPacket> =
        (0u128..8).map(|u| audio_from(u + 1, channel, &[32000; 128])).collect();

    let out = mixer.mix_packets_advanced(packets, channel).unwrap();
    for s in decode(&out) {
        assert!(s >= i16::MIN + 1);
        assert!(s <= i16::MAX - 1);
    }
    let stats = mixer.get_stats(channel).unwrap();
    assert!(stats.clipping_detected);
}

#[test]
fn test_voice_cap() {
    let mut mixer = AudioMixer::new(48000, 1);
    let channel: u128 = 5;
    let mut cfg = ChannelMixConfig::default();
    cfg.max_concurrent_voices = 2;
    cfg.auto_gain_control = false;
    mixer.set_channel_config(channel, cfg);
    for u in 1..=5u128 {
        clean_controls(&mut mixer, u, channel);
    }

    let packets: Vec<AudioPacket> =
        (0u128..5).map(|u| audio_from(u + 1, channel, &[1000; 32])).collect();
    let out = mixer.mix_packets_advanced(packets, channel).unwrap();
    // only the first two arrivals are mixed
    for s in decode(&out) {
        assert_eq!(s, 2000);
    }
    assert_eq!(mixer.get_stats(channel).unwrap().active_voices, 2);
}

#[test]
fn test_noise_gate_closes() {
    // a signal below the noise-gate amplitude is zeroed
    let mut mixer = AudioMixer::new(48000, 1);
    let channel: u128 = 5;
    let mut cfg = ChannelMixConfig::default();
    cfg.auto_gain_control = false;
    mixer.set_channel_config(channel, cfg);

    let quiet = audio_from(1, channel, &[100; 32]);
    let out = mixer.mix_packets_advanced(vec![quiet], channel).unwrap();
    for s in decode(&out) {
        assert_eq!(s, 0);
    }
}

#[test]
fn test_agc_raises_quiet_mix() {
    // with AGC on, a quiet mix is amplified toward the target RMS
    let mut mixer = AudioMixer::new(48000, 1);
    let channel: u128 = 5;
    clean_controls(&mut mixer, 1, channel);
    let a = audio_from(1, channel, &[2000; 256]);
    let out = mixer.mix_packets_advanced(vec![a], channel).unwrap();
    let samples = decode(&out);
    // the gain tops out at a doubling: 2000 becomes 4000
    for s in samples {
        assert_eq!(s, 4000);
    }
}

#[test]
fn test_basic_mix_sums_and_normalises() {
    let mixer = AudioMixer::new(48000, 1);
    let channel: u128 = 5;
    // plain path: no controls apply, samples add up
    let a = audio_from(1, channel, &[1000; 16]);
    let b = audio_from(2, channel, &[2000; 16]);
    let out = mixer.mix_packets(vec![a, b]).unwrap();
    for s in decode(&out) {
        assert_eq!(s, 3000);
    }

    // a peak beyond the 16-bit range is scaled back into it
    let loud1 = audio_from(1, channel, &[30000; 16]);
    let loud2 = audio_from(2, channel, &[30000; 16]);
    let loud = mixer.mix_packets(vec![loud1, loud2]).unwrap();
    for s in decode(&loud) {
        // 60000 * 32767 / 60000
        assert_eq!(s, 32767);
    }
}

#[test]
fn test_basic_mix_skips_non_audio() {
    let mixer = AudioMixer::new(48000, 1);
    assert!(mixer.mix_packets(vec![]).is_none());
    let silence = AudioPacket::silence(1, 5, 0, 0, 48000, 1);
    assert!(mixer.mix_packets(vec![silence]).is_none());
}

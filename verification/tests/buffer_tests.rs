use voicechat::buffer::AudioBuffer;
use voicechat::buffer::CircularBuffer;
use voicechat::packet::AudioPacket;
use voicechat::packet::PacketType;
use voicechat::table::IdTable;

fn audio_at(seq: u32, timestamp: u64) -> AudioPacket {
    AudioPacket::audio(1, 2, seq, Vec::new(), timestamp, 48000, 1)
}

#[test]
fn test_circular_buffer() {
    let mut buffer = CircularBuffer::new(2);

    buffer.push(audio_at(0, 0));
    buffer.push(audio_at(1, 0));

    assert_eq!(buffer.len(), 2);

    buffer.push(audio_at(2, 0));

    assert_eq!(buffer.len(), 2);
    assert_eq!(buffer.stats().dropped_packets, 1);
}

#[test]
fn test_audio_buffer_separation() {
    // 50 ms latency target; the audio packet is brand new, the control
    // packet must come out at once.
    let mut buffer = AudioBuffer::new(10, 50);
    let now: u64 = 1_000_000;

    buffer.push(AudioPacket::audio_start(1, 2, 0, now));
    buffer.push(AudioPacket::audio(1, 2, 1, Vec::new(), now, 48000, 1));

    let ready = buffer.get_ready_packets(now);

    assert_eq!(ready.len(), 1);
    assert_eq!(ready[0].header.packet_type, PacketType::AudioStart);
}

#[test]
fn test_fifo_under_overflow() {
    // pushing five packets into a capacity of three keeps the last three,
    // in order, and drops exactly two
    let mut buffer = CircularBuffer::new(3);
    for seq in 0..5u32 {
        buffer.push(audio_at(seq, 0));
    }
    assert_eq!(buffer.len(), 3);
    assert_eq!(buffer.stats().dropped_packets, 2);
    assert_eq!(buffer.stats().total_packets, 5);
    let drained = buffer.drain();
    let seqs: Vec<u32> = drained.iter().map(|p| p.header.sequence).collect();
    assert_eq!(seqs, vec![2, 3, 4]);
}

#[test]
fn test_latency_bound() {
    // a packet is never released before its age reaches the target
    let mut buffer = AudioBuffer::new(8, 100);
    let sent: u64 = 1_000_000;
    buffer.push(audio_at(0, sent));

    // age 50 ms, target 100 ms: nothing comes out
    let early = buffer.get_ready_packets(sent + 50_000);
    assert!(early.is_empty());

    // age exactly 100 ms: released
    let ripe = buffer.get_ready_packets(sent + 100_000);
    assert_eq!(ripe.len(), 1);
    assert_eq!(ripe[0].header.sequence, 0);
}

#[test]
fn test_release_keeps_arrival_order() {
    let mut buffer = AudioBuffer::new(8, 20);
    let base: u64 = 1_000_000;
    for seq in 0..4u32 {
        buffer.push(audio_at(seq, base + (seq as u64) * 20_000));
    }
    let out = buffer.get_ready_packets(base + 200_000);
    let seqs: Vec<u32> = out.iter().map(|p| p.header.sequence).collect();
    assert_eq!(seqs, vec![0, 1, 2, 3]);
}

#[test]
fn test_no_rerelease() {
    // across pushes and drains, nothing comes out twice
    let mut buffer = AudioBuffer::new(8, 20);
    let base: u64 = 1_000_000;
    buffer.push(audio_at(0, base));
    buffer.push(audio_at(1, base + 1000));

    let first = buffer.get_ready_packets(base + 100_000);
    assert_eq!(first.len(), 2);

    buffer.push(audio_at(2, base + 2000));
    let second = buffer.get_ready_packets(base + 200_000);
    let seqs: Vec<u32> = second.iter().map(|p| p.header.sequence).collect();
    assert_eq!(seqs, vec![2]);

    let third = buffer.get_ready_packets(base + 300_000);
    assert!(third.is_empty());
}

#[test]
fn test_stale_sweep() {
    // a packet 200 ms in the past is not yet ripe under a 500 ms target,
    // so an immediate drain returns nothing; the sweeper then drops it
    let mut buffer = AudioBuffer::new(8, 500);
    let now: u64 = 10_000_000;
    buffer.push(audio_at(0, now - 200_000));

    let drained = buffer.get_ready_packets(now);
    assert!(drained.is_empty());

    buffer.cleanup(now);
    let stats = buffer.stats();
    assert_eq!(stats.audio_buffer.current_size, 0);
    assert_eq!(stats.audio_buffer.dropped_packets, 1);
}

#[test]
fn test_auto_tune_raises_on_drops() {
    // drop rate far above five percent: the target grows by a tenth
    let mut buffer = AudioBuffer::new(4, 100);
    for seq in 0..40u32 {
        buffer.push(audio_at(seq, 0));
    }
    // 36 of 40 dropped
    assert!(buffer.stats().audio_buffer.dropped_packets == 36);
    buffer.auto_adjust_latency();
    assert_eq!(buffer.target_latency_us, 110_000);
}

#[test]
fn test_auto_tune_bounds() {
    // the target never leaves [20 ms, 500 ms]
    let mut high = AudioBuffer::new(4, 1_000_000);
    assert_eq!(high.target_latency_us, 500_000);
    for seq in 0..40u32 {
        high.push(audio_at(seq, 0));
    }
    high.auto_adjust_latency();
    assert_eq!(high.target_latency_us, 500_000);

    let mut low = AudioBuffer::new(16, 1);
    assert_eq!(low.target_latency_us, 20_000);
    low.auto_adjust_latency();
    assert_eq!(low.target_latency_us, 20_000);
}

#[test]
fn test_auto_tune_lowers_when_clean() {
    let mut buffer = AudioBuffer::new(16, 100);
    buffer.push(audio_at(0, 0));
    // no drops, fill below half: the target shrinks by a twentieth
    buffer.auto_adjust_latency();
    assert_eq!(buffer.target_latency_us, 95_000);
}

#[test]
fn test_auto_tune_lowers_at_half_fill() {
    // no drops and fill exactly half of capacity: the target still shrinks
    let mut buffer = AudioBuffer::new(4, 100);
    buffer.push(audio_at(0, 0));
    buffer.push(audio_at(1, 0));
    assert_eq!(buffer.stats().audio_buffer.current_size, 2);
    buffer.auto_adjust_latency();
    assert_eq!(buffer.target_latency_us, 95_000);
}

#[test]
fn test_adjust_latency_clamps() {
    let mut buffer = AudioBuffer::new(8, 50);
    buffer.adjust_latency(10_000);
    assert_eq!(buffer.target_latency_us, 500_000);
    buffer.adjust_latency(5);
    assert_eq!(buffer.target_latency_us, 20_000);
    buffer.adjust_latency(60);
    assert_eq!(buffer.target_latency_us, 60_000);
}

#[test]
fn test_detect_missing_packets() {
    let mut buffer = CircularBuffer::new(8);
    for seq in [1u32, 5, 2, 9] {
        buffer.push(audio_at(seq, 0));
    }
    let missing = buffer.detect_missing_packets();
    assert_eq!(missing, vec![3, 4, 6, 7, 8]);

    let mut sparse = CircularBuffer::new(8);
    sparse.push(audio_at(4, 0));
    assert!(sparse.detect_missing_packets().is_empty());
}

#[test]
fn test_average_latency() {
    let mut buffer = CircularBuffer::new(8);
    assert_eq!(buffer.average_latency_us(1_000_000), 0);
    buffer.push(audio_at(0, 900_000));
    buffer.push(audio_at(1, 950_000));
    // ages 100 ms and 50 ms average to 75 ms
    assert_eq!(buffer.average_latency_us(1_000_000), 75_000);
}

#[test]
fn test_calculate_jitter() {
    let mut buffer = CircularBuffer::new(8);
    // fewer than three packets: no estimate
    buffer.push(audio_at(0, 1000));
    buffer.push(audio_at(1, 2000));
    assert_eq!(buffer.calculate_jitter(), 0);

    // perfectly regular arrivals: zero deviation
    buffer.push(audio_at(2, 3000));
    assert_eq!(buffer.calculate_jitter(), 0);

    // deltas 1000 and 4000: mean 2500, deviations 1500 each
    let mut uneven = CircularBuffer::new(8);
    uneven.push(audio_at(0, 1000));
    uneven.push(audio_at(1, 2000));
    uneven.push(audio_at(2, 6000));
    assert_eq!(uneven.calculate_jitter(), 1500);
}

#[test]
fn test_adjust_capacity_shrinks() {
    let mut buffer = CircularBuffer::new(4);
    for seq in 0..4u32 {
        buffer.push(audio_at(seq, 0));
    }
    buffer.adjust_capacity(2);
    assert_eq!(buffer.len(), 2);
    assert_eq!(buffer.stats().dropped_packets, 2);
    let seqs: Vec<u32> = buffer.drain().iter().map(|p| p.header.sequence).collect();
    assert_eq!(seqs, vec![2, 3]);
}

#[test]
fn test_quality_analysis() {
    let mut buffer = AudioBuffer::new(10, 50);
    let now: u64 = 1_000_000;
    for seq in 0..5u32 {
        buffer.push(audio_at(seq, now - 10_000));
    }
    let metrics = buffer.analyze_quality(now);
    assert_eq!(metrics.packet_loss_permille, 0);
    assert_eq!(metrics.missing_packets_count, 0);
    assert_eq!(metrics.jitter_ms, 0);
    assert_eq!(metrics.average_latency_ms, 10);
    // half full: full health, perfect score
    assert_eq!(metrics.buffer_health_permille, 1000);
    assert_eq!(metrics.quality_score_permille, 1000);

    // an empty buffer is critically unhealthy
    let empty = AudioBuffer::new(10, 50);
    let em = empty.analyze_quality(now);
    assert_eq!(em.buffer_health_permille, 200);
    assert_eq!(em.quality_score_permille, 200);
}

#[test]
fn test_synchronized_release() {
    // target 500 ms so nothing is ripe by age alone
    let mut buffer = AudioBuffer::new(8, 500);
    let now: u64 = 10_000_000;
    let channel: u128 = 2;
    buffer.push(audio_at(0, now - 100_000));
    buffer.push(audio_at(1, now - 40_000));

    // without a channel mark, timestamps are far past skew of zero: held
    let empty_sync: IdTable<u64> = IdTable::new();
    let held = buffer.get_synchronized_packets(now, &empty_sync);
    assert!(held.is_empty());

    // the channel's latest routed timestamp pulls the first packet out
    let mut sync: IdTable<u64> = IdTable::new();
    sync.insert(channel, now - 110_000);
    let out = buffer.get_synchronized_packets(now, &sync);
    assert_eq!(out.len(), 1);
    assert_eq!(out[0].header.sequence, 0);
}

//! Packet codec: the fixed-layout audio datagram and its wire format.
//!
//! A datagram is a 55-byte little-endian header followed by the payload.
//! The codec frames and parses datagrams; it does not validate identifiers
//! or timestamps, which are routing policy rather than framing.

use vstd::prelude::*;
use vstd::bytes::u128_from_le_bytes;
use vstd::bytes::u128_to_le_bytes;
use vstd::bytes::u16_from_le_bytes;
use vstd::bytes::u16_to_le_bytes;
use vstd::bytes::u32_from_le_bytes;
use vstd::bytes::u32_to_le_bytes;
use vstd::bytes::u64_from_le_bytes;
use vstd::bytes::u64_to_le_bytes;
use vstd::bytes::spec_u128_to_le_bytes;
use vstd::bytes::spec_u128_from_le_bytes;
use vstd::bytes::spec_u16_to_le_bytes;
use vstd::bytes::spec_u16_from_le_bytes;
use vstd::bytes::spec_u32_to_le_bytes;
use vstd::bytes::spec_u32_from_le_bytes;
use vstd::bytes::spec_u64_to_le_bytes;
use vstd::bytes::spec_u64_from_le_bytes;
use vstd::bytes::lemma_auto_spec_u128_to_from_le_bytes;
use vstd::bytes::lemma_auto_spec_u16_to_from_le_bytes;
use vstd::bytes::lemma_auto_spec_u32_to_from_le_bytes;
use vstd::bytes::lemma_auto_spec_u64_to_from_le_bytes;
use vstd::slice::slice_subrange;
use vstd::slice::slice_to_vec;

verus! {

/// 128-bit opaque identifier of a user, stable for the user's lifetime.
pub type UserId = u128;

/// 128-bit opaque identifier of a channel, stable for the channel's lifetime.
pub type ChannelId = u128;

/// Bytes of the fixed wire header.
pub const HEADER_LEN: usize = 55;

/// Age in microseconds beyond which a packet counts as stale.
pub const STALE_AGE_US: u64 = 100_000;

/// Kind of an audio datagram.
#[derive(Debug, Clone, Copy, PartialEq, Eq, Structural)]
pub enum PacketType {
    /// PCM audio data.
    Audio,
    /// No audio to transmit.
    Silence,
    /// Start of an audio transmission.
    AudioStart,
    /// End of an audio transmission.
    AudioStop,
    /// Synchronisation / latency probe.
    Sync,
}

/// Wire byte of each packet type.
pub open spec fn spec_type_byte(t: PacketType) -> u8 {
    match t {
        PacketType::Audio => 0,
        PacketType::Silence => 1,
        PacketType::AudioStart => 2,
        PacketType::AudioStop => 3,
        PacketType::Sync => 4,
    }
}

/// Whether a wire byte names a packet type.
pub open spec fn spec_valid_type_byte(b: u8) -> bool {
    b <= 4
}

/// Packet type named by a wire byte.
pub open spec fn spec_type_of_byte(b: u8) -> PacketType {
    if b == 0 {
        PacketType::Audio
    } else if b == 1 {
        PacketType::Silence
    } else if b == 2 {
        PacketType::AudioStart
    } else if b == 3 {
        PacketType::AudioStop
    } else {
        PacketType::Sync
    }
}

/// Fixed header of an audio datagram.
#[derive(Debug, Clone, Copy, PartialEq, Eq, Structural)]
pub struct AudioHeader {
    /// Kind of the packet.
    pub packet_type: PacketType,
    /// Sending user.
    pub user_id: UserId,
    /// Channel the packet belongs to.
    pub channel_id: ChannelId,
    /// Wrapping 32-bit sequence number.
    pub sequence: u32,
    /// Microseconds since the epoch on the sender's clock.
    pub timestamp: u64,
    /// Bytes in the payload; matches the actual payload length.
    pub payload_size: u16,
    /// Sample rate in hertz.
    pub sample_rate: u32,
    /// Number of interleaved audio channels.
    pub channels: u8,
}

/// Age of a timestamp at clock reading `now`, saturating at zero.
pub open spec fn spec_age_us(timestamp: u64, now: u64) -> u64 {
    if now >= timestamp {
        (now - timestamp) as u64
    } else {
        0
    }
}

impl AudioHeader {
    /// Builds a header; the caller supplies the clock reading.
    pub fn new(
        packet_type: PacketType,
        user_id: UserId,
        channel_id: ChannelId,
        sequence: u32,
        timestamp: u64,
        payload_size: u16,
        sample_rate: u32,
        channels: u8,
    ) -> (h: AudioHeader)
        ensures
            h == (AudioHeader {
                packet_type,
                user_id,
                channel_id,
                sequence,
                timestamp,
                payload_size,
                sample_rate,
                channels,
            }),
    {
        AudioHeader {
            packet_type,
            user_id,
            channel_id,
            sequence,
            timestamp,
            payload_size,
            sample_rate,
            channels,
        }
    }

    /// Age of the packet in microseconds at clock reading `now`.
    pub fn age_micros(&self, now: u64) -> (age: u64)
        ensures
            age == spec_age_us(self.timestamp, now),
    {
        if now >= self.timestamp {
            now - self.timestamp
        } else {
            0
        }
    }

    /// Whether the packet is older than the staleness threshold.
    pub fn is_stale(&self, now: u64) -> (r: bool)
        ensures
            r == (spec_age_us(self.timestamp, now) > STALE_AGE_US),
    {
        self.age_micros(now) > STALE_AGE_US
    }
}

/// A complete audio datagram: header plus payload bytes.
#[derive(Debug)]
pub struct AudioPacket {
    /// Fixed header.
    pub header: AudioHeader,
    /// Raw payload: little-endian interleaved 16-bit PCM for audio packets.
    pub payload: Vec<u8>,
}

impl Clone for AudioPacket {
    /// The copy has the same header and the same payload bytes.
    fn clone(&self) -> (r: AudioPacket)
        ensures
            r.header == self.header,
            r.payload@ == self.payload@,
    {
        AudioPacket { header: self.header, payload: self.payload.clone() }
    }
}

impl AudioPacket {
    /// The declared payload size matches the payload itself.
    pub open spec fn size_ok(self) -> bool {
        self.header.payload_size == self.payload@.len()
    }

    /// Well-formed packet: declared size matches, and only audio-bearing
    /// packet types carry a payload.
    pub open spec fn wf(self) -> bool {
        &&& self.size_ok()
        &&& self.header.packet_type != PacketType::Audio
            && self.header.packet_type != PacketType::Silence ==> self.payload@.len() == 0
    }

    /// Builds a packet whose declared size is the payload's length.
    pub fn new(
        packet_type: PacketType,
        user_id: UserId,
        channel_id: ChannelId,
        sequence: u32,
        payload: Vec<u8>,
        timestamp: u64,
        sample_rate: u32,
        channels: u8,
    ) -> (p: AudioPacket)
        requires
            payload@.len() <= u16::MAX,
        ensures
            p.header == (AudioHeader {
                packet_type,
                user_id,
                channel_id,
                sequence,
                timestamp,
                payload_size: payload@.len() as u16,
                sample_rate,
                channels,
            }),
            p.payload == payload,
            p.size_ok(),
    {
        let payload_size: u16 = payload.len() as u16;
        let header = AudioHeader::new(
            packet_type,
            user_id,
            channel_id,
            sequence,
            timestamp,
            payload_size,
            sample_rate,
            channels,
        );
        AudioPacket { header, payload }
    }

    /// Builds an audio packet carrying PCM data.
    pub fn audio(
        user_id: UserId,
        channel_id: ChannelId,
        sequence: u32,
        audio_data: Vec<u8>,
        timestamp: u64,
        sample_rate: u32,
        channels: u8,
    ) -> (p: AudioPacket)
        requires
            audio_data@.len() <= u16::MAX,
        ensures
            p.header.packet_type == PacketType::Audio,
            p.header.user_id == user_id,
            p.header.channel_id == channel_id,
            p.header.sequence == sequence,
            p.header.timestamp == timestamp,
            p.header.payload_size == audio_data@.len(),
            p.header.sample_rate == sample_rate,
            p.header.channels == channels,
            p.payload == audio_data,
            p.wf(),
    {
        AudioPacket::new(
            PacketType::Audio,
            user_id,
            channel_id,
            sequence,
            audio_data,
            timestamp,
            sample_rate,
            channels,
        )
    }

    /// Builds a silence packet (empty payload).
    pub fn silence(
        user_id: UserId,
        channel_id: ChannelId,
        sequence: u32,
        timestamp: u64,
        sample_rate: u32,
        channels: u8,
    ) -> (p: AudioPacket)
        ensures
            p.header.packet_type == PacketType::Silence,
            p.header.user_id == user_id,
            p.header.channel_id == channel_id,
            p.header.sequence == sequence,
            p.header.timestamp == timestamp,
            p.payload@.len() == 0,
            p.wf(),
    {
        AudioPacket::new(
            PacketType::Silence,
            user_id,
            channel_id,
            sequence,
            Vec::new(),
            timestamp,
            sample_rate,
            channels,
        )
    }

    /// Builds a start-of-transmission control packet.
    pub fn audio_start(user_id: UserId, channel_id: ChannelId, sequence: u32, timestamp: u64) -> (p:
        AudioPacket)
        ensures
            p.header.packet_type == PacketType::AudioStart,
            p.header.user_id == user_id,
            p.header.channel_id == channel_id,
            p.header.sequence == sequence,
            p.header.timestamp == timestamp,
            p.payload@.len() == 0,
            p.wf(),
    {
        AudioPacket::new(
            PacketType::AudioStart,
            user_id,
            channel_id,
            sequence,
            Vec::new(),
            timestamp,
            48000,
            1,
        )
    }

    /// Builds an end-of-transmission control packet.
    pub fn audio_stop(user_id: UserId, channel_id: ChannelId, sequence: u32, timestamp: u64) -> (p:
        AudioPacket)
        ensures
            p.header.packet_type == PacketType::AudioStop,
            p.header.user_id == user_id,
            p.header.channel_id == channel_id,
            p.header.sequence == sequence,
            p.header.timestamp == timestamp,
            p.payload@.len() == 0,
            p.wf(),
    {
        AudioPacket::new(
            PacketType::AudioStop,
            user_id,
            channel_id,
            sequence,
            Vec::new(),
            timestamp,
            48000,
            1,
        )
    }

    /// Total size of the packet on the wire.
    pub fn size(&self) -> (n: usize)
        requires
            HEADER_LEN + self.payload@.len() <= usize::MAX,
        ensures
            n == HEADER_LEN + self.payload@.len(),
    {
        HEADER_LEN + self.payload.len()
    }

    /// Whether the packet carries PCM audio.
    pub fn has_audio(&self) -> (r: bool)
        ensures
            r == (self.header.packet_type == PacketType::Audio),
    {
        matches!(self.header.packet_type, PacketType::Audio)
    }

    /// Whether the packet is a control event.
    pub fn is_control(&self) -> (r: bool)
        ensures
            r == (self.header.packet_type == PacketType::AudioStart
                || self.header.packet_type == PacketType::AudioStop
                || self.header.packet_type == PacketType::Sync),
    {
        matches!(
            self.header.packet_type,
            PacketType::AudioStart | PacketType::AudioStop | PacketType::Sync
        )
    }
}

/// Framing errors of the decoder.
#[derive(Debug, Clone, Copy, PartialEq, Eq, Structural)]
pub enum DecodeError {
    /// The buffer is shorter than the header, or than the declared payload.
    Truncated,
    /// The first byte names no packet type.
    BadType,
}

/// Wire bytes of a header.
pub open spec fn spec_encode_header(h: AudioHeader) -> Seq<u8> {
    seq![spec_type_byte(h.packet_type)] + spec_u128_to_le_bytes(h.user_id)
        + spec_u128_to_le_bytes(h.channel_id) + spec_u32_to_le_bytes(h.sequence)
        + spec_u64_to_le_bytes(h.timestamp) + spec_u16_to_le_bytes(h.payload_size)
        + spec_u32_to_le_bytes(h.sample_rate) + seq![h.channels, 0u8, 0u8, 0u8]
}

/// Wire bytes of a whole packet.
pub open spec fn spec_encode(p: AudioPacket) -> Seq<u8> {
    spec_encode_header(p.header) + p.payload@
}

/// Header read back from wire bytes; meaningful when at least
/// `HEADER_LEN` bytes are present and the type byte is valid.
pub open spec fn spec_decode_header(b: Seq<u8>) -> AudioHeader {
    AudioHeader {
        packet_type: spec_type_of_byte(b[0]),
        user_id: spec_u128_from_le_bytes(b.subrange(1, 17)),
        channel_id: spec_u128_from_le_bytes(b.subrange(17, 33)),
        sequence: spec_u32_from_le_bytes(b.subrange(33, 37)),
        timestamp: spec_u64_from_le_bytes(b.subrange(37, 45)),
        payload_size: spec_u16_from_le_bytes(b.subrange(45, 47)),
        sample_rate: spec_u32_from_le_bytes(b.subrange(47, 51)),
        channels: b[51],
    }
}

/// Result of decoding wire bytes: header and payload bytes, or the
/// framing error. Trailing bytes beyond the declared payload are ignored.
pub open spec fn spec_decode(b: Seq<u8>) -> Result<(AudioHeader, Seq<u8>), DecodeError> {
    if b.len() < HEADER_LEN {
        Err(DecodeError::Truncated)
    } else if !spec_valid_type_byte(b[0]) {
        Err(DecodeError::BadType)
    } else {
        let h = spec_decode_header(b);
        if b.len() < HEADER_LEN + h.payload_size {
            Err(DecodeError::Truncated)
        } else {
            Ok((h, b.subrange(HEADER_LEN as int, HEADER_LEN + h.payload_size)))
        }
    }
}

/// Abstraction of a decoder result: the packet's header together with
/// its payload bytes.
pub open spec fn spec_packet_parts(r: Result<AudioPacket, DecodeError>) -> Result<
    (AudioHeader, Seq<u8>),
    DecodeError,
> {
    match r {
        Ok(p) => Ok((p.header, p.payload@)),
        Err(e) => Err(e),
    }
}

impl AudioPacket {
    /// Frames the packet into its wire bytes.
    pub fn to_bytes(&self) -> (out: Vec<u8>)
        requires
            self.size_ok(),
        ensures
            out@ == spec_encode(*self),
            out@.len() == HEADER_LEN + self.header.payload_size,
    {
        let mut out: Vec<u8> = Vec::new();
        let tb: u8 = match self.header.packet_type {
            PacketType::Audio => 0,
            PacketType::Silence => 1,
            PacketType::AudioStart => 2,
            PacketType::AudioStop => 3,
            PacketType::Sync => 4,
        };
        out.push(tb);
        let mut user_bytes = u128_to_le_bytes(self.header.user_id);
        out.append(&mut user_bytes);
        let mut channel_bytes = u128_to_le_bytes(self.header.channel_id);
        out.append(&mut channel_bytes);
        let mut seq_bytes = u32_to_le_bytes(self.header.sequence);
        out.append(&mut seq_bytes);
        let mut ts_bytes = u64_to_le_bytes(self.header.timestamp);
        out.append(&mut ts_bytes);
        let mut size_bytes = u16_to_le_bytes(self.header.payload_size);
        out.append(&mut size_bytes);
        let mut rate_bytes = u32_to_le_bytes(self.header.sample_rate);
        out.append(&mut rate_bytes);
        out.push(self.header.channels);
        out.push(0);
        out.push(0);
        out.push(0);
        out.extend_from_slice(self.payload.as_slice());
        proof {
            assert(out@ =~= spec_encode(*self));
        }
        out
    }

    /// Parses wire bytes into a packet, or reports the framing error.
    pub fn from_bytes(bytes: &[u8]) -> (r: Result<AudioPacket, DecodeError>)
        ensures
            spec_packet_parts(r) == spec_decode(bytes@),
    {
        if bytes.len() < HEADER_LEN {
            return Err(DecodeError::Truncated);
        }
        let tb: u8 = *vstd::slice::slice_index_get(bytes, 0);
        if tb > 4 {
            return Err(DecodeError::BadType);
        }
        let packet_type: PacketType = if tb == 0 {
            PacketType::Audio
        } else if tb == 1 {
            PacketType::Silence
        } else if tb == 2 {
            PacketType::AudioStart
        } else if tb == 3 {
            PacketType::AudioStop
        } else {
            PacketType::Sync
        };
        let user_id: u128 = u128_from_le_bytes(slice_subrange(bytes, 1, 17));
        let channel_id: u128 = u128_from_le_bytes(slice_subrange(bytes, 17, 33));
        let sequence: u32 = u32_from_le_bytes(slice_subrange(bytes, 33, 37));
        let timestamp: u64 = u64_from_le_bytes(slice_subrange(bytes, 37, 45));
        let payload_size: u16 = u16_from_le_bytes(slice_subrange(bytes, 45, 47));
        let sample_rate: u32 = u32_from_le_bytes(slice_subrange(bytes, 47, 51));
        let channels: u8 = *vstd::slice::slice_index_get(bytes, 51);
        if bytes.len() - HEADER_LEN < payload_size as usize {
            return Err(DecodeError::Truncated);
        }
        let payload: Vec<u8> = slice_to_vec(
            slice_subrange(bytes, HEADER_LEN, HEADER_LEN + payload_size as usize),
        );
        let header = AudioHeader {
            packet_type,
            user_id,
            channel_id,
            sequence,
            timestamp,
            payload_size,
            sample_rate,
            channels,
        };
        Ok(AudioPacket { header, payload })
    }
}

/// Length exactness: the wire form of a packet whose declared size is
/// honest is exactly the header length plus the payload size.
pub proof fn lemma_encode_len(p: AudioPacket)
    requires
        p.size_ok(),
    ensures
        spec_encode(p).len() == HEADER_LEN + p.header.payload_size,
{
    lemma_auto_spec_u128_to_from_le_bytes();
    lemma_auto_spec_u32_to_from_le_bytes();
    lemma_auto_spec_u64_to_from_le_bytes();
    lemma_auto_spec_u16_to_from_le_bytes();
}

/// Codec roundtrip: decoding the wire form of any well-formed packet
/// yields the packet itself.
pub proof fn lemma_codec_roundtrip(p: AudioPacket)
    requires
        p.wf(),
    ensures
        spec_decode(spec_encode(p)) == Ok::<(AudioHeader, Seq<u8>), DecodeError>(
            (p.header, p.payload@),
        ),
{
    lemma_auto_spec_u128_to_from_le_bytes();
    lemma_auto_spec_u32_to_from_le_bytes();
    lemma_auto_spec_u64_to_from_le_bytes();
    lemma_auto_spec_u16_to_from_le_bytes();
    let b = spec_encode(p);
    assert(b[0] == spec_type_byte(p.header.packet_type));
    assert(spec_valid_type_byte(b[0]));
    assert(b.subrange(1, 17) =~= spec_u128_to_le_bytes(p.header.user_id));
    assert(b.subrange(17, 33) =~= spec_u128_to_le_bytes(p.header.channel_id));
    assert(b.subrange(33, 37) =~= spec_u32_to_le_bytes(p.header.sequence));
    assert(b.subrange(37, 45) =~= spec_u64_to_le_bytes(p.header.timestamp));
    assert(b.subrange(45, 47) =~= spec_u16_to_le_bytes(p.header.payload_size));
    assert(b.subrange(47, 51) =~= spec_u32_to_le_bytes(p.header.sample_rate));
    assert(b[51] == p.header.channels);
    assert(spec_decode_header(b) == p.header);
    assert(b.subrange(HEADER_LEN as int, HEADER_LEN + p.header.payload_size) =~= p.payload@);
}

/// Hands out wrapping 32-bit sequence numbers and checks arrivals
/// against a reordering tolerance window.
pub struct SequenceManager {
    next_sequence: u32,
}

/// Reordering tolerance of the in-order check, in packets.
pub open spec fn spec_order_tolerance() -> u32 {
    10
}

/// Whether `sequence` lies within the tolerance window around the
/// next expected sequence number, accounting for 32-bit wrap-around
/// below zero.
pub open spec fn spec_in_order(expected: u32, sequence: u32) -> bool {
    if expected >= spec_order_tolerance() {
        expected - spec_order_tolerance() <= sequence && sequence <= expected
            + spec_order_tolerance()
    } else {
        sequence <= expected + spec_order_tolerance() || sequence >= u32::MAX
            - spec_order_tolerance() + expected
    }
}

impl SequenceManager {
    /// Exposes the next sequence number for contracts.
    pub closed spec fn spec_next_sequence(self) -> u32 {
        self.next_sequence
    }

    /// Starts a fresh stream at sequence zero.
    pub fn new() -> (s: SequenceManager)
        ensures
            s.spec_next_sequence() == 0,
    {
        SequenceManager { next_sequence: 0 }
    }

    /// Returns the current sequence number and advances, wrapping at 32 bits.
    pub fn next(&mut self) -> (seq: u32)
        ensures
            seq == old(self).spec_next_sequence(),
            final(self).spec_next_sequence() == old(self).spec_next_sequence().wrapping_add(1),
    {
        let seq = self.next_sequence;
        self.next_sequence = self.next_sequence.wrapping_add(1);
        seq
    }

    /// Whether an arriving sequence number is within the reordering
    /// tolerance of the next expected one.
    pub fn is_in_order(&self, sequence: u32) -> (r: bool)
        ensures
            r == spec_in_order(self.spec_next_sequence(), sequence),
    {
        let tolerance: u32 = 10;
        let expected = self.next_sequence;
        if expected >= tolerance {
            let hi: u64 = expected as u64 + tolerance as u64;
            sequence >= expected - tolerance && sequence as u64 <= hi
        } else {
            sequence <= expected + tolerance || sequence >= u32::MAX - tolerance + expected
        }
    }
}

impl Default for SequenceManager {
    /// Same as `SequenceManager::new`.
    fn default() -> (s: SequenceManager)
        ensures
            s.spec_next_sequence() == 0,
    {
        SequenceManager::new()
    }
}

} // verus!

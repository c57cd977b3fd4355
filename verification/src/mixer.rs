//! N-way audio mixer with per-user controls and dynamics processing.
//!
//! Payloads are little-endian interleaved 16-bit PCM. The mixer filters
//! contributors by mute, solo and a voice cap, scales each voice by user
//! and master gain, applies a noise gate, soft noise suppression and a
//! cheap high-pass, sums into a wide accumulator, compresses and limits
//! the sum, measures RMS, applies automatic gain control, and emits
//! 16-bit samples clamped strictly inside the 16-bit range.
//!
//! All gains are integers in permille: a volume of 1000 is unity, 2000 is
//! the 200% ceiling. Thresholds are amplitudes on the 16-bit sample scale.

use vstd::prelude::*;
use vstd::bytes::u16_from_le_bytes;
use vstd::bytes::u16_to_le_bytes;
use vstd::bytes::spec_u16_from_le_bytes;
use vstd::bytes::spec_u16_to_le_bytes;
use vstd::bytes::lemma_auto_spec_u16_to_from_le_bytes;
use vstd::slice::slice_subrange;
use crate::packet::AudioPacket;
use crate::packet::PacketType;
use crate::packet::UserId;
use crate::packet::ChannelId;
use crate::table::IdTable;
use crate::table::PairTable;

verus! {

/// Highest allowed gain, in permille (200%).
pub const MAX_GAIN_MILLI: u32 = 2000;

/// Amplitude below which the default noise gate closes: the integer
/// equivalent of a -40 dBFS threshold on the 16-bit scale.
pub const DEFAULT_GATE_AMP: u32 = 328;

/// Amplitude bound of the soft noise suppressor (a tenth of full scale).
pub const NOISE_SUPPRESS_AMP: u32 = 3277;

/// Amplitude bound of the cheap high-pass (a twentieth of full scale).
pub const HIGH_PASS_AMP: u32 = 1639;

/// Compressor knee: a little over seven tenths of full scale.
pub const COMPRESS_THRESHOLD: u32 = 22937;

/// Target RMS of automatic gain control (three tenths of full scale).
pub const AGC_TARGET_RMS: u64 = 9830;

/// Largest magnitude a single processed voice sample can have:
/// full scale times the gain ceiling applied twice.
pub const VOICE_PEAK: i64 = 131072;

/// Per-user, per-channel playback controls. Gains are in permille.
#[derive(Debug, Clone, Copy, PartialEq, Eq, Structural)]
pub struct UserAudioControls {
    /// Voice gain in permille, up to `MAX_GAIN_MILLI`.
    pub volume_milli: u32,
    /// Whether the user is muted; overrides solo for this user.
    pub muted: bool,
    /// Whether the user is solo: when any contributor is solo, only solo
    /// contributors are mixed.
    pub solo: bool,
    /// Stereo position in permille, from -1000 (left) to 1000 (right).
    pub pan_milli: i32,
    /// Whether the cheap high-pass is applied.
    pub high_pass_enabled: bool,
    /// Soft noise suppression strength in permille, up to 1000.
    pub noise_suppression_milli: u32,
    /// Whether echo cancellation is requested (a policy hint).
    pub echo_cancellation: bool,
    /// Voice activity detection threshold in permille.
    pub voice_activity_threshold_milli: u32,
}

/// The controls every user starts with.
pub open spec fn spec_default_controls() -> UserAudioControls {
    UserAudioControls {
        volume_milli: 1000,
        muted: false,
        solo: false,
        pan_milli: 0,
        high_pass_enabled: true,
        noise_suppression_milli: 300,
        echo_cancellation: true,
        voice_activity_threshold_milli: 100,
    }
}

/// Controls with every gain clamped into its allowed range.
pub open spec fn spec_clamped_controls(c: UserAudioControls) -> UserAudioControls {
    UserAudioControls {
        volume_milli: if c.volume_milli > MAX_GAIN_MILLI {
            MAX_GAIN_MILLI
        } else {
            c.volume_milli
        },
        pan_milli: if c.pan_milli > 1000 {
            1000
        } else if c.pan_milli < -1000 {
            -1000i32
        } else {
            c.pan_milli
        },
        noise_suppression_milli: if c.noise_suppression_milli > 1000 {
            1000
        } else {
            c.noise_suppression_milli
        },
        ..c
    }
}

impl UserAudioControls {
    /// Gains lie in their allowed ranges.
    pub open spec fn wf(self) -> bool {
        &&& self.volume_milli <= MAX_GAIN_MILLI
        &&& -1000 <= self.pan_milli <= 1000
        &&& self.noise_suppression_milli <= 1000
    }
}

impl Default for UserAudioControls {
    /// Unity volume, no mute or solo, centre pan, high-pass on, mild
    /// noise suppression.
    fn default() -> (c: UserAudioControls)
        ensures
            c == spec_default_controls(),
            c.wf(),
    {
        UserAudioControls {
            volume_milli: 1000,
            muted: false,
            solo: false,
            pan_milli: 0,
            high_pass_enabled: true,
            noise_suppression_milli: 300,
            echo_cancellation: true,
            voice_activity_threshold_milli: 100,
        }
    }
}

/// Per-channel mixing configuration. Gains are in permille; the
/// noise-gate threshold is an amplitude on the 16-bit scale.
#[derive(Debug, Clone, Copy, PartialEq, Eq, Structural)]
pub struct ChannelMixConfig {
    /// Master gain in permille, up to `MAX_GAIN_MILLI`.
    pub master_volume_milli: u32,
    /// Whether automatic gain control runs after the limiter.
    pub auto_gain_control: bool,
    /// Whether the compressor runs over the summed mix.
    pub compression_enabled: bool,
    /// Compression ratio in permille (4000 is a 4:1 ratio); at least 1000.
    pub compression_ratio_milli: u32,
    /// Whether the per-voice noise gate is applied.
    pub noise_gate_enabled: bool,
    /// Amplitude below which the noise gate closes.
    pub noise_gate_threshold_amp: u32,
    /// Most voices mixed in one call; later arrivals are dropped.
    pub max_concurrent_voices: usize,
}

/// The configuration every channel starts with.
pub open spec fn spec_default_mix_config() -> ChannelMixConfig {
    ChannelMixConfig {
        master_volume_milli: 1000,
        auto_gain_control: true,
        compression_enabled: true,
        compression_ratio_milli: 4000,
        noise_gate_enabled: true,
        noise_gate_threshold_amp: DEFAULT_GATE_AMP,
        max_concurrent_voices: 8,
    }
}

/// Configuration with every gain and the ratio clamped into range.
pub open spec fn spec_clamped_mix_config(c: ChannelMixConfig) -> ChannelMixConfig {
    ChannelMixConfig {
        master_volume_milli: if c.master_volume_milli > MAX_GAIN_MILLI {
            MAX_GAIN_MILLI
        } else {
            c.master_volume_milli
        },
        compression_ratio_milli: if c.compression_ratio_milli < 1000 {
            1000
        } else {
            c.compression_ratio_milli
        },
        ..c
    }
}

impl ChannelMixConfig {
    /// The master gain and the compression ratio lie in range.
    pub open spec fn wf(self) -> bool {
        &&& self.master_volume_milli <= MAX_GAIN_MILLI
        &&& self.compression_ratio_milli >= 1000
    }
}

impl Default for ChannelMixConfig {
    /// Unity master volume, AGC and compression on at 4:1, noise gate at the
    /// default threshold, at most eight concurrent voices.
    fn default() -> (c: ChannelMixConfig)
        ensures
            c == spec_default_mix_config(),
            c.wf(),
    {
        ChannelMixConfig {
            master_volume_milli: 1000,
            auto_gain_control: true,
            compression_enabled: true,
            compression_ratio_milli: 4000,
            noise_gate_enabled: true,
            noise_gate_threshold_amp: 328,
            max_concurrent_voices: 8,
        }
    }
}

/// Result of one mix call on a channel. Levels are amplitudes on the
/// 16-bit sample scale.
#[derive(Debug, Clone, Copy, PartialEq, Eq, Structural)]
pub struct MixingStats {
    /// Contributors that survived filtering.
    pub active_voices: usize,
    /// Samples accumulated across all voices.
    pub total_samples_processed: u64,
    /// Largest output magnitude.
    pub peak_level: u32,
    /// Root-mean-square of the limited mix.
    pub rms_level: u64,
    /// Whether the limiter saturated any sample.
    pub clipping_detected: bool,
    /// Wall time of the call in microseconds, when the caller measures it.
    pub processing_time_us: u64,
}

impl Default for MixingStats {
    /// All counters zero.
    fn default() -> (s: MixingStats)
        ensures
            s.active_voices == 0,
            s.total_samples_processed == 0,
            s.peak_level == 0,
            s.rms_level == 0,
            !s.clipping_detected,
            s.processing_time_us == 0,
    {
        MixingStats {
            active_voices: 0,
            total_samples_processed: 0,
            peak_level: 0,
            rms_level: 0,
            clipping_detected: false,
            processing_time_us: 0,
        }
    }
}

/// Signed 16-bit value of the `i`-th little-endian sample of a payload.
pub open spec fn spec_sample_at(payload: Seq<u8>, i: int) -> int {
    let u = spec_u16_from_le_bytes(payload.subrange(2 * i, 2 * i + 2));
    if u < 0x8000 {
        u as int
    } else {
        u - 0x10000
    }
}

/// Decodes little-endian 16-bit samples from a byte payload; fails on an
/// odd byte count.
pub fn bytes_to_samples(bytes: &Vec<u8>) -> (r: Result<Vec<i16>, &'static str>)
    ensures
        bytes@.len() % 2 == 0 <==> r is Ok,
        r matches Ok(v) ==> v@.len() == bytes@.len() / 2 && forall|i: int|
            0 <= i < v@.len() ==> #[trigger] v@[i] as int == spec_sample_at(bytes@, i),
{
    if bytes.len() % 2 != 0 {
        return Err("invalid sample data: odd number of bytes");
    }
    let n = bytes.len();
    let count = n / 2;
    let mut v: Vec<i16> = Vec::new();
    let mut i: usize = 0;
    while i < count
        invariant
            count == bytes@.len() / 2,
            bytes@.len() <= usize::MAX,
            bytes@.len() % 2 == 0,
            i <= count,
            v@.len() == i,
            forall|j: int| 0 <= j < i ==> #[trigger] v@[j] as int == spec_sample_at(bytes@, j),
        decreases count - i,
    {
        let s = sample_from_bytes(bytes, i);
        v.push(s);
        i = i + 1;
    }
    Ok(v)
}

/// Reads the `i`-th signed 16-bit little-endian sample of a payload.
pub fn sample_from_bytes(bytes: &Vec<u8>, i: usize) -> (s: i16)
    requires
        2 * i + 2 <= bytes@.len(),
        bytes@.len() <= usize::MAX,
    ensures
        s as int == spec_sample_at(bytes@, i as int),
{
    let u: u16 = u16_from_le_bytes(slice_subrange(bytes.as_slice(), 2 * i, 2 * i + 2));
    if u < 0x8000 {
        u as i16
    } else {
        let m: u32 = 0x10000u32 - u as u32;
        if m == 0x8000 {
            i16::MIN
        } else {
            let m16: i16 = m as u16 as i16;
            -m16
        }
    }
}

/// Magnitude of an integer.
pub open spec fn spec_abs(x: int) -> int {
    if x >= 0 {
        x
    } else {
        -x
    }
}

/// Scales by a permille gain, truncating toward zero.
pub open spec fn spec_scale(s: int, milli: int) -> int {
    if s >= 0 {
        s * milli / 1000
    } else {
        -((-s) * milli / 1000)
    }
}

/// Scaling by a bounded permille gain shrinks or at most doubles the
/// magnitude.
pub proof fn lemma_scale_bound(s: int, milli: int, b: int)
    requires
        spec_abs(s) <= b,
        0 <= milli <= 2000,
    ensures
        milli <= 1000 ==> spec_abs(spec_scale(s, milli)) <= spec_abs(s),
        spec_abs(spec_scale(s, milli)) <= 2 * b,
{
    let m = spec_abs(s);
    assert(m * milli / 1000 <= 2 * b && (milli <= 1000 ==> m * milli / 1000 <= m))
        by (nonlinear_arith)
        requires
            0 <= m <= b,
            0 <= milli <= 2000,
    ;
}

/// One voice sample after user and master gain, the noise gate, soft
/// noise suppression and the cheap high-pass, in that order.
pub open spec fn spec_process_sample(s: int, c: UserAudioControls, cfg: ChannelMixConfig) -> int {
    let g1 = spec_scale(spec_scale(s, c.volume_milli as int), cfg.master_volume_milli as int);
    let g2 = if cfg.noise_gate_enabled && spec_abs(g1) < cfg.noise_gate_threshold_amp {
        0
    } else {
        g1
    };
    let g3 = if c.noise_suppression_milli > 0 && spec_abs(g2) < NOISE_SUPPRESS_AMP {
        spec_scale(g2, 1000 - c.noise_suppression_milli)
    } else {
        g2
    };
    if c.high_pass_enabled && spec_abs(g3) < HIGH_PASS_AMP {
        spec_scale(g3, 500)
    } else {
        g3
    }
}

/// A processed voice sample stays within `VOICE_PEAK`.
pub proof fn lemma_process_sample_bound(s: int, c: UserAudioControls, cfg: ChannelMixConfig)
    requires
        c.wf(),
        cfg.wf(),
        spec_abs(s) <= 32768,
    ensures
        spec_abs(spec_process_sample(s, c, cfg)) <= VOICE_PEAK,
{
    let g0 = spec_scale(s, c.volume_milli as int);
    lemma_scale_bound(s, c.volume_milli as int, 32768);
    let g1 = spec_scale(g0, cfg.master_volume_milli as int);
    lemma_scale_bound(g0 as int, cfg.master_volume_milli as int, 2 * 32768int);
    let g2 = if cfg.noise_gate_enabled && spec_abs(g1) < cfg.noise_gate_threshold_amp {
        0int
    } else {
        g1
    };
    let g3 = if c.noise_suppression_milli > 0 && spec_abs(g2) < NOISE_SUPPRESS_AMP {
        spec_scale(g2, 1000 - c.noise_suppression_milli)
    } else {
        g2
    };
    lemma_scale_bound(g2, 1000 - c.noise_suppression_milli, VOICE_PEAK as int);
    lemma_scale_bound(g3, 500, VOICE_PEAK as int);
}

/// Scales a bounded 64-bit value by a permille gain, truncating toward
/// zero.
fn scale_i64(s: i64, milli: u32) -> (r: i64)
    requires
        -1_000_000_000 <= s <= 1_000_000_000,
        milli <= 2000,
    ensures
        r == spec_scale(s as int, milli as int),
{
    if s >= 0 {
        proof {
            assert((s as int) * (milli as int) <= 2_000_000_000_000int) by (nonlinear_arith)
                requires
                    0 <= s <= 1_000_000_000,
                    milli <= 2000,
            ;
        }
        let m: u64 = (s as u64) * (milli as u64);
        (m / 1000) as i64
    } else {
        let neg: i64 = -s;
        proof {
            assert((neg as int) * (milli as int) <= 2_000_000_000_000int) by (nonlinear_arith)
                requires
                    0 <= neg <= 1_000_000_000,
                    milli <= 2000,
            ;
        }
        let m: u64 = (neg as u64) * (milli as u64);
        -((m / 1000) as i64)
    }
}

/// Magnitude of a bounded 64-bit value.
fn abs_i64(s: i64) -> (r: i64)
    requires
        s != i64::MIN,
    ensures
        r == spec_abs(s as int),
{
    if s >= 0 {
        s
    } else {
        -s
    }
}

/// Processes one voice sample: user gain, master gain, noise gate, suppression,
/// high-pass.
pub fn process_voice_sample(s: i16, c: &UserAudioControls, cfg: &ChannelMixConfig) -> (r: i64)
    requires
        c.wf(),
        cfg.wf(),
    ensures
        r == spec_process_sample(s as int, *c, *cfg),
        -VOICE_PEAK <= r <= VOICE_PEAK,
{
    proof {
        lemma_process_sample_bound(s as int, *c, *cfg);
        lemma_scale_bound(s as int, c.volume_milli as int, 32768);
        lemma_scale_bound(
            spec_scale(s as int, c.volume_milli as int),
            cfg.master_volume_milli as int,
            2 * 32768int,
        );
    }
    let g0 = scale_i64(s as i64, c.volume_milli);
    let g1 = scale_i64(g0, cfg.master_volume_milli);
    let g2: i64 = if cfg.noise_gate_enabled && abs_i64(g1) < cfg.noise_gate_threshold_amp as i64 {
        0
    } else {
        g1
    };
    proof {
        let gs2 = if cfg.noise_gate_enabled && spec_abs(g1 as int) < cfg.noise_gate_threshold_amp {
            0int
        } else {
            g1 as int
        };
        lemma_scale_bound(gs2, 1000 - c.noise_suppression_milli, VOICE_PEAK as int);
    }
    let g3: i64 = if c.noise_suppression_milli > 0 && abs_i64(g2) < NOISE_SUPPRESS_AMP as i64 {
        scale_i64(g2, 1000 - c.noise_suppression_milli)
    } else {
        g2
    };
    let g4: i64 = if c.high_pass_enabled && abs_i64(g3) < HIGH_PASS_AMP as i64 {
        scale_i64(g3, 500)
    } else {
        g3
    };
    g4
}

/// Sum of the processed samples of a set of voices at sample position
/// `i`, each voice a payload with the controls of its sender.
pub open spec fn spec_mix_acc(
    voices: Seq<(AudioPacket, UserAudioControls)>,
    cfg: ChannelMixConfig,
    i: int,
) -> int
    decreases voices.len(),
{
    if voices.len() == 0 {
        0
    } else {
        spec_mix_acc(voices.drop_last(), cfg, i) + spec_process_sample(
            spec_sample_at(voices.last().0.payload@, i),
            voices.last().1,
            cfg,
        )
    }
}

/// The mix accumulator is bounded by the voice count times the voice peak.
pub proof fn lemma_mix_acc_bound(
    voices: Seq<(AudioPacket, UserAudioControls)>,
    cfg: ChannelMixConfig,
    i: int,
)
    requires
        cfg.wf(),
        forall|v: int| 0 <= v < voices.len() ==> (#[trigger] voices[v]).1.wf(),
    ensures
        spec_abs(spec_mix_acc(voices, cfg, i)) <= voices.len() * VOICE_PEAK,
    decreases voices.len(),
{
    if voices.len() > 0 {
        let d = voices.drop_last();
        assert(forall|v: int| 0 <= v < d.len() ==> (#[trigger] d[v]).1.wf());
        lemma_mix_acc_bound(d, cfg, i);
        let s = spec_sample_at(voices.last().0.payload@, i);
        assert(spec_abs(s) <= 32768) by {
            let u = spec_u16_from_le_bytes(voices.last().0.payload@.subrange(2 * i, 2 * i + 2));
            vstd::bytes::lemma_auto_spec_u16_to_from_le_bytes();
            assert(u <= u16::MAX);
        }
        lemma_process_sample_bound(s, voices.last().1, cfg);
        assert((voices.len() - 1) * VOICE_PEAK + VOICE_PEAK == voices.len() * VOICE_PEAK)
            by (nonlinear_arith);
    }
}

/// The compressed value of a summed sample: magnitude beyond the knee is
/// divided by the ratio, sign preserved.
pub open spec fn spec_compressed(y: int, cfg: ChannelMixConfig) -> int {
    if cfg.compression_enabled && spec_abs(y) >= COMPRESS_THRESHOLD {
        let c = COMPRESS_THRESHOLD + (spec_abs(y) - COMPRESS_THRESHOLD) * 1000
            / (cfg.compression_ratio_milli as int);
        if y >= 0 {
            c
        } else {
            -c
        }
    } else {
        y
    }
}

/// Hard limit strictly inside the 16-bit range.
pub open spec fn spec_limited(y: int) -> int {
    if y > 32766 {
        32766
    } else if y < -32767 {
        -32767
    } else {
        y
    }
}

/// Whether the limiter saturates on this value.
pub open spec fn spec_clips(y: int) -> bool {
    y > 32766 || y < -32767
}

/// Output sample: the limited value scaled by the AGC gain and clamped
/// strictly inside the 16-bit range again.
pub open spec fn spec_emit(y: int, gain_milli: int) -> int {
    spec_limited(spec_scale(y, gain_milli))
}

/// AGC gain in permille for a measured RMS: the target over the RMS,
/// clamped between a tenth and a doubling; unity when AGC is off or the
/// mix is silent.
pub open spec fn spec_agc_gain(cfg: ChannelMixConfig, rms: int) -> int {
    if cfg.auto_gain_control && rms > 0 {
        let g = AGC_TARGET_RMS * 1000 / rms;
        if g < 100 {
            100
        } else if g > 2000 {
            2000
        } else {
            g
        }
    } else {
        1000
    }
}

/// Sum of squares of the first `n` accumulator samples.
pub open spec fn spec_sum_squares(s: Seq<i128>, n: int) -> int
    decreases n,
{
    if n <= 0 {
        0
    } else {
        spec_sum_squares(s, n - 1) + s[n - 1] * s[n - 1]
    }
}

/// Floor of the square root.
pub open spec fn spec_is_sqrt_floor(r: u128, x: u128) -> bool {
    r * r <= x && x < (r + 1) * (r + 1)
}

/// Computes the floor of the square root by bisection.
pub fn isqrt_u128(x: u128) -> (r: u128)
    ensures
        spec_is_sqrt_floor(r, x),
{
    if x == 0 {
        return 0;
    }
    let mut lo: u128 = 0;
    let mut hi: u128 = 0x1_0000_0000_0000_0000;
    proof {
        assert(hi * hi > x) by (nonlinear_arith)
            requires
                hi == 0x1_0000_0000_0000_0000u128,
                x <= u128::MAX,
        ;
    }
    while lo + 1 < hi
        invariant
            lo < hi,
            hi <= 0x1_0000_0000_0000_0000,
            lo * lo <= x,
            x < hi * hi,
        decreases hi - lo,
    {
        let mid = lo + (hi - lo) / 2;
        proof {
            assert(mid * mid <= u128::MAX) by (nonlinear_arith)
                requires
                    mid < 0x1_0000_0000_0000_0000u128,
            ;
        }
        if mid * mid <= x {
            lo = mid;
        } else {
            hi = mid;
        }
    }
    lo
}

/// Adds one voice into the accumulator: each accumulator slot gains the
/// processed sample of this voice at the same position.
fn accumulate_voice(
    acc: &mut Vec<i128>,
    payload: &Vec<u8>,
    c: &UserAudioControls,
    cfg: &ChannelMixConfig,
    bound: Ghost<int>,
)
    requires
        c.wf(),
        cfg.wf(),
        2 * old(acc)@.len() <= payload@.len(),
        bound@ >= 0,
        bound@ + VOICE_PEAK <= i128::MAX,
        forall|i: int| 0 <= i < old(acc)@.len() ==> -bound@ <= #[trigger] old(acc)@[i] <= bound@,
    ensures
        final(acc)@.len() == old(acc)@.len(),
        forall|i: int|
            0 <= i < final(acc)@.len() ==> #[trigger] final(acc)@[i] == old(acc)@[i]
                + spec_process_sample(spec_sample_at(payload@, i), *c, *cfg),
        forall|i: int|
            0 <= i < final(acc)@.len() ==> -(bound@ + VOICE_PEAK) <= #[trigger] final(acc)@[i]
                <= bound@ + VOICE_PEAK,
{
    let n = acc.len();
    let payload_len = payload.len();
    let mut i: usize = 0;
    while i < n
        invariant
            c.wf(),
            cfg.wf(),
            n == acc@.len(),
            acc@.len() == old(acc)@.len(),
            2 * n <= payload_len,
            payload_len == payload@.len(),
            i <= n,
            bound@ >= 0,
            bound@ + VOICE_PEAK <= i128::MAX,
            forall|j: int| i <= j < n ==> #[trigger] acc@[j] == old(acc)@[j],
            forall|j: int| i <= j < n ==> -bound@ <= #[trigger] acc@[j] <= bound@,
            forall|j: int|
                0 <= j < i ==> #[trigger] acc@[j] == old(acc)@[j] + spec_process_sample(
                    spec_sample_at(payload@, j),
                    *c,
                    *cfg,
                ),
            forall|j: int| 0 <= j < i ==> -(bound@ + VOICE_PEAK) <= #[trigger] acc@[j] <= bound@ + VOICE_PEAK,
        decreases n - i,
    {
        let s = sample_from_bytes(payload, i);
        let r = process_voice_sample(s, c, cfg);
        let cur = acc[i];
        acc.set(i, cur + (r as i128));
        i = i + 1;
    }
}

/// Compresses and limits every accumulator slot, and reports whether the
/// limiter saturated anywhere.
fn compress_limit(acc: &mut Vec<i128>, cfg: &ChannelMixConfig, bound: Ghost<int>) -> (clipped:
    bool)
    requires
        cfg.wf(),
        bound@ >= 0,
        bound@ <= 0x1000000000000000000000000,
        forall|i: int| 0 <= i < old(acc)@.len() ==> -bound@ <= #[trigger] old(acc)@[i] <= bound@,
    ensures
        final(acc)@.len() == old(acc)@.len(),
        forall|i: int|
            0 <= i < final(acc)@.len() ==> #[trigger] final(acc)@[i] == spec_limited(
                spec_compressed(old(acc)@[i] as int, *cfg),
            ),
        forall|i: int| 0 <= i < final(acc)@.len() ==> -32767 <= #[trigger] final(acc)@[i] <= 32766,
        clipped == exists|i: int|
            0 <= i < old(acc)@.len() && spec_clips(
                spec_compressed(#[trigger] old(acc)@[i] as int, *cfg),
            ),
{
    let n = acc.len();
    let mut clipped = false;
    let mut i: usize = 0;
    while i < n
        invariant
            cfg.wf(),
            n == acc@.len(),
            acc@.len() == old(acc)@.len(),
            i <= n,
            bound@ >= 0,
            bound@ <= 0x1000000000000000000000000,
            forall|j: int| i <= j < n ==> #[trigger] acc@[j] == old(acc)@[j],
            forall|j: int| i <= j < n ==> -bound@ <= #[trigger] acc@[j] <= bound@,
            forall|j: int|
                0 <= j < i ==> #[trigger] acc@[j] == spec_limited(
                    spec_compressed(old(acc)@[j] as int, *cfg),
                ),
            forall|j: int| 0 <= j < i ==> -32767 <= #[trigger] acc@[j] <= 32766,
            clipped == exists|j: int|
                0 <= j < i && spec_clips(spec_compressed(#[trigger] old(acc)@[j] as int, *cfg)),
        decreases n - i,
    {
        let y: i128 = acc[i];
        let cs: i128 = if cfg.compression_enabled {
            let a: u128 = if y >= 0 {
                y as u128
            } else {
                (-y) as u128
            };
            if a >= 22937 {
                let excess: u128 = a - 22937;
                proof {
                    assert((excess as int) * 1000 / (cfg.compression_ratio_milli as int)
                        <= excess as int) by (nonlinear_arith)
                        requires
                            cfg.compression_ratio_milli >= 1000,
                            excess <= 0x1000000000000000000000000u128,
                    ;
                    assert(excess * 1000 <= u128::MAX) by (nonlinear_arith)
                        requires
                            excess <= 0x1000000000000000000000000u128,
                    ;
                }
                let comp_mag: u128 = 22937 + excess * 1000 / (cfg.compression_ratio_milli
                    as u128);
                if y >= 0 {
                    comp_mag as i128
                } else {
                    -(comp_mag as i128)
                }
            } else {
                y
            }
        } else {
            y
        };
        proof {
            assert(cs == spec_compressed(y as int, *cfg));
        }
        let lim: i128 = if cs > 32766 {
            clipped = true;
            32766
        } else if cs < -32767 {
            clipped = true;
            -32767
        } else {
            cs
        };
        acc.set(i, lim);
        i = i + 1;
    }
    clipped
}

/// Sum of squares of every accumulator slot, for the RMS measurement.
fn sum_squares(acc: &Vec<i128>) -> (s: u128)
    requires
        forall|i: int| 0 <= i < acc@.len() ==> -32767 <= #[trigger] acc@[i] <= 32766,
    ensures
        s == spec_sum_squares(acc@, acc@.len() as int),
        s <= acc@.len() * 0x40000000,
{
    let n = acc.len();
    let mut s: u128 = 0;
    let mut i: usize = 0;
    while i < n
        invariant
            n == acc@.len(),
            i <= n,
            forall|j: int| 0 <= j < n ==> -32767 <= #[trigger] acc@[j] <= 32766,
            s == spec_sum_squares(acc@, i as int),
            s <= i * 0x40000000,
        decreases n - i,
    {
        let y: i128 = acc[i];
        let m: u128 = if y >= 0 {
            y as u128
        } else {
            (-y) as u128
        };
        proof {
            assert(m * m == (y as int) * (y as int) && m * m < 0x40000000) by (nonlinear_arith)
                requires
                    m == spec_abs(y as int),
                    -32767 <= y <= 32766,
            ;
            assert((i + 1) * 0x40000000 == i * 0x40000000 + 0x40000000) by (nonlinear_arith);
            assert(i * 0x40000000int <= 0xFFFF_FFFF_FFFF_FFFFint * 0x40000000int)
                by (nonlinear_arith)
                requires
                    0 <= i <= 0xFFFF_FFFF_FFFF_FFFFint,
            ;
        }
        let sq: u128 = m * m;
        s = s + sq;
        i = i + 1;
    }
    s
}

/// Scales every limited sample by the AGC gain, clamps strictly inside
/// the 16-bit range and encodes little-endian.
fn emit_mix(acc: &Vec<i128>, gain_milli: u64) -> (out: Vec<u8>)
    requires
        100 <= gain_milli <= 2000,
        forall|i: int| 0 <= i < acc@.len() ==> -32767 <= #[trigger] acc@[i] <= 32766,
    ensures
        out@.len() == 2 * acc@.len(),
        forall|i: int|
            0 <= i < acc@.len() ==> spec_sample_at(out@, i) == spec_emit(
                #[trigger] acc@[i] as int,
                gain_milli as int,
            ),
{
    let n = acc.len();
    let mut out: Vec<u8> = Vec::new();
    let mut i: usize = 0;
    while i < n
        invariant
            n == acc@.len(),
            i <= n,
            100 <= gain_milli <= 2000,
            forall|j: int| 0 <= j < n ==> -32767 <= #[trigger] acc@[j] <= 32766,
            out@.len() == 2 * i,
            forall|j: int|
                0 <= j < i ==> spec_sample_at(out@, j) == spec_emit(
                    #[trigger] acc@[j] as int,
                    gain_milli as int,
                ),
        decreases n - i,
    {
        let y: i64 = acc[i] as i64;
        let z: i64 = scale_i64(y, gain_milli as u32);
        let zc: i64 = if z > 32766 {
            32766
        } else if z < -32767 {
            -32767
        } else {
            z
        };
        let u: u16 = if zc >= 0 {
            zc as u16
        } else {
            (65536i64 + zc) as u16
        };
        let mut b = u16_to_le_bytes(u);
        let ghost out_pre = out@;
        out.append(&mut b);
        proof {
            lemma_auto_spec_u16_to_from_le_bytes();
            assert(out@.subrange(2 * i as int, 2 * i + 2) =~= spec_u16_to_le_bytes(u));
            assert(spec_sample_at(out@, i as int) == zc);
            assert forall|j: int|
                0 <= j < i + 1 implies spec_sample_at(out@, j) == spec_emit(
                #[trigger] acc@[j] as int,
                gain_milli as int,
            ) by {
                if j < i {
                    assert(out@.subrange(2 * j, 2 * j + 2) =~= out_pre.subrange(2 * j, 2 * j + 2));
                }
            }
        }
        i = i + 1;
    }
    out
}

/// Whether a packet can contribute to a mix: it carries audio and its
/// payload is not empty.
pub open spec fn spec_is_candidate(p: AudioPacket) -> bool {
    p.header.packet_type == PacketType::Audio && p.payload@.len() > 0
}

/// Point predicate form of `spec_is_candidate`, for filtering.
pub open spec fn spec_candidate_pred() -> spec_fn(AudioPacket) -> bool {
    |p: AudioPacket| spec_is_candidate(p)
}

/// Saturation into the 32-bit signed range.
pub open spec fn spec_sat_i32(x: int) -> int {
    if x > i32::MAX {
        i32::MAX as int
    } else if x < i32::MIN {
        i32::MIN as int
    } else {
        x
    }
}

/// Sample `i` of the plain mix: the saturating sum, over the candidate
/// packets whose payload reaches that far, of their samples there.
pub open spec fn spec_basic_acc(sel: Seq<AudioPacket>, i: int) -> int
    decreases sel.len(),
{
    if sel.len() == 0 {
        0
    } else {
        let rest = spec_basic_acc(sel.drop_last(), i);
        let p = sel.last();
        if i < p.payload@.len() / 2 {
            spec_sat_i32(rest + spec_sample_at(p.payload@, i))
        } else {
            rest
        }
    }
}

/// Largest magnitude of the plain mix over its first `n` positions.
pub open spec fn spec_basic_peak(sel: Seq<AudioPacket>, n: int) -> int
    decreases n,
{
    if n <= 0 {
        0
    } else {
        let rest = spec_basic_peak(sel, n - 1);
        let this = spec_abs(spec_basic_acc(sel, n - 1));
        if this > rest {
            this
        } else {
            rest
        }
    }
}

/// A plain mix sample after normalisation: scaled down into the 16-bit
/// range when the peak exceeds it, untouched otherwise.
pub open spec fn spec_basic_out(y: int, peak: int) -> int {
    if peak > 32767 {
        if y >= 0 {
            y * 32767 / peak
        } else {
            -((-y) * 32767 / peak)
        }
    } else {
        y
    }
}

/// The mixer state, its per-user controls and per-channel configurations.
pub struct AudioMixer {
    /// Controls per user and channel; absent entries mean the defaults.
    pub user_controls: PairTable<UserAudioControls>,
    /// Configuration per channel; absent entries mean the defaults.
    pub channel_configs: IdTable<ChannelMixConfig>,
    /// Result of the most recent mix per channel.
    pub stats: IdTable<MixingStats>,
    /// Nominal output sample rate in hertz.
    pub sample_rate: u32,
    /// Nominal output channel count.
    pub channels: u8,
}

impl AudioMixer {
    /// Tables are well formed and every stored control set and channel
    /// configuration has its gains in range.
    pub open spec fn wf(self) -> bool {
        &&& self.user_controls.wf()
        &&& self.channel_configs.wf()
        &&& self.stats.wf()
        &&& forall|i: int|
            0 <= i < self.user_controls.entries@.len() ==> (#[trigger] self.user_controls.entries@[i]).2.wf()
        &&& forall|i: int|
            0 <= i < self.channel_configs.entries@.len() ==> (#[trigger] self.channel_configs.entries@[i]).1.wf()
    }

    /// Controls of a user in a channel; defaults when none were set.
    pub open spec fn spec_controls_of(self, user_id: UserId, channel_id: ChannelId) -> UserAudioControls {
        match self.user_controls.spec_get(user_id, channel_id) {
            Some(c) => c,
            None => spec_default_controls(),
        }
    }

    /// Configuration of a channel; defaults when none was set.
    pub open spec fn spec_config_of(self, channel_id: ChannelId) -> ChannelMixConfig {
        match self.channel_configs.spec_get(channel_id) {
            Some(c) => c,
            None => spec_default_mix_config(),
        }
    }

    /// Every set of controls the mixer can report has its gains in range.
    pub proof fn lemma_controls_wf(self, user_id: UserId, channel_id: ChannelId)
        requires
            self.wf(),
        ensures
            self.spec_controls_of(user_id, channel_id).wf(),
    {
        if self.user_controls.spec_contains(user_id, channel_id) {
            let i = self.user_controls.spec_index_of(user_id, channel_id);
            assert(0 <= i < self.user_controls.entries@.len()
                && self.user_controls.entries@[i].0 == user_id);
        }
    }

    /// Every configuration the mixer can report has its gains in range.
    pub proof fn lemma_config_wf(self, channel_id: ChannelId)
        requires
            self.wf(),
        ensures
            self.spec_config_of(channel_id).wf(),
    {
        if self.channel_configs.spec_contains(channel_id) {
            let i = self.channel_configs.spec_index_of(channel_id);
            assert(0 <= i < self.channel_configs.entries@.len()
                && self.channel_configs.entries@[i].0 == channel_id);
        }
    }

    /// Creates a mixer with no controls or configurations set.
    pub fn new(sample_rate: u32, channels: u8) -> (m: AudioMixer)
        ensures
            m.wf(),
            m.sample_rate == sample_rate,
            m.channels == channels,
            forall|u: UserId, ch: ChannelId| m.spec_controls_of(u, ch) == spec_default_controls(),
            forall|ch: ChannelId| m.spec_config_of(ch) == spec_default_mix_config(),
            forall|ch: ChannelId| m.stats.spec_get(ch) is None,
            m.user_controls.entries@.len() == 0,
            m.channel_configs.entries@.len() == 0,
            m.stats.entries@.len() == 0,
    {
        AudioMixer {
            user_controls: PairTable::new(),
            channel_configs: IdTable::new(),
            stats: IdTable::new(),
            sample_rate,
            channels,
        }
    }

    /// Sets a user's controls in a channel, gains clamped into range.
    pub fn set_user_controls(
        &mut self,
        user_id: UserId,
        channel_id: ChannelId,
        controls: UserAudioControls,
    )
        requires
            old(self).wf(),
        ensures
            final(self).wf(),
            final(self).spec_controls_of(user_id, channel_id) == spec_clamped_controls(controls),
            forall|u: UserId, ch: ChannelId|
                !(u == user_id && ch == channel_id) ==> #[trigger] final(self).spec_controls_of(
                    u,
                    ch,
                ) == old(self).spec_controls_of(u, ch),
            final(self).channel_configs == old(self).channel_configs,
            final(self).stats == old(self).stats,
            final(self).sample_rate == old(self).sample_rate,
            final(self).channels == old(self).channels,
    {
        let clamped = UserAudioControls {
            volume_milli: if controls.volume_milli > MAX_GAIN_MILLI {
                MAX_GAIN_MILLI
            } else {
                controls.volume_milli
            },
            pan_milli: if controls.pan_milli > 1000 {
                1000
            } else if controls.pan_milli < -1000 {
                -1000
            } else {
                controls.pan_milli
            },
            noise_suppression_milli: if controls.noise_suppression_milli > 1000 {
                1000
            } else {
                controls.noise_suppression_milli
            },
            ..controls
        };
        self.user_controls.insert(user_id, channel_id, clamped);
        proof {
            lemma_controls_values_wf(old(self).user_controls, self.user_controls, user_id, channel_id, clamped);
        }
    }

    /// Reports a user's controls in a channel, defaults when none were set.
    pub fn get_user_controls(&self, user_id: UserId, channel_id: ChannelId) -> (c:
        UserAudioControls)
        requires
            self.wf(),
        ensures
            c == self.spec_controls_of(user_id, channel_id),
            c.wf(),
    {
        proof {
            self.lemma_controls_wf(user_id, channel_id);
        }
        match self.user_controls.get(user_id, channel_id) {
            Some(c) => *c,
            None => UserAudioControls::default(),
        }
    }

    /// Sets a channel's mixing configuration, gains clamped into range.
    pub fn set_channel_config(&mut self, channel_id: ChannelId, config: ChannelMixConfig)
        requires
            old(self).wf(),
        ensures
            final(self).wf(),
            final(self).spec_config_of(channel_id) == spec_clamped_mix_config(config),
            forall|ch: ChannelId|
                ch != channel_id ==> #[trigger] final(self).spec_config_of(ch) == old(
                    self,
                ).spec_config_of(ch),
            final(self).user_controls == old(self).user_controls,
            final(self).stats == old(self).stats,
            final(self).sample_rate == old(self).sample_rate,
            final(self).channels == old(self).channels,
    {
        let clamped = ChannelMixConfig {
            master_volume_milli: if config.master_volume_milli > MAX_GAIN_MILLI {
                MAX_GAIN_MILLI
            } else {
                config.master_volume_milli
            },
            compression_ratio_milli: if config.compression_ratio_milli < 1000 {
                1000
            } else {
                config.compression_ratio_milli
            },
            ..config
        };
        self.channel_configs.insert(channel_id, clamped);
        proof {
            lemma_config_values_wf(old(self).channel_configs, self.channel_configs, channel_id, clamped);
        }
    }

    /// Reports a channel's configuration, defaults when none was set.
    pub fn get_channel_config(&self, channel_id: ChannelId) -> (c: ChannelMixConfig)
        requires
            self.wf(),
        ensures
            c == self.spec_config_of(channel_id),
            c.wf(),
    {
        proof {
            self.lemma_config_wf(channel_id);
        }
        match self.channel_configs.get(channel_id) {
            Some(c) => *c,
            None => ChannelMixConfig::default(),
        }
    }

    /// Mutes or unmutes a user in a channel, keeping the other controls.
    pub fn set_user_muted(&mut self, user_id: UserId, channel_id: ChannelId, muted: bool)
        requires
            old(self).wf(),
        ensures
            final(self).wf(),
            final(self).spec_controls_of(user_id, channel_id) == (UserAudioControls {
                muted,
                ..old(self).spec_controls_of(user_id, channel_id)
            }),
            forall|u: UserId, ch: ChannelId|
                !(u == user_id && ch == channel_id) ==> #[trigger] final(self).spec_controls_of(
                    u,
                    ch,
                ) == old(self).spec_controls_of(u, ch),
            final(self).channel_configs == old(self).channel_configs,
            final(self).stats == old(self).stats,
            final(self).sample_rate == old(self).sample_rate,
            final(self).channels == old(self).channels,
    {
        let mut controls = self.get_user_controls(user_id, channel_id);
        controls.muted = muted;
        self.set_user_controls(user_id, channel_id, controls);
        proof {
            assert(spec_clamped_controls(controls) == controls);
        }
    }

    /// Sets or clears solo for a user in a channel, keeping the other
    /// controls.
    pub fn set_user_solo(&mut self, user_id: UserId, channel_id: ChannelId, solo: bool)
        requires
            old(self).wf(),
        ensures
            final(self).wf(),
            final(self).spec_controls_of(user_id, channel_id) == (UserAudioControls {
                solo,
                ..old(self).spec_controls_of(user_id, channel_id)
            }),
            forall|u: UserId, ch: ChannelId|
                !(u == user_id && ch == channel_id) ==> #[trigger] final(self).spec_controls_of(
                    u,
                    ch,
                ) == old(self).spec_controls_of(u, ch),
            final(self).channel_configs == old(self).channel_configs,
            final(self).stats == old(self).stats,
            final(self).sample_rate == old(self).sample_rate,
            final(self).channels == old(self).channels,
    {
        let mut controls = self.get_user_controls(user_id, channel_id);
        controls.solo = solo;
        self.set_user_controls(user_id, channel_id, controls);
        proof {
            assert(spec_clamped_controls(controls) == controls);
        }
    }

    /// Sets a user's volume in a channel, clamped to at most 200%.
    pub fn set_user_volume(&mut self, user_id: UserId, channel_id: ChannelId, volume_milli: u32)
        requires
            old(self).wf(),
        ensures
            final(self).wf(),
            final(self).spec_controls_of(user_id, channel_id) == (UserAudioControls {
                volume_milli: if volume_milli > MAX_GAIN_MILLI {
                    MAX_GAIN_MILLI
                } else {
                    volume_milli
                },
                ..old(self).spec_controls_of(user_id, channel_id)
            }),
            forall|u: UserId, ch: ChannelId|
                !(u == user_id && ch == channel_id) ==> #[trigger] final(self).spec_controls_of(
                    u,
                    ch,
                ) == old(self).spec_controls_of(u, ch),
            final(self).channel_configs == old(self).channel_configs,
            final(self).stats == old(self).stats,
            final(self).sample_rate == old(self).sample_rate,
            final(self).channels == old(self).channels,
    {
        let mut controls = self.get_user_controls(user_id, channel_id);
        controls.volume_milli = if volume_milli > MAX_GAIN_MILLI {
            MAX_GAIN_MILLI
        } else {
            volume_milli
        };
        self.set_user_controls(user_id, channel_id, controls);
        proof {
            assert(spec_clamped_controls(controls) == controls);
        }
    }

    /// Sets a user's stereo position in a channel, clamped to [-1000, 1000].
    pub fn set_user_pan(&mut self, user_id: UserId, channel_id: ChannelId, pan_milli: i32)
        requires
            old(self).wf(),
        ensures
            final(self).wf(),
            final(self).spec_controls_of(user_id, channel_id) == (UserAudioControls {
                pan_milli: if pan_milli > 1000 {
                    1000
                } else if pan_milli < -1000 {
                    -1000i32
                } else {
                    pan_milli
                },
                ..old(self).spec_controls_of(user_id, channel_id)
            }),
            forall|u: UserId, ch: ChannelId|
                !(u == user_id && ch == channel_id) ==> #[trigger] final(self).spec_controls_of(
                    u,
                    ch,
                ) == old(self).spec_controls_of(u, ch),
            final(self).channel_configs == old(self).channel_configs,
            final(self).stats == old(self).stats,
            final(self).sample_rate == old(self).sample_rate,
            final(self).channels == old(self).channels,
    {
        let mut controls = self.get_user_controls(user_id, channel_id);
        controls.pan_milli = if pan_milli > 1000 {
            1000
        } else if pan_milli < -1000 {
            -1000
        } else {
            pan_milli
        };
        self.set_user_controls(user_id, channel_id, controls);
        proof {
            assert(spec_clamped_controls(controls) == controls);
        }
    }

    /// Forgets a user's controls in a channel: the defaults apply again.
    pub fn remove_user(&mut self, user_id: UserId, channel_id: ChannelId)
        requires
            old(self).wf(),
        ensures
            final(self).wf(),
            final(self).spec_controls_of(user_id, channel_id) == spec_default_controls(),
            forall|u: UserId, ch: ChannelId|
                !(u == user_id && ch == channel_id) ==> #[trigger] final(self).spec_controls_of(
                    u,
                    ch,
                ) == old(self).spec_controls_of(u, ch),
            final(self).channel_configs == old(self).channel_configs,
            final(self).stats == old(self).stats,
    {
        let removed = self.user_controls.remove(user_id, channel_id);
        proof {
            assert forall|i: int|
                0 <= i < self.user_controls.entries@.len() implies (
            #[trigger] self.user_controls.entries@[i]).2.wf() by {
                self.user_controls.lemma_at(i);
                let a = self.user_controls.entries@[i].0;
                let b = self.user_controls.entries@[i].1;
                assert(old(self).user_controls.spec_get(a, b) == Some(
                    self.user_controls.entries@[i].2,
                ));
                let j = old(self).user_controls.spec_index_of(a, b);
            }
        }
    }

    /// Forgets every user's controls in a channel.
    pub fn reset_channel_users(&mut self, channel_id: ChannelId)
        requires
            old(self).wf(),
        ensures
            final(self).wf(),
            final(self).user_controls.entries@ == old(self).user_controls.entries@.filter(
                crate::table::spec_right_ne::<UserAudioControls>(channel_id),
            ),
            final(self).channel_configs == old(self).channel_configs,
            final(self).stats == old(self).stats,
    {
        self.user_controls.remove_right(channel_id);
        proof {
            let pred = crate::table::spec_right_ne::<UserAudioControls>(channel_id);
            assert forall|i: int|
                0 <= i < self.user_controls.entries@.len() implies (
            #[trigger] self.user_controls.entries@[i]).2.wf() by {
                old(self).user_controls.entries@.lemma_filter_contains_rev(
                    pred,
                    self.user_controls.entries@[i],
                );
                assert(self.user_controls.entries@.contains(self.user_controls.entries@[i]));
                let j = choose|j: int|
                    0 <= j < old(self).user_controls.entries@.len() && old(
                        self,
                    ).user_controls.entries@[j] == self.user_controls.entries@[i];
            }
        }
    }

    /// Summarises the mixer: tracked control entries, configured
    /// channels and the output format.
    pub fn global_stats(&self) -> (g: MixerGlobalStats)
        ensures
            g.total_users == self.user_controls.entries@.len(),
            g.active_channels == self.channel_configs.entries@.len(),
            g.sample_rate == self.sample_rate,
            g.channels == self.channels,
    {
        MixerGlobalStats {
            total_users: self.user_controls.len(),
            active_channels: self.channel_configs.len(),
            sample_rate: self.sample_rate,
            channels: self.channels,
            buffer_size: 0,
        }
    }

    /// Reports the most recent mixing statistics of a channel.
    pub fn get_stats(&self, channel_id: ChannelId) -> (r: Option<MixingStats>)
        requires
            self.wf(),
        ensures
            r == self.stats.spec_get(channel_id),
    {
        match self.stats.get(channel_id) {
            Some(s) => Some(*s),
            None => None,
        }
    }
}

/// Whether any candidate contributor in the batch has solo set.
pub open spec fn spec_has_solo(m: AudioMixer, packets: Seq<AudioPacket>, channel_id: ChannelId) -> bool {
    exists|i: int|
        0 <= i < packets.len() && spec_is_candidate(#[trigger] packets[i]) && m.spec_controls_of(
            packets[i].header.user_id,
            channel_id,
        ).solo
}

/// Point predicate of contributor selection: a packet is mixed iff it is
/// a candidate, its sender is not muted, and, when any contributor is
/// solo, its sender is solo.
pub open spec fn spec_elig_at(m: AudioMixer, channel_id: ChannelId, has_solo: bool) -> spec_fn(
    AudioPacket,
) -> bool {
    |p: AudioPacket|
        spec_is_candidate(p) && !m.spec_controls_of(p.header.user_id, channel_id).muted && (
        has_solo ==> m.spec_controls_of(p.header.user_id, channel_id).solo)
}

/// The contributors of a mix: the eligible packets in arrival order,
/// capped at the channel's voice limit.
pub open spec fn spec_selected(
    packets: Seq<AudioPacket>,
    pred: spec_fn(AudioPacket) -> bool,
    cap: nat,
) -> Seq<AudioPacket> {
    let f = packets.filter(pred);
    if f.len() <= cap {
        f
    } else {
        f.take(cap as int)
    }
}

/// Mute/solo precedence: no muted sender is ever mixed, and when any
/// contributor is solo only solo senders are mixed, a muted solo sender
/// still excluded.
pub proof fn lemma_mute_solo_precedence(
    m: AudioMixer,
    packets: Seq<AudioPacket>,
    channel_id: ChannelId,
    cap: nat,
)
    ensures
        ({
            let has_solo = spec_has_solo(m, packets, channel_id);
            let sel = spec_selected(packets, spec_elig_at(m, channel_id, has_solo), cap);
            &&& forall|v: int|
                0 <= v < sel.len() ==> !m.spec_controls_of(
                    (#[trigger] sel[v]).header.user_id,
                    channel_id,
                ).muted
            &&& has_solo ==> forall|v: int|
                0 <= v < sel.len() ==> m.spec_controls_of(
                    (#[trigger] sel[v]).header.user_id,
                    channel_id,
                ).solo
        }),
{
    let has_solo = spec_has_solo(m, packets, channel_id);
    let pred = spec_elig_at(m, channel_id, has_solo);
    let f = packets.filter(pred);
    let sel = spec_selected(packets, pred, cap);
    assert forall|v: int|
        0 <= v < sel.len() implies !m.spec_controls_of(
        (#[trigger] sel[v]).header.user_id,
        channel_id,
    ).muted && (has_solo ==> m.spec_controls_of(sel[v].header.user_id, channel_id).solo) by {
        assert(sel[v] == f[v]);
        packets.lemma_filter_pred(pred, v);
    }
}

/// Minimum sample count across contributors: each payload holds two
/// bytes per sample and the shortest sets the mix length.
pub open spec fn spec_min_samples(s: Seq<AudioPacket>) -> nat
    decreases s.len(),
{
    if s.len() == 0 {
        0
    } else if s.len() == 1 {
        s[0].payload@.len() / 2
    } else {
        let rest = spec_min_samples(s.drop_last());
        let this = s.last().payload@.len() / 2;
        if this < rest {
            this
        } else {
            rest
        }
    }
}

/// The minimum sample count fits within every contributor's payload.
pub proof fn lemma_min_samples_le(s: Seq<AudioPacket>, k: int)
    requires
        0 <= k < s.len(),
    ensures
        2 * spec_min_samples(s) <= s[k].payload@.len(),
    decreases s.len(),
{
    if s.len() > 1 {
        if k < s.len() - 1 {
            lemma_min_samples_le(s.drop_last(), k);
        }
    }
}

/// The mix accumulator value at position `i` after compression and
/// limiting.
pub open spec fn spec_limited_mix(
    voices: Seq<(AudioPacket, UserAudioControls)>,
    cfg: ChannelMixConfig,
    i: int,
) -> int {
    spec_limited(spec_compressed(spec_mix_acc(voices, cfg, i), cfg))
}

/// Sum of squares of the limited mix over its first `n` positions.
pub open spec fn spec_mix_energy(
    voices: Seq<(AudioPacket, UserAudioControls)>,
    cfg: ChannelMixConfig,
    n: int,
) -> int
    decreases n,
{
    if n <= 0 {
        0
    } else {
        spec_mix_energy(voices, cfg, n - 1) + spec_limited_mix(voices, cfg, n - 1)
            * spec_limited_mix(voices, cfg, n - 1)
    }
}

/// Largest magnitude of the limited mix over its first `n` positions.
pub open spec fn spec_mix_peak(
    voices: Seq<(AudioPacket, UserAudioControls)>,
    cfg: ChannelMixConfig,
    n: int,
) -> int
    decreases n,
{
    if n <= 0 {
        0
    } else {
        let rest = spec_mix_peak(voices, cfg, n - 1);
        let this = spec_abs(spec_limited_mix(voices, cfg, n - 1));
        if this > rest {
            this
        } else {
            rest
        }
    }
}

/// A sequence that equals the limited mix pointwise has the same energy.
proof fn lemma_energy_eq(
    s: Seq<i128>,
    voices: Seq<(AudioPacket, UserAudioControls)>,
    cfg: ChannelMixConfig,
    n: int,
)
    requires
        0 <= n <= s.len(),
        forall|i: int| 0 <= i < n ==> #[trigger] s[i] as int == spec_limited_mix(voices, cfg, i),
    ensures
        spec_sum_squares(s, n) == spec_mix_energy(voices, cfg, n),
    decreases n,
{
    if n > 0 {
        lemma_energy_eq(s, voices, cfg, n - 1);
    }
}

/// A sequence that equals the limited mix pointwise has the same peak.
proof fn lemma_peak_eq(
    s: Seq<i128>,
    voices: Seq<(AudioPacket, UserAudioControls)>,
    cfg: ChannelMixConfig,
    n: int,
)
    requires
        0 <= n <= s.len(),
        forall|i: int| 0 <= i < n ==> #[trigger] s[i] as int == spec_limited_mix(voices, cfg, i),
    ensures
        spec_max_abs(s, n) == spec_mix_peak(voices, cfg, n),
    decreases n,
{
    if n > 0 {
        lemma_peak_eq(s, voices, cfg, n - 1);
    }
}

/// Largest magnitude among the first `n` slots of a sequence.
pub open spec fn spec_max_abs(s: Seq<i128>, n: int) -> int
    decreases n,
{
    if n <= 0 {
        0
    } else {
        let rest = spec_max_abs(s, n - 1);
        let this = spec_abs(s[n - 1] as int);
        if this > rest {
            this
        } else {
            rest
        }
    }
}

/// Computes the largest magnitude among bounded accumulator slots.
fn max_abs(acc: &Vec<i128>) -> (m: u32)
    requires
        forall|i: int| 0 <= i < acc@.len() ==> -32767 <= #[trigger] acc@[i] <= 32766,
    ensures
        m == spec_max_abs(acc@, acc@.len() as int),
{
    let n = acc.len();
    let mut m: u32 = 0;
    let mut i: usize = 0;
    while i < n
        invariant
            n == acc@.len(),
            i <= n,
            forall|j: int| 0 <= j < n ==> -32767 <= #[trigger] acc@[j] <= 32766,
            m == spec_max_abs(acc@, i as int),
            m <= 32767,
        decreases n - i,
    {
        let y = acc[i];
        let a: u32 = if y >= 0 {
            y as u32
        } else {
            (-y) as u32
        };
        if a > m {
            m = a;
        }
        i = i + 1;
    }
    m
}

impl AudioMixer {
    /// Whether any candidate packet of the batch comes from a solo sender.
    fn has_solo_contributor(&self, packets: &Vec<AudioPacket>, channel_id: ChannelId) -> (r: bool)
        requires
            self.wf(),
        ensures
            r == spec_has_solo(*self, packets@, channel_id),
    {
        let n = packets.len();
        let mut i: usize = 0;
        while i < n
            invariant
                self.wf(),
                n == packets@.len(),
                i <= n,
                forall|j: int|
                    0 <= j < i ==> !(spec_is_candidate(#[trigger] packets@[j])
                        && self.spec_controls_of(packets@[j].header.user_id, channel_id).solo),
            decreases n - i,
        {
            let p = &packets[i];
            if p.has_audio() && p.payload.len() > 0 {
                let c = self.get_user_controls(p.header.user_id, channel_id);
                if c.solo {
                    return true;
                }
            }
            i = i + 1;
        }
        false
    }

    /// Keeps the eligible contributors in arrival order, up to the voice
    /// cap: audio packets with data whose senders are not muted and, when
    /// any contributor is solo, are solo.
    fn select_contributors(
        &self,
        packets: Vec<AudioPacket>,
        channel_id: ChannelId,
        has_solo: bool,
        cap: usize,
    ) -> (sel: Vec<AudioPacket>)
        requires
            self.wf(),
        ensures
            sel@ == spec_selected(packets@, spec_elig_at(*self, channel_id, has_solo), cap as nat),
            sel@.len() <= cap,
    {
        let ghost pred = spec_elig_at(*self, channel_id, has_solo);
        let ghost ps0 = packets@;
        let mut rest = packets;
        let n = rest.len();
        let mut sel: Vec<AudioPacket> = Vec::new();
        let mut j: usize = 0;
        proof {
            assert(ps0.take(0).filter(pred) =~= Seq::<AudioPacket>::empty());
            assert(rest@ =~= ps0.skip(0));
        }
        while j < n && sel.len() < cap
            invariant
                self.wf(),
                pred == spec_elig_at(*self, channel_id, has_solo),
                ps0.len() == n,
                j <= n,
                rest@ == ps0.skip(j as int),
                sel@ == ps0.take(j as int).filter(pred),
                sel@.len() <= cap,
            decreases n - j,
        {
            let p = rest.remove(0);
            let keep = if p.has_audio() && p.payload.len() > 0 {
                let c = self.get_user_controls(p.header.user_id, channel_id);
                !c.muted && (!has_solo || c.solo)
            } else {
                false
            };
            proof {
                assert(keep == pred(ps0[j as int]));
            }
            if keep {
                sel.push(p);
            }
            proof {
                ps0.take(j as int).lemma_filter_push(ps0[j as int], pred);
                assert(ps0.take(j + 1) =~= ps0.take(j as int).push(ps0[j as int]));
                assert(rest@ =~= ps0.skip(j + 1));
            }
            j = j + 1;
        }
        proof {
            let f = ps0.filter(pred);
            if j == n {
                assert(ps0.take(n as int) =~= ps0);
                assert(sel@ == f);
                assert(f.len() <= cap);
            } else {
                assert(sel@.len() == cap);
                assert(ps0.take(j as int) + ps0.skip(j as int) =~= ps0);
                Seq::filter_distributes_over_add(ps0.take(j as int), ps0.skip(j as int), pred);
                assert(f == sel@ + ps0.skip(j as int).filter(pred));
                assert(f.len() >= cap);
                assert(f.take(cap as int) =~= sel@);
            }
        }
        sel
    }

    /// Mixes a batch of packets for a channel. Contributors are filtered
    /// by mute, solo and the voice cap; the shortest payload sets the mix
    /// length; each voice passes the per-voice chain; the sum passes the
    /// compressor and the limiter; automatic gain control tracks the
    /// measured RMS; every output sample stays strictly inside the
    /// 16-bit range. Returns nothing when no contributor survives, and
    /// records per-channel statistics of a successful mix.
    pub fn mix_packets_advanced(
        &mut self,
        packets: Vec<AudioPacket>,
        channel_id: ChannelId,
    ) -> (r: Option<Vec<u8>>)
        requires
            old(self).wf(),
        ensures
            final(self).wf(),
            final(self).user_controls == old(self).user_controls,
            final(self).channel_configs == old(self).channel_configs,
            final(self).sample_rate == old(self).sample_rate,
            final(self).channels == old(self).channels,
            forall|ch: ChannelId|
                ch != channel_id ==> #[trigger] final(self).stats.spec_get(ch) == old(
                    self,
                ).stats.spec_get(ch),
            ({
                let cfg = old(self).spec_config_of(channel_id);
                let has_solo = spec_has_solo(*old(self), packets@, channel_id);
                let sel = spec_selected(
                    packets@,
                    spec_elig_at(*old(self), channel_id, has_solo),
                    cfg.max_concurrent_voices as nat,
                );
                let count = spec_min_samples(sel);
                let voices = Seq::new(
                    sel.len(),
                    |v: int|
                        (
                            sel[v],
                            old(self).spec_controls_of(sel[v].header.user_id, channel_id),
                        ),
                );
                &&& (r is Some <==> sel.len() > 0 && count > 0)
                &&& (r is None ==> final(self).stats == old(self).stats)
                &&& (r matches Some(out) ==> {
                    &&& out@.len() == 2 * count
                    &&& exists|st: MixingStats|
                        {
                            &&& #[trigger] final(self).stats.spec_get(channel_id) == Some(st)
                            &&& st.active_voices == sel.len()
                            &&& st.clipping_detected == exists|i: int|
                                0 <= i < count && spec_clips(
                                    spec_compressed(
                                        spec_mix_acc(voices, cfg, i),
                                        cfg,
                                    ),
                                )
                            &&& st.peak_level == spec_mix_peak(voices, cfg, count as int)
                            &&& spec_is_sqrt_floor(
                                st.rms_level as u128,
                                (spec_mix_energy(voices, cfg, count as int) / count as int)
                                    as u128,
                            )
                            &&& st.total_samples_processed as int == if sel.len() * count
                                <= u64::MAX {
                                (sel.len() * count) as int
                            } else {
                                u64::MAX as int
                            }
                            &&& forall|i: int|
                                0 <= i < count ==> spec_sample_at(out@, i) == spec_emit(
                                    spec_limited_mix(voices, cfg, i),
                                    spec_agc_gain(cfg, st.rms_level as int),
                                )
                        }
                })
            }),
            r matches Some(out) ==> forall|i: int|
                0 <= i < out@.len() / 2 ==> -32767 <= #[trigger] spec_sample_at(out@, i) <= 32766,
    {
        let cfg = self.get_channel_config(channel_id);
        let has_solo = self.has_solo_contributor(&packets, channel_id);
        let sel = self.select_contributors(packets, channel_id, has_solo, cfg.max_concurrent_voices);
        let ghost voices = Seq::new(
            sel@.len(),
            |v: int| (sel@[v], self.spec_controls_of(sel@[v].header.user_id, channel_id)),
        );
        if sel.len() == 0 {
            return None;
        }
        let count = min_sample_count(&sel);
        if count == 0 {
            return None;
        }
        let mut acc: Vec<i128> = vec_zeros(count);
        let voices_n = sel.len();
        proof {
            assert forall|i: int| 0 <= i < count implies #[trigger] acc@[i] == spec_mix_acc(
                voices.take(0),
                cfg,
                i,
            ) by {
                assert(voices.take(0).len() == 0);
            }
            assert(0 * VOICE_PEAK == 0) by (nonlinear_arith);
        }
        let mut v: usize = 0;
        while v < voices_n
            invariant
                self == old(self),
                self.wf(),
                cfg == self.spec_config_of(channel_id),
                cfg.wf(),
                voices_n == sel@.len(),
                v <= voices_n,
                voices == Seq::new(
                    sel@.len(),
                    |k: int| (sel@[k], self.spec_controls_of(sel@[k].header.user_id, channel_id)),
                ),
                acc@.len() == count,
                count == spec_min_samples(sel@),
                forall|k: int| 0 <= k < sel@.len() ==> 2 * count <= (#[trigger] sel@[k]).payload@.len(),
                forall|i: int|
                    0 <= i < count ==> #[trigger] acc@[i] == spec_mix_acc(
                        voices.take(v as int),
                        cfg,
                        i,
                    ),
                forall|i: int|
                    0 <= i < count ==> -(v * VOICE_PEAK) <= #[trigger] acc@[i] <= v * VOICE_PEAK,
            decreases voices_n - v,
        {
            let p = &sel[v];
            let c = self.get_user_controls(p.header.user_id, channel_id);
            proof {
                assert((v as int) * VOICE_PEAK + VOICE_PEAK == (v + 1) as int * VOICE_PEAK)
                    by (nonlinear_arith);
                assert((v as int) * VOICE_PEAK <= 0xFFFF_FFFF_FFFF_FFFFint * VOICE_PEAK)
                    by (nonlinear_arith)
                    requires
                        0 <= v <= 0xFFFF_FFFF_FFFF_FFFFint,
                ;
            }
            accumulate_voice(&mut acc, &p.payload, &c, &cfg, Ghost((v as int) * VOICE_PEAK));
            proof {
                assert(voices.take(v + 1).drop_last() =~= voices.take(v as int));
                assert(voices.take(v + 1).last() == voices[v as int]);
                assert forall|i: int| 0 <= i < count implies #[trigger] acc@[i] == spec_mix_acc(
                    voices.take(v + 1),
                    cfg,
                    i,
                ) by {
                    assert(acc@[i] == spec_mix_acc(voices.take(v as int), cfg, i)
                        + spec_process_sample(spec_sample_at(sel@[v as int].payload@, i), c, cfg));
                }
            }
            v = v + 1;
        }
        proof {
            assert(voices.take(voices_n as int) =~= voices);
            assert((voices_n as int) * VOICE_PEAK <= 0x1000000000000000000000000int)
                by (nonlinear_arith)
                requires
                    0 <= voices_n <= 0xFFFF_FFFF_FFFF_FFFFint,
            ;
        }
        let ghost acc_pre = acc@;
        let clipped = compress_limit(&mut acc, &cfg, Ghost((voices_n as int) * VOICE_PEAK));
        let peak = max_abs(&acc);
        let energy = sum_squares(&acc);
        let mean: u128 = energy / (count as u128);
        let rms_wide = isqrt_u128(mean);
        proof {
            assert(mean <= 0x40000000) by (nonlinear_arith)
                requires
                    energy <= (count as int) * 0x40000000,
                    count >= 1,
                    mean == energy as int / count as int,
            ;
            assert(rms_wide <= 0x10000) by (nonlinear_arith)
                requires
                    (rms_wide as int) * (rms_wide as int) <= 0x40000000int,
            ;
        }
        let rms: u64 = rms_wide as u64;
        let gain: u64 = if cfg.auto_gain_control && rms > 0 {
            let g = 9_830_000u64 / rms;
            if g < 100 {
                100
            } else if g > 2000 {
                2000
            } else {
                g
            }
        } else {
            1000
        };
        let out = emit_mix(&acc, gain);
        proof {
            assert((voices_n as int) * (count as int) <= 0xFFFF_FFFF_FFFF_FFFFint
                * 0xFFFF_FFFF_FFFF_FFFFint) by (nonlinear_arith)
                requires
                    0 <= voices_n <= 0xFFFF_FFFF_FFFF_FFFFint,
                    0 <= count <= 0xFFFF_FFFF_FFFF_FFFFint,
            ;
        }
        let wide_total: u128 = (voices_n as u128) * (count as u128);
        let total_samples: u64 = if wide_total > u64::MAX as u128 {
            u64::MAX
        } else {
            wide_total as u64
        };
        let st = MixingStats {
            active_voices: voices_n,
            total_samples_processed: total_samples,
            peak_level: peak,
            rms_level: rms,
            clipping_detected: clipped,
            processing_time_us: 0,
        };
        proof {
            lemma_energy_eq(acc@, voices, cfg, count as int);
            lemma_peak_eq(acc@, voices, cfg, count as int);
            let voices2 = Seq::new(
                sel@.len(),
                |k: int|
                    (sel@[k], old(self).spec_controls_of(sel@[k].header.user_id, channel_id)),
            );
            assert(voices =~= voices2);
            assert(clipped == (exists|i: int|
                0 <= i < count && spec_clips(
                    spec_compressed(spec_mix_acc(voices, cfg, i), cfg),
                ))) by {
                if clipped {
                    let w = choose|i: int|
                        0 <= i < acc_pre.len() && spec_clips(
                            spec_compressed(#[trigger] acc_pre[i] as int, cfg),
                        );
                    assert(acc_pre[w] as int == spec_mix_acc(voices, cfg, w));
                    assert(0 <= w < count && spec_clips(
                        spec_compressed(spec_mix_acc(voices, cfg, w), cfg),
                    ));
                } else {
                    if exists|i: int|
                        0 <= i < count && spec_clips(
                            spec_compressed(spec_mix_acc(voices, cfg, i), cfg),
                        ) {
                        let w = choose|i: int|
                            0 <= i < count && spec_clips(
                                spec_compressed(spec_mix_acc(voices, cfg, i), cfg),
                            );
                        assert(acc_pre[w] as int == spec_mix_acc(voices, cfg, w));
                        assert(spec_clips(spec_compressed(acc_pre[w] as int, cfg)));
                    }
                }
            }
        }
        proof {
            assert(gain == spec_agc_gain(cfg, rms as int));
            assert forall|i: int| 0 <= i < count implies #[trigger] spec_sample_at(out@, i)
                == spec_emit(
                spec_limited_mix(voices, cfg, i),
                spec_agc_gain(cfg, rms as int),
            ) by {
                assert(acc_pre[i] as int == spec_mix_acc(voices, cfg, i));
                assert(acc@[i] as int == spec_limited_mix(voices, cfg, i));
                assert(spec_sample_at(out@, i) == spec_emit(acc@[i] as int, gain as int));
            }
            assert forall|i: int| 0 <= i < count implies -32767 <= #[trigger] spec_sample_at(
                out@,
                i,
            ) <= 32766 by {
                assert(spec_sample_at(out@, i) == spec_emit(acc@[i] as int, gain as int));
            }
            assert(st.peak_level == spec_mix_peak(voices, cfg, count as int));
            assert(spec_mix_energy(voices, cfg, count as int) == energy as int);
            assert(mean == spec_mix_energy(voices, cfg, count as int) / count as int);
            assert(spec_is_sqrt_floor(
                st.rms_level as u128,
                (spec_mix_energy(voices, cfg, count as int) / count as int) as u128,
            ));
            assert(st.total_samples_processed as int == if (voices_n as int) * (count as int)
                <= u64::MAX {
                (voices_n as int) * (count as int)
            } else {
                u64::MAX as int
            });
        }
        self.stats.insert(channel_id, st);
        Some(out)
    }
}

/// Mix length of the contributors: the shortest payload's sample count.
fn min_sample_count(sel: &Vec<AudioPacket>) -> (count: usize)
    requires
        sel@.len() > 0,
    ensures
        count == spec_min_samples(sel@),
        forall|k: int| 0 <= k < sel@.len() ==> 2 * count <= (#[trigger] sel@[k]).payload@.len(),
{
    let n = sel.len();
    let mut count: usize = sel[0].payload.len() / 2;
    proof {
        assert(sel@.take(1).drop_last() =~= sel@.take(0));
        assert(count == spec_min_samples(sel@.take(1)));
    }
    let mut j: usize = 1;
    while j < n
        invariant
            n == sel@.len(),
            1 <= j <= n,
            count == spec_min_samples(sel@.take(j as int)),
        decreases n - j,
    {
        let this = sel[j].payload.len() / 2;
        proof {
            assert(sel@.take(j + 1).drop_last() =~= sel@.take(j as int));
            assert(sel@.take(j + 1).last() == sel@[j as int]);
        }
        if this < count {
            count = this;
        }
        j = j + 1;
    }
    proof {
        assert(sel@.take(n as int) =~= sel@);
        assert forall|k: int| 0 <= k < sel@.len() implies 2 * count <= (
        #[trigger] sel@[k]).payload@.len() by {
            lemma_min_samples_le(sel@, k);
        }
    }
    count
}

/// A zeroed accumulator of the given length.
fn vec_zeros(n: usize) -> (v: Vec<i128>)
    ensures
        v@.len() == n,
        forall|i: int| 0 <= i < n ==> #[trigger] v@[i] == 0,
{
    let mut v: Vec<i128> = Vec::new();
    let mut i: usize = 0;
    while i < n
        invariant
            i <= n,
            v@.len() == i,
            forall|j: int| 0 <= j < i ==> #[trigger] v@[j] == 0,
        decreases n - i,
    {
        v.push(0);
        i = i + 1;
    }
    v
}

/// Summary of the mixer's footprint.
#[derive(Debug, Clone, Copy, PartialEq, Eq, Structural)]
pub struct MixerGlobalStats {
    /// Users with stored controls.
    pub total_users: usize,
    /// Channels with a stored configuration.
    pub active_channels: usize,
    /// Nominal output sample rate in hertz.
    pub sample_rate: u32,
    /// Nominal output channel count.
    pub channels: u8,
    /// Size of a retained scratch buffer; the mixer allocates per call.
    pub buffer_size: usize,
}

/// Direction of a volume fade.
#[derive(Debug, Clone, Copy, PartialEq, Eq, Structural)]
pub enum FadeType {
    /// Rising from silence.
    In,
    /// Falling to silence.
    Out,
}

/// Keeps the candidate packets (audio with data), in arrival order.
fn filter_candidates(packets: Vec<AudioPacket>) -> (sel: Vec<AudioPacket>)
    ensures
        sel@ == packets@.filter(spec_candidate_pred()),
{
    let ghost pred = spec_candidate_pred();
    let ghost ps0 = packets@;
    let mut rest = packets;
    let n = rest.len();
    let mut sel: Vec<AudioPacket> = Vec::new();
    let mut j: usize = 0;
    proof {
        assert(ps0.take(0).filter(pred) =~= Seq::<AudioPacket>::empty());
        assert(rest@ =~= ps0.skip(0));
    }
    while j < n
        invariant
            pred == spec_candidate_pred(),
            ps0.len() == n,
            j <= n,
            rest@ == ps0.skip(j as int),
            sel@ == ps0.take(j as int).filter(pred),
        decreases n - j,
    {
        let p = rest.remove(0);
        let keep = p.has_audio() && p.payload.len() > 0;
        proof {
            assert(keep == pred(ps0[j as int]));
        }
        if keep {
            sel.push(p);
        }
        proof {
            ps0.take(j as int).lemma_filter_push(ps0[j as int], pred);
            assert(ps0.take(j + 1) =~= ps0.take(j as int).push(ps0[j as int]));
            assert(rest@ =~= ps0.skip(j + 1));
        }
        j = j + 1;
    }
    proof {
        assert(ps0.take(n as int) =~= ps0);
    }
    sel
}

/// Largest magnitude among the first `n` slots of a 32-bit sequence.
pub open spec fn spec_max_abs_i32(s: Seq<i32>, n: int) -> int
    decreases n,
{
    if n <= 0 {
        0
    } else {
        let rest = spec_max_abs_i32(s, n - 1);
        let this = spec_abs(s[n - 1] as int);
        if this > rest {
            this
        } else {
            rest
        }
    }
}

/// Every slot's magnitude is bounded by the running maximum.
proof fn lemma_max_abs_i32_bound(s: Seq<i32>, n: int, k: int)
    requires
        0 <= k < n <= s.len(),
    ensures
        spec_abs(s[k] as int) <= spec_max_abs_i32(s, n),
    decreases n,
{
    if k < n - 1 {
        lemma_max_abs_i32_bound(s, n - 1, k);
    }
}

/// A sequence equal to the plain mix pointwise has the same peak.
proof fn lemma_basic_peak_eq(s: Seq<i32>, sel: Seq<AudioPacket>, n: int)
    requires
        0 <= n <= s.len(),
        forall|i: int| 0 <= i < n ==> #[trigger] s[i] as int == spec_basic_acc(sel, i),
    ensures
        spec_max_abs_i32(s, n) == spec_basic_peak(sel, n),
    decreases n,
{
    if n > 0 {
        lemma_basic_peak_eq(s, sel, n - 1);
    }
}

impl AudioMixer {
    /// Plain mixing path: the candidate packets are summed with 32-bit
    /// saturation over the first packet's sample count, and the mix is
    /// normalised into the 16-bit range when its peak exceeds it.
    /// Returns nothing when no candidate with samples exists.
    pub fn mix_packets(&self, packets: Vec<AudioPacket>) -> (r: Option<Vec<u8>>)
        ensures
            ({
                let sel = packets@.filter(spec_candidate_pred());
                let count = if sel.len() == 0 {
                    0int
                } else {
                    (sel[0].payload@.len() / 2) as int
                };
                &&& (r is Some <==> sel.len() > 0 && count > 0)
                &&& (r matches Some(out) ==> {
                    let peak = spec_basic_peak(sel, count);
                    &&& out@.len() == 2 * count
                    &&& forall|i: int|
                        0 <= i < count ==> #[trigger] spec_sample_at(out@, i) == spec_basic_out(
                            spec_basic_acc(sel, i),
                            peak,
                        )
                })
            }),
    {
        let sel = filter_candidates(packets);
        if sel.len() == 0 {
            return None;
        }
        let count = sel[0].payload.len() / 2;
        if count == 0 {
            return None;
        }
        let mut acc: Vec<i32> = vec_zeros_i32(count);
        proof {
            assert forall|i: int| 0 <= i < count implies #[trigger] acc@[i] as int
                == spec_basic_acc(sel@.take(0), i) by {
                assert(sel@.take(0).len() == 0);
            }
        }
        let voices_n = sel.len();
        let mut v: usize = 0;
        while v < voices_n
            invariant
                voices_n == sel@.len(),
                v <= voices_n,
                acc@.len() == count,
                count == sel@[0].payload@.len() / 2,
                forall|i: int|
                    0 <= i < count ==> #[trigger] acc@[i] as int == spec_basic_acc(
                        sel@.take(v as int),
                        i,
                    ),
            decreases voices_n - v,
        {
            let payload_len = sel[v].payload.len();
            let this_count = payload_len / 2;
            let m = if this_count < count {
                this_count
            } else {
                count
            };
            let ghost acc_pre = acc@;
            let mut i: usize = 0;
            while i < m
                invariant
                    voices_n == sel@.len(),
                    v < voices_n,
                    acc@.len() == count,
                    m <= count,
                    m <= sel@[v as int].payload@.len() / 2,
                    m as int == if sel@[v as int].payload@.len() / 2 < count {
                        (sel@[v as int].payload@.len() / 2) as int
                    } else {
                        count as int
                    },
                    payload_len == sel@[v as int].payload@.len(),
                    i <= m,
                    forall|k: int|
                        0 <= k < i ==> #[trigger] acc@[k] as int == spec_sat_i32(
                            acc_pre[k] + spec_sample_at(sel@[v as int].payload@, k),
                        ),
                    forall|k: int| i <= k < count ==> #[trigger] acc@[k] == acc_pre[k],
                decreases m - i,
            {
                let s = sample_from_bytes(&sel[v].payload, i);
                let cur = acc[i];
                let wide: i64 = cur as i64 + s as i64;
                let clamped: i32 = if wide > i32::MAX as i64 {
                    i32::MAX
                } else if wide < i32::MIN as i64 {
                    i32::MIN
                } else {
                    wide as i32
                };
                acc.set(i, clamped);
                i = i + 1;
            }
            proof {
                assert(sel@.take(v + 1).drop_last() =~= sel@.take(v as int));
                assert(sel@.take(v + 1).last() == sel@[v as int]);
                assert forall|k: int| 0 <= k < count implies #[trigger] acc@[k] as int
                    == spec_basic_acc(sel@.take(v + 1), k) by {
                    if k < m {
                        assert(acc@[k] as int == spec_sat_i32(
                            acc_pre[k] + spec_sample_at(sel@[v as int].payload@, k),
                        ));
                    } else {
                        assert(acc@[k] == acc_pre[k]);
                        assert(k >= sel@[v as int].payload@.len() / 2);
                    }
                }
            }
            v = v + 1;
        }
        proof {
            assert(sel@.take(voices_n as int) =~= sel@);
        }
        // peak of the summed mix
        let mut peak: u32 = 0;
        let mut i: usize = 0;
        while i < count
            invariant
                acc@.len() == count,
                i <= count,
                peak == spec_max_abs_i32(acc@, i as int),
                peak <= 0x8000_0000u32,
            decreases count - i,
        {
            let y = acc[i];
            let a: u32 = if y >= 0 {
                y as u32
            } else if y == i32::MIN {
                0x8000_0000
            } else {
                (-y) as u32
            };
            if a > peak {
                peak = a;
            }
            i = i + 1;
        }
        proof {
            lemma_basic_peak_eq(acc@, sel@, count as int);
            assert forall|k: int| 0 <= k < count implies spec_abs(#[trigger] acc@[k] as int)
                <= peak by {
                lemma_max_abs_i32_bound(acc@, count as int, k);
            }
        }
        // normalise into the 16-bit range and encode
        let mut out: Vec<u8> = Vec::new();
        let mut i: usize = 0;
        while i < count
            invariant
                acc@.len() == count,
                i <= count,
                out@.len() == 2 * i,
                peak == spec_basic_peak(sel@, count as int),
                forall|k: int| 0 <= k < count ==> #[trigger] acc@[k] as int == spec_basic_acc(
                    sel@,
                    k,
                ),
                forall|k: int| 0 <= k < count ==> spec_abs(#[trigger] acc@[k] as int) <= peak,
                forall|k: int|
                    0 <= k < i ==> #[trigger] spec_sample_at(out@, k) == spec_basic_out(
                        acc@[k] as int,
                        peak as int,
                    ),
            decreases count - i,
        {
            let y = acc[i];
            let neg = y < 0;
            let mag: u64 = if y >= 0 {
                y as u64
            } else if y == i32::MIN {
                0x8000_0000
            } else {
                (-y) as u64
            };
            let out_mag: u64 = if peak > 32767 {
                proof {
                    assert((mag as int) * 32767 / (peak as int) <= 32767) by (nonlinear_arith)
                        requires
                            0 < peak,
                            mag <= peak,
                    ;
                    assert((mag as int) * 32767 <= u64::MAX) by (nonlinear_arith)
                        requires
                            0 <= mag <= 0x8000_0000u64,
                    ;
                }
                mag * 32767 / (peak as u64)
            } else {
                mag
            };
            let signed: i64 = if neg {
                -(out_mag as i64)
            } else {
                out_mag as i64
            };
            let u: u16 = if signed >= 0 {
                signed as u16
            } else {
                (65536i64 + signed) as u16
            };
            let mut b = u16_to_le_bytes(u);
            let ghost out_pre = out@;
            out.append(&mut b);
            proof {
                lemma_auto_spec_u16_to_from_le_bytes();
                assert(spec_abs(acc@[i as int] as int) <= peak);
                assert(-32767 <= signed <= 32767);
                assert(out@.subrange(2 * i as int, 2 * i + 2) =~= spec_u16_to_le_bytes(u));
                assert(spec_sample_at(out@, i as int) == signed);
                assert(signed == spec_basic_out(acc@[i as int] as int, peak as int));
                assert forall|k: int|
                    0 <= k < i + 1 implies #[trigger] spec_sample_at(out@, k) == spec_basic_out(
                    acc@[k] as int,
                    peak as int,
                ) by {
                    if k < i {
                        assert(out@.subrange(2 * k, 2 * k + 2) =~= out_pre.subrange(
                            2 * k,
                            2 * k + 2,
                        ));
                        assert(spec_sample_at(out_pre, k) == spec_basic_out(
                            acc@[k] as int,
                            peak as int,
                        ));
                        assert(spec_sample_at(out@, k) == spec_sample_at(out_pre, k));
                    } else {
                        assert(k == i as int);
                        assert(spec_sample_at(out@, k) == signed);
                        assert(signed == spec_basic_out(acc@[k] as int, peak as int));
                    }
                }
            }
            i = i + 1;
        }
        Some(out)
    }
}

/// A zeroed 32-bit accumulator of the given length.
fn vec_zeros_i32(n: usize) -> (v: Vec<i32>)
    ensures
        v@.len() == n,
        forall|i: int| 0 <= i < n ==> #[trigger] v@[i] == 0,
{
    let mut v: Vec<i32> = Vec::new();
    let mut i: usize = 0;
    while i < n
        invariant
            i <= n,
            v@.len() == i,
            forall|j: int| 0 <= j < i ==> #[trigger] v@[j] == 0,
        decreases n - i,
    {
        v.push(0);
        i = i + 1;
    }
    v
}

/// After storing a well-formed value, every value in a controls table is
/// still well formed.
proof fn lemma_controls_values_wf(
    pre: PairTable<UserAudioControls>,
    post: PairTable<UserAudioControls>,
    user_id: UserId,
    channel_id: ChannelId,
    v: UserAudioControls,
)
    requires
        pre.wf(),
        post.wf(),
        forall|i: int| 0 <= i < pre.entries@.len() ==> (#[trigger] pre.entries@[i]).2.wf(),
        v.wf(),
        post.spec_get(user_id, channel_id) == Some(v),
        forall|a: u128, b: u128|
            !(a == user_id && b == channel_id) ==> #[trigger] post.spec_get(a, b) == pre.spec_get(
                a,
                b,
            ),
    ensures
        forall|i: int| 0 <= i < post.entries@.len() ==> (#[trigger] post.entries@[i]).2.wf(),
{
    assert forall|i: int|
        0 <= i < post.entries@.len() implies (#[trigger] post.entries@[i]).2.wf() by {
        post.lemma_at(i);
        let a = post.entries@[i].0;
        let b = post.entries@[i].1;
        if a == user_id && b == channel_id {
        } else {
            assert(pre.spec_get(a, b) == Some(post.entries@[i].2));
            let j = pre.spec_index_of(a, b);
            assert(0 <= j < pre.entries@.len() && pre.entries@[j].0 == a);
        }
    }
}

/// After storing a well-formed value, every value in a configuration
/// table is still well formed.
proof fn lemma_config_values_wf(
    pre: IdTable<ChannelMixConfig>,
    post: IdTable<ChannelMixConfig>,
    channel_id: ChannelId,
    v: ChannelMixConfig,
)
    requires
        pre.wf(),
        post.wf(),
        forall|i: int| 0 <= i < pre.entries@.len() ==> (#[trigger] pre.entries@[i]).1.wf(),
        v.wf(),
        post.spec_get(channel_id) == Some(v),
        forall|ch: u128|
            ch != channel_id ==> #[trigger] post.spec_get(ch) == pre.spec_get(ch),
    ensures
        forall|i: int| 0 <= i < post.entries@.len() ==> (#[trigger] post.entries@[i]).1.wf(),
{
    assert forall|i: int|
        0 <= i < post.entries@.len() implies (#[trigger] post.entries@[i]).1.wf() by {
        post.lemma_at(i);
        let ch = post.entries@[i].0;
        if ch == channel_id {
        } else {
            assert(pre.spec_get(ch) == Some(post.entries@[i].1));
            let j = pre.spec_index_of(ch);
            assert(0 <= j < pre.entries@.len() && pre.entries@[j].0 == ch);
        }
    }
}

} // verus!

//! Jitter-absorbing packet buffers.
//!
//! `CircularBuffer` is a bounded FIFO of packets: on overflow it evicts the
//! oldest resident and counts a drop. `AudioBuffer` pairs a main audio buffer
//! with a smaller control buffer and releases audio packets only once their
//! age reaches a target latency, auto-tuned between 20 ms and 500 ms.
//!
//! Each `CircularBuffer` carries a ghost record of every packet ever pushed
//! (`history`), the push index of every resident packet (`push_idxs`), and
//! the push indices of everything ever handed out (`released`), in order.
//! Every operation appends to `released` at most once per handed-out packet
//! and keeps it strictly increasing, which is how the no-re-release and
//! order-preservation laws below hold across any interleaving of operations.

use vstd::prelude::*;
use std::collections::VecDeque;
use crate::packet::AudioPacket;
use crate::packet::PacketType;
use crate::packet::spec_age_us;
use crate::packet::STALE_AGE_US;
use crate::mixer::isqrt_u128;
use crate::mixer::spec_abs;
use crate::mixer::spec_is_sqrt_floor;
use crate::table::IdTable;

verus! {

/// Whether a packet has reached the given target latency at clock
/// reading `now`, and so may be released.
pub open spec fn spec_ripe(p: AudioPacket, now: u64, target_latency_us: u64) -> bool {
    spec_age_us(p.header.timestamp, now) >= target_latency_us
}

/// Whether a packet is older than the staleness threshold.
pub open spec fn spec_stale(p: AudioPacket, now: u64) -> bool {
    spec_age_us(p.header.timestamp, now) > STALE_AGE_US
}

/// Point predicate of the staleness sweep: keeps a packet iff it is not
/// yet stale at clock reading `now`.
pub open spec fn spec_fresh_at(now: u64) -> spec_fn(AudioPacket) -> bool {
    |p: AudioPacket| !spec_stale(p, now)
}

/// One FIFO push into a bounded buffer: on overflow the oldest resident
/// is evicted first.
pub open spec fn spec_push(view: Seq<AudioPacket>, cap: nat, p: AudioPacket) -> Seq<AudioPacket> {
    if view.len() >= cap {
        view.drop_first().push(p)
    } else {
        view.push(p)
    }
}

/// Resident packets after pushing `ps` in order, starting from `view`.
pub open spec fn spec_push_all(view: Seq<AudioPacket>, cap: nat, ps: Seq<AudioPacket>) -> Seq<
    AudioPacket,
>
    decreases ps.len(),
{
    if ps.len() == 0 {
        view
    } else {
        spec_push_all(spec_push(view, cap, ps[0]), cap, ps.drop_first())
    }
}

/// Number of evictions while pushing `n` packets into a buffer that
/// holds `len` of `cap`.
pub open spec fn spec_evictions(len: nat, cap: nat, n: nat) -> nat
    decreases n,
{
    if n == 0 {
        0
    } else if len >= cap {
        1 + spec_evictions(len, cap, (n - 1) as nat)
    } else {
        spec_evictions(len + 1, cap, (n - 1) as nat)
    }
}

/// Bounded FIFO of packets with drop accounting.
pub struct CircularBuffer {
    /// Resident packets, oldest first.
    pub buffer: VecDeque<AudioPacket>,
    /// Maximum number of resident packets; at least one.
    pub capacity: usize,
    /// Packets ever pushed, saturating at `usize::MAX`.
    pub total_packets: usize,
    /// Packets dropped by eviction, staleness sweeps or shrinking,
    /// saturating at `usize::MAX`.
    pub dropped_packets: usize,
    /// Every packet ever pushed, in push order.
    pub history: Ghost<Seq<AudioPacket>>,
    /// Push index of each resident packet, aligned with `buffer`.
    pub push_idxs: Ghost<Seq<int>>,
    /// Push indices of every packet ever handed out, in release order.
    pub released: Ghost<Seq<int>>,
}

impl CircularBuffer {
    /// Structural invariant: residents fit the capacity, resident and
    /// released push indices are strictly increasing positions in the
    /// push history, everything released precedes everything resident,
    /// and the counters track the history exactly until they saturate.
    pub open spec fn wf(self) -> bool {
        &&& 1 <= self.capacity
        &&& self.buffer@.len() <= self.capacity
        &&& self.push_idxs@.len() == self.buffer@.len()
        &&& forall|k: int|
            0 <= k < self.push_idxs@.len() ==> 0 <= #[trigger] self.push_idxs@[k]
                < self.history@.len()
        &&& forall|k: int|
            0 <= k < self.push_idxs@.len() ==> self.history@[#[trigger] self.push_idxs@[k]]
                == self.buffer@[k]
        &&& forall|i: int, j: int|
            0 <= i < j < self.push_idxs@.len() ==> #[trigger] self.push_idxs@[i]
                < #[trigger] self.push_idxs@[j]
        &&& forall|i: int|
            0 <= i < self.released@.len() ==> 0 <= #[trigger] self.released@[i]
                < self.history@.len()
        &&& forall|i: int, j: int|
            0 <= i < j < self.released@.len() ==> #[trigger] self.released@[i]
                < #[trigger] self.released@[j]
        &&& forall|i: int, j: int|
            0 <= i < self.released@.len() && 0 <= j < self.push_idxs@.len()
                ==> #[trigger] self.released@[i] < #[trigger] self.push_idxs@[j]
        &&& self.total_packets <= self.history@.len()
        &&& self.history@.len() < usize::MAX ==> self.total_packets == self.history@.len()
        &&& self.history@.len() >= usize::MAX ==> self.total_packets == usize::MAX
        &&& self.dropped_packets + self.released@.len() + self.buffer@.len()
            <= self.history@.len()
        &&& self.history@.len() < usize::MAX ==> self.dropped_packets + self.released@.len()
            + self.buffer@.len() == self.history@.len()
    }

    /// The packets ever handed out, in release order.
    pub open spec fn spec_released_packets(self) -> Seq<AudioPacket> {
        Seq::new(self.released@.len(), |k: int| self.history@[self.released@[k]])
    }

    /// Creates an empty buffer of the given capacity.
    pub fn new(capacity: usize) -> (b: CircularBuffer)
        requires
            1 <= capacity,
        ensures
            b.wf(),
            b.capacity == capacity,
            b.buffer@.len() == 0,
            b.total_packets == 0,
            b.dropped_packets == 0,
            b.history@.len() == 0,
            b.released@.len() == 0,
    {
        CircularBuffer {
            buffer: VecDeque::new(),
            capacity,
            total_packets: 0,
            dropped_packets: 0,
            history: Ghost(Seq::empty()),
            push_idxs: Ghost(Seq::empty()),
            released: Ghost(Seq::empty()),
        }
    }

    /// Number of resident packets.
    pub fn len(&self) -> (n: usize)
        ensures
            n == self.buffer@.len(),
    {
        self.buffer.len()
    }

    /// Whether no packet is resident.
    pub fn is_empty(&self) -> (r: bool)
        ensures
            r == (self.buffer@.len() == 0),
    {
        self.buffer.len() == 0
    }

    /// Appends a packet; when the buffer is full the oldest resident is
    /// evicted first and counted as dropped.
    pub fn push(&mut self, packet: AudioPacket)
        requires
            old(self).wf(),
        ensures
            final(self).wf(),
            final(self).capacity == old(self).capacity,
            final(self).buffer@ == spec_push(
                old(self).buffer@,
                old(self).capacity as nat,
                packet,
            ),
            final(self).history@ == old(self).history@.push(packet),
            final(self).released@ == old(self).released@,
            old(self).total_packets < usize::MAX ==> final(self).total_packets == old(self).total_packets + 1,
            old(self).buffer@.len() < old(self).capacity ==> final(self).dropped_packets == old(self).dropped_packets,
            old(self).buffer@.len() >= old(self).capacity && old(self).dropped_packets
                < usize::MAX ==> final(self).dropped_packets == old(self).dropped_packets + 1,
    {
        if self.total_packets < usize::MAX {
            self.total_packets = self.total_packets + 1;
        }
        if self.buffer.len() >= self.capacity {
            let evicted = self.buffer.pop_front();
            proof {
                self.push_idxs@ = self.push_idxs@.drop_first();
            }
            if self.dropped_packets < usize::MAX {
                self.dropped_packets = self.dropped_packets + 1;
            }
        }
        let ghost new_idx: int = self.history@.len() as int;
        self.buffer.push_back(packet);
        proof {
            self.history@ = self.history@.push(packet);
            self.push_idxs@ = self.push_idxs@.push(new_idx);
        }
    }

    /// Hands out the oldest resident packet, if any.
    pub fn pop(&mut self) -> (r: Option<AudioPacket>)
        requires
            old(self).wf(),
        ensures
            final(self).wf(),
            final(self).capacity == old(self).capacity,
            final(self).history@ == old(self).history@,
            final(self).total_packets == old(self).total_packets,
            final(self).dropped_packets == old(self).dropped_packets,
            old(self).buffer@.len() == 0 ==> r is None && final(self).buffer@ == old(self).buffer@
                && final(self).released@ == old(self).released@,
            old(self).buffer@.len() > 0 ==> {
                &&& r == Some(old(self).buffer@[0])
                &&& final(self).buffer@ == old(self).buffer@.drop_first()
                &&& final(self).push_idxs@ == old(self).push_idxs@.drop_first()
                &&& final(self).released@ == old(self).released@.push(old(self).push_idxs@[0])
            },
    {
        let r = self.buffer.pop_front();
        if r.is_some() {
            proof {
                self.released@ = self.released@.push(self.push_idxs@[0]);
                self.push_idxs@ = self.push_idxs@.drop_first();
            }
        }
        r
    }

    /// Hands out every resident packet, oldest first.
    pub fn drain(&mut self) -> (out: Vec<AudioPacket>)
        requires
            old(self).wf(),
        ensures
            final(self).wf(),
            final(self).capacity == old(self).capacity,
            final(self).history@ == old(self).history@,
            final(self).total_packets == old(self).total_packets,
            final(self).dropped_packets == old(self).dropped_packets,
            out@ == old(self).buffer@,
            final(self).buffer@.len() == 0,
            final(self).released@ == old(self).released@ + old(self).push_idxs@,
    {
        let mut out: Vec<AudioPacket> = Vec::new();
        let ghost buf0 = self.buffer@;
        let ghost idxs0 = self.push_idxs@;
        let ghost rel0 = self.released@;
        proof {
            assert(out@ + self.buffer@ =~= buf0);
            assert(self.push_idxs@ =~= idxs0.skip(0));
            assert(self.released@ =~= rel0 + idxs0.take(0));
        }
        while self.buffer.len() > 0
            invariant
                self.wf(),
                self.capacity == old(self).capacity,
                self.history@ == old(self).history@,
                self.total_packets == old(self).total_packets,
                self.dropped_packets == old(self).dropped_packets,
                idxs0.len() == buf0.len(),
                out@.len() <= buf0.len(),
                out@ + self.buffer@ == buf0,
                self.push_idxs@ == idxs0.skip(out@.len() as int),
                self.released@ == rel0 + idxs0.take(out@.len() as int),
            decreases self.buffer@.len(),
        {
            let ghost n_pre = out@.len() as int;
            let ghost idxs_pre = self.push_idxs@;
            let ghost rel_pre = self.released@;
            let p = self.pop();
            match p {
                Some(p) => {
                    out.push(p);
                },
                None => {},
            }
            proof {
                assert(out@.len() == n_pre + 1);
                assert(idxs_pre == idxs0.skip(n_pre));
                assert(self.push_idxs@ == idxs_pre.drop_first());
                assert(self.push_idxs@ =~= idxs0.skip(n_pre + 1));
                assert(self.released@ == rel_pre.push(idxs_pre[0]));
                assert(idxs_pre[0] == idxs0[n_pre]);
                assert(self.released@ =~= rel0 + idxs0.take(n_pre + 1));
                assert(out@ + self.buffer@ =~= buf0);
            }
        }
        proof {
            assert(out@ =~= buf0);
            assert(self.released@ =~= rel0 + idxs0);
        }
        out
    }

    /// Drops every resident packet older than the staleness threshold,
    /// counting the removals as drops.
    pub fn cleanup_stale(&mut self, now: u64)
        requires
            old(self).wf(),
        ensures
            final(self).wf(),
            final(self).capacity == old(self).capacity,
            final(self).history@ == old(self).history@,
            final(self).total_packets == old(self).total_packets,
            final(self).released@ == old(self).released@,
            final(self).buffer@ == old(self).buffer@.filter(spec_fresh_at(now)),
            old(self).dropped_packets + old(self).buffer@.len() <= usize::MAX ==> final(self).dropped_packets == old(self).dropped_packets + old(self).buffer@.len() - final(self).buffer@.len(),
    {
        let ghost pred = spec_fresh_at(now);
        let ghost buf0 = self.buffer@;
        let ghost idxs0 = self.push_idxs@;
        let n = self.buffer.len();
        let mut kept: VecDeque<AudioPacket> = VecDeque::new();
        let ghost mut kept_idxs: Seq<int> = Seq::empty();
        let mut j: usize = 0;
        proof {
            assert(buf0.take(0).filter(pred) =~= Seq::<AudioPacket>::empty());
            assert(self.buffer@ =~= buf0.skip(0));
            assert(self.push_idxs@ =~= idxs0.skip(0));
        }
        while j < n
            invariant
                old(self).wf(),
                pred == spec_fresh_at(now),
                buf0 == old(self).buffer@,
                idxs0 == old(self).push_idxs@,
                n == buf0.len(),
                j <= n,
                self.buffer@ == buf0.skip(j as int),
                self.push_idxs@ == idxs0.skip(j as int),
                self.history@ == old(self).history@,
                self.released@ == old(self).released@,
                self.capacity == old(self).capacity,
                self.total_packets == old(self).total_packets,
                self.dropped_packets == old(self).dropped_packets,
                kept@ == buf0.take(j as int).filter(pred),
                kept_idxs.len() == kept@.len(),
                forall|k: int|
                    0 <= k < kept_idxs.len() ==> 0 <= #[trigger] kept_idxs[k]
                        < self.history@.len(),
                forall|k: int|
                    0 <= k < kept_idxs.len() ==> self.history@[#[trigger] kept_idxs[k]]
                        == kept@[k],
                forall|a: int, b: int|
                    0 <= a < b < kept_idxs.len() ==> #[trigger] kept_idxs[a]
                        < #[trigger] kept_idxs[b],
                forall|a: int, b: int|
                    0 <= a < kept_idxs.len() && j <= b < idxs0.len() ==> #[trigger] kept_idxs[a]
                        < #[trigger] idxs0[b],
                forall|a: int, b: int|
                    0 <= a < self.released@.len() && 0 <= b < kept_idxs.len()
                        ==> #[trigger] self.released@[a] < #[trigger] kept_idxs[b],
            decreases n - j,
        {
            let p_opt = self.buffer.pop_front();
            proof {
                self.push_idxs@ = self.push_idxs@.drop_first();
            }
            match p_opt {
                Some(p) => {
                    let ghost this_idx = idxs0[j as int];
                    proof {
                        assert(p == buf0[j as int]);
                        assert(old(self).history@[idxs0[j as int]] == buf0[j as int]);
                    }
                    if !p.header.is_stale(now) {
                        kept.push_back(p);
                        proof {
                            assert(pred(buf0[j as int]));
                            kept_idxs = kept_idxs.push(this_idx);
                        }
                    } else {
                        proof {
                            assert(!pred(buf0[j as int]));
                        }
                    }
                },
                None => {},
            }
            proof {
                buf0.take(j as int).lemma_filter_push(buf0[j as int], pred);
                assert(buf0.take(j + 1) =~= buf0.take(j as int).push(buf0[j as int]));
                assert(kept@ == buf0.take(j + 1).filter(pred));
                assert(self.buffer@ =~= buf0.skip(j + 1));
                assert(self.push_idxs@ =~= idxs0.skip(j + 1));
            }
            j = j + 1;
        }
        proof {
            assert(buf0.take(n as int) =~= buf0);
            buf0.lemma_filter_len(pred);
        }
        let removed = n - kept.len();
        self.buffer = kept;
        proof {
            self.push_idxs@ = kept_idxs;
        }
        if removed <= usize::MAX - self.dropped_packets {
            self.dropped_packets = self.dropped_packets + removed;
        } else {
            self.dropped_packets = usize::MAX;
        }
    }

    /// Drop rate in permille of everything pushed; zero for a fresh buffer.
    pub open spec fn spec_drop_rate_permille(dropped: nat, total: nat) -> nat {
        if total > 0 {
            dropped * 1000 / total
        } else {
            0
        }
    }

    /// Resident count, capacity, push and drop counters, and the drop
    /// rate in permille.
    pub fn stats(&self) -> (s: BufferStats)
        requires
            self.wf(),
        ensures
            s.drop_rate_permille <= 1000,
            s.current_size == self.buffer@.len(),
            s.capacity == self.capacity,
            s.total_packets == self.total_packets,
            s.dropped_packets == self.dropped_packets,
            s.drop_rate_permille == Self::spec_drop_rate_permille(
                self.dropped_packets as nat,
                self.total_packets as nat,
            ),
    {
        let drop_rate_permille: u64 = if self.total_packets > 0 {
            proof {
                assert(self.dropped_packets <= self.total_packets);
                assert((self.dropped_packets as int * 1000) / (self.total_packets as int)
                    <= 1000) by (nonlinear_arith)
                    requires
                        0 < self.total_packets,
                        self.dropped_packets <= self.total_packets,
                ;
            }
            ((self.dropped_packets as u128 * 1000) / (self.total_packets as u128)) as u64
        } else {
            0
        };
        BufferStats {
            current_size: self.buffer.len(),
            capacity: self.capacity,
            total_packets: self.total_packets,
            dropped_packets: self.dropped_packets,
            drop_rate_permille,
        }
    }

    /// Changes the capacity; when it shrinks, the oldest residents are
    /// evicted and counted as dropped.
    pub fn adjust_capacity(&mut self, new_capacity: usize)
        requires
            old(self).wf(),
            1 <= new_capacity,
        ensures
            final(self).wf(),
            final(self).capacity == new_capacity,
            final(self).history@ == old(self).history@,
            final(self).released@ == old(self).released@,
            final(self).total_packets == old(self).total_packets,
            final(self).buffer@ == if old(self).buffer@.len() > new_capacity {
                old(self).buffer@.skip(old(self).buffer@.len() - new_capacity)
            } else {
                old(self).buffer@
            },
    {
        self.capacity = new_capacity;
        let ghost buf0 = self.buffer@;
        let ghost idxs0 = self.push_idxs@;
        let mut evicted: usize = 0;
        proof {
            assert(self.buffer@ =~= buf0.skip(0));
            assert(self.push_idxs@ =~= idxs0.skip(0));
        }
        while self.buffer.len() > self.capacity
            invariant
                old(self).wf(),
                self.capacity == new_capacity,
                buf0 == old(self).buffer@,
                idxs0 == old(self).push_idxs@,
                self.history@ == old(self).history@,
                self.released@ == old(self).released@,
                self.total_packets == old(self).total_packets,
                evicted <= buf0.len(),
                evicted == 0 || buf0.len() - (evicted - 1) > new_capacity,
                self.buffer@ == buf0.skip(evicted as int),
                self.push_idxs@ == idxs0.skip(evicted as int),
                self.dropped_packets as int == if old(self).dropped_packets + evicted
                    <= usize::MAX {
                    old(self).dropped_packets + evicted
                } else {
                    usize::MAX as int
                },
            decreases self.buffer@.len(),
        {
            let dropped = self.buffer.pop_front();
            proof {
                self.push_idxs@ = self.push_idxs@.drop_first();
            }
            if self.dropped_packets < usize::MAX {
                self.dropped_packets = self.dropped_packets + 1;
            }
            evicted = evicted + 1;
            proof {
                assert(self.buffer@ =~= buf0.skip(evicted as int));
                assert(self.push_idxs@ =~= idxs0.skip(evicted as int));
            }
        }
        proof {
            if buf0.len() <= new_capacity {
                assert(evicted == 0);
                assert(self.buffer@ =~= buf0);
            } else {
                assert(evicted == buf0.len() - new_capacity);
            }
        }
    }

    /// Sum of the ages of the first `n` resident packets at reading `now`.
    pub open spec fn spec_age_total(s: Seq<AudioPacket>, now: u64, n: int) -> int
        decreases n,
    {
        if n <= 0 {
            0
        } else {
            Self::spec_age_total(s, now, n - 1) + spec_age_us(s[n - 1].header.timestamp, now)
        }
    }

    /// Mean age of the resident packets at clock reading `now`, in
    /// microseconds; zero when empty.
    pub fn average_latency_us(&self, now: u64) -> (avg: u64)
        ensures
            self.buffer@.len() == 0 ==> avg == 0,
            self.buffer@.len() > 0 ==> avg == Self::spec_age_total(
                self.buffer@,
                now,
                self.buffer@.len() as int,
            ) / self.buffer@.len() as int,
    {
        let n = self.buffer.len();
        if n == 0 {
            return 0;
        }
        let mut total: u128 = 0;
        let mut i: usize = 0;
        while i < n
            invariant
                n == self.buffer@.len(),
                i <= n,
                total == Self::spec_age_total(self.buffer@, now, i as int),
                total <= i * 0xFFFF_FFFF_FFFF_FFFF,
            decreases n - i,
        {
            let age = self.buffer[i].header.age_micros(now);
            proof {
                assert((i + 1) * 0xFFFF_FFFF_FFFF_FFFFint == i * 0xFFFF_FFFF_FFFF_FFFFint
                    + 0xFFFF_FFFF_FFFF_FFFFint) by (nonlinear_arith);
                assert(i * 0xFFFF_FFFF_FFFF_FFFFint <= 0xFFFF_FFFF_FFFF_FFFFint
                    * 0xFFFF_FFFF_FFFF_FFFFint) by (nonlinear_arith)
                    requires
                        0 <= i <= 0xFFFF_FFFF_FFFF_FFFFint,
                ;
            }
            total = total + age as u128;
            i = i + 1;
        }
        proof {
            assert(total as int / n as int <= u64::MAX) by (nonlinear_arith)
                requires
                    n >= 1,
                    total <= n * 0xFFFF_FFFF_FFFF_FFFFint,
            ;
        }
        (total / (n as u128)) as u64
    }

    /// The resident sequence numbers, in buffer order.
    pub fn resident_sequences(&self) -> (seqs: Vec<u32>)
        ensures
            seqs@.len() == self.buffer@.len(),
            forall|i: int|
                0 <= i < seqs@.len() ==> #[trigger] seqs@[i] == self.buffer@[i].header.sequence,
    {
        let n = self.buffer.len();
        let mut seqs: Vec<u32> = Vec::new();
        let mut i: usize = 0;
        while i < n
            invariant
                n == self.buffer@.len(),
                i <= n,
                seqs@.len() == i,
                forall|k: int|
                    0 <= k < i ==> #[trigger] seqs@[k] == self.buffer@[k].header.sequence,
            decreases n - i,
        {
            seqs.push(self.buffer[i].header.sequence);
            i = i + 1;
        }
        seqs
    }

    /// Sequence numbers missing between adjacent resident packets, taken
    /// over a snapshot sorted by sequence. Used only for metrics.
    pub fn detect_missing_packets(&self) -> (missing: Vec<u32>)
        ensures
            self.buffer@.len() < 2 ==> missing@.len() == 0,
            exists|sorted: Seq<u32>|
                {
                    &&& (#[trigger] sorted.to_multiset()) == Seq::new(
                        self.buffer@.len(),
                        |i: int| self.buffer@[i].header.sequence,
                    ).to_multiset()
                    &&& vstd::relations::sorted_by(sorted, spec_leq_u32())
                    &&& missing@ == spec_gaps(sorted)
                },
    {
        let seqs = self.resident_sequences();
        proof {
            assert(seqs@ =~= Seq::new(
                self.buffer@.len(),
                |i: int| self.buffer@[i].header.sequence,
            ));
        }
        let sorted = sort_u32(&seqs);
        let n = sorted.len();
        let mut missing: Vec<u32> = Vec::new();
        if n < 2 {
            proof {
                assert(missing@ =~= spec_gaps(sorted@));
            }
            return missing;
        }
        let mut w: usize = 1;
        proof {
            assert(missing@ =~= spec_gaps(sorted@.take(1)));
        }
        while w < n
            invariant
                n == sorted@.len(),
                1 <= w <= n,
                vstd::relations::sorted_by(sorted@, spec_leq_u32()),
                sorted@.to_multiset() == Seq::new(
                    self.buffer@.len(),
                    |i: int| self.buffer@[i].header.sequence,
                ).to_multiset(),
                missing@ == spec_gaps(sorted@.take(w as int)),
            decreases n - w,
        {
            let cur = sorted[w - 1];
            let next = sorted[w];
            proof {
                assert(spec_leq_u32()(sorted@[w - 1], sorted@[w as int]));
            }
            let gap_len: u32 = if next > cur && next - cur >= 1 {
                next - cur - 1
            } else {
                0
            };
            let ghost base = missing@;
            let mut g: u32 = 0;
            while g < gap_len
                invariant
                    gap_len == if cur + 1 < next {
                        next - cur - 1
                    } else {
                        0int
                    },
                    cur <= next,
                    g <= gap_len,
                    missing@ == base + spec_range_after(cur, next).take(g as int),
                decreases gap_len - g,
            {
                missing.push(cur + 1 + g);
                proof {
                    assert(spec_range_after(cur, next).take(g + 1) =~= spec_range_after(
                        cur,
                        next,
                    ).take(g as int).push((cur + 1 + g) as u32));
                    assert(missing@ =~= base + spec_range_after(cur, next).take(g + 1));
                }
                g = g + 1;
            }
            proof {
                assert(spec_range_after(cur, next).take(gap_len as int) =~= spec_range_after(
                    cur,
                    next,
                ));
                assert(sorted@.take(w + 1).drop_last() =~= sorted@.take(w as int));
                assert(sorted@.take(w + 1).last() == sorted@[w as int]);
                assert(sorted@.take(w + 1)[w - 1] == sorted@[w - 1]);
                assert(missing@ =~= spec_gaps(sorted@.take(w + 1)));
            }
            w = w + 1;
        }
        proof {
            assert(sorted@.take(n as int) =~= sorted@);
        }
        missing
    }

    /// The resident timestamps, in buffer order.
    pub fn resident_timestamps(&self) -> (ts: Vec<u64>)
        ensures
            ts@.len() == self.buffer@.len(),
            forall|i: int|
                0 <= i < ts@.len() ==> #[trigger] ts@[i] == self.buffer@[i].header.timestamp,
    {
        let n = self.buffer.len();
        let mut ts: Vec<u64> = Vec::new();
        let mut i: usize = 0;
        while i < n
            invariant
                n == self.buffer@.len(),
                i <= n,
                ts@.len() == i,
                forall|k: int|
                    0 <= k < i ==> #[trigger] ts@[k] == self.buffer@[k].header.timestamp,
            decreases n - i,
        {
            ts.push(self.buffer[i].header.timestamp);
            i = i + 1;
        }
        ts
    }

    /// Jitter estimate: the standard deviation, rounded down, of the
    /// inter-arrival deltas of a timestamp snapshot sorted ascending.
    /// Zero below three resident packets; saturates if the squared
    /// deviations overflow. Used only for metrics.
    pub fn calculate_jitter(&self) -> (jitter: u64)
        ensures
            self.buffer@.len() < 3 ==> jitter == 0,
            self.buffer@.len() >= 3 ==> exists|sorted: Seq<u64>|
                {
                    &&& (#[trigger] sorted.to_multiset()) == Seq::new(
                        self.buffer@.len(),
                        |i: int| self.buffer@[i].header.timestamp,
                    ).to_multiset()
                    &&& vstd::relations::sorted_by(sorted, spec_leq_u64())
                    &&& ({
                        let ivs = spec_intervals(sorted);
                        let mean = spec_sum_seq(ivs, ivs.len() as int) / ivs.len() as int;
                        let devsq = spec_devsq_sum(ivs, mean, ivs.len() as int);
                        if devsq <= u128::MAX {
                            spec_is_sqrt_floor(
                                jitter as u128,
                                ((devsq / ivs.len() as int) as u128),
                            )
                        } else {
                            jitter == u64::MAX
                        }
                    })
                },
    {
        let n = self.buffer.len();
        if n < 3 {
            return 0;
        }
        let ts = self.resident_timestamps();
        proof {
            assert(ts@ =~= Seq::new(
                self.buffer@.len(),
                |i: int| self.buffer@[i].header.timestamp,
            ));
        }
        let sorted = sort_u64(&ts);
        let count = sorted.len() - 1;
        let ghost ivs = spec_intervals(sorted@);
        // mean of the deltas; the deltas telescope, so the sum fits
        let mut sum: u128 = 0;
        let mut i: usize = 0;
        proof {
            assert(ivs.len() == count);
        }
        while i < count
            invariant
                count == sorted@.len() - 1,
                sorted@.len() >= 3,
                i <= count,
                vstd::relations::sorted_by(sorted@, spec_leq_u64()),
                ivs == spec_intervals(sorted@),
                sum == spec_sum_seq(ivs, i as int),
                sum <= i * 0xFFFF_FFFF_FFFF_FFFF,
            decreases count - i,
        {
            proof {
                assert(spec_leq_u64()(sorted@[i as int], sorted@[i + 1]));
                assert((i + 1) * 0xFFFF_FFFF_FFFF_FFFFint == i * 0xFFFF_FFFF_FFFF_FFFFint
                    + 0xFFFF_FFFF_FFFF_FFFFint) by (nonlinear_arith);
                assert(i * 0xFFFF_FFFF_FFFF_FFFFint <= 0xFFFF_FFFF_FFFF_FFFFint
                    * 0xFFFF_FFFF_FFFF_FFFFint) by (nonlinear_arith)
                    requires
                        0 <= i <= 0xFFFF_FFFF_FFFF_FFFFint,
                ;
            }
            let delta = sorted[i + 1] - sorted[i];
            sum = sum + delta as u128;
            i = i + 1;
        }
        proof {
            assert(sum as int / count as int <= u64::MAX) by (nonlinear_arith)
                requires
                    count >= 1,
                    sum <= count * 0xFFFF_FFFF_FFFF_FFFFint,
            ;
        }
        let mean: u64 = (sum / (count as u128)) as u64;
        let ghost smean = spec_sum_seq(ivs, ivs.len() as int) / ivs.len() as int;
        proof {
            assert(mean == smean);
        }
        // squared deviations, saturating on overflow
        let mut devsq: u128 = 0;
        let mut saturated = false;
        let mut j: usize = 0;
        while j < count
            invariant
                count == sorted@.len() - 1,
                sorted@.len() >= 3,
                j <= count,
                vstd::relations::sorted_by(sorted@, spec_leq_u64()),
                ivs == spec_intervals(sorted@),
                mean == smean,
                smean == spec_sum_seq(ivs, ivs.len() as int) / ivs.len() as int,
                0 <= smean <= u64::MAX,
                !saturated ==> devsq == spec_devsq_sum(ivs, smean, j as int),
                saturated ==> spec_devsq_sum(ivs, smean, j as int) > u128::MAX,
                spec_devsq_sum(ivs, smean, j as int) >= devsq,
            decreases count - j,
        {
            proof {
                assert(spec_leq_u64()(sorted@[j as int], sorted@[j + 1]));
            }
            let delta = sorted[j + 1] - sorted[j];
            let dev: u128 = if delta as u128 >= mean as u128 {
                delta as u128 - mean as u128
            } else {
                mean as u128 - delta as u128
            };
            proof {
                assert(dev * dev <= 0xFFFF_FFFF_FFFF_FFFFu128 * 0xFFFF_FFFF_FFFF_FFFFu128)
                    by (nonlinear_arith)
                    requires
                        0 <= dev <= 0xFFFF_FFFF_FFFF_FFFFu128,
                ;
                assert(dev * dev == (ivs[j as int] - smean) * (ivs[j as int] - smean))
                    by (nonlinear_arith)
                    requires
                        dev == spec_abs(ivs[j as int] - smean),
                ;
            }
            let sq: u128 = dev * dev;
            if !saturated && sq <= u128::MAX - devsq {
                devsq = devsq + sq;
            } else {
                saturated = true;
            }
            j = j + 1;
        }
        if saturated {
            return u64::MAX;
        }
        let variance: u128 = devsq / (count as u128);
        let r = isqrt_u128(variance);
        proof {
            assert(r <= u64::MAX) by (nonlinear_arith)
                requires
                    r * r <= variance,
                    variance <= u128::MAX,
                    r <= u128::MAX,
                    (r + 1) * (r + 1) > variance,
            ;
        }
        r as u64
    }
}

/// Ascending order on 32-bit values.
pub open spec fn spec_leq_u32() -> spec_fn(u32, u32) -> bool {
    |a: u32, b: u32| a <= b
}

/// Ascending order on 64-bit values.
pub open spec fn spec_leq_u64() -> spec_fn(u64, u64) -> bool {
    |a: u64, b: u64| a <= b
}

/// The sequence numbers strictly between `a` and `b`, ascending.
pub open spec fn spec_range_after(a: u32, b: u32) -> Seq<u32> {
    Seq::new(
        if a + 1 < b {
            (b - a - 1) as nat
        } else {
            0
        },
        |i: int| (a + 1 + i) as u32,
    )
}

/// The missing numbers of a sorted snapshot: for each adjacent pair, the
/// numbers strictly between them.
pub open spec fn spec_gaps(s: Seq<u32>) -> Seq<u32>
    decreases s.len(),
{
    if s.len() < 2 {
        Seq::empty()
    } else {
        spec_gaps(s.drop_last()) + spec_range_after(s[s.len() - 2], s[s.len() - 1])
    }
}

/// Inter-arrival deltas of a sorted timestamp snapshot.
pub open spec fn spec_intervals(ts: Seq<u64>) -> Seq<int> {
    Seq::new((ts.len() - 1) as nat, |i: int| ts[i + 1] - ts[i])
}

/// Sum of the first `n` values.
pub open spec fn spec_sum_seq(s: Seq<int>, n: int) -> int
    decreases n,
{
    if n <= 0 {
        0
    } else {
        spec_sum_seq(s, n - 1) + s[n - 1]
    }
}

/// Sum of squared deviations from `mean` over the first `n` values.
pub open spec fn spec_devsq_sum(s: Seq<int>, mean: int, n: int) -> int
    decreases n,
{
    if n <= 0 {
        0
    } else {
        spec_devsq_sum(s, mean, n - 1) + (s[n - 1] - mean) * (s[n - 1] - mean)
    }
}

/// Sorts 32-bit values ascending by insertion.
fn sort_u32(input: &Vec<u32>) -> (out: Vec<u32>)
    ensures
        out@.len() == input@.len(),
        out@.to_multiset() == input@.to_multiset(),
        vstd::relations::sorted_by(out@, spec_leq_u32()),
{
    let ghost leq = spec_leq_u32();
    let mut out: Vec<u32> = Vec::new();
    let n = input.len();
    let mut i: usize = 0;
    proof {
        assert(input@.take(0) =~= Seq::<u32>::empty());
        assert(out@.to_multiset() =~= input@.take(0).to_multiset());
    }
    while i < n
        invariant
            n == input@.len(),
            i <= n,
            out@.len() == i,
            out@.to_multiset() == input@.take(i as int).to_multiset(),
            vstd::relations::sorted_by(out@, spec_leq_u32()),
        decreases n - i,
    {
        let x = input[i];
        let mut k: usize = 0;
        while k < out.len() && out[k] <= x
            invariant
                k <= out@.len(),
                forall|j: int| 0 <= j < k ==> #[trigger] out@[j] <= x,
            decreases out@.len() - k,
        {
            k = k + 1;
        }
        let ghost out_pre = out@;
        out.insert(k, x);
        proof {
            vstd::seq_lib::to_multiset_insert(out_pre, k as int, x);
            vstd::seq_lib::to_multiset_build(input@.take(i as int), input@[i as int]);
            assert(input@.take(i + 1) =~= input@.take(i as int).push(input@[i as int]));
            assert(out@.to_multiset() =~= input@.take(i + 1).to_multiset());
            assert forall|a: int, b: int|
                0 <= a < b < out@.len() implies spec_leq_u32()(out@[a], out@[b]) by {
                if b < k {
                    assert(out@[a] == out_pre[a] && out@[b] == out_pre[b]);
                    assert(spec_leq_u32()(out_pre[a], out_pre[b]));
                } else if a > k {
                    assert(out@[a] == out_pre[a - 1] && out@[b] == out_pre[b - 1]);
                    assert(spec_leq_u32()(out_pre[a - 1], out_pre[b - 1]));
                } else if a == k {
                    assert(out@[b] == out_pre[b - 1]);
                    assert(!(out_pre[k as int] <= x));
                    assert(spec_leq_u32()(out_pre[k as int], out_pre[b - 1]) || b - 1 == k);
                } else {
                    assert(out@[a] == out_pre[a]);
                    if b == k {
                        assert(out_pre[a] <= x);
                    } else {
                        assert(out@[b] == out_pre[b - 1]);
                        assert(spec_leq_u32()(out_pre[a], out_pre[b - 1]) || a == b - 1);
                        assert(out_pre[a] <= x || b - 1 > a);
                    }
                }
            }
        }
        i = i + 1;
    }
    proof {
        assert(input@.take(n as int) =~= input@);
        vstd::seq_lib::to_multiset_len(out@);
        vstd::seq_lib::to_multiset_len(input@);
    }
    out
}

/// Sorts 64-bit values ascending by insertion.
fn sort_u64(input: &Vec<u64>) -> (out: Vec<u64>)
    ensures
        out@.len() == input@.len(),
        out@.to_multiset() == input@.to_multiset(),
        vstd::relations::sorted_by(out@, spec_leq_u64()),
{
    let mut out: Vec<u64> = Vec::new();
    let n = input.len();
    let mut i: usize = 0;
    proof {
        assert(input@.take(0) =~= Seq::<u64>::empty());
        assert(out@.to_multiset() =~= input@.take(0).to_multiset());
    }
    while i < n
        invariant
            n == input@.len(),
            i <= n,
            out@.len() == i,
            out@.to_multiset() == input@.take(i as int).to_multiset(),
            vstd::relations::sorted_by(out@, spec_leq_u64()),
        decreases n - i,
    {
        let x = input[i];
        let mut k: usize = 0;
        while k < out.len() && out[k] <= x
            invariant
                k <= out@.len(),
                forall|j: int| 0 <= j < k ==> #[trigger] out@[j] <= x,
            decreases out@.len() - k,
        {
            k = k + 1;
        }
        let ghost out_pre = out@;
        out.insert(k, x);
        proof {
            vstd::seq_lib::to_multiset_insert(out_pre, k as int, x);
            vstd::seq_lib::to_multiset_build(input@.take(i as int), input@[i as int]);
            assert(input@.take(i + 1) =~= input@.take(i as int).push(input@[i as int]));
            assert(out@.to_multiset() =~= input@.take(i + 1).to_multiset());
            assert forall|a: int, b: int|
                0 <= a < b < out@.len() implies spec_leq_u64()(out@[a], out@[b]) by {
                if b < k {
                    assert(out@[a] == out_pre[a] && out@[b] == out_pre[b]);
                    assert(spec_leq_u64()(out_pre[a], out_pre[b]));
                } else if a > k {
                    assert(out@[a] == out_pre[a - 1] && out@[b] == out_pre[b - 1]);
                    assert(spec_leq_u64()(out_pre[a - 1], out_pre[b - 1]));
                } else if a == k {
                    assert(out@[b] == out_pre[b - 1]);
                    assert(!(out_pre[k as int] <= x));
                    assert(spec_leq_u64()(out_pre[k as int], out_pre[b - 1]) || b - 1 == k);
                } else {
                    assert(out@[a] == out_pre[a]);
                    if b == k {
                        assert(out_pre[a] <= x);
                    } else {
                        assert(out@[b] == out_pre[b - 1]);
                        assert(spec_leq_u64()(out_pre[a], out_pre[b - 1]) || a == b - 1);
                        assert(out_pre[a] <= x || b - 1 > a);
                    }
                }
            }
        }
        i = i + 1;
    }
    proof {
        assert(input@.take(n as int) =~= input@);
        vstd::seq_lib::to_multiset_len(out@);
        vstd::seq_lib::to_multiset_len(input@);
    }
    out
}

/// Snapshot of a buffer's occupancy and drop accounting. The drop rate
/// is reported in permille (tenths of a percent).
#[derive(Debug, Clone, Copy, PartialEq, Eq, Structural)]
pub struct BufferStats {
    /// Packets currently resident.
    pub current_size: usize,
    /// Maximum resident packets.
    pub capacity: usize,
    /// Packets ever pushed.
    pub total_packets: usize,
    /// Packets dropped.
    pub dropped_packets: usize,
    /// `dropped / total` in permille.
    pub drop_rate_permille: u64,
}

/// No re-release: the push indices a buffer has ever handed out are
/// pairwise distinct, so across any interleaving of pushes and drains no
/// packet instance appears in two releases.
pub proof fn lemma_no_rerelease(b: CircularBuffer)
    requires
        b.wf(),
    ensures
        forall|i: int, j: int|
            0 <= i < j < b.released@.len() ==> #[trigger] b.released@[i] != #[trigger] b.released@[j],
{
}

/// Order preservation: releases happen in push order. The stream of
/// released packets is the push history restricted to a strictly
/// increasing sequence of push indices, so within one sender's stream
/// the receiver-observed order is the send order, gaps allowed.
pub proof fn lemma_release_order(b: CircularBuffer)
    requires
        b.wf(),
    ensures
        forall|i: int, j: int|
            0 <= i < j < b.released@.len() ==> #[trigger] b.released@[i] < #[trigger] b.released@[j],
        b.spec_released_packets().len() == b.released@.len(),
        forall|k: int|
            0 <= k < b.released@.len() ==> b.spec_released_packets()[k] == b.history@[#[trigger] b.released@[k]],
{
}

/// Order preservation, carried to the packets themselves: any ordering
/// that holds pairwise along the push history — such as non-decreasing
/// sequence numbers modulo wrap within one sender's stream — holds
/// pairwise along the released stream, gaps allowed.
pub proof fn lemma_release_preserves_order(
    b: CircularBuffer,
    ord: spec_fn(AudioPacket, AudioPacket) -> bool,
)
    requires
        b.wf(),
        forall|i: int, j: int|
            0 <= i < j < b.history@.len() ==> #[trigger] ord(b.history@[i], b.history@[j]),
    ensures
        forall|i: int, j: int|
            0 <= i < j < b.released@.len() ==> #[trigger] ord(
                b.spec_released_packets()[i],
                b.spec_released_packets()[j],
            ),
{
    assert forall|i: int, j: int|
        0 <= i < j < b.released@.len() implies #[trigger] ord(
        b.spec_released_packets()[i],
        b.spec_released_packets()[j],
    ) by {
        assert(b.released@[i] < b.released@[j]);
        assert(ord(b.history@[b.released@[i]], b.history@[b.released@[j]]));
    }
}

/// Helper for the FIFO-under-overflow law: pushing a sequence into a
/// buffer that is no fuller than its capacity leaves the tail of the
/// combined stream, capped at the capacity.
proof fn lemma_push_all_general(view: Seq<AudioPacket>, cap: nat, ps: Seq<AudioPacket>)
    requires
        1 <= cap,
        view.len() <= cap,
    ensures
        spec_push_all(view, cap, ps) =~= {
            let full = view + ps;
            if full.len() > cap {
                full.skip(full.len() - cap)
            } else {
                full
            }
        },
    decreases ps.len(),
{
    let full = view + ps;
    if ps.len() == 0 {
        assert(full =~= view);
    } else {
        let v1 = spec_push(view, cap, ps[0]);
        lemma_push_all_general(v1, cap, ps.drop_first());
        if view.len() >= cap {
            assert(v1 + ps.drop_first() =~= full.skip(1));
        } else {
            assert(v1 + ps.drop_first() =~= full);
        }
        let rec = spec_push_all(v1, cap, ps.drop_first());
        let full1 = v1 + ps.drop_first();
        if full1.len() > cap {
            assert(rec =~= full1.skip(full1.len() - cap));
            if view.len() >= cap {
                assert(full.skip(1).skip(full1.len() - cap) =~= full.skip(full.len() - cap));
            }
        } else {
            if view.len() >= cap {
                assert(full.skip(1) =~= full.skip(full.len() - cap));
            }
        }
    }
}

/// Helper: eviction count of a run of pushes equals the overflow of the
/// combined stream beyond the capacity.
proof fn lemma_evictions_general(len: nat, cap: nat, n: nat)
    requires
        1 <= cap,
        len <= cap,
    ensures
        spec_evictions(len, cap, n) == if len + n > cap {
            len + n - cap
        } else {
            0
        },
    decreases n,
{
    if n > 0 {
        if len >= cap {
            lemma_evictions_general(len, cap, (n - 1) as nat);
        } else {
            lemma_evictions_general(len + 1, cap, (n - 1) as nat);
        }
    }
}

/// Length of the longest releasable prefix: the leading packets whose
/// age has reached the target latency.
pub open spec fn spec_ripe_prefix(s: Seq<AudioPacket>, now: u64, target: u64) -> int
    decreases s.len(),
{
    if s.len() == 0 {
        0
    } else if spec_ripe(s[0], now, target) {
        1 + spec_ripe_prefix(s.drop_first(), now, target)
    } else {
        0
    }
}

/// The ripe prefix is the unique cut point: everything before it is
/// ripe and the packet at it, if any, is not.
pub proof fn lemma_ripe_prefix_character(s: Seq<AudioPacket>, now: u64, target: u64, k: int)
    requires
        0 <= k <= s.len(),
        forall|i: int| 0 <= i < k ==> spec_ripe(#[trigger] s[i], now, target),
        k == s.len() || !spec_ripe(s[k], now, target),
    ensures
        spec_ripe_prefix(s, now, target) == k,
    decreases s.len(),
{
    if k == 0 {
    } else {
        assert(spec_ripe(s[0], now, target));
        lemma_ripe_prefix_character(s.drop_first(), now, target, k - 1);
    }
}

/// FIFO under overflow: pushing `ps` into a fresh buffer of capacity
/// `cap`, with `ps` at least `cap` long, leaves exactly the last `cap`
/// packets resident, in order, and evicts exactly `ps.len() - cap`.
pub proof fn lemma_fifo_under_overflow(ps: Seq<AudioPacket>, cap: nat)
    requires
        1 <= cap,
        ps.len() >= cap,
    ensures
        spec_push_all(Seq::empty(), cap, ps) == ps.skip(ps.len() - cap),
        spec_evictions(0, cap, ps.len()) == ps.len() - cap,
{
    lemma_push_all_general(Seq::empty(), cap, ps);
    assert(Seq::<AudioPacket>::empty() + ps =~= ps);
    if ps.len() > cap {
        assert((Seq::<AudioPacket>::empty() + ps).skip(ps.len() - cap) =~= ps.skip(
            ps.len() - cap,
        ));
    } else {
        assert(ps.skip(0) =~= ps);
        assert(Seq::<AudioPacket>::empty() + ps =~= ps.skip(ps.len() - cap));
    }
    lemma_evictions_general(0, cap, ps.len());
}

/// Lowest allowed target latency, in microseconds.
pub const MIN_TARGET_LATENCY_US: u64 = 20_000;

/// Highest allowed target latency, in microseconds.
pub const MAX_TARGET_LATENCY_US: u64 = 500_000;

/// A requested target latency in milliseconds, clamped into the allowed
/// range and converted to microseconds.
pub open spec fn spec_clamped_target(ms: u64) -> u64 {
    if ms * 1000 > MAX_TARGET_LATENCY_US {
        MAX_TARGET_LATENCY_US
    } else if ms * 1000 < MIN_TARGET_LATENCY_US {
        MIN_TARGET_LATENCY_US
    } else {
        (ms * 1000) as u64
    }
}

/// Jitter buffer of one participant: a main audio buffer and a smaller
/// control buffer, with a target latency that holds audio back until ripe.
pub struct AudioBuffer {
    /// Main buffer for audio and silence packets.
    pub audio_buffer: CircularBuffer,
    /// Buffer for control packets, a quarter of the audio capacity.
    pub control_buffer: CircularBuffer,
    /// Age an audio packet must reach before release, in microseconds;
    /// always between `MIN_TARGET_LATENCY_US` and `MAX_TARGET_LATENCY_US`.
    pub target_latency_us: u64,
}

/// Occupancy and drop accounting of both sub-buffers, and the current
/// latency target.
#[derive(Debug, Clone, Copy, PartialEq, Eq, Structural)]
pub struct AudioBufferStats {
    /// Statistics of the audio sub-buffer.
    pub audio_buffer: BufferStats,
    /// Statistics of the control sub-buffer.
    pub control_buffer: BufferStats,
    /// Current target latency in microseconds.
    pub target_latency_us: u64,
}

impl AudioBuffer {
    /// Both sub-buffers are well formed and the latency target is in range.
    pub open spec fn wf(self) -> bool {
        &&& self.audio_buffer.wf()
        &&& self.control_buffer.wf()
        &&& MIN_TARGET_LATENCY_US <= self.target_latency_us <= MAX_TARGET_LATENCY_US
    }

    /// Creates a buffer of the given capacity whose control sub-buffer
    /// holds a quarter as much, with the target latency clamped into range.
    pub fn new(capacity: usize, target_latency_ms: u64) -> (b: AudioBuffer)
        requires
            4 <= capacity,
        ensures
            b.wf(),
            b.audio_buffer.capacity == capacity,
            b.control_buffer.capacity == capacity / 4,
            b.target_latency_us == spec_clamped_target(target_latency_ms),
            b.audio_buffer.buffer@.len() == 0,
            b.control_buffer.buffer@.len() == 0,
            b.audio_buffer.history@.len() == 0,
            b.control_buffer.history@.len() == 0,
            b.audio_buffer.total_packets == 0,
            b.audio_buffer.dropped_packets == 0,
    {
        let target_latency_us: u64 = if target_latency_ms >= 500 {
            500_000
        } else if target_latency_ms * 1000 < 20_000 {
            20_000
        } else {
            target_latency_ms * 1000
        };
        AudioBuffer {
            audio_buffer: CircularBuffer::new(capacity),
            control_buffer: CircularBuffer::new(capacity / 4),
            target_latency_us,
        }
    }

    /// Pushes a packet into the control sub-buffer if it is a control
    /// event, else into the audio sub-buffer.
    pub fn push(&mut self, packet: AudioPacket)
        requires
            old(self).wf(),
        ensures
            final(self).wf(),
            final(self).target_latency_us == old(self).target_latency_us,
            packet.header.packet_type == PacketType::AudioStart || packet.header.packet_type
                == PacketType::AudioStop || packet.header.packet_type == PacketType::Sync ==> {
                &&& final(self).audio_buffer == old(self).audio_buffer
                &&& final(self).control_buffer.buffer@ == spec_push(
                    old(self).control_buffer.buffer@,
                    old(self).control_buffer.capacity as nat,
                    packet,
                )
                &&& final(self).control_buffer.history@ == old(self).control_buffer.history@.push(packet)
                &&& final(self).control_buffer.released@ == old(self).control_buffer.released@
                &&& final(self).control_buffer.capacity == old(self).control_buffer.capacity
                &&& (old(self).control_buffer.total_packets < usize::MAX ==> final(self).control_buffer.total_packets == old(self).control_buffer.total_packets + 1)
                &&& (old(self).control_buffer.buffer@.len() < old(self).control_buffer.capacity
                    ==> final(self).control_buffer.dropped_packets == old(self).control_buffer.dropped_packets)
                &&& (old(self).control_buffer.buffer@.len() >= old(self).control_buffer.capacity
                    && old(self).control_buffer.dropped_packets < usize::MAX ==> final(self).control_buffer.dropped_packets == old(self).control_buffer.dropped_packets + 1)
            },
            !(packet.header.packet_type == PacketType::AudioStart || packet.header.packet_type
                == PacketType::AudioStop || packet.header.packet_type == PacketType::Sync) ==> {
                &&& final(self).control_buffer == old(self).control_buffer
                &&& final(self).audio_buffer.buffer@ == spec_push(
                    old(self).audio_buffer.buffer@,
                    old(self).audio_buffer.capacity as nat,
                    packet,
                )
                &&& final(self).audio_buffer.history@ == old(self).audio_buffer.history@.push(
                    packet,
                )
                &&& final(self).audio_buffer.released@ == old(self).audio_buffer.released@
                &&& (old(self).audio_buffer.total_packets < usize::MAX ==> final(self).audio_buffer.total_packets == old(self).audio_buffer.total_packets + 1)
                &&& (old(self).audio_buffer.buffer@.len() < old(self).audio_buffer.capacity
                    ==> final(self).audio_buffer.dropped_packets == old(self).audio_buffer.dropped_packets)
                &&& (old(self).audio_buffer.buffer@.len() >= old(self).audio_buffer.capacity
                    && old(self).audio_buffer.dropped_packets < usize::MAX ==> final(self).audio_buffer.dropped_packets == old(self).audio_buffer.dropped_packets + 1)
                &&& final(self).audio_buffer.capacity == old(self).audio_buffer.capacity
            },
    {
        if packet.is_control() {
            self.control_buffer.push(packet);
        } else {
            self.audio_buffer.push(packet);
        }
    }

    /// Releases the packets that are ready: every control packet at
    /// once, then the leading audio packets whose age has reached the
    /// target latency, in arrival order. An audio packet is never
    /// released before its age reaches the target latency.
    pub fn get_ready_packets(&mut self, now: u64) -> (out: Vec<AudioPacket>)
        requires
            old(self).wf(),
        ensures
            final(self).wf(),
            final(self).target_latency_us == old(self).target_latency_us,
            ({
                let ctrl0 = old(self).control_buffer.buffer@;
                let abuf0 = old(self).audio_buffer.buffer@;
                let k = spec_ripe_prefix(abuf0, now, old(self).target_latency_us);
                &&& out@ == ctrl0 + abuf0.take(k)
                &&& final(self).audio_buffer.buffer@ == abuf0.skip(k)
                &&& final(self).control_buffer.buffer@.len() == 0
                &&& final(self).audio_buffer.released@ == old(self).audio_buffer.released@ + old(self).audio_buffer.push_idxs@.take(k)
                &&& final(self).control_buffer.released@ == old(self).control_buffer.released@
                    + old(self).control_buffer.push_idxs@
            }),
            final(self).audio_buffer.history@ == old(self).audio_buffer.history@,
            final(self).control_buffer.history@ == old(self).control_buffer.history@,
            final(self).audio_buffer.capacity == old(self).audio_buffer.capacity,
            final(self).control_buffer.capacity == old(self).control_buffer.capacity,
            final(self).audio_buffer.total_packets == old(self).audio_buffer.total_packets,
            final(self).audio_buffer.dropped_packets == old(self).audio_buffer.dropped_packets,
            final(self).control_buffer.total_packets == old(self).control_buffer.total_packets,
            final(self).control_buffer.dropped_packets == old(self).control_buffer.dropped_packets,
            forall|i: int|
                old(self).control_buffer.buffer@.len() <= i < out@.len() ==> spec_ripe(
                    #[trigger] out@[i],
                    now,
                    old(self).target_latency_us,
                ),
    {
        let ghost abuf0 = self.audio_buffer.buffer@;
        let ghost idxs0 = self.audio_buffer.push_idxs@;
        let ghost rel0 = self.audio_buffer.released@;
        let ghost target0 = self.target_latency_us;
        let mut out = self.control_buffer.drain();
        let ghost outc = out@;
        let ghost cb = self.control_buffer;
        let mut j: usize = 0;
        let mut stop = false;
        proof {
            assert(out@ =~= outc + abuf0.take(0));
            assert(self.audio_buffer.buffer@ =~= abuf0.skip(0));
            assert(self.audio_buffer.push_idxs@ =~= idxs0.skip(0));
            assert(self.audio_buffer.released@ =~= rel0 + idxs0.take(0));
        }
        while !stop
            invariant
                self.audio_buffer.wf(),
                self.control_buffer == cb,
                self.control_buffer.wf(),
                self.target_latency_us == target0,
                abuf0.len() == idxs0.len(),
                abuf0.len() <= usize::MAX,
                j <= abuf0.len(),
                out@ == outc + abuf0.take(j as int),
                self.audio_buffer.buffer@ == abuf0.skip(j as int),
                self.audio_buffer.push_idxs@ == idxs0.skip(j as int),
                self.audio_buffer.released@ == rel0 + idxs0.take(j as int),
                self.audio_buffer.history@ == old(self).audio_buffer.history@,
                self.audio_buffer.capacity == old(self).audio_buffer.capacity,
                self.audio_buffer.total_packets == old(self).audio_buffer.total_packets,
                self.audio_buffer.dropped_packets == old(self).audio_buffer.dropped_packets,
                forall|i: int| 0 <= i < j ==> spec_ripe(#[trigger] abuf0[i], now, target0),
                stop ==> j == abuf0.len() || !spec_ripe(abuf0[j as int], now, target0),
            decreases (abuf0.len() - j) + (if stop {
                0int
            } else {
                1
            }),
        {
            if self.audio_buffer.len() == 0 {
                stop = true;
            } else {
                let ripe = self.audio_buffer.buffer[0].header.age_micros(now)
                    >= self.target_latency_us;
                if ripe {
                    let p = self.audio_buffer.pop();
                    match p {
                        Some(p) => {
                            out.push(p);
                        },
                        None => {},
                    }
                    proof {
                        assert(out@ =~= outc + abuf0.take(j + 1));
                        assert(self.audio_buffer.buffer@ =~= abuf0.skip(j + 1));
                        assert(self.audio_buffer.push_idxs@ =~= idxs0.skip(j + 1));
                        assert(self.audio_buffer.released@ =~= rel0 + idxs0.take(j + 1));
                    }
                    j = j + 1;
                } else {
                    stop = true;
                }
            }
        }
        proof {
            lemma_ripe_prefix_character(abuf0, now, target0, j as int);
        }
        out
    }

    /// Sweeps stale packets out of both sub-buffers, counting them as drops.
    pub fn cleanup(&mut self, now: u64)
        requires
            old(self).wf(),
        ensures
            final(self).wf(),
            final(self).target_latency_us == old(self).target_latency_us,
            final(self).audio_buffer.buffer@ == old(self).audio_buffer.buffer@.filter(
                spec_fresh_at(now),
            ),
            final(self).control_buffer.buffer@ == old(self).control_buffer.buffer@.filter(
                spec_fresh_at(now),
            ),
            final(self).audio_buffer.released@ == old(self).audio_buffer.released@,
            final(self).control_buffer.released@ == old(self).control_buffer.released@,
            final(self).audio_buffer.history@ == old(self).audio_buffer.history@,
            final(self).audio_buffer.total_packets == old(self).audio_buffer.total_packets,
            old(self).audio_buffer.dropped_packets + old(self).audio_buffer.buffer@.len()
                <= usize::MAX ==> final(self).audio_buffer.dropped_packets == old(self).audio_buffer.dropped_packets + old(self).audio_buffer.buffer@.len() - final(self).audio_buffer.buffer@.len(),
    {
        self.audio_buffer.cleanup_stale(now);
        self.control_buffer.cleanup_stale(now);
    }

    /// Statistics of both sub-buffers and the latency target.
    pub fn stats(&self) -> (s: AudioBufferStats)
        requires
            self.wf(),
        ensures
            s.audio_buffer.current_size == self.audio_buffer.buffer@.len(),
            s.audio_buffer.capacity == self.audio_buffer.capacity,
            s.audio_buffer.total_packets == self.audio_buffer.total_packets,
            s.audio_buffer.dropped_packets == self.audio_buffer.dropped_packets,
            s.control_buffer.current_size == self.control_buffer.buffer@.len(),
            s.target_latency_us == self.target_latency_us,
    {
        AudioBufferStats {
            audio_buffer: self.audio_buffer.stats(),
            control_buffer: self.control_buffer.stats(),
            target_latency_us: self.target_latency_us,
        }
    }

    /// Sets the target latency, clamped into the allowed range.
    pub fn adjust_latency(&mut self, new_latency_ms: u64)
        requires
            old(self).wf(),
        ensures
            final(self).wf(),
            final(self).target_latency_us == spec_clamped_target(new_latency_ms),
            final(self).audio_buffer == old(self).audio_buffer,
            final(self).control_buffer == old(self).control_buffer,
    {
        self.target_latency_us = if new_latency_ms >= 500 {
            500_000
        } else if new_latency_ms * 1000 < 20_000 {
            20_000
        } else {
            new_latency_ms * 1000
        };
    }

    /// Target latency after one auto-tune step, given the audio buffer's
    /// drop rate in permille, its fill and its capacity: raise by a tenth
    /// on a drop rate over five percent, lower by a twentieth when drops
    /// are under one percent and the buffer is at most half full, and
    /// never leave the allowed range.
    pub open spec fn spec_auto_tuned(
        target: u64,
        rate_permille: nat,
        fill: nat,
        cap: nat,
    ) -> u64 {
        if rate_permille > 50 {
            if target * 110 / 100 > MAX_TARGET_LATENCY_US {
                MAX_TARGET_LATENCY_US
            } else {
                (target * 110 / 100) as u64
            }
        } else if rate_permille < 10 && fill <= cap / 2 {
            if target * 95 / 100 < MIN_TARGET_LATENCY_US {
                MIN_TARGET_LATENCY_US
            } else {
                (target * 95 / 100) as u64
            }
        } else {
            target
        }
    }

    /// Auto-tunes the target latency from the audio buffer's drop rate
    /// and fill. The result never exceeds 500 ms nor drops below 20 ms.
    pub fn auto_adjust_latency(&mut self)
        requires
            old(self).wf(),
        ensures
            final(self).wf(),
            final(self).audio_buffer == old(self).audio_buffer,
            final(self).control_buffer == old(self).control_buffer,
            final(self).target_latency_us == AudioBuffer::spec_auto_tuned(
                old(self).target_latency_us,
                CircularBuffer::spec_drop_rate_permille(
                    old(self).audio_buffer.dropped_packets as nat,
                    old(self).audio_buffer.total_packets as nat,
                ),
                old(self).audio_buffer.buffer@.len(),
                old(self).audio_buffer.capacity as nat,
            ),
            MIN_TARGET_LATENCY_US <= final(self).target_latency_us <= MAX_TARGET_LATENCY_US,
    {
        let audio_stats = self.audio_buffer.stats();
        if audio_stats.drop_rate_permille > 50 {
            let raised = self.target_latency_us * 110 / 100;
            self.target_latency_us = if raised > 500_000 {
                500_000
            } else {
                raised
            };
        } else if audio_stats.drop_rate_permille < 10 && audio_stats.current_size
            <= audio_stats.capacity / 2 {
            let lowered = self.target_latency_us * 95 / 100;
            self.target_latency_us = if lowered < 20_000 {
                20_000
            } else {
                lowered
            };
        }
    }

    /// Releases packets with cross-channel synchronisation: every control
    /// packet at once, then the leading audio packets that either stay
    /// within the skew bound of the channel's latest routed timestamp or
    /// are past their latency deadline.
    pub fn get_synchronized_packets(&mut self, now: u64, channel_sync: &IdTable<u64>) -> (out: Vec<
        AudioPacket,
    >)
        requires
            old(self).wf(),
            channel_sync.wf(),
        ensures
            final(self).wf(),
            final(self).target_latency_us == old(self).target_latency_us,
            ({
                let ctrl0 = old(self).control_buffer.buffer@;
                let abuf0 = old(self).audio_buffer.buffer@;
                let k = spec_sync_prefix(
                    abuf0,
                    now,
                    old(self).target_latency_us,
                    *channel_sync,
                );
                &&& out@ == ctrl0 + abuf0.take(k)
                &&& final(self).audio_buffer.buffer@ == abuf0.skip(k)
                &&& final(self).control_buffer.buffer@.len() == 0
                &&& final(self).audio_buffer.released@ == old(self).audio_buffer.released@ + old(
                    self,
                ).audio_buffer.push_idxs@.take(k)
            }),
            final(self).audio_buffer.history@ == old(self).audio_buffer.history@,
            final(self).audio_buffer.total_packets == old(self).audio_buffer.total_packets,
            final(self).audio_buffer.dropped_packets == old(self).audio_buffer.dropped_packets,
            forall|i: int|
                old(self).control_buffer.buffer@.len() <= i < out@.len() ==> spec_sync_ripe(
                    #[trigger] out@[i],
                    now,
                    old(self).target_latency_us,
                    *channel_sync,
                ),
    {
        let ghost abuf0 = self.audio_buffer.buffer@;
        let ghost idxs0 = self.audio_buffer.push_idxs@;
        let ghost rel0 = self.audio_buffer.released@;
        let ghost target0 = self.target_latency_us;
        let mut out = self.control_buffer.drain();
        let ghost outc = out@;
        let ghost cb = self.control_buffer;
        let mut j: usize = 0;
        let mut stop = false;
        proof {
            assert(out@ =~= outc + abuf0.take(0));
            assert(self.audio_buffer.buffer@ =~= abuf0.skip(0));
            assert(self.audio_buffer.push_idxs@ =~= idxs0.skip(0));
            assert(self.audio_buffer.released@ =~= rel0 + idxs0.take(0));
        }
        while !stop
            invariant
                self.audio_buffer.wf(),
                channel_sync.wf(),
                self.control_buffer == cb,
                self.control_buffer.wf(),
                self.target_latency_us == target0,
                abuf0.len() == idxs0.len(),
                abuf0.len() <= usize::MAX,
                j <= abuf0.len(),
                out@ == outc + abuf0.take(j as int),
                self.audio_buffer.buffer@ == abuf0.skip(j as int),
                self.audio_buffer.push_idxs@ == idxs0.skip(j as int),
                self.audio_buffer.released@ == rel0 + idxs0.take(j as int),
                self.audio_buffer.history@ == old(self).audio_buffer.history@,
                self.audio_buffer.capacity == old(self).audio_buffer.capacity,
                self.audio_buffer.total_packets == old(self).audio_buffer.total_packets,
                self.audio_buffer.dropped_packets == old(self).audio_buffer.dropped_packets,
                forall|i: int|
                    0 <= i < j ==> spec_sync_ripe(#[trigger] abuf0[i], now, target0, *channel_sync),
                stop ==> j == abuf0.len() || !spec_sync_ripe(
                    abuf0[j as int],
                    now,
                    target0,
                    *channel_sync,
                ),
            decreases (abuf0.len() - j) + (if stop {
                0int
            } else {
                1
            }),
        {
            if self.audio_buffer.len() == 0 {
                stop = true;
            } else {
                let latest: u64 = match channel_sync.get(
                    self.audio_buffer.buffer[0].header.channel_id,
                ) {
                    Some(t) => *t,
                    None => 0,
                };
                let within_skew = if latest >= u64::MAX - MAX_SYNC_SKEW_US {
                    true
                } else {
                    self.audio_buffer.buffer[0].header.timestamp <= latest + MAX_SYNC_SKEW_US
                };
                let past_deadline = self.audio_buffer.buffer[0].header.age_micros(now)
                    >= self.target_latency_us;
                if within_skew || past_deadline {
                    let p = self.audio_buffer.pop();
                    match p {
                        Some(p) => {
                            out.push(p);
                        },
                        None => {},
                    }
                    proof {
                        assert(out@ =~= outc + abuf0.take(j + 1));
                        assert(self.audio_buffer.buffer@ =~= abuf0.skip(j + 1));
                        assert(self.audio_buffer.push_idxs@ =~= idxs0.skip(j + 1));
                        assert(self.audio_buffer.released@ =~= rel0 + idxs0.take(j + 1));
                    }
                    j = j + 1;
                } else {
                    stop = true;
                }
            }
        }
        proof {
            lemma_sync_prefix_character(abuf0, now, target0, *channel_sync, j as int);
        }
        out
    }

    /// Occupancy of the audio buffer in permille of its capacity.
    pub open spec fn spec_fill_permille(len: nat, cap: nat) -> nat {
        if cap > 0 {
            len * 1000 / cap
        } else {
            0
        }
    }

    /// Buffer health in permille: full health between 30% and 70% fill,
    /// critical below 10% or above 90%, acceptable in between.
    pub open spec fn spec_buffer_health(len: nat, cap: nat) -> nat {
        let fill = Self::spec_fill_permille(len, cap);
        if 300 <= fill <= 700 {
            1000
        } else if fill < 100 || fill > 900 {
            200
        } else {
            600
        }
    }

    /// Quality score in permille: start at full, lose up to three tenths
    /// to drops, three tenths to jitter normalised at 50 ms, two tenths
    /// to missing packets normalised at ten, then scale by buffer health.
    pub open spec fn spec_quality_score(
        drop_permille: nat,
        jitter_ms: nat,
        missing: nat,
        health_permille: nat,
    ) -> nat {
        let d = drop_permille * 300 / 1000;
        let jn = if jitter_ms * 1000 / 50 > 1000 {
            1000nat
        } else {
            jitter_ms * 1000 / 50
        };
        let jp = jn * 300 / 1000;
        let mn = if missing * 1000 / 10 > 1000 {
            1000nat
        } else {
            missing * 1000 / 10
        };
        let mp = mn * 200 / 1000;
        if d + jp + mp >= 1000 {
            0
        } else {
            (((1000 - d - jp - mp) * health_permille / 1000) as nat)
        }
    }

    /// Buffer health in permille, from the audio buffer's fill ratio.
    pub fn calculate_buffer_health(&self) -> (h: u64)
        requires
            self.wf(),
        ensures
            h == Self::spec_buffer_health(
                self.audio_buffer.buffer@.len(),
                self.audio_buffer.capacity as nat,
            ),
    {
        let len = self.audio_buffer.len();
        let cap = self.audio_buffer.capacity;
        let fill: u64 = ((len as u128 * 1000) / (cap as u128)) as u64;
        proof {
            assert((len as int) * 1000 / (cap as int) <= 1000) by (nonlinear_arith)
                requires
                    cap >= 1,
                    0 <= len <= cap,
            ;
        }
        if 300 <= fill && fill <= 700 {
            1000
        } else if fill < 100 || fill > 900 {
            200
        } else {
            600
        }
    }

    /// Analyses the stream's quality: loss rate, jitter, mean latency,
    /// missing packets, buffer health and the combined score, all from
    /// the audio sub-buffer at clock reading `now`.
    pub fn analyze_quality(&self, now: u64) -> (m: AudioQualityMetrics)
        requires
            self.wf(),
        ensures
            m.packet_loss_permille == CircularBuffer::spec_drop_rate_permille(
                self.audio_buffer.dropped_packets as nat,
                self.audio_buffer.total_packets as nat,
            ),
            m.buffer_health_permille == Self::spec_buffer_health(
                self.audio_buffer.buffer@.len(),
                self.audio_buffer.capacity as nat,
            ),
            m.quality_score_permille == Self::spec_quality_score(
                m.packet_loss_permille as nat,
                m.jitter_ms as nat,
                m.missing_packets_count as nat,
                m.buffer_health_permille as nat,
            ),
            self.audio_buffer.buffer@.len() == 0 ==> m.average_latency_ms == 0,
            self.audio_buffer.buffer@.len() < 3 ==> m.jitter_ms == 0,
    {
        let audio_stats = self.audio_buffer.stats();
        let missing = self.audio_buffer.detect_missing_packets();
        let jitter_us = self.audio_buffer.calculate_jitter();
        let avg_latency_us = self.audio_buffer.average_latency_us(now);
        let health = self.calculate_buffer_health();
        let jitter_ms = jitter_us / 1000;
        let drop_permille = audio_stats.drop_rate_permille;
        let missing_count = missing.len();

        let d: u64 = drop_permille * 300 / 1000;
        let jn_raw: u128 = (jitter_ms as u128) * 1000 / 50;
        let jn: u64 = if jn_raw > 1000 {
            1000
        } else {
            jn_raw as u64
        };
        let jp: u64 = jn * 300 / 1000;
        let mn_raw: u128 = (missing_count as u128) * 1000 / 10;
        let mn: u64 = if mn_raw > 1000 {
            1000
        } else {
            mn_raw as u64
        };
        let mp: u64 = mn * 200 / 1000;
        let score: u64 = if d + jp + mp >= 1000 {
            0
        } else {
            proof {
                assert((1000 - d - jp - mp) * (health as int) / 1000 <= 1000)
                    by (nonlinear_arith)
                    requires
                        0 <= 1000 - d - jp - mp <= 1000,
                        0 <= health <= 1000,
                ;
            }
            (1000 - d - jp - mp) * health / 1000
        };
        AudioQualityMetrics {
            packet_loss_permille: drop_permille,
            jitter_ms,
            average_latency_ms: avg_latency_us / 1000,
            missing_packets_count: missing_count,
            buffer_health_permille: health,
            quality_score_permille: score,
        }
    }
}

/// Skew bound of synchronised release, in microseconds: a packet may be
/// released early if it stays within this bound of the channel's latest
/// routed timestamp.
pub const MAX_SYNC_SKEW_US: u64 = 50_000;

/// Whether synchronised release lets a packet out: its timestamp stays
/// within the skew bound of the channel's latest routed timestamp, or it
/// is past its latency deadline.
pub open spec fn spec_sync_ripe(
    p: AudioPacket,
    now: u64,
    target_latency_us: u64,
    sync: IdTable<u64>,
) -> bool {
    let latest = match sync.spec_get(p.header.channel_id) {
        Some(t) => t,
        None => 0,
    };
    p.header.timestamp <= latest + MAX_SYNC_SKEW_US || spec_ripe(p, now, target_latency_us)
}

/// Length of the longest releasable prefix under synchronised release.
pub open spec fn spec_sync_prefix(
    s: Seq<AudioPacket>,
    now: u64,
    target: u64,
    sync: IdTable<u64>,
) -> int
    decreases s.len(),
{
    if s.len() == 0 {
        0
    } else if spec_sync_ripe(s[0], now, target, sync) {
        1 + spec_sync_prefix(s.drop_first(), now, target, sync)
    } else {
        0
    }
}

/// The synchronised prefix is the unique cut point.
pub proof fn lemma_sync_prefix_character(
    s: Seq<AudioPacket>,
    now: u64,
    target: u64,
    sync: IdTable<u64>,
    k: int,
)
    requires
        0 <= k <= s.len(),
        forall|i: int| 0 <= i < k ==> spec_sync_ripe(#[trigger] s[i], now, target, sync),
        k == s.len() || !spec_sync_ripe(s[k], now, target, sync),
    ensures
        spec_sync_prefix(s, now, target, sync) == k,
    decreases s.len(),
{
    if k == 0 {
    } else {
        assert(spec_sync_ripe(s[0], now, target, sync));
        lemma_sync_prefix_character(s.drop_first(), now, target, sync, k - 1);
    }
}

/// Quality metrics of one participant's stream. Rates and scores are in
/// permille; times in their named unit.
#[derive(Debug, Clone, Copy, PartialEq, Eq, Structural)]
pub struct AudioQualityMetrics {
    /// Share of pushed packets that were dropped, in permille.
    pub packet_loss_permille: u64,
    /// Inter-arrival jitter in milliseconds.
    pub jitter_ms: u64,
    /// Mean resident age in milliseconds.
    pub average_latency_ms: u64,
    /// Sequence numbers missing between resident packets.
    pub missing_packets_count: usize,
    /// Buffer health in permille.
    pub buffer_health_permille: u64,
    /// Combined quality score in permille.
    pub quality_score_permille: u64,
}

} // verus!

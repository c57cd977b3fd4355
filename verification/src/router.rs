//! Fan-out router: per-channel membership of jitter buffers, endpoint
//! registry, routing statistics and the adaptive quality policy.
//!
//! A packet from a member is pushed into that member's jitter buffer and
//! fanned out to the endpoints of every other member of the channel.
//! Quality modes only influence recipient selection policy and a
//! per-packet decision tag; they never change packet contents.

use vstd::prelude::*;
use crate::packet::AudioPacket;
use crate::packet::UserId;
use crate::packet::ChannelId;
use crate::buffer::AudioBuffer;
use crate::buffer::spec_fresh_at;
use crate::buffer::spec_ripe_prefix;
use crate::table::IdTable;
use crate::table::PairTable;
use crate::table::spec_left_ne;
use crate::table::spec_right_ne;

verus! {

/// A transport address as plain values: an IP (v4 embedded in v6 space)
/// and a port.
#[derive(Debug, Clone, Copy, PartialEq, Eq, Structural)]
pub struct Endpoint {
    /// The IP address as a 128-bit value.
    pub ip: u128,
    /// The UDP port.
    pub port: u16,
}

/// Per-channel routing quality policy.
#[derive(Debug, Clone, Copy, PartialEq, Eq, Structural)]
pub enum QualityMode {
    /// Bandwidth-saving fan-out.
    Low,
    /// Plain fan-out.
    Medium,
    /// Fan-out with recipient slots reserved for future error correction.
    High,
    /// Picks one of the other modes per packet from current statistics.
    Adaptive,
}

/// Routing configuration of one channel.
#[derive(Debug, Clone, Copy, PartialEq, Eq, Structural)]
pub struct ChannelRoutingConfig {
    /// Most members the channel admits.
    pub max_users: usize,
    /// Quality policy of the channel.
    pub quality_mode: QualityMode,
    /// Latency target handed to new jitter buffers, in milliseconds.
    pub latency_target_ms: u64,
    /// Whether echo cancellation is requested (a hint to contributors).
    pub enable_echo_cancellation: bool,
    /// Whether noise suppression is requested (a hint to contributors).
    pub enable_noise_suppression: bool,
    /// Nominal bitrate hint in kilobits per second.
    pub bitrate_kbps: u32,
}

/// The routing configuration a channel starts with.
pub open spec fn spec_default_routing_config() -> ChannelRoutingConfig {
    ChannelRoutingConfig {
        max_users: 10,
        quality_mode: QualityMode::Medium,
        latency_target_ms: 50,
        enable_echo_cancellation: false,
        enable_noise_suppression: false,
        bitrate_kbps: 64,
    }
}

impl Default for ChannelRoutingConfig {
    /// Ten users, plain fan-out, a 50 ms latency target.
    fn default() -> (c: ChannelRoutingConfig)
        ensures
            c == spec_default_routing_config(),
    {
        ChannelRoutingConfig {
            max_users: 10,
            quality_mode: QualityMode::Medium,
            latency_target_ms: 50,
            enable_echo_cancellation: false,
            enable_noise_suppression: false,
            bitrate_kbps: 64,
        }
    }
}

/// Running counters of one channel. Rates are in permille; latency and
/// jitter in milliseconds.
#[derive(Debug, Clone, Copy, PartialEq, Eq, Structural)]
pub struct RoutingStats {
    /// Packets received from members.
    pub packets_received: u64,
    /// Member deliveries attempted (one per recipient per packet).
    pub packets_routed: u64,
    /// Packets actually sent on the wire.
    pub packets_sent: u64,
    /// Payload bytes received.
    pub bytes_received: u64,
    /// Payload bytes sent.
    pub bytes_sent: u64,
    /// Members that recently spoke; a derived view, not an invariant.
    pub active_users: usize,
    /// Members currently connected.
    pub connected_users: usize,
    /// Average delivery latency in milliseconds.
    pub average_latency_ms: u64,
    /// Fraction of packets lost, in permille.
    pub packet_loss_permille: u64,
    /// Arrival jitter in milliseconds.
    pub jitter_ms: u64,
    /// Clock reading when the channel's stats were created, microseconds.
    pub created_at_us: u64,
}

/// Fresh counters for a channel created at the given clock reading.
pub open spec fn spec_fresh_stats(now: u64) -> RoutingStats {
    RoutingStats {
        packets_received: 0,
        packets_routed: 0,
        packets_sent: 0,
        bytes_received: 0,
        bytes_sent: 0,
        active_users: 0,
        connected_users: 0,
        average_latency_ms: 0,
        packet_loss_permille: 0,
        jitter_ms: 0,
        created_at_us: now,
    }
}

/// The concrete fan-out policy an adaptive channel picks for one packet.
#[derive(Debug, Clone, Copy, PartialEq, Eq, Structural)]
pub enum RouteDecision {
    /// Bandwidth-saving fan-out was used.
    Low,
    /// Plain fan-out was used.
    Medium,
    /// Quality fan-out with reserved retransmit slots was used.
    High,
}

/// The policy an adaptive channel picks from its statistics: degraded
/// conditions fall back to the bandwidth-saving path, clean conditions
/// use the quality path, anything else the plain one.
pub open spec fn spec_adaptive_decision(stats: Option<RoutingStats>) -> RouteDecision {
    match stats {
        Some(s) => if s.packet_loss_permille > 50 || s.jitter_ms > 100 {
            RouteDecision::Low
        } else if s.packet_loss_permille < 10 && s.jitter_ms < 20 {
            RouteDecision::High
        } else {
            RouteDecision::Medium
        },
        None => RouteDecision::Medium,
    }
}

/// The decision each quality mode makes for one packet.
pub open spec fn spec_route_decision(mode: QualityMode, stats: Option<RoutingStats>) -> RouteDecision {
    match mode {
        QualityMode::Low => RouteDecision::Low,
        QualityMode::Medium => RouteDecision::Medium,
        QualityMode::High => RouteDecision::High,
        QualityMode::Adaptive => spec_adaptive_decision(stats),
    }
}

/// Endpoints of the members of `channel` other than `from`, in member
/// table order, skipping members without a registered endpoint.
pub open spec fn spec_recipients(
    members: Seq<(u128, u128, AudioBuffer)>,
    addrs: IdTable<Endpoint>,
    channel: ChannelId,
    from: UserId,
) -> Seq<Endpoint>
    decreases members.len(),
{
    if members.len() == 0 {
        Seq::empty()
    } else {
        let rest = spec_recipients(members.drop_last(), addrs, channel, from);
        let e = members.last();
        if e.1 == channel && e.0 != from && addrs.spec_contains(e.0) {
            rest.push(addrs.spec_get(e.0).unwrap())
        } else {
            rest
        }
    }
}

/// Members of `channel` other than `from`, counted over the member table.
pub open spec fn spec_peer_count(
    members: Seq<(u128, u128, AudioBuffer)>,
    channel: ChannelId,
    from: UserId,
) -> nat
    decreases members.len(),
{
    if members.len() == 0 {
        0
    } else {
        let rest = spec_peer_count(members.drop_last(), channel, from);
        if members.last().1 == channel && members.last().0 != from {
            rest + 1
        } else {
            rest
        }
    }
}

/// Directs packets between the members of each channel.
pub struct AudioRouter {
    /// Jitter buffer of each member, keyed by user then channel.
    pub user_buffers: PairTable<AudioBuffer>,
    /// Transport endpoint of each connected user.
    pub client_addresses: IdTable<Endpoint>,
    /// Running counters per channel.
    pub stats: IdTable<RoutingStats>,
    /// Routing configuration per channel.
    pub channel_configs: IdTable<ChannelRoutingConfig>,
    /// Latest routed timestamp per channel, for synchronised release.
    pub channel_sync: IdTable<u64>,
}

impl AudioRouter {
    /// Tables are well formed and every jitter buffer satisfies its
    /// invariant.
    pub open spec fn wf(self) -> bool {
        &&& self.user_buffers.wf()
        &&& self.client_addresses.wf()
        &&& self.stats.wf()
        &&& self.channel_configs.wf()
        &&& self.channel_sync.wf()
        &&& forall|i: int|
            0 <= i < self.user_buffers.entries@.len() ==> (#[trigger] self.user_buffers.entries@[i]).2.wf()
    }

    /// The jitter buffer the router holds for a member, if any.
    pub open spec fn spec_buffer_of(self, user_id: UserId, channel_id: ChannelId) -> Option<
        AudioBuffer,
    > {
        self.user_buffers.spec_get(user_id, channel_id)
    }

    /// Creates a router with no members, endpoints or configuration.
    pub fn new() -> (r: AudioRouter)
        ensures
            r.wf(),
            r.user_buffers.entries@.len() == 0,
            r.client_addresses.entries@.len() == 0,
            r.stats.entries@.len() == 0,
            r.channel_configs.entries@.len() == 0,
    {
        AudioRouter {
            user_buffers: PairTable::new(),
            client_addresses: IdTable::new(),
            stats: IdTable::new(),
            channel_configs: IdTable::new(),
            channel_sync: IdTable::new(),
        }
    }

    /// Records or replaces a user's transport endpoint.
    pub fn register_client(&mut self, user_id: UserId, address: Endpoint)
        requires
            old(self).wf(),
        ensures
            final(self).wf(),
            final(self).client_addresses.spec_get(user_id) == Some(address),
            forall|u: UserId|
                u != user_id ==> #[trigger] final(self).client_addresses.spec_get(u) == old(self).client_addresses.spec_get(u),
            final(self).user_buffers == old(self).user_buffers,
            final(self).stats == old(self).stats,
            final(self).channel_configs == old(self).channel_configs,
    {
        self.client_addresses.insert(user_id, address);
    }

    /// Forgets a user's endpoint and frees all of the user's jitter
    /// buffers.
    pub fn unregister_client(&mut self, user_id: UserId)
        requires
            old(self).wf(),
        ensures
            final(self).wf(),
            !final(self).client_addresses.spec_contains(user_id),
            forall|u: UserId|
                u != user_id ==> #[trigger] final(self).client_addresses.spec_get(u) == old(self).client_addresses.spec_get(u),
            final(self).user_buffers.entries@ == old(self).user_buffers.entries@.filter(
                spec_left_ne::<AudioBuffer>(user_id),
            ),
            final(self).stats == old(self).stats,
            final(self).channel_configs == old(self).channel_configs,
    {
        let removed = self.client_addresses.remove(user_id);
        self.user_buffers.remove_left(user_id);
        proof {
            let pred = spec_left_ne::<AudioBuffer>(user_id);
            assert forall|i: int|
                0 <= i < self.user_buffers.entries@.len() implies (
            #[trigger] self.user_buffers.entries@[i]).2.wf() by {
                old(self).user_buffers.entries@.lemma_filter_contains_rev(
                    pred,
                    self.user_buffers.entries@[i],
                );
                assert(self.user_buffers.entries@.contains(self.user_buffers.entries@[i]));
                let j = choose|j: int|
                    0 <= j < old(self).user_buffers.entries@.len() && old(self).user_buffers.entries@[j] == self.user_buffers.entries@[i];
            }
        }
    }

    /// Admits a user to a channel: allocates the pair's jitter buffer if
    /// none exists, using the channel's latency target, and counts the
    /// connection. The clock reading stamps a fresh stats entry.
    pub fn add_user_to_channel(&mut self, user_id: UserId, channel_id: ChannelId, now: u64)
        requires
            old(self).wf(),
        ensures
            final(self).wf(),
            final(self).user_buffers.spec_contains(user_id, channel_id),
            old(self).user_buffers.spec_contains(user_id, channel_id) ==> final(self).user_buffers == old(self).user_buffers,
            forall|u: UserId, ch: ChannelId|
                !(u == user_id && ch == channel_id) ==> #[trigger] final(self).user_buffers.spec_get(u, ch) == old(self).user_buffers.spec_get(u, ch),
            ({
                let prior = old(self).stats.spec_get(channel_id);
                let base = match prior {
                    Some(s) => s,
                    None => spec_fresh_stats(now),
                };
                final(self).stats.spec_get(channel_id) == Some(
                    RoutingStats {
                        connected_users: if base.connected_users < usize::MAX {
                            (base.connected_users + 1) as usize
                        } else {
                            base.connected_users
                        },
                        ..base
                    },
                )
            }),
            forall|ch: ChannelId|
                ch != channel_id ==> #[trigger] final(self).stats.spec_get(ch) == old(self).stats.spec_get(ch),
            final(self).client_addresses == old(self).client_addresses,
            final(self).channel_configs == old(self).channel_configs,
    {
        if !self.user_buffers.contains(user_id, channel_id) {
            let config = self.get_channel_config_or_default(channel_id);
            let buffer = AudioBuffer::new(1024, config.latency_target_ms);
            let n = self.user_buffers.len();
            proof {
                assert(self.user_buffers.entries@.push(
                    (user_id, channel_id, buffer),
                ) == self.user_buffers.entries@.insert(n as int, (user_id, channel_id, buffer)));
            }
            self.user_buffers.insert_at(n, user_id, channel_id, buffer);
            proof {
                self.user_buffers.lemma_at(n as int);
                assert forall|i: int|
                    0 <= i < self.user_buffers.entries@.len() implies (
                #[trigger] self.user_buffers.entries@[i]).2.wf() by {
                    if i < n {
                        assert(self.user_buffers.entries@[i] == old(self).user_buffers.entries@[i]);
                    }
                }
                assert forall|u: UserId, ch: ChannelId|
                    !(u == user_id && ch == channel_id) implies #[trigger] self.user_buffers.spec_get(u, ch) == old(self).user_buffers.spec_get(u, ch) by {
                    if old(self).user_buffers.spec_contains(u, ch) {
                        let j = choose|j: int|
                            0 <= j < old(self).user_buffers.entries@.len() && (#[trigger] old(self).user_buffers.entries@[j]).0 == u && old(self).user_buffers.entries@[j].1 == ch;
                        old(self).user_buffers.lemma_at(j);
                        assert(self.user_buffers.entries@[j] == old(
                            self,
                        ).user_buffers.entries@[j]);
                        self.user_buffers.lemma_at(j);
                    } else {
                        assert(!self.user_buffers.spec_contains(u, ch)) by {
                            if self.user_buffers.spec_contains(u, ch) {
                                let j = choose|j: int|
                                    0 <= j < self.user_buffers.entries@.len() && (#[trigger] self.user_buffers.entries@[j]).0
                                        == u && self.user_buffers.entries@[j].1 == ch;
                                assert(j != n);
                                assert(self.user_buffers.entries@[j] == old(
                                    self,
                                ).user_buffers.entries@[j]);
                                assert(old(self).user_buffers.entries@[j].0 == u && old(
                                    self,
                                ).user_buffers.entries@[j].1 == ch);
                            }
                        }
                    }
                }
            }
        }
        let base = match self.stats.get(channel_id) {
            Some(s) => *s,
            None => RoutingStats {
                packets_received: 0,
                packets_routed: 0,
                packets_sent: 0,
                bytes_received: 0,
                bytes_sent: 0,
                active_users: 0,
                connected_users: 0,
                average_latency_ms: 0,
                packet_loss_permille: 0,
                jitter_ms: 0,
                created_at_us: now,
            },
        };
        let bumped = RoutingStats {
            connected_users: if base.connected_users < usize::MAX {
                base.connected_users + 1
            } else {
                base.connected_users
            },
            ..base
        };
        self.stats.insert(channel_id, bumped);
    }

    /// Removes a user from a channel: frees the pair's jitter buffer and
    /// counts the disconnection.
    pub fn remove_user_from_channel(&mut self, user_id: UserId, channel_id: ChannelId)
        requires
            old(self).wf(),
        ensures
            final(self).wf(),
            !final(self).user_buffers.spec_contains(user_id, channel_id),
            forall|u: UserId, ch: ChannelId|
                !(u == user_id && ch == channel_id) ==> #[trigger] final(self).user_buffers.spec_get(u, ch) == old(self).user_buffers.spec_get(u, ch),
            ({
                match old(self).stats.spec_get(channel_id) {
                    Some(s) => final(self).stats.spec_get(channel_id) == Some(
                        RoutingStats {
                            connected_users: if s.connected_users > 0 {
                                (s.connected_users - 1) as usize
                            } else {
                                0
                            },
                            ..s
                        },
                    ),
                    None => final(self).stats.spec_get(channel_id) is None,
                }
            }),
            forall|ch: ChannelId|
                ch != channel_id ==> #[trigger] final(self).stats.spec_get(ch) == old(self).stats.spec_get(ch),
            final(self).client_addresses == old(self).client_addresses,
            final(self).channel_configs == old(self).channel_configs,
    {
        let removed = self.user_buffers.remove(user_id, channel_id);
        proof {
            assert forall|i: int|
                0 <= i < self.user_buffers.entries@.len() implies (
            #[trigger] self.user_buffers.entries@[i]).2.wf() by {
                self.user_buffers.lemma_at(i);
                let a = self.user_buffers.entries@[i].0;
                let b = self.user_buffers.entries@[i].1;
                assert(old(self).user_buffers.spec_get(a, b) == Some(
                    self.user_buffers.entries@[i].2,
                ));
                let j = old(self).user_buffers.spec_index_of(a, b);
            }
        }
        let prior = match self.stats.get(channel_id) {
            Some(s) => Some(*s),
            None => None,
        };
        match prior {
            Some(s) => {
                let shrunk = RoutingStats {
                    connected_users: if s.connected_users > 0 {
                        s.connected_users - 1
                    } else {
                        0
                    },
                    ..s
                };
                self.stats.insert(channel_id, shrunk);
            },
            None => {},
        }
    }

    /// The channel's routing configuration, or the defaults.
    pub fn get_channel_config_or_default(&self, channel_id: ChannelId) -> (c: ChannelRoutingConfig)
        requires
            self.wf(),
        ensures
            c == match self.channel_configs.spec_get(channel_id) {
                Some(c0) => c0,
                None => spec_default_routing_config(),
            },
    {
        match self.channel_configs.get(channel_id) {
            Some(c) => *c,
            None => ChannelRoutingConfig::default(),
        }
    }

    /// Sets a channel's routing configuration.
    pub fn configure_channel(&mut self, channel_id: ChannelId, config: ChannelRoutingConfig)
        requires
            old(self).wf(),
        ensures
            final(self).wf(),
            final(self).channel_configs.spec_get(channel_id) == Some(config),
            forall|ch: ChannelId|
                ch != channel_id ==> #[trigger] final(self).channel_configs.spec_get(ch) == old(self).channel_configs.spec_get(ch),
            final(self).user_buffers == old(self).user_buffers,
            final(self).stats == old(self).stats,
            final(self).client_addresses == old(self).client_addresses,
    {
        self.channel_configs.insert(channel_id, config);
    }

    /// Reads a channel's routing configuration, if one was set.
    pub fn get_channel_config(&self, channel_id: ChannelId) -> (r: Option<ChannelRoutingConfig>)
        requires
            self.wf(),
        ensures
            r == self.channel_configs.spec_get(channel_id),
    {
        match self.channel_configs.get(channel_id) {
            Some(c) => Some(*c),
            None => None,
        }
    }

    /// Reads a channel's running counters, if the channel is known.
    pub fn get_channel_stats(&self, channel_id: ChannelId) -> (r: Option<RoutingStats>)
        requires
            self.wf(),
        ensures
            r == self.stats.spec_get(channel_id),
    {
        match self.stats.get(channel_id) {
            Some(s) => Some(*s),
            None => None,
        }
    }

    /// Collects the endpoints of every member of the channel except the
    /// sender, in member order; members without an endpoint are skipped.
    fn collect_recipients(&self, channel_id: ChannelId, from_user: UserId) -> (dest: Vec<Endpoint>)
        requires
            self.wf(),
        ensures
            dest@ == spec_recipients(
                self.user_buffers.entries@,
                self.client_addresses,
                channel_id,
                from_user,
            ),
    {
        let n = self.user_buffers.len();
        let mut dest: Vec<Endpoint> = Vec::new();
        let mut i: usize = 0;
        while i < n
            invariant
                self.wf(),
                n == self.user_buffers.entries@.len(),
                i <= n,
                dest@ == spec_recipients(
                    self.user_buffers.entries@.take(i as int),
                    self.client_addresses,
                    channel_id,
                    from_user,
                ),
            decreases n - i,
        {
            let uid = self.user_buffers.entries[i].0;
            let ch = self.user_buffers.entries[i].1;
            if ch == channel_id && uid != from_user {
                match self.client_addresses.get(uid) {
                    Some(addr) => {
                        dest.push(*addr);
                    },
                    None => {},
                }
            }
            proof {
                assert(self.user_buffers.entries@.take(i + 1).drop_last()
                    =~= self.user_buffers.entries@.take(i as int));
                assert(self.user_buffers.entries@.take(i + 1).last()
                    == self.user_buffers.entries@[i as int]);
            }
            i = i + 1;
        }
        proof {
            assert(self.user_buffers.entries@.take(n as int) =~= self.user_buffers.entries@);
        }
        dest
    }

    /// Counts the members of the channel other than the sender.
    fn count_peers(&self, channel_id: ChannelId, from_user: UserId) -> (n: usize)
        requires
            self.wf(),
        ensures
            n == spec_peer_count(self.user_buffers.entries@, channel_id, from_user),
    {
        let total = self.user_buffers.len();
        let mut n: usize = 0;
        let mut i: usize = 0;
        while i < total
            invariant
                self.wf(),
                total == self.user_buffers.entries@.len(),
                i <= total,
                n <= i,
                n == spec_peer_count(
                    self.user_buffers.entries@.take(i as int),
                    channel_id,
                    from_user,
                ),
            decreases total - i,
        {
            let uid = self.user_buffers.entries[i].0;
            let ch = self.user_buffers.entries[i].1;
            proof {
                assert(self.user_buffers.entries@.take(i + 1).drop_last()
                    =~= self.user_buffers.entries@.take(i as int));
                assert(self.user_buffers.entries@.take(i + 1).last()
                    == self.user_buffers.entries@[i as int]);
            }
            if ch == channel_id && uid != from_user {
                n = n + 1;
            }
            i = i + 1;
        }
        proof {
            assert(self.user_buffers.entries@.take(total as int) =~= self.user_buffers.entries@);
        }
        n
    }

    /// Routes one packet: returns the endpoints of the other members of
    /// the channel and updates the channel's counters — one packet
    /// received, one routing per peer, the payload counted, and the loss
    /// rate recomputed.
    pub fn route_packet(
        &mut self,
        packet: &AudioPacket,
        from_user: UserId,
        channel_id: ChannelId,
    ) -> (dest: Vec<Endpoint>)
        requires
            old(self).wf(),
        ensures
            final(self).wf(),
            dest@ == spec_recipients(
                old(self).user_buffers.entries@,
                old(self).client_addresses,
                channel_id,
                from_user,
            ),
            final(self).user_buffers == old(self).user_buffers,
            final(self).client_addresses == old(self).client_addresses,
            final(self).channel_configs == old(self).channel_configs,
            final(self).channel_sync == old(self).channel_sync,
            ({
                match old(self).stats.spec_get(channel_id) {
                    Some(s) => final(self).stats.spec_get(channel_id) == Some(
                        spec_routed_stats(
                            s,
                            spec_peer_count(
                                old(self).user_buffers.entries@,
                                channel_id,
                                from_user,
                            ),
                            packet.payload@.len(),
                        ),
                    ),
                    None => final(self).stats.spec_get(channel_id) is None,
                }
            }),
            forall|ch: ChannelId|
                ch != channel_id ==> #[trigger] final(self).stats.spec_get(ch) == old(self).stats.spec_get(ch),
    {
        let dest = self.collect_recipients(channel_id, from_user);
        let routed = self.count_peers(channel_id, from_user);
        let prior = match self.stats.get(channel_id) {
            Some(s) => Some(*s),
            None => None,
        };
        match prior {
            Some(s) => {
                let updated = routed_stats(s, routed, packet.payload.len());
                self.stats.insert(channel_id, updated);
            },
            None => {},
        }
        dest
    }

    /// Routes using the packet's own header for sender and channel.
    pub fn route_to_channel(&mut self, packet: &AudioPacket) -> (dest: Vec<Endpoint>)
        requires
            old(self).wf(),
        ensures
            final(self).wf(),
            dest@ == spec_recipients(
                old(self).user_buffers.entries@,
                old(self).client_addresses,
                packet.header.channel_id,
                packet.header.user_id,
            ),
            final(self).user_buffers == old(self).user_buffers,
            final(self).client_addresses == old(self).client_addresses,
            final(self).channel_configs == old(self).channel_configs,
            final(self).channel_sync == old(self).channel_sync,
            ({
                match old(self).stats.spec_get(packet.header.channel_id) {
                    Some(s) => final(self).stats.spec_get(packet.header.channel_id) == Some(
                        spec_routed_stats(
                            s,
                            spec_peer_count(
                                old(self).user_buffers.entries@,
                                packet.header.channel_id,
                                packet.header.user_id,
                            ),
                            packet.payload@.len(),
                        ),
                    ),
                    None => final(self).stats.spec_get(packet.header.channel_id) is None,
                }
            }),
            forall|ch: ChannelId|
                ch != packet.header.channel_id ==> #[trigger] final(self).stats.spec_get(ch)
                    == old(self).stats.spec_get(ch),
    {
        let from_user = packet.header.user_id;
        let channel_id = packet.header.channel_id;
        self.route_packet(packet, from_user, channel_id)
    }

    /// Accepts a packet for processing; every packet is currently accepted.
    pub fn receive_packet(&self, _packet: &AudioPacket, _from_addr: Endpoint) -> (r: bool)
        ensures
            r,
    {
        true
    }

    /// Routes with the channel's quality policy: the mode picks the
    /// fan-out path (the adaptive mode from current statistics), the
    /// channel's synchronisation timestamp is advanced, and the decision
    /// is returned with the recipients. The recipients are the same for
    /// every decision; the tag records the policy for observability.
    pub fn intelligent_route(
        &mut self,
        packet: &AudioPacket,
        from_user: UserId,
        channel_id: ChannelId,
    ) -> (r: (Vec<Endpoint>, RouteDecision))
        requires
            old(self).wf(),
        ensures
            final(self).wf(),
            r.1 == spec_route_decision(
                match old(self).channel_configs.spec_get(channel_id) {
                    Some(c) => c.quality_mode,
                    None => spec_default_routing_config().quality_mode,
                },
                old(self).stats.spec_get(channel_id),
            ),
            r.0@ == spec_recipients(
                old(self).user_buffers.entries@,
                old(self).client_addresses,
                channel_id,
                from_user,
            ),
            final(self).user_buffers == old(self).user_buffers,
            final(self).client_addresses == old(self).client_addresses,
            final(self).channel_configs == old(self).channel_configs,
            final(self).channel_sync.spec_get(channel_id) == Some(packet.header.timestamp),
    {
        let config = self.get_channel_config_or_default(channel_id);
        self.channel_sync.insert(channel_id, packet.header.timestamp);
        let decision: RouteDecision = match config.quality_mode {
            QualityMode::Low => RouteDecision::Low,
            QualityMode::Medium => RouteDecision::Medium,
            QualityMode::High => RouteDecision::High,
            QualityMode::Adaptive => {
                let stats = self.get_channel_stats(channel_id);
                match stats {
                    Some(s) => if s.packet_loss_permille > 50 || s.jitter_ms > 100 {
                        RouteDecision::Low
                    } else if s.packet_loss_permille < 10 && s.jitter_ms < 20 {
                        RouteDecision::High
                    } else {
                        RouteDecision::Medium
                    },
                    None => RouteDecision::Medium,
                }
            },
        };
        let dest = self.route_packet(packet, from_user, channel_id);
        (dest, decision)
    }

    /// Pushes a member's packet into the member's jitter buffer; an
    /// unknown pair drops the packet and reports failure.
    pub fn ingest(&mut self, packet: AudioPacket) -> (accepted: bool)
        requires
            old(self).wf(),
        ensures
            final(self).wf(),
            accepted == old(self).user_buffers.spec_contains(
                packet.header.user_id,
                packet.header.channel_id,
            ),
            !accepted ==> final(self).user_buffers == old(self).user_buffers,
            final(self).client_addresses == old(self).client_addresses,
            final(self).stats == old(self).stats,
            final(self).channel_configs == old(self).channel_configs,
            forall|u: UserId, ch: ChannelId|
                !(u == packet.header.user_id && ch == packet.header.channel_id)
                    ==> #[trigger] final(self).user_buffers.spec_get(u, ch) == old(self).user_buffers.spec_get(u, ch),
            accepted ==> ({
                let b = old(self).user_buffers.spec_get(
                    packet.header.user_id,
                    packet.header.channel_id,
                ).unwrap();
                let b2 = final(self).user_buffers.spec_get(
                    packet.header.user_id,
                    packet.header.channel_id,
                ).unwrap();
                &&& final(self).user_buffers.spec_contains(
                    packet.header.user_id,
                    packet.header.channel_id,
                )
                &&& b2.target_latency_us == b.target_latency_us
                &&& (packet.header.packet_type == crate::packet::PacketType::AudioStart
                    || packet.header.packet_type == crate::packet::PacketType::AudioStop
                    || packet.header.packet_type == crate::packet::PacketType::Sync ==> {
                    &&& b2.audio_buffer == b.audio_buffer
                    &&& b2.control_buffer.buffer@ == crate::buffer::spec_push(
                        b.control_buffer.buffer@,
                        b.control_buffer.capacity as nat,
                        packet,
                    )
                })
                &&& (!(packet.header.packet_type == crate::packet::PacketType::AudioStart
                    || packet.header.packet_type == crate::packet::PacketType::AudioStop
                    || packet.header.packet_type == crate::packet::PacketType::Sync) ==> {
                    &&& b2.control_buffer == b.control_buffer
                    &&& b2.audio_buffer.buffer@ == crate::buffer::spec_push(
                        b.audio_buffer.buffer@,
                        b.audio_buffer.capacity as nat,
                        packet,
                    )
                    &&& b2.audio_buffer.released@ == b.audio_buffer.released@
                })
            }),
    {
        let user_id = packet.header.user_id;
        let channel_id = packet.header.channel_id;
        let found = self.user_buffers.index_of(user_id, channel_id);
        match found {
            None => false,
            Some(i) => {
                let ghost pre = self.user_buffers;
                let (k1, k2, mut buffer) = self.user_buffers.remove_at(i);
                proof {
                    pre.lemma_at(i as int);
                }
                buffer.push(packet);
                let n = self.user_buffers.len();
                proof {
                    assert(!self.user_buffers.spec_contains(k1, k2)) by {
                        if self.user_buffers.spec_contains(k1, k2) {
                            let j = choose|j: int|
                                0 <= j < self.user_buffers.entries@.len() && (#[trigger] self.user_buffers.entries@[j]).0
                                    == k1 && self.user_buffers.entries@[j].1 == k2;
                            if j < i {
                                assert(pre.entries@[j].0 == k1 && pre.entries@[j].1 == k2);
                            } else {
                                assert(pre.entries@[j + 1].0 == k1 && pre.entries@[j + 1].1 == k2);
                            }
                        }
                    }
                }
                self.user_buffers.insert_at(i, k1, k2, buffer);
                proof {
                    assert(self.user_buffers.entries@ =~= pre.entries@.update(
                        i as int,
                        (k1, k2, buffer),
                    ));
                    PairTable::lemma_update_frame(pre, self.user_buffers, i as int, buffer);
                    assert forall|j: int|
                        0 <= j < self.user_buffers.entries@.len() implies (
                    #[trigger] self.user_buffers.entries@[j]).2.wf() by {
                        if j != i {
                            assert(self.user_buffers.entries@[j] == pre.entries@[j]);
                        }
                    }
                }
                true
            },
        }
    }

    /// Releases the packets that are ready from a member's jitter buffer;
    /// unknown pairs and empty releases return nothing.
    pub fn get_audio_data(&mut self, user_id: UserId, channel_id: ChannelId, now: u64) -> (r:
        Option<Vec<AudioPacket>>)
        requires
            old(self).wf(),
        ensures
            final(self).wf(),
            final(self).client_addresses == old(self).client_addresses,
            final(self).stats == old(self).stats,
            final(self).channel_configs == old(self).channel_configs,
            forall|u: UserId, ch: ChannelId|
                !(u == user_id && ch == channel_id) ==> #[trigger] final(self).user_buffers.spec_get(u, ch) == old(self).user_buffers.spec_get(u, ch),
            old(self).user_buffers.spec_get(user_id, channel_id) is None ==> r is None && final(self).user_buffers == old(self).user_buffers,
            old(self).user_buffers.spec_get(user_id, channel_id) matches Some(b) ==> ({
                let k = spec_ripe_prefix(b.audio_buffer.buffer@, now, b.target_latency_us);
                let ready = b.control_buffer.buffer@ + b.audio_buffer.buffer@.take(k);
                let b2 = final(self).user_buffers.spec_get(user_id, channel_id).unwrap();
                &&& final(self).user_buffers.spec_contains(user_id, channel_id)
                &&& (r is Some <==> ready.len() > 0)
                &&& (r matches Some(v) ==> v@ == ready)
                &&& b2.audio_buffer.buffer@ == b.audio_buffer.buffer@.skip(k)
                &&& b2.control_buffer.buffer@.len() == 0
                &&& b2.target_latency_us == b.target_latency_us
                &&& b2.audio_buffer.released@ == b.audio_buffer.released@
                    + b.audio_buffer.push_idxs@.take(k)
                &&& b2.audio_buffer.history@ == b.audio_buffer.history@
                &&& forall|i: int|
                    b.control_buffer.buffer@.len() <= i < ready.len() ==> crate::buffer::spec_ripe(
                        #[trigger] ready[i],
                        now,
                        b.target_latency_us,
                    )
            }),
    {
        let found = self.user_buffers.index_of(user_id, channel_id);
        match found {
            None => None,
            Some(i) => {
                let ghost pre = self.user_buffers;
                let (k1, k2, mut buffer) = self.user_buffers.remove_at(i);
                proof {
                    pre.lemma_at(i as int);
                }
                let packets = buffer.get_ready_packets(now);
                proof {
                    assert(!self.user_buffers.spec_contains(k1, k2)) by {
                        if self.user_buffers.spec_contains(k1, k2) {
                            let j = choose|j: int|
                                0 <= j < self.user_buffers.entries@.len() && (#[trigger] self.user_buffers.entries@[j]).0
                                    == k1 && self.user_buffers.entries@[j].1 == k2;
                            if j < i {
                                assert(pre.entries@[j].0 == k1 && pre.entries@[j].1 == k2);
                            } else {
                                assert(pre.entries@[j + 1].0 == k1 && pre.entries@[j + 1].1 == k2);
                            }
                        }
                    }
                }
                self.user_buffers.insert_at(i, k1, k2, buffer);
                proof {
                    assert(self.user_buffers.entries@ =~= pre.entries@.update(
                        i as int,
                        (k1, k2, buffer),
                    ));
                    PairTable::lemma_update_frame(pre, self.user_buffers, i as int, buffer);
                    assert forall|j: int|
                        0 <= j < self.user_buffers.entries@.len() implies (
                    #[trigger] self.user_buffers.entries@[j]).2.wf() by {
                        if j != i {
                            assert(self.user_buffers.entries@[j] == pre.entries@[j]);
                        }
                    }
                }
                if packets.len() > 0 {
                    Some(packets)
                } else {
                    None
                }
            },
        }
    }

    /// Releases ready packets, or an empty batch for unknown pairs.
    pub fn get_packets_for_user(&mut self, user_id: UserId, channel_id: ChannelId, now: u64) -> (r:
        Vec<AudioPacket>)
        requires
            old(self).wf(),
        ensures
            final(self).wf(),
            old(self).user_buffers.spec_get(user_id, channel_id) matches Some(b) ==> r@ == ({
                let k = spec_ripe_prefix(b.audio_buffer.buffer@, now, b.target_latency_us);
                b.control_buffer.buffer@ + b.audio_buffer.buffer@.take(k)
            }),
            old(self).user_buffers.spec_get(user_id, channel_id) is None ==> r@.len() == 0,
    {
        match self.get_audio_data(user_id, channel_id, now) {
            Some(v) => v,
            None => Vec::new(),
        }
    }

    /// Overwrites a channel's reported average latency.
    pub fn adjust_channel_latency(&mut self, channel_id: ChannelId, latency_ms: u64)
        requires
            old(self).wf(),
        ensures
            final(self).wf(),
            ({
                match old(self).stats.spec_get(channel_id) {
                    Some(s) => final(self).stats.spec_get(channel_id) == Some(
                        RoutingStats { average_latency_ms: latency_ms, ..s },
                    ),
                    None => final(self).stats.spec_get(channel_id) is None,
                }
            }),
            forall|ch: ChannelId|
                ch != channel_id ==> #[trigger] final(self).stats.spec_get(ch) == old(self).stats.spec_get(ch),
            final(self).user_buffers == old(self).user_buffers,
            final(self).client_addresses == old(self).client_addresses,
            final(self).channel_configs == old(self).channel_configs,
    {
        let prior = match self.stats.get(channel_id) {
            Some(s) => Some(*s),
            None => None,
        };
        match prior {
            Some(s) => {
                self.stats.insert(
                    channel_id,
                    RoutingStats { average_latency_ms: latency_ms, ..s },
                );
            },
            None => {},
        }
    }

    /// The members of a channel, in member table order.
    pub fn get_channel_users(&self, channel_id: ChannelId) -> (users: Vec<UserId>)
        requires
            self.wf(),
        ensures
            users@ == crate::table::spec_lefts_with_right(
                self.user_buffers.entries@,
                channel_id,
            ),
    {
        let n = self.user_buffers.len();
        let mut users: Vec<UserId> = Vec::new();
        let mut i: usize = 0;
        while i < n
            invariant
                self.wf(),
                n == self.user_buffers.entries@.len(),
                i <= n,
                users@ == crate::table::spec_lefts_with_right(
                    self.user_buffers.entries@.take(i as int),
                    channel_id,
                ),
            decreases n - i,
        {
            let uid = self.user_buffers.entries[i].0;
            let ch = self.user_buffers.entries[i].1;
            proof {
                assert(self.user_buffers.entries@.take(i + 1).drop_last()
                    =~= self.user_buffers.entries@.take(i as int));
                assert(self.user_buffers.entries@.take(i + 1).last()
                    == self.user_buffers.entries@[i as int]);
            }
            if ch == channel_id {
                users.push(uid);
            }
            i = i + 1;
        }
        proof {
            assert(self.user_buffers.entries@.take(n as int) =~= self.user_buffers.entries@);
        }
        users
    }

    /// Counts a speech activity change on a channel: up when a member
    /// starts speaking, down when one stops. Saturating in both directions.
    pub fn update_user_activity(&mut self, channel_id: ChannelId, is_active: bool)
        requires
            old(self).wf(),
        ensures
            final(self).wf(),
            ({
                match old(self).stats.spec_get(channel_id) {
                    Some(s) => final(self).stats.spec_get(channel_id) == Some(
                        RoutingStats {
                            active_users: if is_active {
                                if s.active_users < usize::MAX {
                                    (s.active_users + 1) as usize
                                } else {
                                    s.active_users
                                }
                            } else {
                                if s.active_users > 0 {
                                    (s.active_users - 1) as usize
                                } else {
                                    0
                                }
                            },
                            ..s
                        },
                    ),
                    None => final(self).stats.spec_get(channel_id) is None,
                }
            }),
            forall|ch: ChannelId|
                ch != channel_id ==> #[trigger] final(self).stats.spec_get(ch) == old(self).stats.spec_get(ch),
            final(self).user_buffers == old(self).user_buffers,
            final(self).client_addresses == old(self).client_addresses,
            final(self).channel_configs == old(self).channel_configs,
    {
        let prior = match self.stats.get(channel_id) {
            Some(s) => Some(*s),
            None => None,
        };
        match prior {
            Some(s) => {
                let active_users = if is_active {
                    if s.active_users < usize::MAX {
                        s.active_users + 1
                    } else {
                        s.active_users
                    }
                } else {
                    if s.active_users > 0 {
                        s.active_users - 1
                    } else {
                        0
                    }
                };
                self.stats.insert(channel_id, RoutingStats { active_users, ..s });
            },
            None => {},
        }
    }

    /// Frees every member buffer of a channel and forgets its counters.
    pub fn cleanup_channel(&mut self, channel_id: ChannelId)
        requires
            old(self).wf(),
        ensures
            final(self).wf(),
            final(self).user_buffers.entries@ == old(self).user_buffers.entries@.filter(
                spec_right_ne::<AudioBuffer>(channel_id),
            ),
            !final(self).stats.spec_contains(channel_id),
            forall|ch: ChannelId|
                ch != channel_id ==> #[trigger] final(self).stats.spec_get(ch) == old(self).stats.spec_get(ch),
            final(self).client_addresses == old(self).client_addresses,
            final(self).channel_configs == old(self).channel_configs,
    {
        self.user_buffers.remove_right(channel_id);
        proof {
            let pred = spec_right_ne::<AudioBuffer>(channel_id);
            assert forall|i: int|
                0 <= i < self.user_buffers.entries@.len() implies (
            #[trigger] self.user_buffers.entries@[i]).2.wf() by {
                old(self).user_buffers.entries@.lemma_filter_contains_rev(
                    pred,
                    self.user_buffers.entries@[i],
                );
                assert(self.user_buffers.entries@.contains(self.user_buffers.entries@[i]));
                let j = choose|j: int|
                    0 <= j < old(self).user_buffers.entries@.len() && old(self).user_buffers.entries@[j] == self.user_buffers.entries@[i];
            }
        }
        let removed = self.stats.remove(channel_id);
    }

    /// Total registered clients, channels with counters, and member
    /// buffers.
    pub fn get_global_stats(&self) -> (r: (usize, usize, usize))
        ensures
            r.0 == self.client_addresses.entries@.len(),
            r.1 == self.stats.entries@.len(),
            r.2 == self.user_buffers.entries@.len(),
    {
        (self.client_addresses.len(), self.stats.len(), self.user_buffers.len())
    }

    /// Sweeps stale packets out of every member buffer.
    pub fn cleanup_buffers(&mut self, now: u64)
        requires
            old(self).wf(),
        ensures
            final(self).wf(),
            final(self).user_buffers.entries@.len() == old(self).user_buffers.entries@.len(),
            forall|i: int|
                0 <= i < final(self).user_buffers.entries@.len() ==> {
                    let pre = old(self).user_buffers.entries@[i];
                    let post = #[trigger] final(self).user_buffers.entries@[i];
                    &&& post.0 == pre.0
                    &&& post.1 == pre.1
                    &&& post.2.audio_buffer.buffer@ == pre.2.audio_buffer.buffer@.filter(
                        spec_fresh_at(now),
                    )
                    &&& post.2.control_buffer.buffer@ == pre.2.control_buffer.buffer@.filter(
                        spec_fresh_at(now),
                    )
                    &&& post.2.target_latency_us == pre.2.target_latency_us
                    &&& post.2.audio_buffer.released@ == pre.2.audio_buffer.released@
                },
            final(self).client_addresses == old(self).client_addresses,
            final(self).stats == old(self).stats,
            final(self).channel_configs == old(self).channel_configs,
    {
        let n = self.user_buffers.len();
        let mut i: usize = 0;
        while i < n
            invariant
                self.wf(),
                n == self.user_buffers.entries@.len(),
                n == old(self).user_buffers.entries@.len(),
                i <= n,
                self.client_addresses == old(self).client_addresses,
                self.stats == old(self).stats,
                self.channel_configs == old(self).channel_configs,
                self.channel_sync == old(self).channel_sync,
                forall|j: int|
                    i <= j < n ==> #[trigger] self.user_buffers.entries@[j] == old(self).user_buffers.entries@[j],
                forall|j: int|
                    0 <= j < i ==> {
                        let pre = old(self).user_buffers.entries@[j];
                        let post = #[trigger] self.user_buffers.entries@[j];
                        &&& post.0 == pre.0
                        &&& post.1 == pre.1
                        &&& post.2.audio_buffer.buffer@ == pre.2.audio_buffer.buffer@.filter(
                            spec_fresh_at(now),
                        )
                        &&& post.2.control_buffer.buffer@ == pre.2.control_buffer.buffer@.filter(
                            spec_fresh_at(now),
                        )
                        &&& post.2.target_latency_us == pre.2.target_latency_us
                        &&& post.2.audio_buffer.released@ == pre.2.audio_buffer.released@
                    },
            decreases n - i,
        {
            let ghost pre_table = self.user_buffers;
            let (k1, k2, mut buffer) = self.user_buffers.remove_at(i);
            buffer.cleanup(now);
            proof {
                assert(!self.user_buffers.spec_contains(k1, k2)) by {
                    if self.user_buffers.spec_contains(k1, k2) {
                        let j = choose|j: int|
                            0 <= j < self.user_buffers.entries@.len() && (#[trigger] self.user_buffers.entries@[j]).0
                                == k1 && self.user_buffers.entries@[j].1 == k2;
                        if j < i {
                            assert(pre_table.entries@[j].0 == k1 && pre_table.entries@[j].1 == k2);
                        } else {
                            assert(pre_table.entries@[j + 1].0 == k1 && pre_table.entries@[j
                                + 1].1 == k2);
                        }
                    }
                }
            }
            self.user_buffers.insert_at(i, k1, k2, buffer);
            proof {
                assert(self.user_buffers.entries@ =~= pre_table.entries@.update(
                    i as int,
                    (k1, k2, buffer),
                ));
                assert forall|j: int|
                    0 <= j < self.user_buffers.entries@.len() implies (
                #[trigger] self.user_buffers.entries@[j]).2.wf() by {
                    if j != i {
                        assert(self.user_buffers.entries@[j] == pre_table.entries@[j]);
                    }
                }
            }
            i = i + 1;
        }
    }
}

/// Counters of a channel after routing one packet to `peers` members
/// carrying `bytes` of payload: one more received, one routing per peer,
/// the payload counted, the loss rate recomputed, everything saturating.
pub open spec fn spec_routed_stats(s: RoutingStats, peers: nat, bytes: nat) -> RoutingStats {
    let received = if s.packets_received < u64::MAX {
        (s.packets_received + 1) as u64
    } else {
        s.packets_received
    };
    let routed = if s.packets_routed + peers <= u64::MAX {
        (s.packets_routed + peers) as u64
    } else {
        u64::MAX as u64
    };
    let rx = if s.bytes_received + bytes <= u64::MAX {
        (s.bytes_received + bytes) as u64
    } else {
        u64::MAX as u64
    };
    let loss = if received > 0 {
        if routed >= received {
            0int
        } else {
            (received - routed) * 1000 / (received as int)
        }
    } else {
        0int
    };
    RoutingStats {
        packets_received: received,
        packets_routed: routed,
        bytes_received: rx,
        packet_loss_permille: loss as u64,
        ..s
    }
}

/// Applies one packet's routing to a channel's counters.
fn routed_stats(s: RoutingStats, peers: usize, bytes: usize) -> (r: RoutingStats)
    ensures
        r == spec_routed_stats(s, peers as nat, bytes as nat),
{
    let received: u64 = if s.packets_received < u64::MAX {
        s.packets_received + 1
    } else {
        s.packets_received
    };
    let routed: u64 = if (peers as u64) <= u64::MAX - s.packets_routed {
        s.packets_routed + peers as u64
    } else {
        u64::MAX
    };
    let rx: u64 = if (bytes as u64) <= u64::MAX - s.bytes_received {
        s.bytes_received + bytes as u64
    } else {
        u64::MAX
    };
    let loss: u64 = if received > 0 {
        if routed >= received {
            0
        } else {
            proof {
                assert((((received - routed) as int) * 1000) / (received as int) <= 1000)
                    by (nonlinear_arith)
                    requires
                        0 < received,
                        routed < received,
                ;
            }
            (((received - routed) as u128 * 1000) / (received as u128)) as u64
        }
    } else {
        0
    };
    RoutingStats {
        packets_received: received,
        packets_routed: routed,
        bytes_received: rx,
        packet_loss_permille: loss,
        ..s
    }
}

/// The adaptive policy decision for a statistics snapshot, as a plain
/// function: degraded conditions pick the bandwidth-saving path, clean
/// conditions the quality path, anything else the plain one.
pub fn adaptive_decision(stats: Option<RoutingStats>) -> (r: RouteDecision)
    ensures
        r == spec_adaptive_decision(stats),
{
    match stats {
        Some(s) => if s.packet_loss_permille > 50 || s.jitter_ms > 100 {
            RouteDecision::Low
        } else if s.packet_loss_permille < 10 && s.jitter_ms < 20 {
            RouteDecision::High
        } else {
            RouteDecision::Medium
        },
        None => RouteDecision::Medium,
    }
}

/// Channel quality in permille: full quality minus up to four tenths for
/// loss, three tenths for latency normalised at 200 ms and three tenths
/// for jitter normalised at 100 ms.
pub open spec fn spec_channel_quality(s: RoutingStats) -> nat {
    let lp = s.packet_loss_permille * 400 / 1000;
    let ln = if s.average_latency_ms * 1000 / 200 > 1000 {
        1000nat
    } else {
        (s.average_latency_ms * 1000 / 200) as nat
    };
    let latp = ln * 300 / 1000;
    let jn = if s.jitter_ms * 1000 / 100 > 1000 {
        1000nat
    } else {
        (s.jitter_ms * 1000 / 100) as nat
    };
    let jp = jn * 300 / 1000;
    if lp + latp + jp >= 1000 {
        0
    } else {
        (((1000 - lp - latp - jp)) as nat)
    }
}

/// The diagnostic texts a statistics snapshot earns: one each for high
/// loss, high jitter, high latency, a quality mode fighting loss, and a
/// crowded channel, in that order.
pub open spec fn spec_recommendations(
    s: RoutingStats,
    config: Option<ChannelRoutingConfig>,
) -> Seq<Seq<char>> {
    let r0 = Seq::<Seq<char>>::empty();
    let r1 = if s.packet_loss_permille > 50 {
        r0.push("high packet loss: consider lowering the audio quality"@)
    } else {
        r0
    };
    let r2 = if s.jitter_ms > 50 {
        r1.push("high jitter: check the network's stability"@)
    } else {
        r1
    };
    let r3 = if s.average_latency_ms > 150 {
        r2.push("high latency: tune the buffer configuration"@)
    } else {
        r2
    };
    let r4 = if (match config {
        Some(c) => c.quality_mode == QualityMode::High && s.packet_loss_permille > 20,
        None => false,
    }) {
        r3.push("quality mode is fighting loss: switch to the adaptive mode"@)
    } else {
        r3
    };
    if s.connected_users > 8 {
        r4.push("many users: consider splitting the channel"@)
    } else {
        r4
    }
}

/// A channel's performance report.
#[derive(Debug, Clone)]
pub struct ChannelPerformanceReport {
    /// The channel reported on.
    pub channel_id: ChannelId,
    /// Combined quality in permille.
    pub quality_score_permille: u64,
    /// Loss rate in permille.
    pub packet_loss_permille: u64,
    /// Average latency in milliseconds.
    pub average_latency_ms: u64,
    /// Jitter in milliseconds.
    pub jitter_ms: u64,
    /// Members connected.
    pub connected_users: usize,
    /// Members recently active.
    pub active_users: usize,
    /// Diagnostic advice earned by the counters.
    pub recommendations: Vec<String>,
    /// Clock reading when generated, microseconds.
    pub generated_at_us: u64,
}

impl AudioRouter {
    /// Builds a channel's performance report from its counters and
    /// configuration, or nothing for an unknown channel.
    pub fn analyze_channel_performance(&self, channel_id: ChannelId, now: u64) -> (r: Option<
        ChannelPerformanceReport,
    >)
        requires
            self.wf(),
        ensures
            self.stats.spec_get(channel_id) is None <==> r is None,
            r matches Some(report) ==> ({
                let s = self.stats.spec_get(channel_id).unwrap();
                &&& report.channel_id == channel_id
                &&& report.quality_score_permille == spec_channel_quality(s)
                &&& report.packet_loss_permille == s.packet_loss_permille
                &&& report.average_latency_ms == s.average_latency_ms
                &&& report.jitter_ms == s.jitter_ms
                &&& report.connected_users == s.connected_users
                &&& report.active_users == s.active_users
                &&& report.recommendations@.map_values(|t: String| t@) == spec_recommendations(
                    s,
                    self.channel_configs.spec_get(channel_id),
                )
                &&& report.generated_at_us == now
            }),
    {
        let stats = match self.stats.get(channel_id) {
            Some(s) => *s,
            None => {
                return None;
            },
        };
        let config = self.get_channel_config(channel_id);
        let quality_score_permille = channel_quality(&stats);
        let recommendations = generate_recommendations(&stats, &config);
        proof {
            assert(self.stats.spec_get(channel_id) is Some);
        }
        Some(
            ChannelPerformanceReport {
                channel_id,
                quality_score_permille,
                packet_loss_permille: stats.packet_loss_permille,
                average_latency_ms: stats.average_latency_ms,
                jitter_ms: stats.jitter_ms,
                connected_users: stats.connected_users,
                active_users: stats.active_users,
                recommendations,
                generated_at_us: now,
            },
        )
    }
}

/// Channel quality in permille from a statistics snapshot.
fn channel_quality(s: &RoutingStats) -> (q: u64)
    ensures
        q == spec_channel_quality(*s),
{
    proof {
        assert((s.packet_loss_permille as int) * 400 / 1000 <= s.packet_loss_permille)
            by (nonlinear_arith)
            requires
                s.packet_loss_permille >= 0,
        ;
    }
    let lp: u64 = ((s.packet_loss_permille as u128) * 400 / 1000) as u64;
    let ln_raw: u128 = (s.average_latency_ms as u128) * 1000 / 200;
    let ln: u64 = if ln_raw > 1000 {
        1000
    } else {
        ln_raw as u64
    };
    let latp: u64 = ln * 300 / 1000;
    let jn_raw: u128 = (s.jitter_ms as u128) * 1000 / 100;
    let jn: u64 = if jn_raw > 1000 {
        1000
    } else {
        jn_raw as u64
    };
    let jp: u64 = jn * 300 / 1000;
    if lp as u128 + latp as u128 + jp as u128 >= 1000 {
        0
    } else {
        1000 - lp - latp - jp
    }
}

/// The diagnostic texts a statistics snapshot earns.
fn generate_recommendations(s: &RoutingStats, config: &Option<ChannelRoutingConfig>) -> (r: Vec<
    String,
>)
    ensures
        r@.map_values(|t: String| t@) == spec_recommendations(*s, *config),
{
    let mut r: Vec<String> = Vec::new();
    if s.packet_loss_permille > 50 {
        r.push("high packet loss: consider lowering the audio quality".to_owned());
    }
    if s.jitter_ms > 50 {
        r.push("high jitter: check the network's stability".to_owned());
    }
    if s.average_latency_ms > 150 {
        r.push("high latency: tune the buffer configuration".to_owned());
    }
    let quality_fighting = match config {
        Some(c) => matches!(c.quality_mode, QualityMode::High) && s.packet_loss_permille > 20,
        None => false,
    };
    if quality_fighting {
        r.push("quality mode is fighting loss: switch to the adaptive mode".to_owned());
    }
    if s.connected_users > 8 {
        r.push("many users: consider splitting the channel".to_owned());
    }
    proof {
        assert(r@.map_values(|t: String| t@) =~= spec_recommendations(*s, *config));
    }
    r
}

} // verus!

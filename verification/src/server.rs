//! Datagram server state: the connection table, server counters and the
//! per-packet dispatch decision.
//!
//! The socket itself lives outside the library. The caller reads a
//! datagram, parses it with the codec, consults the membership oracle,
//! and hands the packet here; dispatch validates it, registers the
//! sender, updates the connection table and returns the datagrams to
//! send, each with its destination endpoint.

use vstd::prelude::*;
use crate::packet::AudioPacket;
use crate::packet::PacketType;
use crate::packet::UserId;
use crate::packet::spec_age_us;
use crate::router::AudioRouter;
use crate::router::Endpoint;
use crate::router::spec_recipients;
use crate::table::PairTable;

verus! {

/// UDP port of the fixed per-host playback endpoint used in loopback mode.
pub const LOOPBACK_PLAYBACK_PORT: u16 = 8083;

/// Configuration of the datagram server.
#[derive(Debug, Clone)]
pub struct AudioServerConfig {
    /// Listener address, as text for the caller's socket.
    pub bind_address: String,
    /// Largest accepted datagram; fits a typical MTU minus headers.
    pub max_packet_size: usize,
    /// Inactivity after which a connection entry is evicted, microseconds.
    pub connection_timeout_us: u64,
    /// Whether extra packet validation is enabled.
    pub enable_packet_validation: bool,
    /// Hard cap on tracked connections.
    pub max_concurrent_connections: usize,
}

impl Default for AudioServerConfig {
    /// A local listener, 1472-byte datagrams, a 30-second timeout.
    fn default() -> (c: AudioServerConfig)
        ensures
            c.bind_address@ == "127.0.0.1:7878"@,
            c.max_packet_size == 1472,
            c.connection_timeout_us == 30_000_000,
            !c.enable_packet_validation,
            c.max_concurrent_connections == 1000,
    {
        AudioServerConfig {
            bind_address: "127.0.0.1:7878".to_owned(),
            max_packet_size: 1472,
            connection_timeout_us: 30_000_000,
            enable_packet_validation: false,
            max_concurrent_connections: 1000,
        }
    }
}

/// One tracked client connection.
#[derive(Debug, Clone, Copy, PartialEq, Eq, Structural)]
pub struct ClientConnection {
    /// User the endpoint belongs to.
    pub user_id: UserId,
    /// Channel the user most recently addressed.
    pub channel_id: u128,
    /// The transport endpoint.
    pub addr: Endpoint,
    /// Clock reading of the last packet from this endpoint, microseconds.
    pub last_packet_time_us: u64,
    /// Packets received from this endpoint.
    pub packets_received: u64,
    /// Packets sent to this endpoint.
    pub packets_sent: u64,
}

/// Server counters.
#[derive(Debug, Clone, Copy, PartialEq, Eq, Structural)]
pub struct ServerStats {
    /// Connections currently tracked.
    pub active_connections: usize,
    /// Datagrams received.
    pub total_packets_received: u64,
    /// Datagrams sent.
    pub total_packets_sent: u64,
    /// Bytes received.
    pub bytes_received: u64,
    /// Bytes sent.
    pub bytes_sent: u64,
    /// Datagrams dropped for framing or policy reasons.
    pub packet_errors: u64,
    /// Time since the server started, microseconds.
    pub uptime_us: u64,
}

/// Why dispatch dropped a packet.
#[derive(Debug, Clone, Copy, PartialEq, Eq, Structural)]
pub enum DispatchError {
    /// The sender is not a member of the claimed channel (or unknown).
    NotAMember,
}

/// Keeps an entry iff its connection was seen within the timeout.
pub open spec fn spec_conn_fresh(now: u64, timeout_us: u64) -> spec_fn(
    (u128, u128, ClientConnection),
) -> bool {
    |e: (u128, u128, ClientConnection)| spec_age_us(e.2.last_packet_time_us, now) < timeout_us
}

/// Saturating increment of a 64-bit counter.
pub open spec fn spec_bump64(x: u64) -> u64 {
    if x < u64::MAX {
        (x + 1) as u64
    } else {
        x
    }
}

/// Saturating addition of a 64-bit counter.
pub open spec fn spec_add64(x: u64, y: nat) -> u64 {
    if x + y <= u64::MAX {
        (x + y) as u64
    } else {
        u64::MAX as u64
    }
}

/// A send batch that delivers copies of one packet to the given targets,
/// in order: each entry carries the packet's header and payload bytes.
pub open spec fn spec_sends_match(
    sends: Seq<(AudioPacket, Endpoint)>,
    packet: AudioPacket,
    targets: Seq<Endpoint>,
) -> bool {
    &&& sends.len() == targets.len()
    &&& forall|i: int|
        0 <= i < sends.len() ==> (#[trigger] sends[i]).1 == targets[i] && sends[i].0.header
            == packet.header && sends[i].0.payload@ == packet.payload@
}

/// What dispatch sends for one valid ingress packet: in loopback mode,
/// audio returns to the sender's playback endpoint; otherwise audio and
/// control fan out to the channel's other members, silence is absorbed,
/// and sync echoes to the source.
pub open spec fn spec_dispatch_ok(
    sends: Seq<(AudioPacket, Endpoint)>,
    router: AudioRouter,
    packet: AudioPacket,
    from: Endpoint,
    loopback: bool,
) -> bool {
    let fan = spec_recipients(
        router.user_buffers.entries@,
        router.client_addresses,
        packet.header.channel_id,
        packet.header.user_id,
    );
    match packet.header.packet_type {
        PacketType::Audio => if loopback {
            sends.len() == 1 && sends[0].0 == packet && sends[0].1 == (Endpoint {
                ip: from.ip,
                port: LOOPBACK_PLAYBACK_PORT,
            })
        } else {
            spec_sends_match(sends, packet, fan)
        },
        PacketType::AudioStart => spec_sends_match(sends, packet, fan),
        PacketType::AudioStop => spec_sends_match(sends, packet, fan),
        PacketType::Silence => sends.len() == 0,
        PacketType::Sync => sends.len() == 1 && sends[0].0 == packet && sends[0].1 == from,
    }
}

/// The datagram server's connection table and counters.
pub struct AudioUdpServer {
    /// Server configuration.
    pub config: AudioServerConfig,
    /// Tracked connections keyed by endpoint (IP, then port).
    pub connections: PairTable<ClientConnection>,
    /// Server counters.
    pub stats: ServerStats,
    /// Clock reading when the server started, microseconds.
    pub start_time_us: u64,
    /// Whether audio returns to the sender's playback endpoint.
    pub loopback_mode: bool,
}

impl AudioUdpServer {
    /// The connection table is well formed.
    pub open spec fn wf(self) -> bool {
        self.connections.wf()
    }

    /// Creates a server with no tracked connections.
    pub fn new(config: AudioServerConfig, loopback_mode: bool, now: u64) -> (s: AudioUdpServer)
        ensures
            s.wf(),
            s.connections.entries@.len() == 0,
            s.stats == (ServerStats {
                active_connections: 0,
                total_packets_received: 0,
                total_packets_sent: 0,
                bytes_received: 0,
                bytes_sent: 0,
                packet_errors: 0,
                uptime_us: 0,
            }),
            s.start_time_us == now,
            s.loopback_mode == loopback_mode,
    {
        AudioUdpServer {
            config,
            connections: PairTable::new(),
            stats: ServerStats {
                active_connections: 0,
                total_packets_received: 0,
                total_packets_sent: 0,
                bytes_received: 0,
                bytes_sent: 0,
                packet_errors: 0,
                uptime_us: 0,
            },
            start_time_us: now,
            loopback_mode,
        }
    }

    /// Counts one received datagram of the given size.
    pub fn record_ingress(&mut self, datagram_len: usize)
        requires
            old(self).wf(),
        ensures
            final(self).wf(),
            final(self).connections == old(self).connections,
            final(self).stats.total_packets_received == spec_bump64(
                old(self).stats.total_packets_received,
            ),
            final(self).stats.bytes_received == spec_add64(
                old(self).stats.bytes_received,
                datagram_len as nat,
            ),
            final(self).stats.packet_errors == old(self).stats.packet_errors,
            final(self).stats.total_packets_sent == old(self).stats.total_packets_sent,
            final(self).stats.bytes_sent == old(self).stats.bytes_sent,
    {
        if self.stats.total_packets_received < u64::MAX {
            self.stats.total_packets_received = self.stats.total_packets_received + 1;
        }
        if (datagram_len as u64) <= u64::MAX - self.stats.bytes_received {
            self.stats.bytes_received = self.stats.bytes_received + datagram_len as u64;
        } else {
            self.stats.bytes_received = u64::MAX;
        }
    }

    /// Counts one framing or policy error.
    pub fn record_error(&mut self)
        requires
            old(self).wf(),
        ensures
            final(self).wf(),
            final(self).connections == old(self).connections,
            final(self).stats.packet_errors == spec_bump64(old(self).stats.packet_errors),
            final(self).stats.total_packets_received == old(self).stats.total_packets_received,
    {
        if self.stats.packet_errors < u64::MAX {
            self.stats.packet_errors = self.stats.packet_errors + 1;
        }
    }

    /// Counts one sent datagram of the given size.
    pub fn record_egress(&mut self, datagram_len: usize)
        requires
            old(self).wf(),
        ensures
            final(self).wf(),
            final(self).connections == old(self).connections,
            final(self).stats.total_packets_sent == spec_bump64(
                old(self).stats.total_packets_sent,
            ),
            final(self).stats.bytes_sent == spec_add64(
                old(self).stats.bytes_sent,
                datagram_len as nat,
            ),
    {
        if self.stats.total_packets_sent < u64::MAX {
            self.stats.total_packets_sent = self.stats.total_packets_sent + 1;
        }
        if (datagram_len as u64) <= u64::MAX - self.stats.bytes_sent {
            self.stats.bytes_sent = self.stats.bytes_sent + datagram_len as u64;
        } else {
            self.stats.bytes_sent = u64::MAX;
        }
    }

    /// Creates or refreshes the connection entry of an endpoint: the
    /// entry keeps its identity, is stamped with the clock reading, and
    /// counts one more received packet.
    pub fn touch_connection(
        &mut self,
        from: Endpoint,
        user_id: UserId,
        channel_id: u128,
        now: u64,
    )
        requires
            old(self).wf(),
        ensures
            final(self).wf(),
            final(self).stats == old(self).stats,
            ({
                let base = match old(self).connections.spec_get(from.ip, from.port as u128) {
                    Some(c) => c,
                    None => ClientConnection {
                        user_id,
                        channel_id,
                        addr: from,
                        last_packet_time_us: now,
                        packets_received: 0,
                        packets_sent: 0,
                    },
                };
                final(self).connections.spec_get(from.ip, from.port as u128) == Some(
                    ClientConnection {
                        last_packet_time_us: now,
                        packets_received: spec_bump64(base.packets_received),
                        ..base
                    },
                )
            }),
            forall|a: u128, b: u128|
                !(a == from.ip && b == from.port as u128) ==> #[trigger] final(self).connections.spec_get(a, b) == old(self).connections.spec_get(a, b),
    {
        let base = match self.connections.get(from.ip, from.port as u128) {
            Some(c) => *c,
            None => ClientConnection {
                user_id,
                channel_id,
                addr: from,
                last_packet_time_us: now,
                packets_received: 0,
                packets_sent: 0,
            },
        };
        let refreshed = ClientConnection {
            last_packet_time_us: now,
            packets_received: if base.packets_received < u64::MAX {
                base.packets_received + 1
            } else {
                base.packets_received
            },
            ..base
        };
        self.connections.insert(from.ip, from.port as u128, refreshed);
    }

    /// Dispatches one parsed, membership-checked packet: a non-member is
    /// dropped with an error counted; a member's endpoint is registered
    /// with the router, the connection entry refreshed, and the returned
    /// batch says which datagrams to send where — audio is pushed into
    /// the sender's jitter buffer and fans out to the other members (or
    /// loops back to the sender's playback endpoint), control packets fan
    /// out, silence is absorbed, sync echoes back.
    pub fn dispatch_packet(
        &mut self,
        router: &mut AudioRouter,
        packet: AudioPacket,
        from: Endpoint,
        is_member: bool,
        now: u64,
    ) -> (r: Result<Vec<(AudioPacket, Endpoint)>, DispatchError>)
        requires
            old(self).wf(),
            old(router).wf(),
        ensures
            final(self).wf(),
            final(router).wf(),
            !is_member ==> {
                &&& r == Err::<Vec<(AudioPacket, Endpoint)>, DispatchError>(
                    DispatchError::NotAMember,
                )
                &&& final(self).connections == old(self).connections
                &&& final(self).stats.packet_errors == spec_bump64(old(self).stats.packet_errors)
                &&& *final(router) == *old(router)
            },
            is_member ==> {
                &&& r matches Ok(sends)
                &&& (r matches Ok(sends) ==> spec_dispatch_ok(
                    sends@,
                    *old(router),
                    packet,
                    from,
                    old(self).loopback_mode,
                ))
                &&& final(router).client_addresses.spec_get(packet.header.user_id) == Some(from)
                &&& final(router).channel_configs == old(router).channel_configs
                &&& final(self).stats.packet_errors == old(self).stats.packet_errors
                &&& (!(packet.header.packet_type == PacketType::Audio) || old(self).loopback_mode
                    ==> final(router).user_buffers == old(router).user_buffers)
                &&& (packet.header.packet_type == PacketType::Audio && !old(self).loopback_mode
                    && !old(router).user_buffers.spec_contains(
                    packet.header.user_id,
                    packet.header.channel_id,
                ) ==> final(router).user_buffers == old(router).user_buffers)
                &&& (packet.header.packet_type == PacketType::Audio && !old(self).loopback_mode
                    && old(router).user_buffers.spec_contains(
                    packet.header.user_id,
                    packet.header.channel_id,
                ) ==> ({
                    let b = old(router).user_buffers.spec_get(
                        packet.header.user_id,
                        packet.header.channel_id,
                    ).unwrap();
                    let b2 = final(router).user_buffers.spec_get(
                        packet.header.user_id,
                        packet.header.channel_id,
                    ).unwrap();
                    &&& final(router).user_buffers.spec_contains(
                        packet.header.user_id,
                        packet.header.channel_id,
                    )
                    &&& b2.control_buffer == b.control_buffer
                    &&& b2.target_latency_us == b.target_latency_us
                    &&& b2.audio_buffer.buffer@ == crate::buffer::spec_push(
                        b.audio_buffer.buffer@,
                        b.audio_buffer.capacity as nat,
                        packet,
                    )
                    &&& b2.audio_buffer.released@ == b.audio_buffer.released@
                }))
                &&& (packet.header.packet_type == PacketType::Audio && !old(self).loopback_mode
                    ==> (forall|u: UserId, ch: u128|
                    !(u == packet.header.user_id && ch == packet.header.channel_id)
                        ==> #[trigger] final(router).user_buffers.spec_get(u, ch) == old(
                        router,
                    ).user_buffers.spec_get(u, ch)))
            },
    {
        if !is_member {
            self.record_error();
            return Err(DispatchError::NotAMember);
        }
        let user_id = packet.header.user_id;
        let channel_id = packet.header.channel_id;
        let mut sends: Vec<(AudioPacket, Endpoint)> = Vec::new();
        match packet.header.packet_type {
            PacketType::Audio => {
                if self.loopback_mode {
                    let playback = Endpoint { ip: from.ip, port: LOOPBACK_PLAYBACK_PORT };
                    sends.push((packet, playback));
                } else {
                    let accepted = router.receive_packet(&packet, from);
                    let targets = router.route_to_channel(&packet);
                    sends = pair_with_targets(packet.clone(), targets);
                    let buffered = router.ingest(packet);
                }
            },
            PacketType::AudioStart => {
                let targets = router.route_to_channel(&packet);
                sends = pair_with_targets(packet, targets);
            },
            PacketType::AudioStop => {
                let targets = router.route_to_channel(&packet);
                sends = pair_with_targets(packet, targets);
            },
            PacketType::Silence => {},
            PacketType::Sync => {
                sends.push((packet, from));
            },
        }
        router.register_client(user_id, from);
        self.touch_connection(from, user_id, channel_id, now);
        Ok(sends)
    }

    /// Counts one datagram sent to a tracked endpoint on its connection
    /// entry; unknown endpoints are left alone.
    pub fn record_client_egress(&mut self, addr: Endpoint)
        requires
            old(self).wf(),
        ensures
            final(self).wf(),
            final(self).stats == old(self).stats,
            ({
                match old(self).connections.spec_get(addr.ip, addr.port as u128) {
                    Some(c) => final(self).connections.spec_get(addr.ip, addr.port as u128)
                        == Some(
                        ClientConnection { packets_sent: spec_bump64(c.packets_sent), ..c },
                    ),
                    None => final(self).connections.spec_get(addr.ip, addr.port as u128) is None,
                }
            }),
            forall|a: u128, b: u128|
                !(a == addr.ip && b == addr.port as u128) ==> #[trigger] final(
                    self
                ).connections.spec_get(a, b) == old(self).connections.spec_get(a, b),
    {
        let base = match self.connections.get(addr.ip, addr.port as u128) {
            Some(c) => *c,
            None => {
                return ;
            },
        };
        let bumped = ClientConnection {
            packets_sent: if base.packets_sent < u64::MAX {
                base.packets_sent + 1
            } else {
                base.packets_sent
            },
            ..base
        };
        self.connections.insert(addr.ip, addr.port as u128, bumped);
    }

    /// Reads the server counters, refreshed with the connection count and
    /// the uptime at the given clock reading.
    pub fn get_stats(&self, now: u64) -> (s: ServerStats)
        requires
            self.wf(),
        ensures
            s.active_connections == self.connections.entries@.len(),
            s.uptime_us == spec_age_us(self.start_time_us, now),
            s.total_packets_received == self.stats.total_packets_received,
            s.total_packets_sent == self.stats.total_packets_sent,
            s.bytes_received == self.stats.bytes_received,
            s.bytes_sent == self.stats.bytes_sent,
            s.packet_errors == self.stats.packet_errors,
    {
        let uptime_us = if now >= self.start_time_us {
            now - self.start_time_us
        } else {
            0
        };
        ServerStats {
            active_connections: self.connections.len(),
            uptime_us,
            ..self.stats
        }
    }

    /// Drops a client's connection entry, if one is tracked.
    pub fn disconnect_client(&mut self, addr: Endpoint)
        requires
            old(self).wf(),
        ensures
            final(self).wf(),
            !final(self).connections.spec_contains(addr.ip, addr.port as u128),
            forall|a: u128, b: u128|
                !(a == addr.ip && b == addr.port as u128) ==> #[trigger] final(self).connections.spec_get(a, b) == old(self).connections.spec_get(a, b),
    {
        let removed = self.connections.remove(addr.ip, addr.port as u128);
    }

    /// Evicts every connection whose last packet is older than the
    /// configured timeout at the given clock reading.
    pub fn cleanup_expired_connections(&mut self, now: u64)
        requires
            old(self).wf(),
        ensures
            final(self).wf(),
            final(self).connections.entries@ == old(self).connections.entries@.filter(
                spec_conn_fresh(now, old(self).config.connection_timeout_us),
            ),
            final(self).stats == old(self).stats,
            final(self).config == old(self).config,
    {
        let ghost pred = spec_conn_fresh(now, self.config.connection_timeout_us);
        let ghost es0 = self.connections.entries@;
        let n = self.connections.entries.len();
        let mut kept: Vec<(u128, u128, ClientConnection)> = Vec::new();
        let mut j: usize = 0;
        proof {
            assert(es0.take(0).filter(pred) =~= Seq::<(u128, u128, ClientConnection)>::empty());
        }
        while j < n
            invariant
                old(self).wf(),
                pred == spec_conn_fresh(now, self.config.connection_timeout_us),
                self.config == old(self).config,
                self.stats == old(self).stats,
                self.loopback_mode == old(self).loopback_mode,
                es0 == old(self).connections.entries@,
                n == es0.len(),
                j <= n,
                self.connections.entries@ == es0.skip(j as int),
                kept@ == es0.take(j as int).filter(pred),
            decreases n - j,
        {
            let e = self.connections.entries.remove(0);
            let age = if now >= e.2.last_packet_time_us {
                now - e.2.last_packet_time_us
            } else {
                0
            };
            if age < self.config.connection_timeout_us {
                kept.push(e);
            }
            proof {
                es0.take(j as int).lemma_filter_push(es0[j as int], pred);
                assert(es0.take(j + 1) =~= es0.take(j as int).push(es0[j as int]));
                assert(self.connections.entries@ =~= es0.skip(j + 1));
            }
            j = j + 1;
        }
        self.connections.entries = kept;
        proof {
            assert(es0.take(n as int) =~= es0);
            crate::table::lemma_filter_pairs_unique(es0, pred);
        }
    }

    /// The tracked connections, in table order.
    pub fn get_connections(&self) -> (out: Vec<ClientConnection>)
        requires
            self.wf(),
        ensures
            out@.len() == self.connections.entries@.len(),
            forall|i: int|
                0 <= i < out@.len() ==> #[trigger] out@[i] == self.connections.entries@[i].2,
    {
        let n = self.connections.entries.len();
        let mut out: Vec<ClientConnection> = Vec::new();
        let mut i: usize = 0;
        while i < n
            invariant
                self.wf(),
                n == self.connections.entries@.len(),
                i <= n,
                out@.len() == i,
                forall|k: int|
                    0 <= k < i ==> #[trigger] out@[k] == self.connections.entries@[k].2,
            decreases n - i,
        {
            out.push(self.connections.entries[i].2);
            i = i + 1;
        }
        out
    }
}

/// Pairs copies of one packet with each target endpoint, in target order.
fn pair_with_targets(packet: AudioPacket, targets: Vec<Endpoint>) -> (sends: Vec<
    (AudioPacket, Endpoint),
>)
    ensures
        spec_sends_match(sends@, packet, targets@),
{
    let n = targets.len();
    let mut sends: Vec<(AudioPacket, Endpoint)> = Vec::new();
    let mut i: usize = 0;
    while i < n
        invariant
            n == targets@.len(),
            i <= n,
            sends@.len() == i,
            forall|k: int|
                0 <= k < i ==> (#[trigger] sends@[k]).1 == targets@[k] && sends@[k].0.header
                    == packet.header && sends@[k].0.payload@ == packet.payload@,
        decreases n - i,
    {
        let t = targets[i];
        sends.push((packet.clone(), t));
        i = i + 1;
    }
    sends
}

} // verus!

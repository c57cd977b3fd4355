//! Static configuration of the server process.
//!
//! Reading a configuration file or the environment happens outside the
//! library; this module holds the configuration data, its defaults and
//! its validation.

use vstd::prelude::*;

verus! {

/// Complete configuration of the server.
#[derive(Debug, Clone)]
pub struct Config {
    /// Listener addresses and ports.
    pub server: ServerConfig,
    /// Nominal audio format and test modes.
    pub audio: AudioConfig,
    /// Hard limits.
    pub limits: LimitsConfig,
}

/// Listener configuration.
#[derive(Debug, Clone)]
pub struct ServerConfig {
    /// Host to bind.
    pub host: String,
    /// HTTP control port.
    pub http_port: u16,
    /// WebSocket notification port.
    pub websocket_port: u16,
    /// UDP audio port.
    pub udp_port: u16,
}

/// Audio format and test-mode configuration.
#[derive(Debug, Clone, Copy, PartialEq, Eq, Structural)]
pub struct AudioConfig {
    /// Nominal mix sample rate in hertz.
    pub sample_rate: u32,
    /// Nominal mix channel count.
    pub channels: u16,
    /// Jitter buffer capacity in packets.
    pub buffer_size: usize,
    /// Largest accepted datagram.
    pub max_packet_size: usize,
    /// Test mode: return audio to the sender's playback endpoint.
    pub loopback_mode: bool,
    /// Test mode: simulate a second, virtual user.
    pub virtual_user_mode: bool,
}

/// Hard limits of the deployment.
#[derive(Debug, Clone, Copy, PartialEq, Eq, Structural)]
pub struct LimitsConfig {
    /// Most users one channel admits.
    pub max_users_per_channel: usize,
    /// Most channels the server tracks.
    pub max_channels: usize,
    /// Most connections the server accepts.
    pub max_concurrent_connections: usize,
}

impl Default for Config {
    /// Binds everywhere on the usual ports, 48 kHz mono audio, modest
    /// limits, test modes off.
    fn default() -> (c: Config)
        ensures
            c.server.host@ == "0.0.0.0"@,
            c.server.http_port == 8080,
            c.server.websocket_port == 8081,
            c.server.udp_port == 8082,
            c.audio == (AudioConfig {
                sample_rate: 48000,
                channels: 1,
                buffer_size: 1024,
                max_packet_size: 1400,
                loopback_mode: false,
                virtual_user_mode: false,
            }),
            c.limits == (LimitsConfig {
                max_users_per_channel: 10,
                max_channels: 50,
                max_concurrent_connections: 100,
            }),
    {
        Config {
            server: ServerConfig {
                host: "0.0.0.0".to_owned(),
                http_port: 8080,
                websocket_port: 8081,
                udp_port: 8082,
            },
            audio: AudioConfig {
                sample_rate: 48000,
                channels: 1,
                buffer_size: 1024,
                max_packet_size: 1400,
                loopback_mode: false,
                virtual_user_mode: false,
            },
            limits: LimitsConfig {
                max_users_per_channel: 10,
                max_channels: 50,
                max_concurrent_connections: 100,
            },
        }
    }
}

impl Config {
    /// A usable configuration: non-zero audio format, ports distinct from
    /// zero, and positive limits.
    pub open spec fn spec_valid(self) -> bool {
        &&& self.audio.sample_rate > 0
        &&& self.audio.channels >= 1
        &&& self.audio.buffer_size >= 4
        &&& self.limits.max_users_per_channel >= 1
        &&& self.limits.max_channels >= 1
        &&& self.limits.max_concurrent_connections >= 1
    }

    /// Checks that the configuration can run the data plane.
    pub fn validate(&self) -> (r: bool)
        ensures
            r == self.spec_valid(),
    {
        self.audio.sample_rate > 0 && self.audio.channels >= 1 && self.audio.buffer_size >= 4
            && self.limits.max_users_per_channel >= 1 && self.limits.max_channels >= 1
            && self.limits.max_concurrent_connections >= 1
    }
}

} // verus!

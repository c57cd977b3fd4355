//! Client-side application state: the connected user, the channel list
//! and the connection lifecycle.

use vstd::prelude::*;
use crate::packet::UserId;
use crate::packet::ChannelId;

verus! {

/// The connected user.
#[derive(Debug, Clone)]
pub struct UserState {
    /// The user's identifier.
    pub id: UserId,
    /// The user's name.
    pub username: String,
    /// When the user connected, seconds since the epoch.
    pub connected_at: u64,
}

/// One member of a channel, as shown to the client.
#[derive(Debug, Clone)]
pub struct UserInfo {
    /// The member's identifier.
    pub id: UserId,
    /// The member's name.
    pub username: String,
    /// Whether the member is currently speaking.
    pub is_speaking: bool,
    /// Whether the member's microphone is on.
    pub mic_enabled: bool,
    /// Whether the member's speaker is on.
    pub speaker_enabled: bool,
}

/// A channel as shown to the client.
#[derive(Debug, Clone)]
pub struct ChannelInfo {
    /// The channel's identifier.
    pub id: ChannelId,
    /// The channel's name.
    pub name: String,
    /// An optional description.
    pub description: Option<String>,
    /// Number of members.
    pub user_count: usize,
    /// The members.
    pub users: Vec<UserInfo>,
}

/// Audio devices available on the host.
#[derive(Debug, Clone)]
pub struct AudioDevices {
    /// Capture devices.
    pub input_devices: Vec<AudioDevice>,
    /// Playback devices.
    pub output_devices: Vec<AudioDevice>,
    /// Name of the selected capture device.
    pub selected_input: Option<String>,
    /// Name of the selected playback device.
    pub selected_output: Option<String>,
}

impl Default for AudioDevices {
    /// No devices discovered, none selected.
    fn default() -> (d: AudioDevices)
        ensures
            d.input_devices@.len() == 0,
            d.output_devices@.len() == 0,
            d.selected_input is None,
            d.selected_output is None,
    {
        AudioDevices {
            input_devices: Vec::new(),
            output_devices: Vec::new(),
            selected_input: None,
            selected_output: None,
        }
    }
}

/// One audio device.
#[derive(Debug, Clone)]
pub struct AudioDevice {
    /// Human-readable device name.
    pub name: String,
    /// Stable device identifier.
    pub id: String,
    /// Whether the host considers it the default device.
    pub is_default: bool,
}

/// Lifecycle of the connection to the server.
#[derive(Debug, Clone, Copy, PartialEq, Eq, Structural)]
pub enum ConnectionState {
    /// No connection.
    Disconnected,
    /// Connection being established.
    Connecting,
    /// Connection up.
    Connected,
    /// Connection failed.
    Error,
}

impl ConnectionState {
    /// Whether the connection is up.
    pub fn is_connected(&self) -> (r: bool)
        ensures
            r == (*self == ConnectionState::Connected),
    {
        matches!(self, ConnectionState::Connected)
    }

    /// Whether the connection is being established.
    pub fn is_connecting(&self) -> (r: bool)
        ensures
            r == (*self == ConnectionState::Connecting),
    {
        matches!(self, ConnectionState::Connecting)
    }

    /// Whether there is no connection.
    pub fn is_disconnected(&self) -> (r: bool)
        ensures
            r == (*self == ConnectionState::Disconnected),
    {
        matches!(self, ConnectionState::Disconnected)
    }

    /// Whether the connection failed.
    pub fn is_error(&self) -> (r: bool)
        ensures
            r == (*self == ConnectionState::Error),
    {
        matches!(self, ConnectionState::Error)
    }
}

/// The client application's state.
#[derive(Debug)]
pub struct AppState {
    /// The connected user, if any.
    pub user: Option<UserState>,
    /// Channels known to the client.
    pub channels: Vec<ChannelInfo>,
    /// Channel the user currently sits in.
    pub current_channel: Option<ChannelId>,
    /// Devices available on the host.
    pub audio_devices: AudioDevices,
    /// Connection lifecycle.
    pub connection_state: ConnectionState,
}

impl AppState {
    /// A fresh, disconnected state.
    pub fn new() -> (s: AppState)
        ensures
            s.user is None,
            s.channels@.len() == 0,
            s.current_channel is None,
            s.connection_state == ConnectionState::Disconnected,
    {
        AppState {
            user: None,
            channels: Vec::new(),
            current_channel: None,
            audio_devices: AudioDevices::default(),
            connection_state: ConnectionState::Disconnected,
        }
    }

    /// Records the connected user.
    pub fn set_user(&mut self, user: UserState)
        ensures
            final(self).user == Some(user),
            final(self).channels == old(self).channels,
            final(self).current_channel == old(self).current_channel,
            final(self).connection_state == old(self).connection_state,
    {
        self.user = Some(user);
    }

    /// Forgets the connected user.
    pub fn clear_user(&mut self)
        ensures
            final(self).user is None,
            final(self).channels == old(self).channels,
            final(self).current_channel == old(self).current_channel,
            final(self).connection_state == old(self).connection_state,
    {
        self.user = None;
    }

    /// Replaces the channel list.
    pub fn update_channels(&mut self, channels: Vec<ChannelInfo>)
        ensures
            final(self).channels == channels,
            final(self).user == old(self).user,
            final(self).current_channel == old(self).current_channel,
            final(self).connection_state == old(self).connection_state,
    {
        self.channels = channels;
    }

    /// Sets or clears the current channel.
    pub fn set_current_channel(&mut self, channel_id: Option<ChannelId>)
        ensures
            final(self).current_channel == channel_id,
            final(self).user == old(self).user,
            final(self).channels == old(self).channels,
            final(self).connection_state == old(self).connection_state,
    {
        self.current_channel = channel_id;
    }

    /// Reads the current channel.
    pub fn get_current_channel(&self) -> (r: Option<ChannelId>)
        ensures
            r == self.current_channel,
    {
        self.current_channel
    }

    /// Sets the connection lifecycle state.
    pub fn set_connection_state(&mut self, state: ConnectionState)
        ensures
            final(self).connection_state == state,
            final(self).user == old(self).user,
            final(self).channels == old(self).channels,
            final(self).current_channel == old(self).current_channel,
    {
        self.connection_state = state;
    }

    /// Reads the connection lifecycle state.
    pub fn get_connection_state(&self) -> (r: ConnectionState)
        ensures
            r == self.connection_state,
    {
        self.connection_state
    }
}

impl Default for AppState {
    /// Same as `AppState::new`.
    fn default() -> (s: AppState)
        ensures
            s.user is None,
            s.channels@.len() == 0,
            s.current_channel is None,
            s.connection_state == ConnectionState::Disconnected,
    {
        AppState::new()
    }
}

} // verus!

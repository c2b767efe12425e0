//! Plain-old-data records of the device tree: a device with its login
//! settings and its channels. Their text form (see `storage`) is the one
//! that `device_tree.txt` holds.

use vstd::prelude::*;

verus! {

/// Transport protocol of a channel's stream.
#[derive(Debug, Clone, Copy, PartialEq, Eq, Structural)]
pub enum ProtocolType {
    Tcp,
    Udp,
    Mcast,
    Rtp,
    Rtsp,
    Https,
    Unknown,
}

/// The number that stands for a protocol in the file.
pub open spec fn protocol_code(p: ProtocolType) -> i32 {
    match p {
        ProtocolType::Tcp => 0,
        ProtocolType::Udp => 1,
        ProtocolType::Mcast => 2,
        ProtocolType::Rtp => 3,
        ProtocolType::Rtsp => 4,
        ProtocolType::Https => 5,
        ProtocolType::Unknown => 99,
    }
}

pub open spec fn protocol_label(p: ProtocolType) -> Seq<char> {
    match p {
        ProtocolType::Tcp => "TCP"@,
        ProtocolType::Udp => "UDP"@,
        ProtocolType::Mcast => "MULTICAST"@,
        ProtocolType::Rtp => "RTP"@,
        ProtocolType::Rtsp => "RTSP"@,
        ProtocolType::Https => "HTTPS"@,
        ProtocolType::Unknown => "?"@,
    }
}

impl ProtocolType {
    pub fn label(self) -> (s: &'static str)
        ensures
            s@ == protocol_label(self),
    {
        match self {
            ProtocolType::Tcp => "TCP",
            ProtocolType::Udp => "UDP",
            ProtocolType::Mcast => "MULTICAST",
            ProtocolType::Rtp => "RTP",
            ProtocolType::Rtsp => "RTSP",
            ProtocolType::Https => "HTTPS",
            ProtocolType::Unknown => "?",
        }
    }

    /// The number written for this protocol.
    pub fn code(self) -> (n: i32)
        ensures
            n == protocol_code(self),
    {
        match self {
            ProtocolType::Tcp => 0,
            ProtocolType::Udp => 1,
            ProtocolType::Mcast => 2,
            ProtocolType::Rtp => 3,
            ProtocolType::Rtsp => 4,
            ProtocolType::Https => 5,
            ProtocolType::Unknown => 99,
        }
    }
}

impl Default for ProtocolType {
    fn default() -> (p: Self)
        ensures
            p == ProtocolType::Tcp,
    {
        ProtocolType::Tcp
    }
}

/// Which of the device's encoded streams a channel plays.
#[derive(Debug, Clone, Copy, PartialEq, Eq, Structural)]
pub enum StreamType {
    Main,
    Sub,
    Third,
    Trans,
    Fourth,
}

/// The number that stands for a stream in the file.
pub open spec fn stream_code(s: StreamType) -> i32 {
    match s {
        StreamType::Main => 0,
        StreamType::Sub => 1,
        StreamType::Third => 2,
        StreamType::Trans => 3,
        StreamType::Fourth => 4,
    }
}

pub open spec fn stream_label(s: StreamType) -> Seq<char> {
    match s {
        StreamType::Main => "Main stream"@,
        StreamType::Sub => "Sub stream"@,
        StreamType::Third => "Third stream"@,
        StreamType::Trans => "Trans code"@,
        StreamType::Fourth => "Fourth stream"@,
    }
}

impl StreamType {
    pub fn label(self) -> (s: &'static str)
        ensures
            s@ == stream_label(self),
    {
        match self {
            StreamType::Main => "Main stream",
            StreamType::Sub => "Sub stream",
            StreamType::Third => "Third stream",
            StreamType::Trans => "Trans code",
            StreamType::Fourth => "Fourth stream",
        }
    }

    /// The number written for this stream.
    pub fn code(self) -> (n: i32)
        ensures
            n == stream_code(self),
    {
        match self {
            StreamType::Main => 0,
            StreamType::Sub => 1,
            StreamType::Third => 2,
            StreamType::Trans => 3,
            StreamType::Fourth => 4,
        }
    }
}

impl Default for StreamType {
    fn default() -> (s: Self)
        ensures
            s == StreamType::Main,
    {
        StreamType::Main
    }
}

/// One channel (camera input) of a device.
#[derive(Debug, Clone)]
pub struct ChannelData {
    pub name: String,
    pub number: i32,
    pub protocol: ProtocolType,
    pub stream: StreamType,
    pub real_handle: i32,
    pub online: bool,
    /// How many field lines of the channel's block were read so far.
    pub _field_idx: u8,
}

/// A channel as the contracts see it.
pub struct ChannelModel {
    pub name: Seq<char>,
    pub number: i32,
    pub protocol: ProtocolType,
    pub stream: StreamType,
    pub real_handle: i32,
    pub online: bool,
    pub field_idx: u8,
}

impl View for ChannelData {
    type V = ChannelModel;

    open spec fn view(&self) -> ChannelModel {
        ChannelModel {
            name: self.name@,
            number: self.number,
            protocol: self.protocol,
            stream: self.stream,
            real_handle: self.real_handle,
            online: self.online,
            field_idx: self._field_idx,
        }
    }
}

/// A fresh channel: no name, number 0, TCP, main stream, not playing.
pub open spec fn default_channel() -> ChannelModel {
    ChannelModel {
        name: Seq::empty(),
        number: 0,
        protocol: ProtocolType::Tcp,
        stream: StreamType::Main,
        real_handle: -1i32,
        online: false,
        field_idx: 0,
    }
}

impl Default for ChannelData {
    fn default() -> (c: Self)
        ensures
            c@ == default_channel(),
    {
        ChannelData {
            name: String::new(),
            number: 0,
            protocol: ProtocolType::Tcp,
            stream: StreamType::Main,
            real_handle: -1i32,
            online: false,
            _field_idx: 0,
        }
    }
}

/// One device (DVR / NVR / camera) with its login settings.
#[derive(Debug, Clone)]
pub struct DeviceData {
    pub name: String,
    pub ip: String,
    pub port: u16,
    pub user: String,
    pub password: String,
    pub secret_key: String,
    pub user_id: i32,
    pub multicast: String,
    pub zero_chan_num: u8,
    pub real_play_label: i32,
    pub channels: Vec<ChannelData>,
    /// How many field lines of the device's block were read so far.
    pub _field_idx: u8,
}

/// A device as the contracts see it.
pub struct DeviceModel {
    pub name: Seq<char>,
    pub ip: Seq<char>,
    pub port: u16,
    pub user: Seq<char>,
    pub password: Seq<char>,
    pub secret_key: Seq<char>,
    pub user_id: i32,
    pub multicast: Seq<char>,
    pub zero_chan_num: u8,
    pub real_play_label: i32,
    pub channels: Seq<ChannelModel>,
    pub field_idx: u8,
}

/// The models of a sequence of channels.
pub open spec fn channel_models(cs: Seq<ChannelData>) -> Seq<ChannelModel> {
    cs.map_values(|c: ChannelData| c@)
}

/// The models of a sequence of devices.
pub open spec fn device_models(ds: Seq<DeviceData>) -> Seq<DeviceModel> {
    ds.map_values(|d: DeviceData| d@)
}

impl View for DeviceData {
    type V = DeviceModel;

    open spec fn view(&self) -> DeviceModel {
        DeviceModel {
            name: self.name@,
            ip: self.ip@,
            port: self.port,
            user: self.user@,
            password: self.password@,
            secret_key: self.secret_key@,
            user_id: self.user_id,
            multicast: self.multicast@,
            zero_chan_num: self.zero_chan_num,
            real_play_label: self.real_play_label,
            channels: channel_models(self.channels@),
            field_idx: self._field_idx,
        }
    }
}

/// A fresh device: every text empty, port 0 (not set), logged out
/// (`user_id` -1), no channels.
pub open spec fn default_device() -> DeviceModel {
    DeviceModel {
        name: Seq::empty(),
        ip: Seq::empty(),
        port: 0,
        user: Seq::empty(),
        password: Seq::empty(),
        secret_key: Seq::empty(),
        user_id: -1i32,
        multicast: Seq::empty(),
        zero_chan_num: 0,
        real_play_label: 0,
        channels: Seq::empty(),
        field_idx: 0,
    }
}

impl Default for DeviceData {
    fn default() -> (d: Self)
        ensures
            d@ == default_device(),
    {
        let d = DeviceData {
            name: String::new(),
            ip: String::new(),
            port: 0,
            user: String::new(),
            password: String::new(),
            secret_key: String::new(),
            user_id: -1i32,
            multicast: String::new(),
            zero_chan_num: 0,
            real_play_label: 0,
            channels: Vec::new(),
            _field_idx: 0,
        };
        assert(channel_models(d.channels@) =~= Seq::<ChannelModel>::empty());
        d
    }
}

/// The port that a login uses: 8000 when none is set.
pub open spec fn effective_port_of(port: u16) -> u16 {
    if port == 0 {
        8000
    } else {
        port
    }
}

/// The user name that a login uses: `admin` when none is set.
pub open spec fn effective_user_of(user: Seq<char>) -> Seq<char> {
    if user.len() == 0 {
        "admin"@
    } else {
        user
    }
}

impl DeviceData {
    pub fn is_logged_in(&self) -> (b: bool)
        ensures
            b == (self.user_id > 0),
    {
        self.user_id > 0
    }

    pub fn channel_count(&self) -> (n: usize)
        ensures
            n == self.channels@.len(),
    {
        self.channels.len()
    }

    pub fn effective_port(&self) -> (p: u16)
        ensures
            p == effective_port_of(self.port),
    {
        if self.port == 0 {
            8000
        } else {
            self.port
        }
    }

    pub fn effective_user(&self) -> (u: &str)
        ensures
            u@ == effective_user_of(self.user@),
    {
        if self.user.as_str().is_empty() {
            "admin"
        } else {
            self.user.as_str()
        }
    }
}

} // verus!

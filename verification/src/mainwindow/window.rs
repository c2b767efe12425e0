//! The decisions of the main window: what a row of the device tree
//! selects, what the toolbar's actions do to the device list and the log,
//! and how a device that the user adds is filled in. The window and the
//! SDK calls belong to the front end, which hands their results back here.

use vstd::prelude::*;

use crate::mainwindow::devicetree::data::{
    channel_models, default_channel, default_device, device_models, ChannelModel, DeviceModel,
    protocol_label, stream_label,
};
use crate::mainwindow::devicetree::{row_lookup, row_target, ChannelData, DeviceData};
use crate::mainwindow::logalarm::{capped, LogAlarmState, LogEntry};
use crate::sdk::DeviceInfo;
use crate::text::{chars_of, int_decimal, parse_u16, parse_u16_at, push_i32};

verus! {

broadcast use vstd::string::group_string_axioms;

/// `after` is the log `before` with one more row, dropping the oldest past
/// the limit, and that row tells of `interface` on `ip` with `info`.
pub open spec fn logged(
    before: Seq<LogEntry>,
    after: Seq<LogEntry>,
    interface: Seq<char>,
    ip: Seq<char>,
    info: Seq<char>,
    success: bool,
) -> bool {
    &&& after.len() > 0
    &&& after == capped(before.push(after.last()))
    &&& after.last().interface@ == interface
    &&& after.last().device_ip@ == ip
    &&& after.last().info@ == info
    &&& after.last().success == success
}

/// The device whose row `row` is, if it is a device's row.
pub open spec fn selected_device(ds: Seq<DeviceModel>, row: int) -> Option<int> {
    let t = row_target(ds, row);
    if t.0 == 1 && t.1 < ds.len() {
        Some(t.1 as int)
    } else {
        None
    }
}

/// The device and channel whose row `row` is, if it is a channel's row.
pub open spec fn selected_channel(ds: Seq<DeviceModel>, row: int) -> Option<(int, int)> {
    let t = row_target(ds, row);
    if t.0 == 2 && t.1 < ds.len() && t.2 < ds[t.1 as int].channels.len() {
        Some((t.1 as int, t.2 as int))
    } else {
        None
    }
}

/// A device after logging out: a session (`user_id` 0 or more) is dropped.
pub open spec fn logged_out(d: DeviceModel) -> DeviceModel {
    if d.user_id >= 0 {
        DeviceModel { user_id: -1i32, ..d }
    } else {
        d
    }
}

/// The session that the SDK has to close when a device is logged out or
/// deleted: only one that is open, and only with the SDK loaded.
pub open spec fn sdk_logout_of(d: DeviceModel, sdk_loaded: bool) -> Option<i32> {
    if d.user_id >= 0 && sdk_loaded {
        Some(d.user_id)
    } else {
        None
    }
}

/// What the main window holds: the devices, the log and alarm tables and
/// the versions shown in the status bar.
pub struct GlobalData {
    pub devices: Vec<DeviceData>,
    pub log: LogAlarmState,
    pub sdk_version: String,
    pub player_version: String,
    pub sdk_loaded: bool,
}

/// The parts that no action of the tree changes.
pub open spec fn same_settings(a: &GlobalData, b: &GlobalData) -> bool {
    &&& a.log.alarms@ == b.log.alarms@
    &&& a.log.show_log == b.log.show_log
    &&& a.sdk_version@ == b.sdk_version@
    &&& a.player_version@ == b.player_version@
    &&& a.sdk_loaded == b.sdk_loaded
}

/// What the device-attribute dialog shows.
pub struct DeviceAttr {
    pub device_name: String,
    pub ip: String,
    pub port: u16,
    pub user_id: i32,
    pub status: &'static str,
    pub chan_count: usize,
    pub zero_chan: u8,
}

/// What the channel-attribute dialog shows.
pub struct ChannelAttr {
    pub channel_name: String,
    pub channel_num: i32,
    pub protocol: &'static str,
    pub stream: &'static str,
    pub real_handle: i32,
    pub online: &'static str,
}

/// The status text of a device: `logged in` or `offline`.
pub open spec fn status_text(d: DeviceModel) -> Seq<char> {
    if d.user_id > 0 {
        "logged in"@
    } else {
        "offline"@
    }
}

/// Whether a channel is shown as playing: `yes` or `no`.
pub open spec fn online_text(c: ChannelModel) -> Seq<char> {
    if c.real_handle >= 0 {
        "yes"@
    } else {
        "no"@
    }
}

impl GlobalData {
    /// The window's state at start: the devices read from the file, empty
    /// tables, and the SDK's version when it loaded.
    pub fn new(d: Vec<DeviceData>, sdk_ok: bool, reported_version: String) -> (g: Self)
        ensures
            g.devices@ == d@,
            g.log.logs@.len() == 0,
            g.log.alarms@.len() == 0,
            !g.log.show_log,
            g.sdk_version@ == (if sdk_ok {
                reported_version@
            } else {
                "HCNetSDK (not loaded)"@
            }),
            g.player_version@ == "PlayCtrl (loading)"@,
            g.sdk_loaded == sdk_ok,
    {
        GlobalData {
            devices: d,
            log: LogAlarmState::default(),
            sdk_version: if sdk_ok {
                reported_version
            } else {
                "HCNetSDK (not loaded)".to_owned()
            },
            player_version: "PlayCtrl (loading)".to_owned(),
            sdk_loaded: sdk_ok,
        }
    }

    /// What row `idx` of the tree selects (see `row_target`).
    pub fn row_lookup(&self, idx: i32) -> (r: (i32, usize, usize))
        ensures
            r == row_target(device_models(self.devices@), idx as int),
    {
        row_lookup(self.devices.as_slice(), idx)
    }

    /// The device selected by `row`, if `row` is a device's row.
    fn device_at_row(&self, row: i32) -> (r: Option<usize>)
        ensures
            r matches Some(i) ==> selected_device(device_models(self.devices@), row as int) == Some(
                i as int,
            ),
            r is None ==> selected_device(device_models(self.devices@), row as int) is None,
    {
        let (l, di, _ci) = self.row_lookup(row);
        if l == 1 && di < self.devices.len() {
            Some(di)
        } else {
            None
        }
    }

    /// Logs out the device of the selected row. Returns `None` when the row
    /// is not a device's, and otherwise the session that the SDK has to
    /// close.
    pub fn logout_selected(&mut self, row: i32) -> (r: Option<Option<i32>>)
        ensures
            match selected_device(device_models(old(self).devices@), row as int) {
                None => r is None && *final(self) == *old(self),
                Some(di) => {
                    let d = device_models(old(self).devices@)[di];
                    &&& r == Some(sdk_logout_of(d, old(self).sdk_loaded))
                    &&& device_models(final(self).devices@) == device_models(
                        old(self).devices@,
                    ).update(di, logged_out(d))
                    &&& logged(
                        old(self).log.logs@,
                        final(self).log.logs@,
                        "Logout"@,
                        d.ip,
                        ""@,
                        true,
                    )
                    &&& same_settings(old(self), final(self))
                },
            },
    {
        let di = match self.device_at_row(row) {
            Some(i) => i,
            None => return None,
        };
        let ghost ds = device_models(self.devices@);
        let ip = self.devices[di].ip.clone();
        let uid = self.devices[di].user_id;
        let mut out: Option<i32> = None;
        if uid >= 0 {
            if self.sdk_loaded {
                out = Some(uid);
            }
            self.devices[di].user_id = -1;
        }
        assert(device_models(self.devices@) =~= ds.update(di as int, logged_out(ds[di as int])));
        let e = LogEntry::success("Logout", ip.as_str(), "");
        self.log.add_log(e);
        Some(out)
    }

    /// Deletes the device of the selected row. Returns `None` when the row
    /// is not a device's, and otherwise the session that the SDK has to
    /// close.
    pub fn delete_selected(&mut self, row: i32) -> (r: Option<Option<i32>>)
        ensures
            match selected_device(device_models(old(self).devices@), row as int) {
                None => r is None && *final(self) == *old(self),
                Some(di) => {
                    let d = device_models(old(self).devices@)[di];
                    &&& r == Some(sdk_logout_of(d, old(self).sdk_loaded))
                    &&& final(self).devices@ == old(self).devices@.remove(di)
                    &&& logged(
                        old(self).log.logs@,
                        final(self).log.logs@,
                        "Delete"@,
                        d.ip,
                        ""@,
                        true,
                    )
                    &&& same_settings(old(self), final(self))
                },
            },
    {
        let di = match self.device_at_row(row) {
            Some(i) => i,
            None => return None,
        };
        let ip = self.devices[di].ip.clone();
        let uid = self.devices[di].user_id;
        let out = if uid >= 0 && self.sdk_loaded {
            Some(uid)
        } else {
            None
        };
        self.devices.remove(di);
        let e = LogEntry::success("Delete", ip.as_str(), "");
        self.log.add_log(e);
        Some(out)
    }

    /// What the device-attribute dialog shows for the selected row, if it
    /// is a device's row.
    pub fn device_attr(&self, row: i32) -> (r: Option<DeviceAttr>)
        ensures
            match selected_device(device_models(self.devices@), row as int) {
                None => r is None,
                Some(di) => r matches Some(a) && {
                    let d = device_models(self.devices@)[di];
                    &&& a.device_name@ == d.name
                    &&& a.ip@ == d.ip
                    &&& a.port == d.port
                    &&& a.user_id == d.user_id
                    &&& a.status@ == status_text(d)
                    &&& a.chan_count == d.channels.len()
                    &&& a.zero_chan == d.zero_chan_num
                },
            },
    {
        let di = match self.device_at_row(row) {
            Some(i) => i,
            None => return None,
        };
        let d = &self.devices[di];
        Some(
            DeviceAttr {
                device_name: d.name.clone(),
                ip: d.ip.clone(),
                port: d.port,
                user_id: d.user_id,
                status: if d.is_logged_in() {
                    "logged in"
                } else {
                    "offline"
                },
                chan_count: d.channels.len(),
                zero_chan: d.zero_chan_num,
            },
        )
    }

    /// What the channel-attribute dialog shows for the selected row, if it
    /// is a channel's row.
    pub fn channel_attr(&self, row: i32) -> (r: Option<ChannelAttr>)
        ensures
            match selected_channel(device_models(self.devices@), row as int) {
                None => r is None,
                Some(sel) => r matches Some(a) && {
                    let c = device_models(self.devices@)[sel.0].channels[sel.1];
                    &&& a.channel_name@ == c.name
                    &&& a.channel_num == c.number
                    &&& a.protocol@ == protocol_label(c.protocol)
                    &&& a.stream@ == stream_label(c.stream)
                    &&& a.real_handle == c.real_handle
                    &&& a.online@ == online_text(c)
                },
            },
    {
        let (l, di, ci) = self.row_lookup(row);
        if l != 2 || di >= self.devices.len() || ci >= self.devices[di].channels.len() {
            return None;
        }
        let c = &self.devices[di].channels[ci];
        assert(c@ == device_models(self.devices@)[di as int].channels[ci as int]);
        Some(
            ChannelAttr {
                channel_name: c.name.clone(),
                channel_num: c.number,
                protocol: c.protocol.label(),
                stream: c.stream.label(),
                real_handle: c.real_handle,
                online: if c.real_handle >= 0 {
                    "yes"
                } else {
                    "no"
                },
            },
        )
    }
}


/// What `login_step` found.
#[derive(Debug, Clone, Copy, PartialEq, Eq, Structural)]
pub enum LoginStep {
    /// No device has that index.
    NoDevice,
    /// The device has a session already.
    AlreadyLoggedIn,
    /// The SDK is not loaded; a failed row was logged.
    SdkMissing,
    /// The front end should log in with the device's settings and hand the
    /// result to `finish_login`.
    Attempt,
}

/// An action that the window's toolbar asked for.
#[derive(Debug, Clone, Copy, PartialEq, Eq, Structural)]
pub enum TreeAction {
    AddDevice,
    Login,
    Logout,
    Delete,
    DeviceAttr,
    ChannelAttr,
}

/// The toolbar's pending requests, one flag per action.
#[derive(Debug, Clone, Copy, PartialEq, Eq, Structural)]
pub struct ActionFlags {
    pub add_device: bool,
    pub login: bool,
    pub logout: bool,
    pub delete: bool,
    pub device_attr: bool,
    pub channel_attr: bool,
}

/// The action served first among the pending ones, in the order add
/// device, login, logout, delete, device attributes, channel attributes.
pub open spec fn first_action(f: ActionFlags) -> Option<TreeAction> {
    if f.add_device {
        Some(TreeAction::AddDevice)
    } else if f.login {
        Some(TreeAction::Login)
    } else if f.logout {
        Some(TreeAction::Logout)
    } else if f.delete {
        Some(TreeAction::Delete)
    } else if f.device_attr {
        Some(TreeAction::DeviceAttr)
    } else if f.channel_attr {
        Some(TreeAction::ChannelAttr)
    } else {
        None
    }
}

/// The flags with the request for `a` cleared.
pub open spec fn cleared(f: ActionFlags, a: TreeAction) -> ActionFlags {
    match a {
        TreeAction::AddDevice => ActionFlags { add_device: false, ..f },
        TreeAction::Login => ActionFlags { login: false, ..f },
        TreeAction::Logout => ActionFlags { logout: false, ..f },
        TreeAction::Delete => ActionFlags { delete: false, ..f },
        TreeAction::DeviceAttr => ActionFlags { device_attr: false, ..f },
        TreeAction::ChannelAttr => ActionFlags { channel_attr: false, ..f },
    }
}

/// Serves one pending request per call: the first in order (see
/// `first_action`), whose flag is cleared; the others wait for the next
/// call.
pub fn take_action(flags: &mut ActionFlags) -> (a: Option<TreeAction>)
    ensures
        a == first_action(*old(flags)),
        a matches Some(x) ==> *final(flags) == cleared(*old(flags), x),
        a is None ==> *final(flags) == *old(flags),
{
    if flags.add_device {
        flags.add_device = false;
        Some(TreeAction::AddDevice)
    } else if flags.login {
        flags.login = false;
        Some(TreeAction::Login)
    } else if flags.logout {
        flags.logout = false;
        Some(TreeAction::Logout)
    } else if flags.delete {
        flags.delete = false;
        Some(TreeAction::Delete)
    } else if flags.device_attr {
        flags.device_attr = false;
        Some(TreeAction::DeviceAttr)
    } else if flags.channel_attr {
        flags.channel_attr = false;
        Some(TreeAction::ChannelAttr)
    } else {
        None
    }
}

/// A channel named by `prefix` and `label_no`, with channel number
/// `number`, and the other settings of a fresh channel.
pub open spec fn camera(prefix: Seq<char>, label_no: int, number: int) -> ChannelModel {
    ChannelModel { name: prefix + int_decimal(label_no), number: number as i32, ..default_channel() }
}

/// The analog channels that a login reports: `Camera<n>`, numbered from
/// the first channel number on.
pub open spec fn analog_channels(start: u8, n: u8) -> Seq<ChannelModel> {
    Seq::new(n as nat, |i: int| camera("Camera"@, start + i, start + i))
}

/// The IP channels that a login reports: `IPCamera1`, ... numbered from 33.
pub open spec fn ip_channels(n: u8) -> Seq<ChannelModel> {
    Seq::new(n as nat, |i: int| camera("IPCamera"@, i + 1, i + 33))
}

/// The four channels a device gets when no SDK can be asked.
pub open spec fn default_channels() -> Seq<ChannelModel> {
    Seq::new(4, |i: int| camera("Camera"@, i + 1, i + 1))
}

/// A new device from the add dialog: named by its ip when no name is
/// given, port 8000 when the port text is no number.
pub open spec fn new_device_model(
    node_name: Seq<char>,
    ip: Seq<char>,
    port: Seq<char>,
    user: Seq<char>,
    password: Seq<char>,
    secret_key: Seq<char>,
) -> DeviceModel {
    DeviceModel {
        name: if node_name.len() == 0 {
            ip
        } else {
            node_name
        },
        ip: ip,
        port: match parse_u16(port) {
            Some(p) => p,
            None => 8000u16,
        },
        user: user,
        password: password,
        secret_key: secret_key,
        ..default_device()
    }
}

/// The code of a stream's name in the preview panel; 0 for a name it does
/// not know.
pub open spec fn stream_type_of(label: Seq<char>) -> u32 {
    if label == "Main stream"@ {
        0
    } else if label == "Sub stream"@ {
        1
    } else if label == "Third stream"@ {
        2
    } else if label == "Trans code"@ {
        3
    } else if label == "Fourth stream"@ {
        4
    } else {
        0
    }
}

/// The link mode of a protocol's name in the preview panel; 0 (TCP) for a
/// name it does not know.
pub open spec fn link_mode_of(label: Seq<char>) -> u32 {
    if label == "TCP"@ {
        0
    } else if label == "UDP"@ {
        1
    } else if label == "MULTICAST"@ {
        2
    } else if label == "RTP"@ {
        3
    } else if label == "RTSP"@ {
        4
    } else if label == "HTTPS"@ {
        5
    } else {
        0
    }
}

fn same_text(a: &str, b: &str) -> (r: bool)
    ensures
        r == (a@ == b@),
{
    let x = a.to_owned();
    let y = b.to_owned();
    x == y
}

/// The stream type that the preview panel's stream name asks for.
pub fn stream_type_code(label: &str) -> (r: u32)
    ensures
        r == stream_type_of(label@),
{
    if same_text(label, "Main stream") {
        0
    } else if same_text(label, "Sub stream") {
        1
    } else if same_text(label, "Third stream") {
        2
    } else if same_text(label, "Trans code") {
        3
    } else if same_text(label, "Fourth stream") {
        4
    } else {
        0
    }
}

/// The link mode that the preview panel's protocol name asks for.
pub fn link_mode_code(label: &str) -> (r: u32)
    ensures
        r == link_mode_of(label@),
{
    if same_text(label, "TCP") {
        0
    } else if same_text(label, "UDP") {
        1
    } else if same_text(label, "MULTICAST") {
        2
    } else if same_text(label, "RTP") {
        3
    } else if same_text(label, "RTSP") {
        4
    } else if same_text(label, "HTTPS") {
        5
    } else {
        0
    }
}

/// A fresh channel with a name made of `prefix` and `label_no`.
fn camera_channel(prefix: &str, label_no: i32, number: i32) -> (c: ChannelData)
    ensures
        c@ == camera(prefix@, label_no as int, number as int),
{
    let mut name = prefix.to_owned();
    push_i32(&mut name, label_no);
    ChannelData {
        name,
        number,
        protocol: crate::mainwindow::devicetree::ProtocolType::Tcp,
        stream: crate::mainwindow::devicetree::StreamType::Main,
        real_handle: -1i32,
        online: false,
        _field_idx: 0,
    }
}

/// A device from the add dialog's fields (see `new_device_model`).
pub fn new_device(
    node_name: &str,
    ip: &str,
    port: &str,
    user: &str,
    password: &str,
    secret_key: &str,
) -> (d: DeviceData)
    ensures
        d@ == new_device_model(node_name@, ip@, port@, user@, password@, secret_key@),
        d.ip@ == ip@,
        d.user@ == user@,
        d.password@ == password@,
        d.secret_key@ == secret_key@,
        d.name@ == (if node_name@.len() == 0 {
            ip@
        } else {
            node_name@
        }),
        d.user_id == -1,
        d.channels@.len() == 0,
{
    let pv = chars_of(port);
    proof {
        assert(pv@.subrange(0, pv@.len() as int) =~= port@);
    }
    let p = match parse_u16_at(&pv, 0, pv.len()) {
        Some(p) => p,
        None => 8000,
    };
    let d = DeviceData {
        name: if node_name.is_empty() {
            ip.to_owned()
        } else {
            node_name.to_owned()
        },
        ip: ip.to_owned(),
        port: p,
        user: user.to_owned(),
        password: password.to_owned(),
        secret_key: secret_key.to_owned(),
        user_id: -1i32,
        multicast: String::new(),
        zero_chan_num: 0,
        real_play_label: 0,
        channels: Vec::new(),
        _field_idx: 0,
    };
    assert(channel_models(d.channels@) =~= Seq::<ChannelModel>::empty());
    d
}


/// The text of a successful login's log row: `uid=` and the session.
pub open spec fn uid_text(uid: i32) -> Seq<char> {
    "uid="@ + int_decimal(uid as int)
}

/// The text of a started preview's log row.
pub open spec fn preview_text(channel: i32, stream: Seq<char>, protocol: Seq<char>) -> Seq<char> {
    "ch="@ + int_decimal(channel as int) + " stream="@ + stream + " proto="@ + protocol
}

impl GlobalData {
    /// The first half of a login from the tree: whether the device at
    /// `device_index` is to be logged in. With no SDK a failed row is
    /// logged.
    pub fn login_step(&mut self, device_index: usize) -> (s: LoginStep)
        ensures
            device_index >= old(self).devices@.len() ==> s == LoginStep::NoDevice && *final(self)
                == *old(self),
            device_index < old(self).devices@.len() ==> {
                let d = old(self).devices@[device_index as int];
                if d.user_id > 0 {
                    s == LoginStep::AlreadyLoggedIn && *final(self) == *old(self)
                } else if !old(self).sdk_loaded {
                    &&& s == LoginStep::SdkMissing
                    &&& final(self).devices@ == old(self).devices@
                    &&& logged(
                        old(self).log.logs@,
                        final(self).log.logs@,
                        "Login"@,
                        d.ip@,
                        "SDK missing"@,
                        false,
                    )
                    &&& same_settings(old(self), final(self))
                } else {
                    s == LoginStep::Attempt && *final(self) == *old(self)
                }
            },
    {
        if device_index >= self.devices.len() {
            return LoginStep::NoDevice;
        }
        if self.devices[device_index].is_logged_in() {
            return LoginStep::AlreadyLoggedIn;
        }
        if !self.sdk_loaded {
            let e = LogEntry::failure("Login", self.devices[device_index].ip.as_str(), "SDK missing");
            self.log.add_log(e);
            return LoginStep::SdkMissing;
        }
        LoginStep::Attempt
    }

    /// The second half of a login from the tree: records the session and
    /// the zero-channel count that the login gave, or its error, in the
    /// device and the log. Returns whether the login succeeded; nothing
    /// changes when no device has that index.
    pub fn finish_login(&mut self, device_index: usize, result: Result<(i32, DeviceInfo), String>) -> (ok: bool)
        ensures
            device_index >= old(self).devices@.len() ==> !ok && *final(self) == *old(self),
            device_index < old(self).devices@.len() ==> {
                let d = device_models(old(self).devices@)[device_index as int];
                &&& same_settings(old(self), final(self))
                &&& ok == (result is Ok)
                &&& match result {
                    Ok((uid, info)) => {
                        &&& device_models(final(self).devices@) == device_models(
                            old(self).devices@,
                        ).update(
                            device_index as int,
                            DeviceModel { user_id: uid, zero_chan_num: info.by_zero_chan_num, ..d },
                        )
                        &&& logged(
                            old(self).log.logs@,
                            final(self).log.logs@,
                            "Login"@,
                            d.ip,
                            uid_text(uid),
                            true,
                        )
                    },
                    Err(e) => {
                        &&& final(self).devices@ == old(self).devices@
                        &&& logged(
                            old(self).log.logs@,
                            final(self).log.logs@,
                            "Login"@,
                            d.ip,
                            e@,
                            false,
                        )
                    },
                }
            },
    {
        if device_index >= self.devices.len() {
            return false;
        }
        let ghost ds = device_models(self.devices@);
        let ip = self.devices[device_index].ip.clone();
        match result {
            Ok((uid, info)) => {
                self.devices[device_index].user_id = uid;
                self.devices[device_index].zero_chan_num = info.by_zero_chan_num;
                let ghost d = ds[device_index as int];
                assert(device_models(self.devices@) =~= ds.update(
                    device_index as int,
                    DeviceModel { user_id: uid, zero_chan_num: info.by_zero_chan_num, ..d },
                ));
                let mut text = "uid=".to_owned();
                push_i32(&mut text, uid);
                let e = LogEntry::success("Login", ip.as_str(), text.as_str());
                self.log.add_log(e);
                true
            },
            Err(msg) => {
                let e = LogEntry::failure("Login", ip.as_str(), msg.as_str());
                self.log.add_log(e);
                false
            },
        }
    }

    /// The channel number to preview for the channel `channel_index` of
    /// device `device_index`, after any login: -1 when there is no such
    /// device or it has no session, and 1 when the device has no such
    /// channel.
    pub fn activate_channel(&self, device_index: usize, channel_index: usize) -> (ch: i32)
        ensures
            ch == if device_index >= self.devices@.len() {
                -1i32
            } else if self.devices@[device_index as int].user_id <= 0 {
                -1i32
            } else if channel_index < self.devices@[device_index as int].channels@.len() {
                self.devices@[device_index as int].channels@[channel_index as int].number
            } else {
                1i32
            },
    {
        if device_index >= self.devices.len() {
            return -1;
        }
        let d = &self.devices[device_index];
        if d.user_id <= 0 {
            return -1;
        }
        if channel_index < d.channels.len() {
            d.channels[channel_index].number
        } else {
            1
        }
    }

    /// Adds a device from the add dialog. `login` is `None` without the
    /// SDK, when the device gets four default channels; otherwise it is the
    /// result of a login, whose channel counts give the device's channels.
    /// A failed login is logged and adds nothing. Returns whether the
    /// device was added.
    pub fn add_device(&mut self, dev: DeviceData, login: Option<Result<DeviceInfo, String>>) -> (added: bool)
        ensures
            same_settings(old(self), final(self)),
            added == !(login matches Some(Err(_))),
            match login {
                None => {
                    &&& device_models(final(self).devices@) == device_models(old(self).devices@).push(
                        DeviceModel { channels: dev@.channels + default_channels(), ..dev@ },
                    )
                    &&& logged(old(self).log.logs@, final(self).log.logs@, "AddDevice"@, dev.ip@, "ok"@, true)
                },
                Some(Ok(info)) => {
                    &&& device_models(final(self).devices@) == device_models(old(self).devices@).push(
                        DeviceModel {
                            channels: dev@.channels + analog_channels(info.by_start_chan, info.by_chan_num)
                                + ip_channels(info.by_ip_chan_num),
                            zero_chan_num: info.by_zero_chan_num,
                            ..dev@
                        },
                    )
                    &&& logged(old(self).log.logs@, final(self).log.logs@, "AddDevice"@, dev.ip@, "ok"@, true)
                },
                Some(Err(e)) => {
                    &&& final(self).devices@ == old(self).devices@
                    &&& logged(old(self).log.logs@, final(self).log.logs@, "AddDevice"@, dev.ip@, e@, false)
                },
            },
    {
        let mut dev = dev;
        let ghost d0 = dev@;
        match login {
            None => {
                let mut i: i32 = 0;
                while i < 4
                    invariant
                        0 <= i <= 4,
                        dev@ == (DeviceModel { channels: d0.channels + default_channels().take(i as int), ..d0 }),
                    decreases 4 - i,
                {
                    let c = camera_channel("Camera", i + 1, i + 1);
                    let ghost prev = dev.channels@;
                    let ghost cv = c@;
                    dev.channels.push(c);
                    assert(channel_models(dev.channels@) =~= channel_models(prev).push(cv));
                    assert(default_channels().take(i + 1) =~= default_channels().take(i as int).push(
                        camera("Camera"@, i + 1, i + 1),
                    ));
                    assert(channel_models(dev.channels@) =~= d0.channels + default_channels().take(i + 1));
                    i = i + 1;
                }
                assert(default_channels().take(4) =~= default_channels());
            },
            Some(Ok(info)) => {
                let start: i32 = info.by_start_chan as i32;
                let n: i32 = info.by_chan_num as i32;
                let mut i: i32 = 0;
                while i < n
                    invariant
                        0 <= i <= n,
                        n == info.by_chan_num,
                        start == info.by_start_chan,
                        dev@ == (DeviceModel {
                            channels: d0.channels + analog_channels(info.by_start_chan, info.by_chan_num).take(i as int),
                            ..d0
                        }),
                    decreases n - i,
                {
                    let c = camera_channel("Camera", start + i, start + i);
                    let ghost prev = dev.channels@;
                    let ghost cv = c@;
                    dev.channels.push(c);
                    assert(channel_models(dev.channels@) =~= channel_models(prev).push(cv));
                    assert(analog_channels(info.by_start_chan, info.by_chan_num).take(i + 1)
                        =~= analog_channels(info.by_start_chan, info.by_chan_num).take(i as int).push(
                        camera("Camera"@, start + i, start + i),
                    ));
                    assert(channel_models(dev.channels@) =~= d0.channels + analog_channels(
                        info.by_start_chan,
                        info.by_chan_num,
                    ).take(i + 1));
                    i = i + 1;
                }
                let ghost d1 = dev@;
                assert(analog_channels(info.by_start_chan, info.by_chan_num).take(n as int)
                    =~= analog_channels(info.by_start_chan, info.by_chan_num));
                let m: i32 = info.by_ip_chan_num as i32;
                let mut j: i32 = 0;
                while j < m
                    invariant
                        0 <= j <= m,
                        m == info.by_ip_chan_num,
                        dev@ == (DeviceModel { channels: d1.channels + ip_channels(info.by_ip_chan_num).take(j as int), ..d1 }),
                    decreases m - j,
                {
                    let c = camera_channel("IPCamera", j + 1, j + 33);
                    let ghost prev = dev.channels@;
                    let ghost cv = c@;
                    dev.channels.push(c);
                    assert(channel_models(dev.channels@) =~= channel_models(prev).push(cv));
                    assert(ip_channels(info.by_ip_chan_num).take(j + 1) =~= ip_channels(
                        info.by_ip_chan_num,
                    ).take(j as int).push(camera("IPCamera"@, j + 1, j + 33)));
                    assert(channel_models(dev.channels@) =~= d1.channels + ip_channels(
                        info.by_ip_chan_num,
                    ).take(j + 1));
                    j = j + 1;
                }
                assert(ip_channels(info.by_ip_chan_num).take(m as int) =~= ip_channels(info.by_ip_chan_num));
                dev.zero_chan_num = info.by_zero_chan_num;
            },
            Some(Err(msg)) => {
                let e = LogEntry::failure("AddDevice", dev.ip.as_str(), msg.as_str());
                self.log.add_log(e);
                return false;
            },
        }
        let e = LogEntry::success("AddDevice", dev.ip.as_str(), "ok");
        let ghost before = device_models(self.devices@);
        self.devices.push(dev);
        assert(device_models(self.devices@) =~= before.push(dev@));
        self.log.add_log(e);
        true
    }

    /// Logs how starting a preview went: the channel, stream and protocol
    /// asked for, or the error.
    pub fn log_preview(&mut self, channel: i32, stream: &str, protocol: &str, result: Result<(), String>)
        ensures
            final(self).devices@ == old(self).devices@,
            same_settings(old(self), final(self)),
            match result {
                Ok(()) => logged(
                    old(self).log.logs@,
                    final(self).log.logs@,
                    "RealPlay"@,
                    "\u{2014}"@,
                    preview_text(channel, stream@, protocol@),
                    true,
                ),
                Err(e) => logged(old(self).log.logs@, final(self).log.logs@, "RealPlay"@, "\u{2014}"@, e@, false),
            },
    {
        match result {
            Ok(()) => {
                let mut text = "ch=".to_owned();
                push_i32(&mut text, channel);
                text.append(" stream=");
                text.append(stream);
                text.append(" proto=");
                text.append(protocol);
                let e = LogEntry::success("RealPlay", "\u{2014}", text.as_str());
                self.log.add_log(e);
            },
            Err(msg) => {
                let e = LogEntry::failure("RealPlay", "\u{2014}", msg.as_str());
                self.log.add_log(e);
            },
        }
    }
}


/// A device added from the dialog keeps each of the dialog's fields in its
/// own place: the address, user, password and secret key as typed, the
/// name as typed or else the address, the port as typed when it is a
/// number (else 8000); it starts logged out, with no channels.
pub proof fn lemma_new_device_fields(
    node_name: Seq<char>,
    ip: Seq<char>,
    port: Seq<char>,
    user: Seq<char>,
    password: Seq<char>,
    secret_key: Seq<char>,
)
    ensures
        ({
            let d = new_device_model(node_name, ip, port, user, password, secret_key);
            &&& d.ip == ip
            &&& d.user == user
            &&& d.password == password
            &&& d.secret_key == secret_key
            &&& d.name == if node_name.len() == 0 {
                ip
            } else {
                node_name
            }
            &&& (parse_u16(port) matches Some(p) ==> d.port == p)
            &&& (parse_u16(port) is None ==> d.port == 8000)
            &&& d.user_id == -1
            &&& d.channels.len() == 0
            &&& d.multicast.len() == 0
        }),
{
}
} // verus!

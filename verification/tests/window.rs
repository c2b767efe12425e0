use hcnetsdk_rust_demo::mainwindow::devicetree::data::{ChannelData, DeviceData, ProtocolType, StreamType};
use hcnetsdk_rust_demo::mainwindow::devicetree::row_lookup;
use hcnetsdk_rust_demo::mainwindow::window::{
    link_mode_code, new_device, stream_type_code, take_action, ActionFlags, GlobalData, LoginStep,
    TreeAction,
};
use hcnetsdk_rust_demo::sdk::DeviceInfo;

fn device(name: &str, ip: &str, user_id: i32, channels: &[i32]) -> DeviceData {
    let mut d = DeviceData::default();
    d.name = name.into();
    d.ip = ip.into();
    d.user_id = user_id;
    for &number in channels {
        let mut c = ChannelData::default();
        c.name = format!("c{}", number);
        c.number = number;
        d.channels.push(c);
    }
    d
}

fn state(sdk_ok: bool) -> GlobalData {
    GlobalData::new(
        vec![device("A", "10.0.0.1", 5, &[1, 2]), device("B", "10.0.0.2", -1, &[7])],
        sdk_ok,
        "V6.1".to_string(),
    )
}

fn info(start: u8, chans: u8, ip_chans: u8, zero: u8) -> DeviceInfo {
    DeviceInfo {
        serial: "SN".to_string(),
        by_chan_num: chans,
        by_ip_chan_num: ip_chans,
        by_start_chan: start,
        by_zero_chan_num: zero,
    }
}

#[test]
fn new_state_shows_versions() {
    let g = state(true);
    assert_eq!(g.sdk_version, "V6.1");
    assert_eq!(g.player_version, "PlayCtrl (loading)");
    assert!(g.sdk_loaded);
    assert!(g.log.logs.is_empty());
    let g = state(false);
    assert_eq!(g.sdk_version, "HCNetSDK (not loaded)");
    assert!(!g.sdk_loaded);
}

#[test]
fn rows_select_devices_and_channels() {
    let g = state(true);
    assert_eq!(g.row_lookup(0), (0, 0, 0));
    assert_eq!(g.row_lookup(1), (1, 0, 0));
    assert_eq!(g.row_lookup(2), (2, 0, 0));
    assert_eq!(g.row_lookup(3), (2, 0, 1));
    assert_eq!(g.row_lookup(4), (1, 1, 0));
    assert_eq!(g.row_lookup(5), (2, 1, 0));
    assert_eq!(g.row_lookup(6), (0, 0, 0));
    assert_eq!(g.row_lookup(-3), (0, 0, 0));
    assert_eq!(row_lookup(&[], 1), (0, 0, 0));
    assert_eq!(row_lookup(&g.devices, i32::MAX), (0, 0, 0));
}

#[test]
fn logout_closes_an_open_session() {
    let mut g = state(true);
    assert_eq!(g.logout_selected(1), Some(Some(5)));
    assert_eq!(g.devices[0].user_id, -1);
    let last = g.log.logs.last().unwrap();
    assert_eq!(last.interface, "Logout");
    assert_eq!(last.device_ip, "10.0.0.1");
    assert_eq!(last.info, "");
    assert!(last.success);
    // A device that is logged out already is logged again, with nothing to close.
    assert_eq!(g.logout_selected(1), Some(None));
    assert_eq!(g.log.logs.len(), 2);
}

#[test]
fn logout_without_sdk_only_forgets_the_session() {
    let mut g = state(false);
    assert_eq!(g.logout_selected(1), Some(None));
    assert_eq!(g.devices[0].user_id, -1);
}

#[test]
fn logout_of_a_channel_row_does_nothing() {
    let mut g = state(true);
    assert_eq!(g.logout_selected(2), None);
    assert_eq!(g.logout_selected(0), None);
    assert_eq!(g.devices[0].user_id, 5);
    assert!(g.log.logs.is_empty());
}

#[test]
fn delete_removes_the_device() {
    let mut g = state(true);
    assert_eq!(g.delete_selected(4), Some(None));
    assert_eq!(g.devices.len(), 1);
    assert_eq!(g.devices[0].name, "A");
    assert_eq!(g.log.logs.last().unwrap().interface, "Delete");
    assert_eq!(g.log.logs.last().unwrap().device_ip, "10.0.0.2");
    assert_eq!(g.delete_selected(1), Some(Some(5)));
    assert!(g.devices.is_empty());
    assert_eq!(g.delete_selected(1), None);
}

#[test]
fn attribute_dialogs() {
    let mut g = state(true);
    let a = g.device_attr(1).unwrap();
    assert_eq!(a.device_name, "A");
    assert_eq!(a.status, "logged in");
    assert_eq!(a.chan_count, 2);
    assert_eq!(g.device_attr(4).unwrap().status, "offline");
    assert!(g.device_attr(2).is_none());
    g.devices[0].channels[1].real_handle = 3;
    g.devices[0].channels[1].protocol = ProtocolType::Rtsp;
    g.devices[0].channels[1].stream = StreamType::Sub;
    let c = g.channel_attr(3).unwrap();
    assert_eq!(c.channel_name, "c2");
    assert_eq!(c.channel_num, 2);
    assert_eq!(c.protocol, "RTSP");
    assert_eq!(c.stream, "Sub stream");
    assert_eq!(c.real_handle, 3);
    assert_eq!(c.online, "yes");
    assert_eq!(g.channel_attr(5).unwrap().online, "no");
    assert!(g.channel_attr(1).is_none());
}

#[test]
fn login_steps() {
    let mut g = state(true);
    assert_eq!(g.login_step(9), LoginStep::NoDevice);
    assert_eq!(g.login_step(0), LoginStep::AlreadyLoggedIn);
    assert_eq!(g.login_step(1), LoginStep::Attempt);
    assert!(g.log.logs.is_empty());
    let mut g = state(false);
    assert_eq!(g.login_step(1), LoginStep::SdkMissing);
    let last = g.log.logs.last().unwrap();
    assert_eq!(last.interface, "Login");
    assert_eq!(last.info, "SDK missing");
    assert!(!last.success);
}

#[test]
fn finish_login_records_the_session() {
    let mut g = state(true);
    assert!(g.finish_login(1, Ok((7, info(1, 0, 0, 2)))));
    assert_eq!(g.devices[1].user_id, 7);
    assert_eq!(g.devices[1].zero_chan_num, 2);
    assert_eq!(g.log.logs.last().unwrap().info, "uid=7");
    assert!(!g.finish_login(0, Err("bad password".to_string())));
    assert_eq!(g.devices[0].user_id, 5);
    assert_eq!(g.log.logs.last().unwrap().info, "bad password");
    assert!(!g.log.logs.last().unwrap().success);
    assert!(!g.finish_login(5, Ok((1, info(1, 0, 0, 0)))));
    assert_eq!(g.log.logs.len(), 2);
}

#[test]
fn activate_channel_picks_the_number() {
    let g = state(true);
    assert_eq!(g.activate_channel(0, 1), 2);
    assert_eq!(g.activate_channel(0, 9), 1);
    assert_eq!(g.activate_channel(1, 0), -1);
    assert_eq!(g.activate_channel(3, 0), -1);
}

#[test]
fn add_device_without_sdk_gets_four_cameras() {
    let mut g = state(false);
    let d = new_device("", "10.0.0.9", "abc", "admin", "pw", "");
    assert_eq!(d.name, "10.0.0.9");
    assert_eq!(d.port, 8000);
    assert!(g.add_device(d, None));
    let added = g.devices.last().unwrap();
    let names: Vec<&str> = added.channels.iter().map(|c| c.name.as_str()).collect();
    assert_eq!(names, vec!["Camera1", "Camera2", "Camera3", "Camera4"]);
    let numbers: Vec<i32> = added.channels.iter().map(|c| c.number).collect();
    assert_eq!(numbers, vec![1, 2, 3, 4]);
    assert_eq!(g.log.logs.last().unwrap().interface, "AddDevice");
    assert_eq!(g.log.logs.last().unwrap().info, "ok");
}

#[test]
fn add_device_takes_channels_from_login() {
    let mut g = state(true);
    let d = new_device("NVR", "10.0.0.9", "+8080", "", "pw", "key");
    assert_eq!(d.name, "NVR");
    assert_eq!(d.port, 8080);
    assert!(g.add_device(d, Some(Ok(info(33, 2, 2, 1)))));
    let added = g.devices.last().unwrap();
    let names: Vec<&str> = added.channels.iter().map(|c| c.name.as_str()).collect();
    assert_eq!(names, vec!["Camera33", "Camera34", "IPCamera1", "IPCamera2"]);
    let numbers: Vec<i32> = added.channels.iter().map(|c| c.number).collect();
    assert_eq!(numbers, vec![33, 34, 33, 34]);
    assert_eq!(added.zero_chan_num, 1);
    assert_eq!(added.user_id, -1);
}

#[test]
fn add_device_with_failed_login_adds_nothing() {
    let mut g = state(true);
    let d = new_device("X", "10.0.0.9", "8000", "", "", "");
    assert!(!g.add_device(d, Some(Err("timeout".to_string()))));
    assert_eq!(g.devices.len(), 2);
    let last = g.log.logs.last().unwrap();
    assert_eq!(last.interface, "AddDevice");
    assert_eq!(last.device_ip, "10.0.0.9");
    assert_eq!(last.info, "timeout");
    assert!(!last.success);
}

#[test]
fn preview_names_map_to_codes() {
    assert_eq!(stream_type_code("Main stream"), 0);
    assert_eq!(stream_type_code("Sub stream"), 1);
    assert_eq!(stream_type_code("Third stream"), 2);
    assert_eq!(stream_type_code("Trans code"), 3);
    assert_eq!(stream_type_code("Fourth stream"), 4);
    assert_eq!(stream_type_code("sub stream"), 0);
    assert_eq!(link_mode_code("TCP"), 0);
    assert_eq!(link_mode_code("UDP"), 1);
    assert_eq!(link_mode_code("MULTICAST"), 2);
    assert_eq!(link_mode_code("RTP"), 3);
    assert_eq!(link_mode_code("RTSP"), 4);
    assert_eq!(link_mode_code("HTTPS"), 5);
    assert_eq!(link_mode_code("SRT"), 0);
}

#[test]
fn preview_is_logged() {
    let mut g = state(true);
    g.log_preview(3, "Main stream", "TCP", Ok(()));
    let last = g.log.logs.last().unwrap();
    assert_eq!(last.interface, "RealPlay");
    assert_eq!(last.device_ip, "\u{2014}");
    assert_eq!(last.info, "ch=3 stream=Main stream proto=TCP");
    g.log_preview(-2, "Sub stream", "UDP", Err("no window".to_string()));
    let last = g.log.logs.last().unwrap();
    assert_eq!(last.info, "no window");
    assert!(!last.success);
}

#[test]
fn actions_are_served_one_per_call_in_order() {
    let mut flags = ActionFlags {
        add_device: false,
        login: true,
        logout: false,
        delete: true,
        device_attr: false,
        channel_attr: true,
    };
    assert_eq!(take_action(&mut flags), Some(TreeAction::Login));
    assert!(!flags.login && flags.delete && flags.channel_attr);
    assert_eq!(take_action(&mut flags), Some(TreeAction::Delete));
    assert_eq!(take_action(&mut flags), Some(TreeAction::ChannelAttr));
    assert_eq!(take_action(&mut flags), None);
    let mut all = ActionFlags {
        add_device: true,
        login: true,
        logout: true,
        delete: true,
        device_attr: true,
        channel_attr: true,
    };
    assert_eq!(take_action(&mut all), Some(TreeAction::AddDevice));
    assert!(!all.add_device && all.login && all.logout && all.delete && all.device_attr && all.channel_attr);
}

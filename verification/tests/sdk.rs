use hcnetsdk_rust_demo::sdk::callbacks::{
    exception_event, message_event, AlarmKind, ExceptionKind, SdkEvent,
};
use hcnetsdk_rust_demo::sdk::hcnetsdk::{c_bytes_to_string, c_text_from, COMM_ALARM, COMM_ALARM_V30};
use hcnetsdk_rust_demo::sdk::loader::{
    lib_not_found_message, library_file_names, search_dir_order, system_lib_dirs, workspace_lib_dirs,
};
use hcnetsdk_rust_demo::sdk::{login_field_bytes, login_outcome, sdk_log_dir, sdk_version_text, DeviceInfo};

#[test]
fn alarm_kinds_from_codes() {
    assert_eq!(AlarmKind::from_v30(0), AlarmKind::SignalInput);
    assert_eq!(AlarmKind::from_v30(3), AlarmKind::MotionDetect);
    assert_eq!(AlarmKind::from_v30(10), AlarmKind::RecordAbnormal);
    assert_eq!(AlarmKind::from_v30(11), AlarmKind::Unknown(11));
    assert_eq!(AlarmKind::from_v30(3).label(), "Motion detect");
    assert_eq!(AlarmKind::Unknown(99).label(), "Unknown alarm");
    assert_eq!(AlarmKind::DiskReadWriteErr.label(), "Disk R/W error");
}

#[test]
fn exception_kinds_from_codes() {
    assert_eq!(ExceptionKind::from_code(0x8000), ExceptionKind::Network);
    assert_eq!(ExceptionKind::from_code(0x8009), ExceptionKind::SerialReconnect);
    assert_eq!(ExceptionKind::from_code(0x800A), ExceptionKind::SerialReconnectSuccess);
    assert_eq!(ExceptionKind::from_code(0x800D), ExceptionKind::VoiceTalkReconnectSuccess);
    assert_eq!(ExceptionKind::from_code(0x800E), ExceptionKind::Other(0x800E));
    assert_eq!(ExceptionKind::from_code(1), ExceptionKind::Other(1));
    assert_eq!(ExceptionKind::PreviewReconnect.label(), "Preview reconnecting");
    assert_eq!(ExceptionKind::Other(5).label(), "Unknown exception");
}

#[test]
fn message_events() {
    match message_event(COMM_ALARM_V30, Some(3), "1.2.3.4".into(), "cam".into()) {
        Some(SdkEvent::Alarm { kind, device_ip, device_name }) => {
            assert_eq!(kind, AlarmKind::MotionDetect);
            assert_eq!(device_ip, "1.2.3.4");
            assert_eq!(device_name, "cam");
        }
        other => panic!("unexpected {:?}", other),
    }
    assert!(message_event(COMM_ALARM, None, String::new(), String::new()).is_none());
    match message_event(0x8006, None, "ip".into(), "n".into()) {
        Some(SdkEvent::Exception { kind, device_ip }) => {
            assert_eq!(kind, ExceptionKind::Preview);
            assert_eq!(device_ip, "ip");
        }
        other => panic!("unexpected {:?}", other),
    }
    match message_event(-1, Some(1), String::new(), String::new()) {
        Some(SdkEvent::Exception { kind, .. }) => assert_eq!(kind, ExceptionKind::Other(u32::MAX)),
        other => panic!("unexpected {:?}", other),
    }
    assert!(message_event(0x1500, Some(1), String::new(), String::new()).is_none());
    match exception_event(0x8003) {
        SdkEvent::Exception { kind, device_ip } => {
            assert_eq!(kind, ExceptionKind::AlarmReconnect);
            assert!(device_ip.is_empty());
        }
        other => panic!("unexpected {:?}", other),
    }
}

#[test]
fn c_strings_stop_at_nul_and_are_trimmed() {
    assert_eq!(c_bytes_to_string(b"abc\0xyz"), "abc");
    assert_eq!(c_bytes_to_string(b"  DS-7608 \0\0\0"), "DS-7608");
    assert_eq!(c_bytes_to_string(b"no nul"), "no nul");
    assert_eq!(c_bytes_to_string(b""), "");
    assert_eq!(c_bytes_to_string(b"\0abc"), "");
    assert_eq!(c_bytes_to_string(b"a\xffb\0"), "a\u{ff}b");
    assert_eq!(c_bytes_to_string(&[0xE9, 0x00]), "\u{e9}");
    assert_eq!(c_bytes_to_string(b"  10.0.0.1 \0garbage\0"), "10.0.0.1");
    assert_eq!(c_bytes_to_string(&[0xC3, 0xA9, 0x00, 0xFF]), "\u{e9}");
    assert_eq!(c_bytes_to_string(&[b' ', 0xC4, 0xE3, b' ']), "\u{4f60}");
    assert_eq!(c_bytes_to_string(&[0xC4, 0xE3, 0xBA, 0xC3, 0x00, 0x41]), "\u{4f60}\u{597d}");
    assert_eq!(c_bytes_to_string(&[b'C', b'a', b'm', 0x80]), "Cam\u{20ac}");
}

#[test]
fn device_info_from_login_record() {
    let mut serial = [0u8; 48];
    serial[..9].copy_from_slice(b"DS-2CD20 ");
    let info = DeviceInfo::from_fields(&serial, 4, 8, 1, 1);
    assert_eq!(info.serial, "DS-2CD20");
    assert_eq!(info.by_chan_num, 4);
    assert_eq!(info.by_ip_chan_num, 8);
    assert_eq!(info.by_start_chan, 1);
    assert_eq!(info.by_zero_chan_num, 1);
}

#[test]
fn login_fields_leave_room_for_nul() {
    assert_eq!(login_field_bytes("admin", 64), b"admin".to_vec());
    assert_eq!(login_field_bytes("abcdef", 4), b"abc".to_vec());
    assert_eq!(login_field_bytes("abc", 4), b"abc".to_vec());
    assert_eq!(login_field_bytes("abc", 1), Vec::<u8>::new());
}

#[test]
fn version_text_and_paths() {
    assert_eq!(sdk_version_text(0x0601_0709), "HCNetSDK V6.1.7.9");
    assert_eq!(sdk_version_text(0xff00_0a00), "HCNetSDK V255.0.10.0");
    assert_eq!(sdk_log_dir(), "sdkLog");
}

#[test]
fn library_candidates() {
    let names = library_file_names("hcnetsdk");
    assert_eq!(
        names,
        vec![
            "hcnetsdk.so", "hcnetsdk.so", "hcnetsdk.so.1", "hcnetsdk.so.1", "hcnetsdk.dylib",
            "hcnetsdk.dylib", "hcnetsdk.dll", "hcnetsdk.dll", "hcnetsdk.so", "libhcnetsdk.so",
            "hcnetsdk.so.1", "libhcnetsdk.so.1", "hcnetsdk.dylib", "libhcnetsdk.dylib",
            "hcnetsdk.dll", "libhcnetsdk.dll",
        ]
    );
    let odd = library_file_names("liblibx");
    assert_eq!(odd[0], "x.so");
    assert_eq!(odd[1], "liblibx.so");
    assert_eq!(odd[9], "libliblibx.so");
    assert_eq!(odd[8], "x.so");
    assert_eq!(workspace_lib_dirs()[0], "Linux64/lib");
    assert_eq!(workspace_lib_dirs().len(), 5);
    assert_eq!(system_lib_dirs(), &["/usr/local/lib", "/usr/lib", "/usr/lib/x86_64-linux-gnu"]);
}

#[test]
fn login_outcomes() {
    assert_eq!(login_outcome(-1, 1, "key"), Err("Login failed: error code 1".to_string()));
    assert_eq!(login_outcome(-1, 107, ""), Err("Login failed: error code 107".to_string()));
    assert_eq!(login_outcome(0, 9, ""), Ok((0, false)));
    assert_eq!(login_outcome(12, 0, "abc"), Ok((12, true)));
}

#[test]
fn c_text_uses_the_gb18030_result_only_for_non_utf8() {
    assert_eq!(c_text_from(b" abc ", Some("x".to_string())), "abc");
    assert_eq!(c_text_from(&[0xC4, 0xE3], Some(" y ".to_string())), "y");
    assert_eq!(c_text_from(&[0xC4, 0xE3], None), "\u{c4}\u{e3}");
}

#[test]
fn search_order_and_not_found_message() {
    let d = search_dir_order(
        Some("env".to_string()),
        vec!["ws1".to_string(), "ws2".to_string()],
        vec!["/usr/lib".to_string()],
    );
    assert_eq!(d, vec!["env", "ws1", "ws2", "/usr/lib"]);
    let d = search_dir_order(None, Vec::new(), vec![1, 2]);
    assert_eq!(d, vec![1, 2]);
    assert_eq!(
        lib_not_found_message("hcnetsdk"),
        "Could not find libhcnetsdk.so. Set HCNETSDK_LIB_DIR or place the SDK under Linux64/lib/."
    );
}

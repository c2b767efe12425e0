use hcnetsdk_rust_demo::mainwindow::devicetree::data::{
    ChannelData, DeviceData, ProtocolType, StreamType,
};
use hcnetsdk_rust_demo::mainwindow::devicetree::storage::{
    apply_channel_line, apply_device_line, default_path, num_to_protocol, num_to_stream, parse,
    serialize, try_parse,
};

#[test]
fn round_trip() {
    let mut dev = DeviceData::default();
    dev.name = "Cam-1".into();
    dev.ip = "10.0.0.1".into();
    dev.port = 8000;
    dev.user = "admin".into();
    dev.password = "pass12345".into();
    let mut ch = ChannelData::default();
    ch.name = "ch1".into();
    ch.number = 1;
    dev.channels.push(ch);
    let text = serialize(&[dev.clone()]);
    let loaded = parse(&text);
    assert_eq!(loaded.len(), 1);
    assert_eq!(loaded[0].name, "Cam-1");
    assert_eq!(loaded[0].channels[0].name, "ch1");
}

#[test]
fn serialize_writes_the_file_format() {
    let mut dev = DeviceData::default();
    dev.name = "Cam".into();
    dev.ip = "10.0.0.2".into();
    dev.port = 8001;
    dev.user = "admin".into();
    dev.password = "pw".into();
    dev.secret_key = "key".into();
    let mut ch = ChannelData::default();
    ch.name = "front".into();
    ch.number = -3;
    ch.protocol = ProtocolType::Unknown;
    ch.stream = StreamType::Fourth;
    dev.channels.push(ch);
    let text = serialize(&[dev]);
    assert_eq!(
        text,
        "<device>\nCam\n10.0.0.2\n8001\nadmin\npw\nkey\n<channel>\nfront\n-3\n99\n4\n</channel>\n</device>\n"
    );
    assert_eq!(serialize(&[]), "");
}

#[test]
fn round_trip_keeps_every_stored_field() {
    let mut dev = DeviceData::default();
    dev.name = "NVR".into();
    dev.ip = "192.168.1.64".into();
    dev.port = 0;
    dev.user = "operator".into();
    dev.password = "p@ss word".into();
    dev.secret_key = "s3cret".into();
    dev.user_id = 7;
    dev.zero_chan_num = 2;
    for (i, (p, s)) in [
        (ProtocolType::Tcp, StreamType::Main),
        (ProtocolType::Udp, StreamType::Sub),
        (ProtocolType::Mcast, StreamType::Third),
        (ProtocolType::Rtp, StreamType::Trans),
        (ProtocolType::Rtsp, StreamType::Fourth),
        (ProtocolType::Https, StreamType::Main),
        (ProtocolType::Unknown, StreamType::Sub),
    ]
    .into_iter()
    .enumerate()
    {
        let mut ch = ChannelData::default();
        ch.name = format!("Camera{}", i);
        ch.number = i as i32 + 33;
        ch.protocol = p;
        ch.stream = s;
        ch.real_handle = 5;
        dev.channels.push(ch);
    }
    let loaded = parse(&serialize(&[dev.clone(), dev.clone()]));
    assert_eq!(loaded.len(), 2);
    for d in &loaded {
        assert_eq!(d.name, "NVR");
        assert_eq!(d.ip, "192.168.1.64");
        assert_eq!(d.port, 0);
        assert_eq!(d.user, "operator");
        assert_eq!(d.password, "p@ss word");
        assert_eq!(d.secret_key, "s3cret");
        assert_eq!(d.user_id, -1);
        assert_eq!(d.zero_chan_num, 0);
        assert_eq!(d._field_idx, 6);
        assert_eq!(d.channels.len(), 7);
        for (i, c) in d.channels.iter().enumerate() {
            assert_eq!(c.name, format!("Camera{}", i));
            assert_eq!(c.number, i as i32 + 33);
            assert_eq!(c.protocol, dev.channels[i].protocol);
            assert_eq!(c.stream, dev.channels[i].stream);
            assert_eq!(c.real_handle, -1);
            assert_eq!(c._field_idx, 4);
        }
    }
}

#[test]
fn parse_trims_and_skips_blank_lines() {
    let text = "  \r\n<device>\r\n  Office  \n\n10.1.1.1\n   8080\nadmin\n<channel>\n\tLobby\n2\n1\n3\n</channel>\n</device>\n";
    let ds = parse(text);
    assert_eq!(ds.len(), 1);
    assert_eq!(ds[0].name, "Office");
    assert_eq!(ds[0].ip, "10.1.1.1");
    assert_eq!(ds[0].port, 8080);
    assert_eq!(ds[0].user, "admin");
    assert_eq!(ds[0].password, "");
    assert_eq!(ds[0].channels.len(), 1);
    assert_eq!(ds[0].channels[0].name, "Lobby");
    assert_eq!(ds[0].channels[0].number, 2);
    assert_eq!(ds[0].channels[0].protocol, ProtocolType::Udp);
    assert_eq!(ds[0].channels[0].stream, StreamType::Trans);
}

#[test]
fn parse_defaults_for_bad_numbers() {
    let text = "<device>\nA\nB\nnot-a-port\n<channel>\nc\nx\n+5\n77\n</channel>\n</device>";
    let ds = parse(text);
    assert_eq!(ds[0].port, 8000);
    assert_eq!(ds[0].channels[0].number, 0);
    assert_eq!(ds[0].channels[0].protocol, ProtocolType::Https);
    assert_eq!(ds[0].channels[0].stream, StreamType::Main);
    // 70000 does not fit a port, -1 neither.
    assert_eq!(parse("<device>\na\nb\n70000\n</device>")[0].port, 8000);
    assert_eq!(parse("<device>\na\nb\n-1\n</device>")[0].port, 8000);
    assert_eq!(parse("<device>\na\nb\n+65535\n</device>")[0].port, 65535);
}

#[test]
fn parse_unclosed_device_is_dropped() {
    assert_eq!(parse("<device>\nA\n").len(), 0);
    assert_eq!(parse("").len(), 0);
    assert_eq!(parse("stray\n</device>\n").len(), 0);
}

#[test]
fn try_parse_refuses_counter_overflow() {
    let mut text = String::from("<device>\n");
    for i in 0..255 {
        text.push_str(&format!("line{}\n", i));
    }
    text.push_str("</device>\n");
    let ds = try_parse(&text).expect("255 field lines fit");
    assert_eq!(ds[0]._field_idx, 255);
    assert_eq!(ds[0].name, "line0");
    let mut longer = String::from("<device>\n");
    for i in 0..256 {
        longer.push_str(&format!("line{}\n", i));
    }
    assert!(try_parse(&longer).is_none());
}

#[test]
fn apply_lines_fill_fields_in_order() {
    let mut d = DeviceData::default();
    for l in ["n", "1.2.3.4", "9000", "u", "p", "k", "extra"] {
        apply_device_line(&mut d, l);
    }
    assert_eq!(d.name, "n");
    assert_eq!(d.ip, "1.2.3.4");
    assert_eq!(d.port, 9000);
    assert_eq!(d.user, "u");
    assert_eq!(d.password, "p");
    assert_eq!(d.secret_key, "k");
    assert_eq!(d._field_idx, 7);
    let mut c = ChannelData::default();
    for l in ["cam", "12", "4", "2"] {
        apply_channel_line(&mut c, l);
    }
    assert_eq!(c.name, "cam");
    assert_eq!(c.number, 12);
    assert_eq!(c.protocol, ProtocolType::Rtsp);
    assert_eq!(c.stream, StreamType::Third);
}

#[test]
fn number_codes_map_to_kinds() {
    assert_eq!(num_to_protocol(0), ProtocolType::Tcp);
    assert_eq!(num_to_protocol(5), ProtocolType::Https);
    assert_eq!(num_to_protocol(6), ProtocolType::Unknown);
    assert_eq!(num_to_protocol(-1), ProtocolType::Unknown);
    assert_eq!(num_to_stream(4), StreamType::Fourth);
    assert_eq!(num_to_stream(5), StreamType::Main);
}

#[test]
fn default_path_is_device_tree_txt() {
    assert_eq!(default_path(), "device_tree.txt");
}

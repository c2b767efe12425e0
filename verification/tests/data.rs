use hcnetsdk_rust_demo::mainwindow::devicetree::data::{
    ChannelData, DeviceData, ProtocolType, StreamType,
};

#[test]
fn device_defaults_are_unset() {
    let d = DeviceData::default();
    assert_eq!(d.port, 0);
    assert_eq!(d.user_id, -1);
    assert!(d.user.is_empty());
    assert!(!d.is_logged_in());
    assert_eq!(d.channel_count(), 0);
    let c = ChannelData::default();
    assert_eq!(c.real_handle, -1);
    assert_eq!(c.protocol, ProtocolType::Tcp);
    assert_eq!(c.stream, StreamType::Main);
    assert!(!c.online);
}

#[test]
fn effective_port_and_user_fall_back() {
    let mut d = DeviceData::default();
    assert_eq!(d.effective_port(), 8000);
    assert_eq!(d.effective_user(), "admin");
    d.port = 37777;
    d.user = "guest".into();
    assert_eq!(d.effective_port(), 37777);
    assert_eq!(d.effective_user(), "guest");
}

#[test]
fn logged_in_means_positive_user_id() {
    let mut d = DeviceData::default();
    d.user_id = 0;
    assert!(!d.is_logged_in());
    d.user_id = 1;
    assert!(d.is_logged_in());
    d.channels.push(ChannelData::default());
    assert_eq!(d.channel_count(), 1);
}

#[test]
fn labels_and_codes() {
    assert_eq!(ProtocolType::Tcp.label(), "TCP");
    assert_eq!(ProtocolType::Mcast.label(), "MULTICAST");
    assert_eq!(ProtocolType::Unknown.label(), "?");
    assert_eq!(ProtocolType::Unknown.code(), 99);
    assert_eq!(ProtocolType::Https.code(), 5);
    assert_eq!(StreamType::Trans.label(), "Trans code");
    assert_eq!(StreamType::Fourth.code(), 4);
    assert_eq!(ProtocolType::default(), ProtocolType::Tcp);
    assert_eq!(StreamType::default(), StreamType::Main);
}

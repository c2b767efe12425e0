use hcnetsdk_rust_demo::mainwindow::devicetree::data::{ChannelData, DeviceData};
use hcnetsdk_rust_demo::mainwindow::devicetree::{build_tree, TreeNode};

fn device(name: &str, user_id: i32, channels: &[(i32, i32)]) -> DeviceData {
    let mut d = DeviceData::default();
    d.name = name.into();
    d.user_id = user_id;
    for &(number, handle) in channels {
        let mut c = ChannelData::default();
        c.number = number;
        c.real_handle = handle;
        d.channels.push(c);
    }
    d
}

#[test]
fn build_tree_is_flat_depth_first() {
    let rows = build_tree(&[device("A", 3, &[(1, -1), (2, 0)]), device("B", -1, &[(-4, 9)])]);
    assert_eq!(rows.len(), 6);
    let depths: Vec<usize> = rows.iter().map(|r| r.0).collect();
    assert_eq!(depths, vec![0, 1, 2, 2, 1, 2]);
    let labels: Vec<String> = rows.iter().map(|r| r.1.label()).collect();
    assert_eq!(
        labels,
        vec!["Devices", "A", "Channel 1", "Channel 2 [playing]", "B (offline)", "Channel -4 [playing]"]
    );
    assert_eq!(rows[3].1.device_index(), Some(0));
    assert_eq!(rows[3].1.channel_index(), Some(1));
    assert_eq!(rows[4].1.device_index(), Some(1));
    assert_eq!(rows[4].1.channel_index(), None);
    assert_eq!(rows[0].1.device_index(), None);
    assert!(rows[5].1.is_leaf());
    assert!(!rows[4].1.is_leaf());
    assert!(!rows[0].1.is_leaf());
}

#[test]
fn build_tree_of_nothing_is_the_root() {
    let rows = build_tree(&[]);
    assert_eq!(rows.len(), 1);
    assert!(matches!(rows[0].1, TreeNode::Root));
    assert_eq!(rows[0].1.label(), "Devices");
}

#[test]
fn node_labels() {
    let online = TreeNode::Device { device_index: 0, name: "X".into(), online: true };
    let offline = TreeNode::Device { device_index: 0, name: "X".into(), online: false };
    let playing = TreeNode::Channel { device_index: 0, channel_index: 0, name: "c".into(), online: true };
    let idle = TreeNode::Channel { device_index: 0, channel_index: 0, name: "c".into(), online: false };
    assert_eq!(online.label(), "X");
    assert_eq!(offline.label(), "X (offline)");
    assert_eq!(playing.label(), "c [playing]");
    assert_eq!(idle.label(), "c");
}

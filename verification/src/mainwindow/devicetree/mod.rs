//! The device tree shown on the left of the main window: a synthetic root,
//! then each device followed by its channels.

pub mod data;
pub mod storage;

use vstd::prelude::*;

pub use crate::mainwindow::devicetree::data::{ChannelData, DeviceData, ProtocolType, StreamType};
pub use crate::mainwindow::devicetree::storage::default_path;

use crate::mainwindow::devicetree::data::{channel_models, device_models, ChannelModel, DeviceModel};
use crate::text::{int_decimal, push_i32};

verus! {

broadcast use vstd::string::group_string_axioms;

/// One node in the visible device tree: the synthetic root "Devices", a
/// device (whose children are its channels), or a channel.
#[derive(Debug, Clone)]
pub enum TreeNode {
    Root,
    Device { device_index: usize, name: String, online: bool },
    Channel { device_index: usize, channel_index: usize, name: String, online: bool },
}

/// A tree node as the contracts see it.
pub enum TreeNodeModel {
    Root,
    Device { device_index: usize, name: Seq<char>, online: bool },
    Channel { device_index: usize, channel_index: usize, name: Seq<char>, online: bool },
}

impl View for TreeNode {
    type V = TreeNodeModel;

    open spec fn view(&self) -> TreeNodeModel {
        match self {
            TreeNode::Root => TreeNodeModel::Root,
            TreeNode::Device { device_index, name, online } => TreeNodeModel::Device {
                device_index: *device_index,
                name: name@,
                online: *online,
            },
            TreeNode::Channel { device_index, channel_index, name, online } =>
                TreeNodeModel::Channel {
                device_index: *device_index,
                channel_index: *channel_index,
                name: name@,
                online: *online,
            },
        }
    }
}

/// The text shown for a node: a device is marked when offline, a channel
/// when it is playing.
pub open spec fn node_label(n: TreeNodeModel) -> Seq<char> {
    match n {
        TreeNodeModel::Root => "Devices"@,
        TreeNodeModel::Device { name, online, .. } => if online {
            name
        } else {
            name + " (offline)"@
        },
        TreeNodeModel::Channel { name, online, .. } => if online {
            name + " [playing]"@
        } else {
            name
        },
    }
}

impl TreeNode {
    pub fn label(&self) -> (s: String)
        ensures
            s@ == node_label(self@),
    {
        match self {
            TreeNode::Root => "Devices".to_owned(),
            TreeNode::Device { name, online, .. } => {
                let mut s = name.clone();
                if !*online {
                    s.append(" (offline)");
                }
                s
            },
            TreeNode::Channel { name, online, .. } => {
                let mut s = name.clone();
                if *online {
                    s.append(" [playing]");
                }
                s
            },
        }
    }

    pub fn device_index(&self) -> (r: Option<usize>)
        ensures
            r == match self@ {
                TreeNodeModel::Device { device_index, .. } => Some(device_index),
                TreeNodeModel::Channel { device_index, .. } => Some(device_index),
                TreeNodeModel::Root => None,
            },
    {
        match self {
            TreeNode::Device { device_index, .. } => Some(*device_index),
            TreeNode::Channel { device_index, .. } => Some(*device_index),
            TreeNode::Root => None,
        }
    }

    pub fn channel_index(&self) -> (r: Option<usize>)
        ensures
            r == match self@ {
                TreeNodeModel::Channel { channel_index, .. } => Some(channel_index),
                _ => None,
            },
    {
        match self {
            TreeNode::Channel { channel_index, .. } => Some(*channel_index),
            _ => None,
        }
    }

    pub fn is_leaf(&self) -> (b: bool)
        ensures
            b == (self@ is Channel),
    {
        match self {
            TreeNode::Channel { .. } => true,
            _ => false,
        }
    }
}

/// The label of a channel's row: `Channel` and its number.
pub open spec fn channel_row_name(number: i32) -> Seq<char> {
    "Channel "@ + int_decimal(number as int)
}

/// The rows of the channels `cs` of device `di`, at depth 2.
pub open spec fn channel_rows(di: int, cs: Seq<ChannelModel>) -> Seq<(usize, TreeNodeModel)>
    decreases cs.len(),
{
    if cs.len() == 0 {
        Seq::empty()
    } else {
        channel_rows(di, cs.drop_last()).push(
            (
                2usize,
                TreeNodeModel::Channel {
                    device_index: di as usize,
                    channel_index: (cs.len() - 1) as usize,
                    name: channel_row_name(cs.last().number),
                    online: cs.last().real_handle >= 0,
                },
            ),
        )
    }
}

/// The row of device `di` at depth 1, then its channels' rows.
pub open spec fn device_rows(di: int, d: DeviceModel) -> Seq<(usize, TreeNodeModel)> {
    seq![
        (
            1usize,
            TreeNodeModel::Device {
                device_index: di as usize,
                name: d.name,
                online: d.user_id > 0,
            },
        ),
    ] + channel_rows(di, d.channels)
}

pub open spec fn devices_rows(ds: Seq<DeviceModel>) -> Seq<(usize, TreeNodeModel)>
    decreases ds.len(),
{
    if ds.len() == 0 {
        Seq::empty()
    } else {
        devices_rows(ds.drop_last()) + device_rows(ds.len() - 1, ds.last())
    }
}

/// The depth-first rows of the tree: the root at depth 0, then each device
/// followed by its channels.
pub open spec fn tree_rows(ds: Seq<DeviceModel>) -> Seq<(usize, TreeNodeModel)> {
    seq![(0usize, TreeNodeModel::Root)] + devices_rows(ds)
}

pub open spec fn rows_model(rows: Seq<(usize, TreeNode)>) -> Seq<(usize, TreeNodeModel)> {
    rows.map_values(|r: (usize, TreeNode)| (r.0, r.1@))
}

/// Builds the flat depth-first view of the tree from a list of devices.
pub fn build_tree(devices: &[DeviceData]) -> (out: Vec<(usize, TreeNode)>)
    ensures
        rows_model(out@) == tree_rows(device_models(devices@)),
{
    let ghost ds = device_models(devices@);
    let mut out: Vec<(usize, TreeNode)> = Vec::new();
    out.push((0, TreeNode::Root));
    assert(ds.take(0) =~= Seq::<DeviceModel>::empty());
    assert(rows_model(out@) =~= tree_rows(ds.take(0)));
    for di in 0..devices.len()
        invariant
            ds == device_models(devices@),
            rows_model(out@) == tree_rows(ds.take(di as int)),
    {
        let dev = &devices[di];
        let ghost d = dev@;
        assert(d == ds[di as int]);
        let ghost before = rows_model(out@);
        out.push(
            (1, TreeNode::Device { device_index: di, name: dev.name.clone(), online: dev.is_logged_in() }),
        );
        let ghost cs = d.channels;
        assert(cs.take(0) =~= Seq::<ChannelModel>::empty());
        assert(rows_model(out@) =~= before + seq![
            (
                1usize,
                TreeNodeModel::Device {
                    device_index: di,
                    name: d.name,
                    online: d.user_id > 0,
                },
            ),
        ] + channel_rows(di as int, cs.take(0)));
        for ci in 0..dev.channels.len()
            invariant
                cs == channel_models(dev.channels@),
                rows_model(out@) == before + seq![
                    (
                        1usize,
                        TreeNodeModel::Device {
                            device_index: di,
                            name: d.name,
                            online: d.user_id > 0,
                        },
                    ),
                ] + channel_rows(di as int, cs.take(ci as int)),
        {
            let ch = &dev.channels[ci];
            assert(ch@ == cs[ci as int]);
            let mut name = "Channel ".to_owned();
            push_i32(&mut name, ch.number);
            let ghost prev = rows_model(out@);
            out.push(
                (2, TreeNode::Channel { device_index: di, channel_index: ci, name, online: ch.real_handle >= 0 }),
            );
            assert(cs.take(ci + 1).drop_last() =~= cs.take(ci as int));
            assert(rows_model(out@) =~= prev.push(
                (
                    2usize,
                    TreeNodeModel::Channel {
                        device_index: di,
                        channel_index: ci,
                        name: channel_row_name(ch.number),
                        online: ch.real_handle >= 0,
                    },
                ),
            ));
        }
        assert(cs.take(dev.channels@.len() as int) =~= cs);
        assert(ds.take(di + 1).drop_last() =~= ds.take(di as int));
        assert(rows_model(out@) =~= tree_rows(ds.take(di + 1)));
    }
    assert(ds.take(devices@.len() as int) =~= ds);
    out
}


/// How many rows the devices take: one each, and one per channel.
pub open spec fn rows_count(ds: Seq<DeviceModel>) -> nat
    decreases ds.len(),
{
    if ds.len() == 0 {
        0
    } else {
        rows_count(ds.drop_last()) + 1 + ds.last().channels.len()
    }
}

/// A row below the root names a device, at depth 1, or one of its
/// channels, at depth 2, and the indices point into the list.
pub open spec fn row_in(ds: Seq<DeviceModel>, r: (usize, TreeNodeModel)) -> bool {
    match r.1 {
        TreeNodeModel::Root => false,
        TreeNodeModel::Device { device_index, name, online } => {
            &&& r.0 == 1
            &&& device_index < ds.len()
            &&& name == ds[device_index as int].name
            &&& online == (ds[device_index as int].user_id > 0)
        },
        TreeNodeModel::Channel { device_index, channel_index, online, .. } => {
            &&& r.0 == 2
            &&& device_index < ds.len()
            &&& channel_index < ds[device_index as int].channels.len()
            &&& online == (ds[device_index as int].channels[channel_index as int].real_handle >= 0)
        },
    }
}

proof fn lemma_channel_rows(di: int, cs: Seq<ChannelModel>)
    requires
        0 <= di <= usize::MAX,
        cs.len() <= usize::MAX + 1,
    ensures
        channel_rows(di, cs).len() == cs.len(),
        forall|k: int|
            0 <= k < cs.len() ==> (#[trigger] channel_rows(di, cs)[k]).0 == 2 && channel_rows(
                di,
                cs,
            )[k].1 == (TreeNodeModel::Channel {
                device_index: di as usize,
                channel_index: k as usize,
                name: channel_row_name(cs[k].number),
                online: cs[k].real_handle >= 0,
            }),
    decreases cs.len(),
{
    if cs.len() > 0 {
        let init = cs.drop_last();
        lemma_channel_rows(di, init);
        assert forall|k: int| 0 <= k < cs.len() implies (#[trigger] channel_rows(di, cs)[k]).0 == 2
            && channel_rows(di, cs)[k].1 == (TreeNodeModel::Channel {
            device_index: di as usize,
            channel_index: k as usize,
            name: channel_row_name(cs[k].number),
            online: cs[k].real_handle >= 0,
        }) by {
            if k < init.len() {
                assert(channel_rows(di, cs)[k] == channel_rows(di, init)[k]);
                assert(init[k] == cs[k]);
            }
        }
    }
}

proof fn lemma_devices_rows(ds: Seq<DeviceModel>)
    requires
        ds.len() <= usize::MAX,
        forall|i: int| 0 <= i < ds.len() ==> (#[trigger] ds[i]).channels.len() <= usize::MAX,
    ensures
        devices_rows(ds).len() == rows_count(ds),
        forall|k: int| 0 <= k < devices_rows(ds).len() ==> row_in(ds, #[trigger] devices_rows(ds)[k]),
    decreases ds.len(),
{
    if ds.len() > 0 {
        let init = ds.drop_last();
        assert forall|i: int| 0 <= i < init.len() implies (#[trigger] init[i]).channels.len()
            <= usize::MAX by {
            assert(init[i] == ds[i]);
        }
        lemma_devices_rows(init);
        let di = ds.len() - 1;
        let d = ds.last();
        assert(ds[di].channels.len() <= usize::MAX);
        lemma_channel_rows(di, d.channels);
        let a = devices_rows(init);
        let b = device_rows(di, d);
        assert forall|k: int| 0 <= k < (a + b).len() implies row_in(ds, #[trigger] (a + b)[k]) by {
            if k < a.len() {
                assert((a + b)[k] == a[k]);
                assert(row_in(init, a[k]));
                match a[k].1 {
                    TreeNodeModel::Device { device_index, .. } => {
                        assert(init[device_index as int] == ds[device_index as int]);
                    },
                    TreeNodeModel::Channel { device_index, .. } => {
                        assert(init[device_index as int] == ds[device_index as int]);
                    },
                    TreeNodeModel::Root => {},
                }
            } else if k == a.len() {
                assert((a + b)[k] == b[0]);
            } else {
                assert((a + b)[k] == b[k - a.len()]);
                assert(b[k - a.len()] == channel_rows(di, d.channels)[k - a.len() - 1]);
            }
        }
    }
}

/// The tree is flat and depth-first: the root comes first, then one row per
/// device and one per channel, each naming an existing device or channel
/// at its depth, with the device's name and online state.
pub proof fn lemma_tree_rows_shape(ds: Seq<DeviceModel>)
    requires
        ds.len() <= usize::MAX,
        forall|i: int| 0 <= i < ds.len() ==> (#[trigger] ds[i]).channels.len() <= usize::MAX,
    ensures
        tree_rows(ds).len() == 1 + rows_count(ds),
        tree_rows(ds)[0] == (0usize, TreeNodeModel::Root),
        forall|k: int| 1 <= k < tree_rows(ds).len() ==> row_in(ds, #[trigger] tree_rows(ds)[k]),
{
    lemma_devices_rows(ds);
    let r = tree_rows(ds);
    assert forall|k: int| 1 <= k < r.len() implies row_in(ds, #[trigger] r[k]) by {
        assert(r[k] == devices_rows(ds)[k - 1]);
    }
}


/// What a row number of the tree selects: `(1, device, 0)` for a device's
/// row, `(2, device, channel)` for a channel's row, and `(0, 0, 0)` for the
/// root and for numbers outside the tree.
pub open spec fn row_target(ds: Seq<DeviceModel>, idx: int) -> (i32, usize, usize) {
    let rows = tree_rows(ds);
    if 1 <= idx < rows.len() {
        match rows[idx].1 {
            TreeNodeModel::Device { device_index, .. } => (1i32, device_index, 0usize),
            TreeNodeModel::Channel { device_index, channel_index, .. } => (
                2i32,
                device_index,
                channel_index,
            ),
            TreeNodeModel::Root => (0i32, 0usize, 0usize),
        }
    } else {
        (0i32, 0usize, 0usize)
    }
}

/// The rows of the first `n` devices come first among the rows of all.
proof fn lemma_rows_prefix(ds: Seq<DeviceModel>, n: int)
    requires
        0 <= n <= ds.len(),
    ensures
        devices_rows(ds.take(n)).len() <= devices_rows(ds).len(),
        forall|k: int|
            0 <= k < devices_rows(ds.take(n)).len() ==> #[trigger] devices_rows(ds)[k]
                == devices_rows(ds.take(n))[k],
    decreases ds.len() - n,
{
    if n == ds.len() {
        assert(ds.take(n) =~= ds);
    } else {
        lemma_rows_prefix(ds, n + 1);
        assert(ds.take(n + 1).drop_last() =~= ds.take(n));
        let a = devices_rows(ds.take(n));
        let b = device_rows(n, ds[n]);
        assert(devices_rows(ds.take(n + 1)) == a + b);
        assert forall|k: int| 0 <= k < a.len() implies #[trigger] devices_rows(ds)[k] == a[k] by {
            assert((a + b)[k] == a[k]);
        }
    }
}

/// The device and channel indices that row number `idx` of the tree of
/// `devices` selects, with its level (see `row_target`).
pub fn row_lookup(devices: &[DeviceData], idx: i32) -> (r: (i32, usize, usize))
    ensures
        r == row_target(device_models(devices@), idx as int),
{
    let ghost ds = device_models(devices@);
    if idx < 1 {
        return (0, 0, 0);
    }
    let mut t: i64 = 1;
    for di in 0..devices.len()
        invariant
            ds == device_models(devices@),
            1 <= idx,
            1 <= t <= idx,
            t == 1 + devices_rows(ds.take(di as int)).len(),
    {
        let ghost pre = devices_rows(ds.take(di as int));
        let ghost d = ds[di as int];
        proof {
            assert(ds.take(di + 1).drop_last() =~= ds.take(di as int));
            assert(ds.take(di + 1).last() == d);
            assert(devices_rows(ds.take(di + 1)) == pre + device_rows(di as int, d));
            lemma_rows_prefix(ds, di + 1);
        }
        if t == idx as i64 {
            proof {
                let k = pre.len() as int;
                assert((pre + device_rows(di as int, d))[k] == device_rows(di as int, d)[0]);
                assert(tree_rows(ds)[idx as int] == devices_rows(ds)[k]);
            }
            return (1, di, 0);
        }
        t = t + 1;
        let n = devices[di].channels.len();
        proof {
            assert(d.channels.len() == n);
            lemma_channel_rows(di as int, d.channels);
        }
        for ci in 0..n
            invariant
                ds == device_models(devices@),
                1 <= idx,
                1 <= t <= idx,
                t == 2 + pre.len() + ci,
                pre == devices_rows(ds.take(di as int)),
                d == ds[di as int],
                n == d.channels.len(),
                di < ds.len(),
                devices_rows(ds.take(di + 1)) == pre + device_rows(di as int, d),
                devices_rows(ds.take(di + 1)).len() <= devices_rows(ds).len(),
                forall|k: int|
                    0 <= k < devices_rows(ds.take(di + 1)).len() ==> #[trigger] devices_rows(ds)[k]
                        == devices_rows(ds.take(di + 1))[k],
                channel_rows(di as int, d.channels).len() == n,
                forall|k: int|
                    0 <= k < n ==> (#[trigger] channel_rows(di as int, d.channels)[k]).1
                        == (TreeNodeModel::Channel {
                        device_index: di,
                        channel_index: k as usize,
                        name: channel_row_name(d.channels[k].number),
                        online: d.channels[k].real_handle >= 0,
                    }),
        {
            if t == idx as i64 {
                proof {
                    let k = pre.len() + 1 + ci;
                    let b = device_rows(di as int, d);
                    assert((pre + b)[k] == b[1 + ci]);
                    assert(b[1 + ci] == channel_rows(di as int, d.channels)[ci as int]);
                    assert(tree_rows(ds)[idx as int] == devices_rows(ds)[k]);
                }
                return (2, di, ci);
            }
            t = t + 1;
        }
        assert(t == 1 + devices_rows(ds.take(di + 1)).len());
    }
    proof {
        assert(ds.take(devices@.len() as int) =~= ds);
    }
    (0, 0, 0)
}


/// Every row of the tree selects something that exists: a device's row an
/// existing device, a channel's row an existing channel of it; only the
/// root and the numbers outside the tree select nothing.
pub proof fn lemma_row_target_in_tree(ds: Seq<DeviceModel>, idx: int)
    requires
        ds.len() <= usize::MAX,
        forall|i: int| 0 <= i < ds.len() ==> (#[trigger] ds[i]).channels.len() <= usize::MAX,
    ensures
        row_target(ds, idx).0 == 1 ==> row_target(ds, idx).1 < ds.len(),
        row_target(ds, idx).0 == 2 ==> row_target(ds, idx).1 < ds.len() && row_target(ds, idx).2
            < ds[row_target(ds, idx).1 as int].channels.len(),
        (row_target(ds, idx).0 == 0) == (idx < 1 || idx > rows_count(ds)),
{
    lemma_tree_rows_shape(ds);
    if 1 <= idx < tree_rows(ds).len() {
        assert(row_in(ds, tree_rows(ds)[idx]));
    }
}


/// How the tree shows its nodes: the root as `Devices`; a device by its
/// name, marked ` (offline)` when it has no session; a channel by its row
/// name, marked ` [playing]` while it plays.
pub proof fn lemma_node_labels(name: Seq<char>, di: usize, ci: usize, online: bool)
    ensures
        node_label(TreeNodeModel::Root) == "Devices"@,
        node_label(TreeNodeModel::Device { device_index: di, name, online }) == if online {
            name
        } else {
            name + " (offline)"@
        },
        node_label(TreeNodeModel::Channel { device_index: di, channel_index: ci, name, online })
            == if online {
            name + " [playing]"@
        } else {
            name
        },
{
}
} // verus!

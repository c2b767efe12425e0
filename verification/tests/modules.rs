use hcnetsdk_rust_demo::exit_module::ExitDemo;
use hcnetsdk_rust_demo::managedevice::{RebootDevice, ResetDevice, Timing};
use hcnetsdk_rust_demo::otherfunc::{AudioTransfer, Deployment};
use hcnetsdk_rust_demo::para_config::Configure;
use hcnetsdk_rust_demo::playback::PlayBack;
use hcnetsdk_rust_demo::public::module::{Module, ModuleGroup};

#[test]
fn group_labels() {
    assert_eq!(ModuleGroup::RealPlay.label(), "RealPlay");
    assert_eq!(ModuleGroup::DeviceTree.label(), "DeviceTree");
    assert_eq!(ModuleGroup::Manage.label(), "Manage");
}

#[test]
fn module_identities() {
    let e = ExitDemo::new();
    assert_eq!((e.id(), e.label(), e.group()), ("exit", "Exit", ModuleGroup::Exit));
    let c = Configure::new();
    assert_eq!((c.id(), c.label(), c.group()), ("configure", "Configure", ModuleGroup::Configure));
    let p = PlayBack::new();
    assert_eq!((p.id(), p.label(), p.group()), ("playback", "Playback", ModuleGroup::PlayBack));
    let t = Timing::new();
    assert_eq!((t.id(), t.label(), t.group()), ("timing", "Remote timing", ModuleGroup::Manage));
    assert_eq!(ResetDevice::new().label(), "Restore defaults");
    assert_eq!(RebootDevice::default().id(), "reboot");
    let d = Deployment::new();
    assert_eq!((d.id(), d.label(), d.group()), ("deploy", "Arming / disarm", ModuleGroup::Other));
    assert_eq!(AudioTransfer::new().id(), "audio_transfer");
}

#[test]
fn configure_tabs_in_order() {
    assert_eq!(
        Configure::tabs(),
        &["Network", "Channel", "User", "Exception", "Serial", "Alarm", "ATM", "IP", "Hard disk", "Public functions"]
    );
}

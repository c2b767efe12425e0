//! What every page and dialog of the demo has in common: an id, a label
//! and the menu group it belongs to.

use vstd::prelude::*;

verus! {

pub trait Module {
    fn id(&self) -> &'static str;

    fn label(&self) -> &'static str;

    fn group(&self) -> ModuleGroup;
}

/// The menu group a module belongs to.
#[derive(Debug, Clone, Copy, PartialEq, Eq, Structural)]
pub enum ModuleGroup {
    RealPlay,
    PlayBack,
    Configure,
    Manage,
    Other,
    Exit,
    DeviceTree,
}

pub open spec fn group_label(g: ModuleGroup) -> Seq<char> {
    match g {
        ModuleGroup::RealPlay => "RealPlay"@,
        ModuleGroup::PlayBack => "PlayBack"@,
        ModuleGroup::Configure => "Configure"@,
        ModuleGroup::Manage => "Manage"@,
        ModuleGroup::Other => "Other"@,
        ModuleGroup::Exit => "Exit"@,
        ModuleGroup::DeviceTree => "DeviceTree"@,
    }
}

impl ModuleGroup {
    pub fn label(self) -> (s: &'static str)
        ensures
            s@ == group_label(self),
    {
        match self {
            ModuleGroup::RealPlay => "RealPlay",
            ModuleGroup::PlayBack => "PlayBack",
            ModuleGroup::Configure => "Configure",
            ModuleGroup::Manage => "Manage",
            ModuleGroup::Other => "Other",
            ModuleGroup::Exit => "Exit",
            ModuleGroup::DeviceTree => "DeviceTree",
        }
    }
}

} // verus!

//! Entries of the "Manage" menu. Each shows a dialog and calls one SDK
//! function.

use vstd::prelude::*;

use crate::public::module::{Module, ModuleGroup};

verus! {

#[derive(Debug)]
pub struct Timing;

impl Timing {
    pub fn new() -> (r: Self) {
        Timing
    }
}

impl Default for Timing {
    fn default() -> (r: Self) {
        Timing
    }
}

impl Module for Timing {
    fn id(&self) -> (s: &'static str)
        ensures
            s@ == "timing"@,
    {
        "timing"
    }

    fn label(&self) -> (s: &'static str)
        ensures
            s@ == "Remote timing"@,
    {
        "Remote timing"
    }

    fn group(&self) -> (g: ModuleGroup)
        ensures
            g == ModuleGroup::Manage,
    {
        ModuleGroup::Manage
    }
}

#[derive(Debug)]
pub struct RemoteUpdate;

impl RemoteUpdate {
    pub fn new() -> (r: Self) {
        RemoteUpdate
    }
}

impl Default for RemoteUpdate {
    fn default() -> (r: Self) {
        RemoteUpdate
    }
}

impl Module for RemoteUpdate {
    fn id(&self) -> (s: &'static str)
        ensures
            s@ == "update"@,
    {
        "update"
    }

    fn label(&self) -> (s: &'static str)
        ensures
            s@ == "Remote update"@,
    {
        "Remote update"
    }

    fn group(&self) -> (g: ModuleGroup)
        ensures
            g == ModuleGroup::Manage,
    {
        ModuleGroup::Manage
    }
}

#[derive(Debug)]
pub struct FormatDisk;

impl FormatDisk {
    pub fn new() -> (r: Self) {
        FormatDisk
    }
}

impl Default for FormatDisk {
    fn default() -> (r: Self) {
        FormatDisk
    }
}

impl Module for FormatDisk {
    fn id(&self) -> (s: &'static str)
        ensures
            s@ == "format"@,
    {
        "format"
    }

    fn label(&self) -> (s: &'static str)
        ensures
            s@ == "Format disk"@,
    {
        "Format disk"
    }

    fn group(&self) -> (g: ModuleGroup)
        ensures
            g == ModuleGroup::Manage,
    {
        ModuleGroup::Manage
    }
}

#[derive(Debug)]
pub struct RebootDevice;

impl RebootDevice {
    pub fn new() -> (r: Self) {
        RebootDevice
    }
}

impl Default for RebootDevice {
    fn default() -> (r: Self) {
        RebootDevice
    }
}

impl Module for RebootDevice {
    fn id(&self) -> (s: &'static str)
        ensures
            s@ == "reboot"@,
    {
        "reboot"
    }

    fn label(&self) -> (s: &'static str)
        ensures
            s@ == "Reboot device"@,
    {
        "Reboot device"
    }

    fn group(&self) -> (g: ModuleGroup)
        ensures
            g == ModuleGroup::Manage,
    {
        ModuleGroup::Manage
    }
}

#[derive(Debug)]
pub struct ShutdownDevice;

impl ShutdownDevice {
    pub fn new() -> (r: Self) {
        ShutdownDevice
    }
}

impl Default for ShutdownDevice {
    fn default() -> (r: Self) {
        ShutdownDevice
    }
}

impl Module for ShutdownDevice {
    fn id(&self) -> (s: &'static str)
        ensures
            s@ == "shutdown"@,
    {
        "shutdown"
    }

    fn label(&self) -> (s: &'static str)
        ensures
            s@ == "Shutdown device"@,
    {
        "Shutdown device"
    }

    fn group(&self) -> (g: ModuleGroup)
        ensures
            g == ModuleGroup::Manage,
    {
        ModuleGroup::Manage
    }
}

#[derive(Debug)]
pub struct LogSearch;

impl LogSearch {
    pub fn new() -> (r: Self) {
        LogSearch
    }
}

impl Default for LogSearch {
    fn default() -> (r: Self) {
        LogSearch
    }
}

impl Module for LogSearch {
    fn id(&self) -> (s: &'static str)
        ensures
            s@ == "log_search"@,
    {
        "log_search"
    }

    fn label(&self) -> (s: &'static str)
        ensures
            s@ == "Log search"@,
    {
        "Log search"
    }

    fn group(&self) -> (g: ModuleGroup)
        ensures
            g == ModuleGroup::Manage,
    {
        ModuleGroup::Manage
    }
}

#[derive(Debug)]
pub struct DeviceState;

impl DeviceState {
    pub fn new() -> (r: Self) {
        DeviceState
    }
}

impl Default for DeviceState {
    fn default() -> (r: Self) {
        DeviceState
    }
}

impl Module for DeviceState {
    fn id(&self) -> (s: &'static str)
        ensures
            s@ == "device_state"@,
    {
        "device_state"
    }

    fn label(&self) -> (s: &'static str)
        ensures
            s@ == "Device state"@,
    {
        "Device state"
    }

    fn group(&self) -> (g: ModuleGroup)
        ensures
            g == ModuleGroup::Manage,
    {
        ModuleGroup::Manage
    }
}

#[derive(Debug)]
pub struct ResetDevice;

impl ResetDevice {
    pub fn new() -> (r: Self) {
        ResetDevice
    }
}

impl Default for ResetDevice {
    fn default() -> (r: Self) {
        ResetDevice
    }
}

impl Module for ResetDevice {
    fn id(&self) -> (s: &'static str)
        ensures
            s@ == "reset"@,
    {
        "reset"
    }

    fn label(&self) -> (s: &'static str)
        ensures
            s@ == "Restore defaults"@,
    {
        "Restore defaults"
    }

    fn group(&self) -> (g: ModuleGroup)
        ensures
            g == ModuleGroup::Manage,
    {
        ModuleGroup::Manage
    }
}

} // verus!

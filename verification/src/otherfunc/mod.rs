//! Entries of the "Other functions" menu.

use vstd::prelude::*;

use crate::public::module::{Module, ModuleGroup};

verus! {

#[derive(Debug)]
pub struct Deployment;

impl Deployment {
    pub fn new() -> (r: Self) {
        Deployment
    }
}

impl Default for Deployment {
    fn default() -> (r: Self) {
        Deployment
    }
}

impl Module for Deployment {
    fn id(&self) -> (s: &'static str)
        ensures
            s@ == "deploy"@,
    {
        "deploy"
    }

    fn label(&self) -> (s: &'static str)
        ensures
            s@ == "Arming / disarm"@,
    {
        "Arming / disarm"
    }

    fn group(&self) -> (g: ModuleGroup)
        ensures
            g == ModuleGroup::Other,
    {
        ModuleGroup::Other
    }
}

#[derive(Debug)]
pub struct DevicePan;

impl DevicePan {
    pub fn new() -> (r: Self) {
        DevicePan
    }
}

impl Default for DevicePan {
    fn default() -> (r: Self) {
        DevicePan
    }
}

impl Module for DevicePan {
    fn id(&self) -> (s: &'static str)
        ensures
            s@ == "device_pan"@,
    {
        "device_pan"
    }

    fn label(&self) -> (s: &'static str)
        ensures
            s@ == "Device panel simulation"@,
    {
        "Device panel simulation"
    }

    fn group(&self) -> (g: ModuleGroup)
        ensures
            g == ModuleGroup::Other,
    {
        ModuleGroup::Other
    }
}

#[derive(Debug)]
pub struct ImportConfig;

impl ImportConfig {
    pub fn new() -> (r: Self) {
        ImportConfig
    }
}

impl Default for ImportConfig {
    fn default() -> (r: Self) {
        ImportConfig
    }
}

impl Module for ImportConfig {
    fn id(&self) -> (s: &'static str)
        ensures
            s@ == "import_export"@,
    {
        "import_export"
    }

    fn label(&self) -> (s: &'static str)
        ensures
            s@ == "Import / export config"@,
    {
        "Import / export config"
    }

    fn group(&self) -> (g: ModuleGroup)
        ensures
            g == ModuleGroup::Other,
    {
        ModuleGroup::Other
    }
}

#[derive(Debug)]
pub struct SerialTransfer;

impl SerialTransfer {
    pub fn new() -> (r: Self) {
        SerialTransfer
    }
}

impl Default for SerialTransfer {
    fn default() -> (r: Self) {
        SerialTransfer
    }
}

impl Module for SerialTransfer {
    fn id(&self) -> (s: &'static str)
        ensures
            s@ == "serial"@,
    {
        "serial"
    }

    fn label(&self) -> (s: &'static str)
        ensures
            s@ == "Serial transparent channel"@,
    {
        "Serial transparent channel"
    }

    fn group(&self) -> (g: ModuleGroup)
        ensures
            g == ModuleGroup::Other,
    {
        ModuleGroup::Other
    }
}

#[derive(Debug)]
pub struct AudioBroadcast;

impl AudioBroadcast {
    pub fn new() -> (r: Self) {
        AudioBroadcast
    }
}

impl Default for AudioBroadcast {
    fn default() -> (r: Self) {
        AudioBroadcast
    }
}

impl Module for AudioBroadcast {
    fn id(&self) -> (s: &'static str)
        ensures
            s@ == "audio_broadcast"@,
    {
        "audio_broadcast"
    }

    fn label(&self) -> (s: &'static str)
        ensures
            s@ == "Audio broadcast"@,
    {
        "Audio broadcast"
    }

    fn group(&self) -> (g: ModuleGroup)
        ensures
            g == ModuleGroup::Other,
    {
        ModuleGroup::Other
    }
}

#[derive(Debug)]
pub struct AudioIntercom;

impl AudioIntercom {
    pub fn new() -> (r: Self) {
        AudioIntercom
    }
}

impl Default for AudioIntercom {
    fn default() -> (r: Self) {
        AudioIntercom
    }
}

impl Module for AudioIntercom {
    fn id(&self) -> (s: &'static str)
        ensures
            s@ == "audio_intercom"@,
    {
        "audio_intercom"
    }

    fn label(&self) -> (s: &'static str)
        ensures
            s@ == "Audio intercom"@,
    {
        "Audio intercom"
    }

    fn group(&self) -> (g: ModuleGroup)
        ensures
            g == ModuleGroup::Other,
    {
        ModuleGroup::Other
    }
}

#[derive(Debug)]
pub struct AudioTransfer;

impl AudioTransfer {
    pub fn new() -> (r: Self) {
        AudioTransfer
    }
}

impl Default for AudioTransfer {
    fn default() -> (r: Self) {
        AudioTransfer
    }
}

impl Module for AudioTransfer {
    fn id(&self) -> (s: &'static str)
        ensures
            s@ == "audio_transfer"@,
    {
        "audio_transfer"
    }

    fn label(&self) -> (s: &'static str)
        ensures
            s@ == "Audio transfer"@,
    {
        "Audio transfer"
    }

    fn group(&self) -> (g: ModuleGroup)
        ensures
            g == ModuleGroup::Other,
    {
        ModuleGroup::Other
    }
}

} // verus!

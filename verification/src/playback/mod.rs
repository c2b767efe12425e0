//! Remote playback of recordings stored on the device. The file search
//! and the stream download are not wired up yet.

use vstd::prelude::*;

use crate::public::module::{Module, ModuleGroup};

verus! {

#[derive(Debug)]
pub struct PlayBack;

impl PlayBack {
    pub fn new() -> (r: Self) {
        PlayBack
    }
}

impl Default for PlayBack {
    fn default() -> (r: Self) {
        PlayBack
    }
}

impl Module for PlayBack {
    fn id(&self) -> (s: &'static str)
        ensures
            s@ == "playback"@,
    {
        "playback"
    }

    fn label(&self) -> (s: &'static str)
        ensures
            s@ == "Playback"@,
    {
        "Playback"
    }

    fn group(&self) -> (g: ModuleGroup)
        ensures
            g == ModuleGroup::PlayBack,
    {
        ModuleGroup::PlayBack
    }
}

} // verus!

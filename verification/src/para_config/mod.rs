//! The parameter-configuration page and its tabs.

use vstd::prelude::*;

use crate::text::str_texts;

use crate::public::module::{Module, ModuleGroup};

verus! {

#[derive(Debug)]
pub struct Configure;

impl Configure {
    pub fn new() -> (r: Self) {
        Configure
    }

    /// The configuration tabs, in the order shown.
    pub fn tabs() -> (t: &'static [&'static str])
        ensures
            str_texts(t@) == seq![
                "Network"@,
                "Channel"@,
                "User"@,
                "Exception"@,
                "Serial"@,
                "Alarm"@,
                "ATM"@,
                "IP"@,
                "Hard disk"@,
                "Public functions"@,
            ],
    {
        let t: &'static [&'static str] = &[
            "Network",
            "Channel",
            "User",
            "Exception",
            "Serial",
            "Alarm",
            "ATM",
            "IP",
            "Hard disk",
            "Public functions",
        ];
        assert(str_texts(t@) =~= seq![
            "Network"@,
            "Channel"@,
            "User"@,
            "Exception"@,
            "Serial"@,
            "Alarm"@,
            "ATM"@,
            "IP"@,
            "Hard disk"@,
            "Public functions"@,
        ]);
        t
    }
}

impl Default for Configure {
    fn default() -> (r: Self) {
        Configure
    }
}

impl Module for Configure {
    fn id(&self) -> (s: &'static str)
        ensures
            s@ == "configure"@,
    {
        "configure"
    }

    fn label(&self) -> (s: &'static str)
        ensures
            s@ == "Configure"@,
    {
        "Configure"
    }

    fn group(&self) -> (g: ModuleGroup)
        ensures
            g == ModuleGroup::Configure,
    {
        ModuleGroup::Configure
    }
}

} // verus!

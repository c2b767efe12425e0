//! The exit dialog. Confirming it cleans the SDK up and ends the process,
//! which the application around this library does.

use vstd::prelude::*;

use crate::public::module::{Module, ModuleGroup};

verus! {

#[derive(Debug)]
pub struct ExitDemo;

impl ExitDemo {
    pub fn new() -> (r: Self) {
        ExitDemo
    }
}

impl Default for ExitDemo {
    fn default() -> (r: Self) {
        ExitDemo
    }
}

impl Module for ExitDemo {
    fn id(&self) -> (s: &'static str)
        ensures
            s@ == "exit"@,
    {
        "exit"
    }

    fn label(&self) -> (s: &'static str)
        ensures
            s@ == "Exit"@,
    {
        "Exit"
    }

    fn group(&self) -> (g: ModuleGroup)
        ensures
            g == ModuleGroup::Exit,
    {
        ModuleGroup::Exit
    }
}

} // verus!

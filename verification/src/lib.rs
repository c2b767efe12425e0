//! Device-tree bookkeeping, event decoding and preview-session state of the
//! HCNetSDK demo, with their contracts.

pub mod text;
pub mod mainwindow;
pub mod public;
pub mod exit_module;
pub mod para_config;
pub mod playback;
pub mod managedevice;
pub mod otherfunc;
pub mod realplay;
pub mod sdk;

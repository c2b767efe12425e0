pub mod module;

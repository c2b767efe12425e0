pub mod devicetree;
pub mod logalarm;
pub mod window;

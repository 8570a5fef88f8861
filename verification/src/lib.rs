//! The logic of a panel applet that switches the DNS servers of the device.

pub mod backend;
pub mod laws;
pub mod report;
pub mod servers;
pub mod text;
pub mod update;
pub mod version;
pub mod view;
pub mod window;

//! The protocol core of a client for ADS (Automation Device Specification), the
//! protocol of Beckhoff TwinCAT devices.
//!
//! The library builds requests, checks replies and takes them apart, and says
//! what a connection has to do next.  It does no input or output itself.
pub mod client;
pub mod closing;
pub mod commands;
pub mod comms;
pub mod device;
pub mod error;
pub mod handles;
pub mod index;
pub mod netid;
pub mod notif;
pub mod reader;
pub mod source;
pub mod state;
pub mod sumup;
pub mod symbol;
pub mod task_info;
pub mod text;
pub mod time;
pub mod timeouts;
pub mod utils;
pub mod wire;

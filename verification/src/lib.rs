//! The decisions of a desktop launcher for the dsh web service.
//!
//! The launcher brings the service up with npx, or attaches to one that is up
//! already, and shows it in a window. What it reads from the system, and what it
//! does there, is left to the program around this library; here is what it
//! decides from what was read.

pub mod command;
pub mod diagnose;
pub mod environment;
pub mod json;
pub mod latch;
pub mod log;
pub mod node;
pub mod npx;
pub mod number;
pub mod page;
pub mod paths;
pub mod place;
pub mod provision;
pub mod relaunch;
pub mod retries;
pub mod server;
pub mod settings;
pub mod startup;
pub mod text;
pub mod waiting;
pub mod window;

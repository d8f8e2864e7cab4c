//! Core decision logic of the `heel` sandbox, proved with Verus.

pub mod capabilities;
pub mod cli;
pub mod command;
pub mod config;
pub mod env;
pub mod frontend;
pub mod linux;
pub mod macos;
mod error;
pub mod ipc;
pub mod launcher;
pub mod process_tracker;
pub mod pty;
pub mod sandbox;
pub mod python;
pub mod stdio;
mod text;
pub mod windows;

pub use error::{Error, Result};
pub use text::{chars_of, string_of};
pub use capabilities::{platform_capabilities, PlatformCapabilities};
pub use pty::PtyExitStatus;
pub use stdio::StdioConfig;
pub use command::Command;


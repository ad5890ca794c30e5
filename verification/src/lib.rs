//! Proxy takeover, tunnel configuration and activation logic of the desktop shell.

pub mod text;
pub mod scan;
pub mod command;
pub mod records;
pub mod macos;
pub mod windows;
pub mod linux;
pub mod takeover;
pub mod tunnel;
pub mod response;
pub mod singbox;
pub mod activation;
pub mod paths;

//! Discord Rich Presence for NetEase Cloud Music and Tencent QQ Music: the
//! decision logic, parsers and formatters, verified.

pub mod text;
pub mod logging;
pub mod pattern;
pub mod loop_logic;
pub mod updater;
pub mod http;
pub mod memory;
pub mod media;
pub mod players;
pub mod rpc;
pub mod config;
pub mod tray;
pub mod window;

pub mod archive;
pub mod config;
pub mod download;
pub mod icon;
pub mod jsoncpp;
pub mod linux;
pub mod session;
pub mod shortcut;
pub mod text;
pub mod version;

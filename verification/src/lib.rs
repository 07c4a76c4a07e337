//! Core logic of a remote-management endpoint agent: the wire protocol, the
//! connection and session state machines, the screen tile encoder and the file
//! transfer engine.

pub mod agent;
pub mod backoff;
pub mod commands;
pub mod config;
pub mod connection;
pub mod desktop;
pub mod enroll;
pub mod files;
pub mod helper;
pub mod input;
pub mod install;
pub mod ipc;
pub mod json;
pub mod keymap;
pub mod listing;
pub mod platform;
pub mod procfs;
pub mod protocol;
pub mod reassembly;
pub mod router;
pub mod scan;
pub mod screen;
pub mod service;
pub mod session;
pub mod sysinfo;
pub mod terminal;
pub mod text;
pub mod update;
pub mod wayland;
pub mod wire;

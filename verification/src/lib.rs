//! The logic of tili, a tiling window manager for macOS: what commands and
//! configuration mean, where windows belong, what monitors show, and what the
//! daemon, the command line and the menu bar badge do next. Nothing here
//! touches a window: plain values come in, and actions go out.

pub mod cli;
pub mod command;
pub mod config;
pub mod daemon;
pub mod desk;
pub mod dispatch;
pub mod display;
pub mod doctor;
pub mod document;
pub mod forest;
pub mod grace;
pub mod hotkey;
pub mod ipc;
pub mod menubar;
pub mod modes;
pub mod paths;
pub mod placement;
pub mod resize;
pub mod rules;
pub mod setter;
pub mod state;
pub mod table;
pub mod text;
pub mod watch;
pub mod window;
pub mod wire;
pub mod written;

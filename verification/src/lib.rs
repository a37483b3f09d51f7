//! Core of a live-update development server.
//!
//! The library contains the verified logic of the server: deciding which
//! changed paths are ignored, debouncing repeated notifications, classifying
//! changes into semantic update kinds, encoding and decoding the binary wire
//! protocol, keeping the registry of connected client sessions, and deciding
//! what each inbound client frame leads to.  The surrounding process (the
//! filesystem watch registration, the HTTP/WebSocket transport and the
//! subprocess that runs client commands) lives outside the library and hands
//! it plain values.

pub mod codec;
pub mod command;
pub mod debounce;
pub mod events;
pub mod path_filter;
pub mod protocol;
pub mod registry;
pub mod session;
pub mod strutil;
pub mod watcher;

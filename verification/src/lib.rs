//! The verified core of ClipSync, a clipboard shared by the machines of one
//! local network.
pub mod clipboard;
pub mod clock;
pub mod codec;
pub mod config;
pub mod crypto;
pub mod discovery;
pub mod guard;
pub mod notice;
pub mod pairing;
pub mod random;
pub mod registry;
pub mod sync;
pub mod text;
pub mod transport;
pub mod tray;

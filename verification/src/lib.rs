//! Protocol and routing engine of a bridge between a hardware control surface
//! (buttons, rotary encoders, an LCD strip) and a controller application.
//!
//! The crate holds the line parser of the controller's text protocol, the
//! framing and encoding of the binary protocol spoken with the device side,
//! the routing of bitmaps to buttons and LCD regions with its cache, the
//! decisions of the message pump, and the report protocol of the decks.
//! Everything here is computation on values. Sockets and timers live with the
//! caller; a deck is reached through a transport that the caller brings.

pub mod bin_comm;
pub mod bitmap;
pub mod cache;
pub mod common;
pub mod companion;
pub mod companion_to_device;
pub mod gateway;
pub mod gateway_devices;
pub mod hid;
pub mod keyvalue;
pub mod leaf;
pub mod leaf_comm;
pub mod pumps;
pub mod receiver;
pub mod satellite;
pub mod sender;
pub mod streamdeck;
pub mod teensy;
pub mod text;
pub mod wire;

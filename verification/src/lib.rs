//! Snowcast: a multi-station audio broadcast service, without the sockets.
//!
//! The crate holds the protocol logic of the service as plain functions on
//! plain values, each with a machine-checked contract:
//!
//! * [`wire`]: the fixed-size control frames and their codec;
//! * [`registry`]: the stations and the listeners subscribed to each;
//! * [`session`]: the server's state machine for one control connection;
//! * [`client`]: the control client's state machine;
//! * [`selection`]: what the client's user types, read as a selection;
//! * [`dialogue`]: what holds between a client and a session that talk;
//! * [`playback`]: the looping, chunked read cursor of one station.
//!
//! Sockets, files and timers live with the caller, which feeds frames in and
//! carries replies and datagrams out.

pub mod client;
pub mod dialogue;
pub mod playback;
pub mod registry;
pub mod selection;
pub mod session;
pub mod wire;

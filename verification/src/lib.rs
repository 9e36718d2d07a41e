//! Logic of a Miracast (Wi-Fi Display) sink.
//!
//! * [`rtsp`] and [`connection`] are the RTSP control plane, from the bytes of
//!   a connection to the answers; [`laws`] holds what is true of every message.
//! * [`p2p`] and [`p2p_manager`] encode what wpa_supplicant is told and decide
//!   how the sink is kept discoverable.
//! * [`config`], [`startup`] and [`logger`] cover settings, the pre-flight
//!   check and where the log goes.
//! * [`health`], [`video`] and [`airplay`] decide for the health endpoint, the
//!   GStreamer pipeline and the `uxplay` process.
//! * [`text`] and [`buffer`] are what the others are built on.

pub mod airplay;
pub mod buffer;
pub mod config;
pub mod connection;
pub mod health;
pub mod laws;
pub mod logger;
pub mod p2p;
pub mod p2p_manager;
pub mod rtsp;
pub mod startup;
pub mod text;
pub mod video;

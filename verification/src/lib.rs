//! Verified core of the G-5500 rotator network adaptor: persistent
//! configuration encoding, the rotctld command grammar, HTTP form
//! handling, mDNS responses and the rotator control decisions.

pub mod crc8;
pub mod config;
pub mod http;
pub mod hamlib;
pub mod session;
pub mod mdns;
pub mod control;

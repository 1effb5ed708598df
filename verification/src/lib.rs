//! The signalling core of a proximity voice server: lobby membership, the rules a relayed
//! signal has to pass, the public lobby list and the relay credentials clients are given.

pub mod config;
pub mod effects;
pub mod laws;
pub mod listing;
pub mod lobby;
pub mod probe;
pub mod registry;
pub mod settings;
pub mod sid;
pub mod socket;
pub mod standalone;
pub mod state;
pub mod tables;
pub mod text;
pub mod time;
pub mod turn;
pub mod web;

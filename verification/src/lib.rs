//! The logic of a command-line client for a VPN: its login token, its systemd
//! unit, its commands and its tunnels, as functions on plain values. Reading
//! and writing files, the network and the console are left to the program
//! around it.

pub mod calendar;
pub mod callback;
pub mod exit;
pub mod login;
pub mod numerals;
pub mod run;
pub mod service;
pub mod text;
pub mod time;
pub mod token;
pub mod tunnel;

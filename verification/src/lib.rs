//! The logic of the Vault64 game launcher: accounts, settings, releases and
//! versions, the jobs that update the launcher and install games, and what the
//! screens show and do.
pub mod account;
pub mod clicks;
pub mod config;
pub mod exe_search;
pub mod games;
pub mod install;
pub mod job;
pub mod launcher;
pub mod location;
pub mod message;
pub mod naming;
pub mod net;
pub mod package;
pub mod palette;
pub mod progress;
pub mod release;
pub mod screens;
pub mod session;
pub mod text;
pub mod transfer;
pub mod unzip;
pub mod update;
pub mod version;

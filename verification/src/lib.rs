//! Metadata handling for an AirPlay receiver front end: parsing of the
//! Shairport Sync metadata stream and of UxPlay's exported DACP credentials,
//! playback-progress arithmetic, and the session state that drives the
//! Discord and MPRIS presentations.

pub mod text;
pub mod metadata;
pub mod dacp;
pub mod progress;
pub mod session;
pub mod mpris;
pub mod settings;
pub mod discord;
pub mod output;
pub mod environment;
pub mod control;
pub mod restart;
pub mod laws;
pub mod stream_laws;
pub mod progress_laws;
pub mod field_laws;

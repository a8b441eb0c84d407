//! Aggregation pipeline for localized game-content records and image assets.
//!
//! The library normalizes, merges, joins and prepares for persistence the
//! record families of two upstream data snapshots, decides the image-asset
//! transcoding policy, and drives the whole run as a state machine; callers
//! perform the network and filesystem work between steps. It also carries the
//! save-file data model of the surrounding application and its naming rules.

pub mod assets;
pub mod base;
pub mod config;
pub mod enums;
pub mod errors;
pub mod facility;
pub mod join;
pub mod operator;
pub mod orchestrator;
pub mod save;
pub mod savefile;
pub mod server;
pub mod table;
pub mod terms;
pub mod text;
pub mod transcode;

pub use server::Server;

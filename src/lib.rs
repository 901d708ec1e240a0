//! Account sign-in and game launch logic for a desktop companion tool.
//!
//! The library holds the decisions; the surrounding application performs the
//! network requests, file access and process spawning that they call for.

pub mod text;
pub mod service;
pub mod token;
pub mod launch;
pub mod settings;

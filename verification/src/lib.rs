//! A registry of user profiles keyed by caller identity, kept in a durable
//! ordered map.

pub mod codec;
pub mod durable;
pub mod error;
pub mod identity;
pub mod laws;
pub mod profile;
pub mod registry;
pub mod service;
pub mod store;
pub mod token;

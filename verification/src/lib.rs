//! Locks an installed conda environment: the binary packages of a prefix and
//! the wheels that pip installed into it are reconciled into one lock model.

pub mod channel;
pub mod dedup;
pub mod error;
pub mod lock;
pub mod metadata;
pub mod model;
pub mod package;
pub mod platform;
pub mod prefix;
pub mod reconcile;
pub mod render;
pub mod requirement;
pub mod search;
pub mod text;
pub mod url;

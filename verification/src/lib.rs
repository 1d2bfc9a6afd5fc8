//! An asset-override engine: it maps 40-bit hashes of logical asset paths to
//! replacement files discovered on external storage, and installs the bytes of
//! a replacement into the host's resource table at the moment the host is
//! about to load the original asset.
//!
//! The index is built once, before any interception point runs, and is
//! read-only afterwards. The two interception points never touch a table
//! entry that the host has already finished loading.

pub mod arcadia;
pub mod hash40;
pub mod index;
pub mod interception;

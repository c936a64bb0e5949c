//! Suspending and restoring herdr workspaces.

pub mod closing;
pub mod courses;
pub mod definition;
pub mod exchange;
pub mod files;
pub mod guarantees;
pub mod picker;
pub mod process;
pub mod protocol;
pub mod restore;
pub mod session;
pub mod snapshot;
pub mod text;
pub mod text_map;
pub mod views;

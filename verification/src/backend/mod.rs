//! The container engines a plan runs on, as command lines.

pub mod args;
pub mod image_build;
pub mod docker;
pub mod podman;
pub mod runtime;
pub mod session;

//! The `sbox.yaml` configuration: its model, validation, elaboration and loading rules.

pub mod load;
pub mod maps;
pub mod model;
pub mod package_manager;
pub mod validate;

//! Policy and planning core of `sbox`, a sandbox for development commands.

pub mod audit;
pub mod backend;
pub mod bootstrap;
pub mod clean;
pub mod compose;
pub mod config;
pub mod dispatch;
pub mod environment;
pub mod doctor;
pub mod error;
pub mod exec;
pub mod explain;
pub mod harden;
pub mod hash;
pub mod init;
pub mod json;
pub mod lint;
pub mod lock;
pub mod logs;
pub mod network;
pub mod order;
pub mod paths;
pub mod plan;
pub mod policy;
pub mod proxy;
pub mod resolve;
pub mod sandbox;
pub mod shadow;
pub mod shell;
pub mod shim;
pub mod status;
pub mod text;
pub mod wizard;
pub mod workspace;
pub mod yaml;

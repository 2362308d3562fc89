//! Core engine of a proxy-panel control plane: it models desired inbound
//! listeners, derives the supervised process's configuration from them,
//! parses the process's stats output, meters traffic against quotas, and
//! tracks the supervised process's run state.

pub mod config;
pub mod db;
pub mod envfile;
pub mod errors;
pub mod firewall;
pub mod inbound;
pub mod keys;
pub mod logs;
pub mod monitor;
pub mod stats;
pub mod supervisor;
pub mod text;
pub mod traffic;
pub mod validation;

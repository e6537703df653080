//! Query building, response handling and table rendering for the Groundcover
//! command-line client.
pub mod client;
pub mod commands;
pub mod config;
pub mod duration;
pub mod encode_laws;
pub mod error;
pub mod helpers;
pub mod json;
pub mod laws;
pub mod metrics_laws;
pub mod query_laws;
pub mod row_laws;
pub mod ruler_laws;
pub mod table;
pub mod text;

//! Pushes metric snapshots to a Prometheus pushgateway.
//!
//! The library builds the grouping-key URL of a push, rejects metric sets
//! whose labels collide with the grouping key, encodes the metrics and hands
//! the request to a transport chosen by the caller.

pub mod error;
pub mod labels;
pub mod prometheus_client_crate;
pub mod prometheus_crate;
pub mod pusher;
pub mod text_labels;
pub mod url_path;

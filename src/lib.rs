//! Usage telemetry from the local, append-only interaction logs of a coding
//! assistant: token and cost totals per model, the sessions active in the
//! last day, a rolling quota estimate and a daily activity heatmap.
//!
//! Every function here is verified; the few calls into serde_json and
//! chrono stand behind trusted wrappers whose contracts name what they
//! return. Reading files, the clock, the network and the configuration file
//! are left to the caller, which hands the library lines of text and
//! instants.

pub mod activity;
pub mod api;
pub mod config;
pub mod json;
pub mod laws;
pub mod model;
pub mod parser;
pub mod quota;
pub mod remote;
pub mod sessions;
pub mod text;
pub mod time;
pub mod totals;
pub mod usage;

//! Local data-flow runtime core: descriptor model and flattening, channel
//! fabric, the token/rule engine, per-node runners and hybrid-logical-clock
//! timestamping.

pub mod channel;
pub mod clock;
pub mod config;
pub mod connector;
pub mod errors;
pub mod flatten;
pub mod instance;
pub mod kvmap;
pub mod model;
pub mod runners;
pub mod strutil;
pub mod tokens;
pub mod types;
pub mod uri;

//! Token accounting for coding agents.
//!
//! Every figure carries how certain it is: a number is never presented as more
//! certain than the measurements behind it, and what was not measured is
//! unavailable rather than zero.
pub mod adapters;
pub mod agents;
pub mod assoc;
pub mod bytes;
pub mod claude_code;
pub mod codex;
pub mod compare;
pub mod copilot;
pub mod decimal;
pub mod desktop;
pub mod dto;
pub mod events;
pub mod fx;
pub mod handshake;
pub mod ids;
pub mod ingest;
pub mod json;
pub mod launch;
pub mod measurement;
pub mod metrics;
pub mod money;
pub mod names;
pub mod nano;
pub mod native;
pub mod paths;
pub mod prices;
pub mod pricing;
pub mod probe;
pub mod procmon;
pub mod reconcile;
pub mod repo;
pub mod scan;
pub mod table;
pub mod tailer;
pub mod tasks;
pub mod text;
pub mod time;
pub mod token_usage;
pub mod tokens;
pub mod usage;
pub mod views;

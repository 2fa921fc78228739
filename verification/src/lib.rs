//! Pipeflow: the verified core of a PipeWire graph and control application.

pub mod adapter;
pub mod capture;
pub mod cli;
pub mod commands;
pub mod config;
pub mod errors;
pub mod events;
pub mod explain;
pub mod feedback;
pub mod filters;
pub mod graph;
pub mod groups;
pub mod headless;
pub mod graph_events;
pub mod graph_state;
pub mod history;
pub mod ids;
pub mod rules;
pub mod meters;
pub mod node_text;
pub mod properties;
pub mod proto;
pub mod reconcile;
pub mod restore;
pub mod safety;
pub mod server;
pub mod snapshots;
pub mod state;
pub mod text;
pub mod ui_commands;
pub mod ui_state;
pub mod undo;
pub mod workspace;

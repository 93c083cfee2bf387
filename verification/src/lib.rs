//! Process-aware tab naming and numbering for Herdr sessions.

pub mod config;
pub mod config_laws;
pub mod event_laws;
pub mod exchange_laws;
pub mod filesystem;
pub mod herdr;
pub mod idempotence;
pub mod lock;
pub mod naming;
pub mod naming_laws;
pub mod numbering;
pub mod pass_chain;
pub mod pass_laws;
pub mod process_record;
pub mod process_selection;
pub mod reconciliation;
pub mod record_laws;
pub mod run_laws;
pub mod runner;
pub mod runner_laws;
pub mod selection_laws;
pub mod sequences;
pub mod settings;
pub mod state;
pub mod state_laws;
pub mod tab_decision;
pub mod tab_laws;
pub mod tab_naming;
pub mod tab_reconciliation;
pub mod tab_trace;
pub mod table;
pub mod targeting;
pub mod targeting_laws;
pub mod telemetry;
pub mod text;
pub mod trace_laws;
pub mod wait_laws;

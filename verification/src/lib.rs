//! GQY's core rules: paths, alarms, backups, chat bridges, usage accounting and
//! the text handling behind them.
use vstd::prelude::*;

pub mod text;
pub mod paths;
pub mod numbers;
pub mod alarm;
pub mod alarm_tools;
pub mod backup;
pub mod backup_flow;
pub mod qq;
pub mod learning;
pub mod finetune;
pub mod balance;
pub mod provider;
pub mod llm;
pub mod usage;
pub mod pi_bridge;
pub mod tools;
pub mod local_tools;
pub mod activity;
pub mod log_reader;
pub mod memory_tools;
pub mod task;
pub mod agents;
pub mod import;
pub mod import_manage;
pub mod json;
pub mod bridges;
pub mod plugins;
pub mod shell;
pub mod repl_avatar;
pub mod qq_inbound;
pub mod qq_turn;
pub mod qq_outbox;
pub mod qq_events;
pub mod pi_turn;
pub mod path_guard;
pub mod speech;
pub mod qq_view;
pub mod menubar;
pub mod bridge_setup;

verus! {

} // verus!

//! Verified core of the BetterCoding server.

pub mod assets;
pub mod attachments;
pub mod claude_rename;
pub mod cli_activity;
pub mod cli_agent;
pub mod cli_collab;
pub mod config_v8;
pub mod containers;
pub mod dispatch;
pub mod env;
pub mod error;
pub mod execution_logs;
pub mod feature_flags;
pub mod file_policy;
pub mod files;
pub mod foreign;
pub mod forks;
pub mod handoff;
pub mod id_set;
pub mod import_run;
pub mod ingest;
pub mod loop_automation;
pub mod msg_store;
pub mod native_feed;
pub mod oauth;
pub mod once;
pub mod path;
pub mod path_set;
pub mod path_text;
pub mod projection;
pub mod queued_message;
pub mod sessions;
pub mod tail;
pub mod terminal;
pub mod text;
pub mod upload_run;
pub mod uploads;
pub mod workspaces;

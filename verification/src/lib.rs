//! Core logic of a terminal AI coding agent: text wrapping and layout
//! heights, request-history stability checks, hook bookkeeping,
//! configuration rules and key-handling decisions.

pub mod text;
pub mod wrap;
pub mod columns;
pub mod blocks;
pub mod session;
pub mod history_guard;
pub mod hooks;
pub mod display;
pub mod config;
pub mod app;
pub mod agents_md;
pub mod palette;
pub mod keys;
pub mod agent;
pub mod agent_events;
pub mod streaming;
pub mod markdown;
pub mod logging;
pub mod widgets;
pub mod table_layout;
pub mod md_layout;
pub mod md_parse;
pub mod agent_loop;
pub mod tool_calls;

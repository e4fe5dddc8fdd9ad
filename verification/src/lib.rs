//! ZeptoClaw core logic: configuration types and validation, cron scheduling,
//! dependency bookkeeping, device events, channel helpers and CLI helpers.

pub mod error;
pub mod seqs;
pub mod text;
pub mod split;
pub mod cron;
pub mod config;
pub mod overrides;
pub mod validate;
pub mod whatsapp;
pub mod deps;
pub mod devices;
pub mod templates;
pub mod cli;

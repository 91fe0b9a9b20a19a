//! Core of a message-triggered command router for a chat bot.
//!
//! Inbound events pass a message filter, then a command router that strips
//! the trigger prefix, then an ordered chain of handlers.  Handlers that
//! need an upstream collaborator (market data, almanac, odds page, chat
//! completion) describe the call they need as a plain request value; the
//! surrounding program performs the call and feeds the result back as an
//! event, so every decision in between is verified here.

pub mod basic_market_info;
pub mod config;
pub mod error;
pub mod gamble;
pub mod gpt;
pub mod handler;
pub mod help;
pub mod huangli;
pub mod jsonio;
pub mod server;
pub mod text;
pub mod upstream;

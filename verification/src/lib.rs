//! Core logic of a keyboard-driven terminal explorer for Kafka clusters:
//! local topic labels, configuration rules, UI palettes, footer packing,
//! modal input editing, Schema Registry and Kafka Connect request/response
//! handling, and the views' navigation state.

pub mod text;
pub mod order;
pub mod keyed;
pub mod labels;
pub mod theme;
pub mod styled;
pub mod help;
pub mod kafka;
pub mod acl;
pub mod modal;
pub mod config;
pub mod client;
pub mod http;
pub mod registry;
pub mod connect;
pub mod table;
pub mod views;
pub mod messages;
pub mod detail;
pub mod app;
pub mod events;
pub mod dialogs;
pub mod keys;

//! A balance assistant for the Internet Computer: it finds Sui addresses and
//! ICP account identifiers in messages, looks their balances up (the Sui
//! JSON-RPC interface, the ICP ledger), and runs a conversation with a language
//! model that may call those lookups as tools.
//!
//! The lookups and the conversation are state machines: the library decides
//! what to request and what to answer; the caller performs the requests.

pub mod text;
pub mod address;
pub mod json;
pub mod http;
pub mod sui;
pub mod icp;
pub mod chat;

//! Core of an interactive browser for a password-manager command-line tool.
//!
//! The library holds the parts with real invariants: the hierarchical
//! navigation state machine, fuzzy filtering of item lists, the on-disk
//! result cache with its freshness rules, and placeholder-based template
//! rendering. All input/output (subprocess calls, files, the terminal)
//! stays with the embedding application, which hands plain values in and
//! takes plain values back.
pub mod assoc;
pub mod cache;
pub mod cli;
pub mod command_log;
pub mod entities;
pub mod filter;
pub mod inject;
pub mod nav;
pub mod template;
pub mod text;

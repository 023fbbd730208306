//! Decoding and projection of self-describing record stores.
//!
//! A store's header carries a schema descriptor; the modules here turn that
//! descriptor into a field layout, decode typed values out of raw records,
//! and keep a bounded window over the records of a file.

pub mod config;
pub mod database;
pub mod entity;
pub mod error;
pub mod field;
pub mod gene;
pub mod head;
pub mod num;
pub mod number;
pub mod paths;
pub mod schema;
pub mod show_schema;
pub mod sort;
pub mod stats;
pub mod text;
pub mod trie_const;
pub mod utils;
pub mod value;
pub mod window;

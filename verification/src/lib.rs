//! A verified core for a small interactive command interpreter: a quote- and
//! escape-aware tokenizer, a search-path resolver, a closed builtin registry,
//! and the dispatch rules that tie them together. All input/output and process
//! handling live outside this crate; everything here is pure logic over
//! strings and is specified and proved.

pub mod builtins;
pub mod dispatch;
pub mod numparse;
pub mod resolve;
pub mod strutil;
pub mod tokenize;

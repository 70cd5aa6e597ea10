//! Vocabulary term resolution and dual-store synchronisation, verified.

pub mod auth;
pub mod exchange;
pub mod jobs;
pub mod listing;
pub mod matching;
pub mod model;
pub mod resolve;
pub mod search;
pub mod sync;
pub mod text;
pub mod tokenizer;

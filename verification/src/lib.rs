//! Ingestion and review of e-mail receipts: decomposing messages, selecting
//! the content to convert, reading the extraction service's answers, and
//! committing reviewed items into the ledger.

pub mod error;
pub mod imap;
pub mod index;
pub mod json;
pub mod ledger;
pub mod markitdown;
pub mod mime;
pub mod model;
pub mod ollama;
pub mod payload;
pub mod pending_imports;
pub mod review;
pub mod select;
pub mod store;
pub mod sync;
pub mod text;
pub mod utils;

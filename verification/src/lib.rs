//! Reading reimbursement invoices from the text of their PDF files, grouping
//! them onto reimbursement covers, planning how invoice pages are merged,
//! and checking the item-name mapping that assigns expense categories.
//!
//! The library computes; reading files, running `pdftotext` and the helper
//! scripts, and writing results are left to the caller, which hands in plain
//! values and gets plain values back.

pub mod bindings;
pub mod commands;
pub mod config_store;
pub mod cover_generator;
pub mod invoice_parser;
pub mod numbers;
pub mod pdf_merge;
pub mod py_merge;
pub mod search;
pub mod slot;
pub mod text;

//! Detection of breaking changes between two versions of a Soroban smart
//! contract: storage layout drift, weakened or dropped authorization checks,
//! and function signature changes.
//!
//! The library holds the analysis itself: reading the contract spec section
//! of a compiled module, walking the syntax of contract sources, comparing
//! two versions, and rendering the findings. Reading files and printing stay
//! with the caller.

pub mod auth_extractor;
pub mod debug_text;
pub mod diff_engine;
pub mod report;
pub mod rust_parser;
pub mod spec_extractor;
pub mod storage_extractor;
pub mod syn_bridge;
pub mod syntax;
pub mod text;
pub mod types;

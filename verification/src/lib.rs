//! Verified core of a crawler for a film catalogue web site: the text
//! handling, page-address arithmetic, record layout and field extraction
//! rules, with the network, file system and HTML parsing left to callers
//! and to trusted wrappers.

pub mod detail_page;
pub mod details;
pub mod dom;
pub mod entry_laws;
pub mod fault;
pub mod info;
pub mod laws;
pub mod numbers;
pub mod pages;
pub mod retry;
pub mod table;
pub mod text;

//! A catalog of BibTeX references: parsing, author names, and the state of the browser.

pub mod app;
pub mod author;
pub mod fields;
pub mod keys;
pub mod laws;
pub mod order;
pub mod parse;
pub mod reference;
pub mod roundtrip;
pub mod text;
pub mod ui;
pub mod unicode;
pub mod vocabulary;

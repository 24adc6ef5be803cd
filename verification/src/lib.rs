//! Turns a JSON array of flat objects into a table of display strings: one
//! column for each distinct key, one row for each object.
//!
//! Columns stand in first-seen order: the keys are read element by element,
//! inside an object in the order of its map, and a key becomes a column where
//! it is met first. The order is not alphabetical.
//!
//! - [`reader`] joins the lines of the input, parses the text and reads the
//!   parsed value as a [`document::Document`];
//! - [`columns`] and [`rows`] hold the two halves of the projection;
//! - [`table`] puts them together and states what holds of every table;
//! - [`json`] is the boundary to `serde_json`.

pub mod columns;
pub mod document;
pub mod json;
pub mod reader;
pub mod rows;
pub mod table;

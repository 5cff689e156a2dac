//! Extraction of the topic list of a forum listing page.
//!
//! - `markup`: the parsed document as a flat list of elements, and lookups in it
//! - `timestamp`: timestamps with their UTC offset, reading and writing them
//! - `topic`: topic, node and member records, topic numbers, display lines
//! - `extract`: from a page to its topics, entry by entry
//! - `refresh`: what a fetch cycle delivers and the state that shows it
pub mod markup;
pub mod timestamp;
pub mod topic;
pub mod extract;
pub mod refresh;

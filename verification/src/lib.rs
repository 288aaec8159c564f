//! Verified cores of a family of small Unix-style text tools: parsing
//! index selectors and offsets, choosing which window of a record stream
//! to emit, comparing lines under a configurable policy, grouping and
//! counting, cutting columns out of lines, and rendering the results as
//! text. The surrounding command-line plumbing lives outside the library
//! and hands in plain values.

pub mod cal;
pub mod cut;
pub mod echo;
pub mod errors;
pub mod find;
pub mod ls;
pub mod numbers;
pub mod offset;
pub mod render;
pub mod selector;
pub mod text;
pub mod uniq;
pub mod wc;

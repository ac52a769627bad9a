//! The core of a line-fitting document printer: a tag-delimited document with shared (interned)
//! sub-sequences, the queues that walk it without copying, the speculative measurement of
//! whether content fits on a line, and the decisions of two small lint rules.

pub mod element;
pub mod stack;
pub mod error;
pub mod queue;
pub mod predicate;
pub mod fits;
pub mod laws;
pub mod rules;

//! A bounded first-in-first-out buffer shared by producers and consumers,
//! with its storage bookkeeping and its insert/remove/close decisions
//! verified.

pub mod buffer;
pub mod command;
pub mod counter;
pub mod mode;
pub mod ring;

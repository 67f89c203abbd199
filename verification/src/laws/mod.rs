//! What the library promises, in terms of what goes in and what comes out.
//!
//! Each function here states one such promise and proves it. The statements
//! speak of the values that callers hand in, of the values that they get back,
//! and of plain arithmetic and sequences.
pub mod addresses;
pub mod auditing;
pub mod candidates;
pub mod faults;
pub mod ingesting;
pub mod judging;
pub mod migrating;
pub mod reading;
pub mod rules;
pub mod statements;
pub mod texts;
pub mod times;
pub mod topology;
pub mod views;
pub mod writing;

//! Sample state machines built from branch declarations: each implements
//! `Branches`, so the dispatch compiler turns it into an `Engine` that a
//! `Machine` can run.

pub mod call;
pub mod jobs;
pub mod strict;
pub mod tally;
pub mod toggle;

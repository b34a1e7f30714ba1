//! A library for building state machines: transition handlers are declared as
//! an ordered table of pattern-and-guard branches, compiled into a single
//! dispatch procedure, and executed by a runtime that owns the authoritative
//! state and shared context.

pub mod branch;
pub mod convert;
pub mod dispatch;
pub mod examples;
pub mod flow;
pub mod machine;

pub use convert::IntoTransition;
pub use flow::Flow;
pub use machine::DestructedMachine;
pub use machine::Engine;
pub use machine::Machine;
pub use machine::NoShared;
pub use machine::Store;

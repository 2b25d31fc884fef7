//! The interpreter core behind an in-application developer console.
//!
//! Console values are dynamically typed ([`value::Value`]). Each binding owns
//! a cell of a [`store::Store`]; a reference aliases a cell without keeping
//! it alive, and following one whose cell is gone is a failure that is
//! reported, never a read of stale data. Callables are found by name in an
//! [`environment::Environment`]; [`runner::call`] fits the values of a call
//! to the parameters of the callable ([`bridge`]) and either runs one of the
//! console's own callables ([`stdlib`]) or says which function of the host
//! to run. Every failure is a [`error::RunError`] with the
//! [`span::Span`] of the input at fault.
//!
//! Nothing here writes or draws: what a call wants written comes back as a
//! [`format::Rendering`], and the application around the library emits it.

pub mod bridge;
pub mod chain;
pub mod environment;
pub mod error;
pub mod format;
pub mod input;
pub mod runner;
pub mod span;
pub mod stdlib;
pub mod store;
pub mod value;

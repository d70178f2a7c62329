//! A thin interception layer for compiler invocations.
//!
//! The library inspects the argument list of a would-be compiler call and
//! decides whether the invocation is a metadata-only check (which may be
//! answered with a synthetic success, without running the compiler) or a
//! real compile that must be delegated to the actual executable.  The
//! classification predicate and the decision are verified here; the caller
//! performs the actual process spawning and reports the resulting exit
//! status through [`dispatch::ExitCode`].

pub mod dispatch;
pub mod search;

//! A representation-stable wrapper around a wait-once barrier.
//!
//! The barrier guarantees, through the underlying primitive, that exactly
//! one initializer runs to completion across any number of racing
//! callers; a panic inside the initializer poisons the barrier so that
//! later plain calls fail, while the forced variant may retry with a
//! fresh closure and succeed after a poisoning; and a caller blocked
//! during an in-progress initialization observes completion only after
//! the initializer has fully returned.

use vstd::prelude::*;

verus! {

/// The running state of an [`ROnce`].
#[derive(Debug, Copy, Clone, PartialEq, Eq, Structural)]
pub enum ROnceState {
    /// The barrier has not started running an initializer.
    New,
    /// An initializer panicked; plain calls now fail.
    Poisoned,
    /// An initializer is running right now.
    InProgress,
    /// An initializer ran to completion.
    Done,
}

impl ROnceState {
    /// Whether the barrier is poisoned, so that only the forced call can
    /// still run an initializer.
    pub fn poisoned(&self) -> (r: bool)
        ensures
            r == (*self is Poisoned),
    {
        match self {
            ROnceState::Poisoned => true,
            _ => false,
        }
    }

    /// Whether the barrier has already run an initializer to completion.
    pub fn done(&self) -> (r: bool)
        ensures
            r == (*self is Done),
    {
        match self {
            ROnceState::Done => true,
            _ => false,
        }
    }
}

#[verifier::external_type_specification]
#[verifier::external_body]
pub struct ExOnce(parking_lot::Once);

/// Relies on parking_lot::Once::new: a fresh barrier that has run
/// nothing.
#[verifier::external_body]
fn pl_once_new() -> parking_lot::Once {
    parking_lot::Once::new()
}

/// Relies on parking_lot::Once::state and on OnceState's four variants,
/// mapped one to one.
#[verifier::external_body]
fn pl_once_state(o: &parking_lot::Once) -> ROnceState {
    match o.state() {
        parking_lot::OnceState::New => ROnceState::New,
        parking_lot::OnceState::Poisoned => ROnceState::Poisoned,
        parking_lot::OnceState::InProgress => ROnceState::InProgress,
        parking_lot::OnceState::Done => ROnceState::Done,
    }
}

/// Relies on parking_lot::Once::call_once: runs `f` only if no
/// initializer has run yet; on return some initializer has completed.
/// Panics, as the primitive does, if the barrier was poisoned by an
/// earlier initializer's panic.
#[verifier::external_body]
fn pl_call_once<F: FnOnce()>(o: &parking_lot::Once, f: F)
    requires
        call_requires(f, ()),
{
    o.call_once(f)
}

/// Relies on parking_lot::Once::call_once_force: like the plain call but
/// ignores poisoning, handing the closure the barrier's prior state.
#[verifier::external_body]
fn pl_call_once_force<F: FnOnce(ROnceState)>(o: &parking_lot::Once, f: F)
    requires
        forall|s: ROnceState| call_requires(f, (s,)),
{
    o.call_once_force(|st: parking_lot::OnceState| {
        let rs = match st {
            parking_lot::OnceState::New => ROnceState::New,
            parking_lot::OnceState::Poisoned => ROnceState::Poisoned,
            parking_lot::OnceState::InProgress => ROnceState::InProgress,
            parking_lot::OnceState::Done => ROnceState::Done,
        };
        f(rs)
    })
}

/// A synchronization primitive for running global initialization once,
/// with a layout that is stable across independently compiled binaries.
pub struct ROnce {
    once: parking_lot::Once,
}

impl ROnce {
    /// A barrier that has run nothing yet.
    pub fn new() -> ROnce {
        ROnce { once: pl_once_new() }
    }

    /// The barrier's current running state.
    pub fn state(&self) -> ROnceState {
        pl_once_state(&self.once)
    }

    /// Runs the initializer if none has run yet; on return some
    /// initializer passed to this barrier has run to completion. A panic
    /// inside `f` poisons the barrier, and a call on a poisoned barrier
    /// panics in turn.
    pub fn call_once<F: FnOnce()>(&self, f: F)
        requires
            call_requires(f, ()),
    {
        pl_call_once(&self.once, f)
    }

    /// Runs the initializer even on a poisoned barrier, handing it the
    /// prior state; keeps accepting new closures until one completes.
    pub fn call_once_force<F: FnOnce(ROnceState)>(&self, f: F)
        requires
            forall|s: ROnceState| call_requires(f, (s,)),
    {
        pl_call_once_force(&self.once, f)
    }
}

/// An initializer closure on its way across the module boundary,
/// together with the record of whether it panicked when run.
pub struct Closure<F> {
    pub closure: Option<F>,
    pub panicked: bool,
}

impl<F> Closure<F> {
    /// Wraps an initializer that takes no arguments.
    pub fn without_state(function: F) -> (r: Closure<F>) where F: FnOnce()
        ensures
            r.closure == Some(function),
            !r.panicked,
    {
        Closure { closure: Some(function), panicked: false }
    }

    /// Wraps an initializer that receives the barrier's prior state.
    pub fn with_state(function: F) -> (r: Closure<F>) where F: FnOnce(ROnceState)
        ensures
            r.closure == Some(function),
            !r.panicked,
    {
        Closure { closure: Some(function), panicked: false }
    }
}

} // verus!

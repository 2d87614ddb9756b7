//! A process supervisor's lifecycle engine: the service registry and its
//! state machine, the control-channel frame parser, reap classification and
//! the reactor's dispatch decisions, with their contracts.
//!
//! The engine performs no system call. Each operation takes the event that
//! the caller observed (a reaped child, a control frame, a tick, a signal)
//! and returns the actions the caller has to carry out.

use vstd::prelude::*;

pub mod cli;
pub mod config;
pub mod control;
pub mod service;
pub mod signalfd;
pub mod status;
pub mod supervisor;
pub mod text;
pub mod timerfd;
pub mod utils;

pub use crate::utils::cvt;
pub use crate::utils::RetCode as IsRetCode;

verus! {

/// The status of the supervisor. When a shutdown is requested the
/// supervisor does not stop at once: it first has to take care of every
/// child that is still alive, and leaves its loop when all of them are
/// stopped.
#[derive(Debug, Clone, Copy, PartialEq, Eq, Structural, PartialOrd, Ord)]
pub enum SupervisorState {
    Running,
    ShutdownRequested,
}

impl Default for SupervisorState {
    fn default() -> (state: Self)
        ensures
            state == SupervisorState::Running,
    {
        SupervisorState::Running
    }
}

} // verus!

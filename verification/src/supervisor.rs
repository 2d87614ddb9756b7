//! The reactor's decisions: what a signal means for the supervisor, and
//! when its loop ends.

use vstd::prelude::*;

use crate::service::Action;
use crate::service::ServiceRegistry;
use crate::service::GRACE_PERIOD;
use crate::utils::SIGCHLD;
use crate::utils::SIGHUP;
use crate::utils::SIGINT;
use crate::utils::SIGTERM;
use crate::SupervisorState;

verus! {

/// One of the three things that the reactor waits for.
#[derive(Debug, Clone, Copy, PartialEq, Eq, Structural)]
pub enum Source {
    /// The descriptor that delivers the signals.
    Signals,
    /// The timer that ticks once a second.
    Tick,
    /// The control channel.
    Control,
}

/// The token under which the signal descriptor is waited for.
pub const ID_SFD: u64 = 1;

/// The token under which the tick timer is waited for.
pub const ID_TFD: u64 = 2;

/// The token under which the control channel is waited for.
pub const ID_CTL: u64 = 3;

/// The sources to handle after a wait that returned these tokens: each
/// source that is ready once, the signals before the tick and the tick
/// before the control channel.
pub open spec fn handling_order(tokens: Seq<u64>) -> Seq<Source> {
    (if tokens.contains(ID_SFD) {
        seq![Source::Signals]
    } else {
        Seq::empty()
    }) + (if tokens.contains(ID_TFD) {
        seq![Source::Tick]
    } else {
        Seq::empty()
    }) + (if tokens.contains(ID_CTL) {
        seq![Source::Control]
    } else {
        Seq::empty()
    })
}

/// Whether `token` is among `tokens`.
fn is_ready(tokens: &Vec<u64>, token: u64) -> (found: bool)
    ensures
        found == tokens@.contains(token),
{
    let mut i: usize = 0;
    while i < tokens.len()
        invariant
            i <= tokens.len(),
            forall|k: int| 0 <= k < i ==> tokens@[k] != token,
        decreases tokens.len() - i,
    {
        if tokens[i] == token {
            return true;
        }
        i = i + 1;
    }
    false
}

/// Puts what a wait returned into the order in which it is handled. A
/// token that stands for no source is passed over.
pub fn ready_sources(tokens: &Vec<u64>) -> (order: Vec<Source>)
    ensures
        order@ == handling_order(tokens@),
{
    let mut order: Vec<Source> = Vec::new();
    if is_ready(tokens, ID_SFD) {
        order.push(Source::Signals);
    }
    if is_ready(tokens, ID_TFD) {
        order.push(Source::Tick);
    }
    if is_ready(tokens, ID_CTL) {
        order.push(Source::Control);
    }
    assert(order@ =~= handling_order(tokens@));
    order
}

/// What the reactor has to do for a signal that it has read.
#[derive(Debug, PartialEq, Eq)]
pub enum SignalOutcome {
    /// Nothing.
    Ignored,
    /// Read the configuration and hand it to `ServiceRegistry::reload`.
    Reload,
    /// Reap every child that has ended, handing each to `handle_sigchld`.
    Reap,
    /// Shutdown has begun: send these terminations.
    Shutdown(Vec<Action>),
}

/// The registry together with the state of the supervisor itself.
#[derive(Debug)]
pub struct Supervisor {
    pub registry: ServiceRegistry,
    pub state: SupervisorState,
}

impl Supervisor {
    /// A supervisor that runs, over the services of `registry`.
    pub fn new(registry: ServiceRegistry) -> (supervisor: Self)
        ensures
            supervisor.registry == registry,
            supervisor.state == SupervisorState::Running,
    {
        Supervisor { registry, state: SupervisorState::Running }
    }

    /// Whether a reload is in order now: it is while the supervisor runs,
    /// and no more once shutdown has been requested.
    pub open spec fn reloads(self) -> bool {
        self.state is Running
    }

    /// Whether the supervisor is to leave its loop: shutdown has been
    /// requested and every service is stopped.
    pub open spec fn finished(self) -> bool {
        self.state is ShutdownRequested && self.registry@.quiet()
    }

    /// Dispatches the signal `signo`, read at time `now`.
    ///
    /// - HUP asks for a reload while the supervisor runs, and is ignored
    ///   during shutdown.
    /// - CHLD asks for the reap of the children that have ended.
    /// - INT and TERM request shutdown: the first of them asks every
    ///   running service to stop; any later one is ignored.
    /// - Any other signal is ignored.
    pub fn on_signal(&mut self, signo: i32, now: u64) -> (outcome: SignalOutcome)
        requires
            old(self).registry.wf(),
            now + GRACE_PERIOD <= u64::MAX,
        ensures
            final(self).registry.wf(),
            signo == SIGHUP ==> *final(self) == *old(self) && outcome == (if old(self).reloads() {
                SignalOutcome::Reload
            } else {
                SignalOutcome::Ignored
            }),
            signo == SIGCHLD ==> *final(self) == *old(self) && outcome == SignalOutcome::Reap,
            (signo == SIGINT || signo == SIGTERM) && old(self).state is Running ==> {
                &&& final(self).state == SupervisorState::ShutdownRequested
                &&& final(self).registry@ == old(self).registry@.all_stopped_at(now)
                &&& outcome matches SignalOutcome::Shutdown(actions)
                &&& actions@ == old(self).registry@.terminations(old(self).registry@.next_id as nat)
            },
            (signo == SIGINT || signo == SIGTERM) && old(self).state is ShutdownRequested ==> {
                &&& *final(self) == *old(self)
                &&& outcome == SignalOutcome::Ignored
            },
            signo != SIGHUP && signo != SIGCHLD && signo != SIGINT && signo != SIGTERM ==> {
                &&& *final(self) == *old(self)
                &&& outcome == SignalOutcome::Ignored
            },
    {
        let running = match self.state {
            SupervisorState::Running => true,
            SupervisorState::ShutdownRequested => false,
        };
        if signo == SIGHUP {
            if running {
                SignalOutcome::Reload
            } else {
                SignalOutcome::Ignored
            }
        } else if signo == SIGCHLD {
            SignalOutcome::Reap
        } else if (signo == SIGINT || signo == SIGTERM) && running {
            self.state = SupervisorState::ShutdownRequested;
            let actions = self.registry.stop_all(now);
            SignalOutcome::Shutdown(actions)
        } else {
            SignalOutcome::Ignored
        }
    }

    /// Whether the supervisor is to leave its loop.
    pub fn should_exit(&self) -> (exit: bool)
        requires
            self.registry.wf(),
        ensures
            exit == self.finished(),
    {
        match self.state {
            SupervisorState::Running => false,
            SupervisorState::ShutdownRequested => self.registry.all_stopped(),
        }
    }
}

} // verus!

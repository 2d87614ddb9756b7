//! Service records, their state machine, and the registry that owns them.

use std::collections::HashMap;
use vstd::prelude::*;
use vstd::std_specs::hash::*;

use crate::control::ControlCommand;
use crate::control::ControlOp;
use crate::utils::is_crash_signal;
use crate::utils::crash_signal;

verus! {

/// Seconds between the request to terminate and the forced kill.
pub const GRACE_PERIOD: u64 = 5;

/// The largest id that a service is given: the last of sixteen bits.
pub const MAX_SERVICE_ID: u64 = 65_535;

/// Why a service is not running.
#[derive(Debug, Clone, Copy, PartialEq, Eq, Structural, PartialOrd, Ord, Hash)]
pub enum StopReason {
    NeverStarted,
    SupervisorTerminated,
    ExitedSuccess,
    ExitedError(i32),
    Crashed(i32),
    Killed(i32),
}

/// All possible states in which a service can be at any moment.
#[derive(Debug, Clone, Copy, PartialEq, Eq, Structural, PartialOrd, Ord, Hash)]
pub enum ServiceState {
    /// The service has no process. This is the initial state for all
    /// services, with the reason `NeverStarted`.
    Stopped(StopReason),
    /// The service has been started and is now running.
    Running,
    /// The service was asked to terminate. At the deadline, a monotonic
    /// time in seconds, the supervisor kills it.
    Stopping(u64),
}

impl Default for ServiceState {
    fn default() -> (state: Self)
        ensures
            state == ServiceState::Stopped(StopReason::NeverStarted),
    {
        ServiceState::Stopped(StopReason::NeverStarted)
    }
}

impl ServiceState {
    /// Whether a process belongs to a service in this state.
    pub open spec fn alive(self) -> bool {
        self is Running || self is Stopping
    }

    pub fn is_alive(&self) -> (alive: bool)
        ensures
            alive == self.alive(),
    {
        match self {
            ServiceState::Stopped(_) => false,
            ServiceState::Running => true,
            ServiceState::Stopping(_) => true,
        }
    }

    pub fn is_stopped(&self) -> (stopped: bool)
        ensures
            stopped == (*self is Stopped),
    {
        match self {
            ServiceState::Stopped(_) => true,
            _ => false,
        }
    }
}

/// What is to happen to a service once its process has been reaped.
#[derive(Debug, Clone, Copy, PartialEq, Eq, Structural)]
pub enum PendingAction {
    /// Nothing: the service stays stopped.
    Idle,
    /// The service leaves the registry.
    Remove,
    /// The service is started again.
    Restart,
}

/// How a child process ended.
#[derive(Debug, Clone, Copy, PartialEq, Eq, Structural)]
pub enum ChildExit {
    /// It exited with this code.
    Exited(i32),
    /// This signal terminated it.
    Signaled(i32),
}

/// The reason recorded for a child that ended in the way `exit` while its
/// service was stopping (`stopping`) or running.
pub open spec fn stop_reason(exit: ChildExit, stopping: bool) -> StopReason {
    match exit {
        ChildExit::Exited(code) => if code == 0 {
            StopReason::ExitedSuccess
        } else if stopping {
            StopReason::SupervisorTerminated
        } else {
            StopReason::ExitedError(code)
        },
        ChildExit::Signaled(signo) => if crash_signal(signo) {
            StopReason::Crashed(signo)
        } else if stopping {
            StopReason::SupervisorTerminated
        } else {
            StopReason::Killed(signo)
        },
    }
}

/// Derives the stop reason of a reaped child from how it ended and from
/// whether its service was stopping at the time.
pub fn derive_stop_reason(exit: ChildExit, stopping: bool) -> (reason: StopReason)
    ensures
        reason == stop_reason(exit, stopping),
{
    match exit {
        ChildExit::Exited(code) => {
            if code == 0 {
                StopReason::ExitedSuccess
            } else if stopping {
                StopReason::SupervisorTerminated
            } else {
                StopReason::ExitedError(code)
            }
        },
        ChildExit::Signaled(signo) => {
            if is_crash_signal(signo) {
                StopReason::Crashed(signo)
            } else if stopping {
                StopReason::SupervisorTerminated
            } else {
                StopReason::Killed(signo)
            }
        },
    }
}

/// The stop reason follows the classification table: success for exit code
/// zero; a crash for SEGV, ABRT, FPE, ILL and BUS, whatever the state; and
/// for every other way to end, termination by the supervisor when the
/// service was stopping, else the exit code or the signal.
pub proof fn lemma_stop_reason_table(code: i32, signo: i32, stopping: bool)
    ensures
        stop_reason(ChildExit::Exited(0), stopping) == StopReason::ExitedSuccess,
        code != 0 ==> stop_reason(ChildExit::Exited(code), false) == StopReason::ExitedError(code),
        code != 0 ==> stop_reason(ChildExit::Exited(code), true)
            == StopReason::SupervisorTerminated,
        signo == 11 || signo == 6 || signo == 8 || signo == 4 || signo == 7 ==> stop_reason(
            ChildExit::Signaled(signo),
            stopping,
        ) == StopReason::Crashed(signo),
        !(signo == 11 || signo == 6 || signo == 8 || signo == 4 || signo == 7) ==> stop_reason(
            ChildExit::Signaled(signo),
            false,
        ) == StopReason::Killed(signo),
        !(signo == 11 || signo == 6 || signo == 8 || signo == 4 || signo == 7) ==> stop_reason(
            ChildExit::Signaled(signo),
            true,
        ) == StopReason::SupervisorTerminated,
{
}

/// Whether the string holds no NUL character.
pub open spec fn nul_free(s: Seq<char>) -> bool {
    forall|i: int| 0 <= i < s.len() ==> s[i] != '\0'
}

/// Whether `s` holds no NUL character.
pub fn is_nul_free(s: &str) -> (free: bool)
    ensures
        free == nul_free(s@),
{
    let mut free = true;
    for c in it: s.chars()
        invariant
            it.seq() == s@,
            free == (forall|i: int| 0 <= i < it.index() ==> s@[i] != '\0'),
    {
        if c == '\0' {
            free = false;
        }
    }
    free
}

/// The name and command line that a configuration gives for one service.
#[derive(Debug, PartialEq, Eq)]
pub struct ServiceConfig {
    pub name: String,
    pub argv: Vec<String>,
}

/// What a list of strings holds, each string as its characters.
pub open spec fn strings_view(v: Seq<String>) -> Seq<Seq<char>> {
    v.map_values(|s: String| s@)
}

pub struct ConfigView {
    pub name: Seq<char>,
    pub argv: Seq<Seq<char>>,
}

impl View for ServiceConfig {
    type V = ConfigView;

    open spec fn view(&self) -> ConfigView {
        ConfigView { name: self.name@, argv: strings_view(self.argv@) }
    }
}

/// A name that a service can have: not empty and without NUL.
pub open spec fn valid_name(name: Seq<char>) -> bool {
    name.len() > 0 && nul_free(name)
}

/// A command line that can be executed: the executable first, at least,
/// and no NUL in any of its strings.
pub open spec fn valid_argv(argv: Seq<Seq<char>>) -> bool {
    argv.len() > 0 && forall|i: int| 0 <= i < argv.len() ==> nul_free(#[trigger] argv[i])
}

pub fn is_valid_name(name: &String) -> (valid: bool)
    ensures
        valid == valid_name(name@),
{
    name.as_str().unicode_len() > 0 && is_nul_free(name.as_str())
}

pub fn is_valid_argv(argv: &Vec<String>) -> (valid: bool)
    ensures
        valid == valid_argv(strings_view(argv@)),
{
    if argv.len() == 0 {
        return false;
    }
    let ghost v = strings_view(argv@);
    let mut i: usize = 0;
    while i < argv.len()
        invariant
            i <= argv.len(),
            v == strings_view(argv@),
            forall|j: int| 0 <= j < i ==> nul_free(#[trigger] v[j]),
        decreases argv.len() - i,
    {
        if !is_nul_free(argv[i].as_str()) {
            assert(!nul_free(v[i as int]));
            return false;
        }
        i = i + 1;
    }
    true
}

impl ConfigView {
    pub open spec fn wf(self) -> bool {
        valid_name(self.name) && valid_argv(self.argv)
    }
}

impl ServiceConfig {
    #[inline(always)]
    pub fn new(name: String, argv: Vec<String>) -> (cfg: Self)
        ensures
            cfg.name == name,
            cfg.argv == argv,
    {
        Self { name, argv }
    }

    pub fn is_valid(&self) -> (valid: bool)
        ensures
            valid == self@.wf(),
    {
        is_valid_name(&self.name) && is_valid_argv(&self.argv)
    }
}

/// Copies a list of strings.
pub fn clone_strings(v: &Vec<String>) -> (out: Vec<String>)
    ensures
        out@ == v@,
        strings_view(out@) == strings_view(v@),
{
    let mut out: Vec<String> = Vec::with_capacity(v.len());
    let mut i: usize = 0;
    while i < v.len()
        invariant
            i <= v.len(),
            out@ == v@.subrange(0, i as int),
        decreases v.len() - i,
    {
        out.push(v[i].clone());
        assert(out@ =~= v@.subrange(0, i + 1));
        i = i + 1;
    }
    assert(out@ =~= v@);
    out
}

/// Whether two lists hold the same strings in the same order.
pub fn strings_equal(a: &Vec<String>, b: &Vec<String>) -> (same: bool)
    ensures
        same == (strings_view(a@) == strings_view(b@)),
{
    let ghost va = strings_view(a@);
    let ghost vb = strings_view(b@);
    if a.len() != b.len() {
        assert(va.len() != vb.len());
        return false;
    }
    let mut i: usize = 0;
    while i < a.len()
        invariant
            i <= a.len(),
            a.len() == b.len(),
            va == strings_view(a@),
            vb == strings_view(b@),
            forall|j: int| 0 <= j < i ==> va[j] == vb[j],
        decreases a.len() - i,
    {
        if a[i] != b[i] {
            assert(va[i as int] != vb[i as int]);
            return false;
        }
        i = i + 1;
    }
    assert(va =~= vb);
    true
}

/// A minimal service representation. Whether `pid` is `Some` is tied to
/// the state: a running or stopping service has a process, a stopped one
/// has none.
#[derive(Debug)]
pub struct Service {
    pub id: u64,
    pub name: String,
    pub argv: Vec<String>,
    pub pid: Option<i32>,
    pub state: ServiceState,
    pub pending: PendingAction,
}

pub struct ServiceView {
    pub id: u64,
    pub name: Seq<char>,
    pub argv: Seq<Seq<char>>,
    pub pid: Option<i32>,
    pub state: ServiceState,
    pub pending: PendingAction,
}

impl View for Service {
    type V = ServiceView;

    open spec fn view(&self) -> ServiceView {
        ServiceView {
            id: self.id,
            name: self.name@,
            argv: strings_view(self.argv@),
            pid: self.pid,
            state: self.state,
            pending: self.pending,
        }
    }
}

impl ServiceView {
    /// What holds of every record in a registry: the id is one that can be
    /// issued, name and command line are valid, a process is recorded
    /// exactly while the service is running or stopping, and only such a
    /// service waits for something to happen after its reap.
    pub open spec fn wf(self) -> bool {
        &&& self.id <= MAX_SERVICE_ID
        &&& valid_name(self.name)
        &&& valid_argv(self.argv)
        &&& self.pid is Some <==> self.state.alive()
        &&& self.pid matches Some(p) ==> p > 0
        &&& self.state is Stopped ==> self.pending is Idle
    }

    /// A record as it enters a registry: well formed, and never started.
    pub open spec fn fresh(self) -> bool {
        &&& self.wf()
        &&& self.state == ServiceState::Stopped(StopReason::NeverStarted)
    }

    /// The record after its process `pid` has been started.
    pub open spec fn started(self, pid: i32) -> ServiceView {
        ServiceView { pid: Some(pid), state: ServiceState::Running, ..self }
    }

    /// The record after a request to stop at time `now`: a running service
    /// is stopping with its deadline a grace period away, any other is as
    /// it was.
    pub open spec fn stopped_at(self, now: u64) -> ServiceView {
        if self.state is Running {
            ServiceView { state: ServiceState::Stopping((now + GRACE_PERIOD) as u64), ..self }
        } else {
            self
        }
    }

    /// The record after its process has been reaped.
    pub open spec fn reaped(self, exit: ChildExit) -> ServiceView {
        ServiceView {
            pid: None,
            state: ServiceState::Stopped(stop_reason(exit, self.state is Stopping)),
            pending: PendingAction::Idle,
            ..self
        }
    }

    /// The record with another thing to do after its reap.
    pub open spec fn with_pending(self, pending: PendingAction) -> ServiceView {
        ServiceView { pending, ..self }
    }

    /// The record with another command line.
    pub open spec fn with_argv(self, argv: Seq<Seq<char>>) -> ServiceView {
        ServiceView { argv, ..self }
    }
}

impl Clone for ServiceConfig {
    fn clone(&self) -> (copy: Self)
        ensures
            copy@ == self@,
    {
        ServiceConfig { name: self.name.clone(), argv: clone_strings(&self.argv) }
    }
}

impl Clone for Service {
    fn clone(&self) -> (copy: Self)
        ensures
            copy@ == self@,
    {
        Service {
            id: self.id,
            name: self.name.clone(),
            argv: clone_strings(&self.argv),
            pid: self.pid,
            state: self.state,
            pending: self.pending,
        }
    }
}

impl Service {
    /// A service that was never started.
    #[inline(always)]
    pub fn new(id: u64, name: String, argv: Vec<String>) -> (svc: Self)
        ensures
            svc@ == (ServiceView {
                id,
                name: name@,
                argv: strings_view(argv@),
                pid: None,
                state: ServiceState::Stopped(StopReason::NeverStarted),
                pending: PendingAction::Idle,
            }),
    {
        Self {
            id,
            name,
            argv,
            pid: None,
            state: ServiceState::Stopped(StopReason::NeverStarted),
            pending: PendingAction::Idle,
        }
    }

    #[inline(always)]
    pub fn set_pid(&mut self, pid: i32)
        ensures
            final(self)@ == (ServiceView { pid: Some(pid), ..old(self)@ }),
    {
        self.pid = Some(pid);
    }

    #[inline(always)]
    pub fn set_state(&mut self, state: ServiceState)
        ensures
            final(self)@ == (ServiceView { state, ..old(self)@ }),
    {
        self.state = state;
    }

    /// Whether the record is well formed.
    pub fn is_valid(&self) -> (valid: bool)
        ensures
            valid == self@.wf(),
    {
        let coupled = match self.pid {
            Some(p) => p > 0 && self.state.is_alive(),
            None => !self.state.is_alive(),
        };
        let settled = match self.pending {
            PendingAction::Idle => true,
            _ => self.state.is_alive(),
        };
        self.id <= MAX_SERVICE_ID && coupled && settled && is_valid_name(&self.name)
            && is_valid_argv(&self.argv)
    }
}

/// Why a service could not be marked as started.
#[derive(Debug, Clone, Copy, PartialEq, Eq, Structural)]
pub enum SpawnError {
    /// The fork failed: what it returned is no process id.
    ForkFailed,
    /// The registry holds no service of that id.
    UnknownService,
    /// The service has a process already.
    NotStopped,
    /// The process id belongs to another service.
    PidInUse,
}

/// Records in `svc` what the fork that was to start it returned to the
/// parent: the child's process id, or a value that is none when the fork
/// failed. A stopped service with a started child is running; in every
/// other case the record stays as it was.
pub fn start_service(svc: &mut Service, forked: i32) -> (res: Result<(), SpawnError>)
    ensures
        !(old(svc).state is Stopped) ==> res == Err::<(), SpawnError>(SpawnError::NotStopped),
        old(svc).state is Stopped && forked <= 0 ==> res == Err::<(), SpawnError>(
            SpawnError::ForkFailed,
        ),
        old(svc).state is Stopped && forked > 0 ==> res is Ok,
        res is Ok ==> final(svc)@ == old(svc)@.started(forked),
        res is Err ==> *final(svc) == *old(svc),
{
    if !svc.state.is_stopped() {
        Err(SpawnError::NotStopped)
    } else if forked <= 0 {
        Err(SpawnError::ForkFailed)
    } else {
        svc.pid = Some(forked);
        svc.state = ServiceState::Running;
        Ok(())
    }
}

/// Asks a running service to stop at time `now`. Returns the process that
/// is to receive the termination signal; a service that is stopping or
/// stopped is left as it is and nothing is returned.
pub fn stop_service(svc: &mut Service, now: u64) -> (target: Option<i32>)
    requires
        now + GRACE_PERIOD <= u64::MAX,
    ensures
        final(svc)@ == old(svc)@.stopped_at(now),
        target == (if old(svc).state is Running {
            old(svc).pid
        } else {
            None
        }),
{
    match svc.state {
        ServiceState::Running => {
            svc.state = ServiceState::Stopping(now + GRACE_PERIOD);
            svc.pid
        },
        _ => None,
    }
}

/// Used to generate progressive service ids.
///
/// Service ids are `u64`, but they are drawn from sixteen bits: the ids
/// `0` to `65535` are issued, each once, and then no more. The counter is
/// wider than the ids, so that it can stand behind the last of them.
#[derive(Debug, Clone, Copy, PartialEq, Eq, PartialOrd, Ord)]
pub struct ServiceIdGen(u32);

impl ServiceIdGen {
    /// The number of ids that the generator has issued, which is the id
    /// that it issues next.
    pub closed spec fn counter(self) -> u32 {
        self.0
    }

    /// The generator that has issued no id yet.
    pub closed spec fn initial() -> ServiceIdGen {
        ServiceIdGen(0)
    }

    /// The id that the next call of `nextval` returns, if it returns one.
    pub open spec fn peek(self) -> Option<u64> {
        if self.counter() <= MAX_SERVICE_ID {
            Some(self.counter() as u64)
        } else {
            None
        }
    }

    /// The generator after the next call of `nextval`.
    pub closed spec fn advanced(self) -> ServiceIdGen {
        if self.0 <= MAX_SERVICE_ID {
            ServiceIdGen((self.0 + 1) as u32)
        } else {
            self
        }
    }

    /// The generator after `n` calls of `nextval`.
    pub open spec fn after(self, n: nat) -> ServiceIdGen
        decreases n,
    {
        if n == 0 {
            self
        } else {
            self.after((n - 1) as nat).advanced()
        }
    }

    #[inline(always)]
    pub fn new() -> (ids: Self)
        ensures
            ids == ServiceIdGen::initial(),
            ids.counter() == 0,
    {
        ServiceIdGen(0)
    }

    /// Return the currently held value, zero extended to 64 bits, and
    /// increment it by one. Once every id of the sixteen bits has been
    /// returned, nothing is returned and the generator stays as it is.
    #[inline(always)]
    pub fn nextval(&mut self) -> (id: Option<u64>)
        ensures
            id == old(self).peek(),
            *final(self) == old(self).advanced(),
            id is None ==> *final(self) == *old(self),
            final(self).counter() == (if old(self).counter() <= MAX_SERVICE_ID {
                old(self).counter() + 1
            } else {
                old(self).counter() as int
            }),
    {
        let value = self.0 as u64;
        if value > MAX_SERVICE_ID {
            return None;
        }
        self.0 = self.0 + 1;
        Some(value)
    }

    /// Two generators that have issued the same number of ids are the same
    /// generator.
    pub proof fn lemma_counter_decides(self, other: ServiceIdGen)
        requires
            self.counter() == other.counter(),
        ensures
            self == other,
    {
    }

    /// The generator that has issued no id yet has the counter zero, and
    /// issues the id zero first.
    pub proof fn lemma_initial()
        ensures
            ServiceIdGen::initial().counter() == 0,
            ServiceIdGen::initial().peek() == Some(0u64),
    {
    }

    /// The counter after `n` calls: it has grown by one with each call
    /// until it stood behind the last id.
    pub proof fn lemma_after(self, n: nat)
        ensures
            self.after(n).counter() == (if self.counter() + n <= MAX_SERVICE_ID + 1 {
                self.counter() + n
            } else if self.counter() <= MAX_SERVICE_ID + 1 {
                MAX_SERVICE_ID + 1
            } else {
                self.counter() as int
            }),
        decreases n,
    {
        if n > 0 {
            self.lemma_after((n - 1) as nat);
        }
    }

    /// Ids issued during one run are distinct: of the calls that follow one
    /// another on a generator, no two return the same id.
    pub proof fn lemma_ids_distinct(self, i: nat, j: nat)
        requires
            i != j,
            self.after(i).peek() is Some,
            self.after(j).peek() is Some,
        ensures
            self.after(i).peek() != self.after(j).peek(),
    {
        self.lemma_after(i);
        self.lemma_after(j);
    }

    /// A new generator issues every id of the sixteen bits, by rising
    /// value, and none after them: its call number `n`, counted from zero,
    /// returns `n` while `n` is at most 65535.
    pub proof fn lemma_issues_all(n: nat)
        ensures
            ServiceIdGen::initial().after(n).peek() == (if n <= MAX_SERVICE_ID {
                Some(n as u64)
            } else {
                None
            }),
    {
        ServiceIdGen::initial().lemma_after(n);
    }
}

impl Default for ServiceIdGen {
    fn default() -> (ids: Self)
        ensures
            ids == ServiceIdGen::initial(),
            ids.counter() == 0,
    {
        ServiceIdGen(0)
    }
}

/// What the caller has to carry out after an operation on the registry.
#[derive(Debug, Clone, Copy, PartialEq, Eq, Structural)]
pub enum Action {
    /// Start the service of this id, and report the outcome with
    /// `ServiceRegistry::register_pid`.
    Spawn(u64),
    /// Send the termination signal to this process.
    Terminate(i32),
    /// Send the kill signal to this process.
    Kill(i32),
}

/// Why a record was not taken into the registry.
#[derive(Debug, Clone, Copy, PartialEq, Eq, Structural)]
pub enum RegistryError {
    /// The record is not one of a service that was never started.
    InvalidService,
    /// The id is not above every id that the registry has held.
    DuplicateId,
    /// The registry holds a service of that name.
    DuplicateName,
}

/// What the reap of one child came to.
#[derive(Debug, Clone, Copy, PartialEq, Eq, Structural)]
pub enum ReapOutcome {
    /// The process belongs to no service. Nothing has changed.
    UnknownPid,
    /// The service of this id is stopped, for this reason.
    Stopped(u64, StopReason),
    /// The service of this id ended for this reason and has left the
    /// registry, as a reload had asked.
    Removed(u64, StopReason),
    /// The service of this id ended for this reason and is to be started
    /// again.
    Restart(u64, StopReason),
}

/// The services registry.
///
/// Holds all the services in the form of two maps:
/// 1. `service_id -> service`, the owner of every record;
/// 2. `pid -> service_id`, to find the service of a process.
///
/// Every operation updates both, so that between two operations the second
/// is the inverse of the first.
#[derive(Debug)]
pub struct ServiceRegistry {
    /// `service_id -> service`
    services_map: HashMap<u64, Service>,
    /// `pid -> service_id`
    pids_map: HashMap<i32, u64>,
    /// the source of the ids of services that a reload adds
    ids: ServiceIdGen,
}

pub struct RegistryView {
    pub services: Map<u64, ServiceView>,
    pub pids: Map<i32, u64>,
    /// Greater than every id that was ever in the registry.
    pub next_id: u64,
}

impl View for ServiceRegistry {
    type V = RegistryView;

    closed spec fn view(&self) -> RegistryView {
        RegistryView {
            services: Map::new(
                |id: u64| self.services_map@.contains_key(id),
                |id: u64| self.services_map@[id]@,
            ),
            pids: self.pids_map@,
            next_id: self.ids.counter() as u64,
        }
    }
}

impl RegistryView {
    /// Whether a service of the registry has this name.
    pub open spec fn has_name(self, name: Seq<char>) -> bool {
        exists|id: u64| #[trigger] self.services.contains_key(id) && self.services[id].name == name
    }

    /// The id of the service of this name.
    pub open spec fn id_of(self, name: Seq<char>) -> u64
        recommends
            self.has_name(name),
    {
        choose|id: u64| #[trigger] self.services.contains_key(id) && self.services[id].name == name
    }

    /// What holds of the registry between any two operations.
    pub open spec fn wf(self) -> bool {
        &&& self.next_id <= MAX_SERVICE_ID + 1
        &&& forall|id: u64| #[trigger]
            self.services.contains_key(id) ==> {
                &&& self.services[id].id == id
                &&& self.services[id].wf()
                &&& id < self.next_id
            }
        &&& forall|id: u64| #[trigger]
            self.services.contains_key(id) ==> (self.services[id].pid matches Some(p)
                ==> self.pids.contains_key(p) && self.pids[p] == id)
        &&& forall|p: i32| #[trigger]
            self.pids.contains_key(p) ==> self.services.contains_key(self.pids[p])
                && self.services[self.pids[p]].pid == Some(p)
        &&& forall|a: u64, b: u64|
            #![trigger self.services.contains_key(a), self.services.contains_key(b)]
            self.services.contains_key(a) && self.services.contains_key(b) && a != b
                ==> self.services[a].name != self.services[b].name
    }

    /// Why `svc` cannot enter the registry, if it cannot.
    pub open spec fn refusal(self, svc: ServiceView) -> Option<RegistryError> {
        if !svc.fresh() {
            Some(RegistryError::InvalidService)
        } else if svc.id < self.next_id {
            Some(RegistryError::DuplicateId)
        } else if self.has_name(svc.name) {
            Some(RegistryError::DuplicateName)
        } else {
            None
        }
    }

    /// The registry with `svc` added to it.
    pub open spec fn inserted(self, svc: ServiceView) -> RegistryView {
        RegistryView {
            services: self.services.insert(svc.id, svc),
            pids: self.pids,
            next_id: (svc.id + 1) as u64,
        }
    }

    /// Why the fork result `forked` cannot be recorded for service `id`, if
    /// it cannot.
    pub open spec fn spawn_refusal(self, forked: i32, id: u64) -> Option<SpawnError> {
        if !self.services.contains_key(id) {
            Some(SpawnError::UnknownService)
        } else if !(self.services[id].state is Stopped) {
            Some(SpawnError::NotStopped)
        } else if forked <= 0 {
            Some(SpawnError::ForkFailed)
        } else if self.pids.contains_key(forked) {
            Some(SpawnError::PidInUse)
        } else {
            None
        }
    }

    /// The registry after service `id` has been started as process `pid`.
    pub open spec fn spawned(self, pid: i32, id: u64) -> RegistryView {
        RegistryView {
            services: self.services.insert(id, self.services[id].started(pid)),
            pids: self.pids.insert(pid, id),
            next_id: self.next_id,
        }
    }

    /// What the reap of process `pid`, which ended in the way `exit`, comes
    /// to.
    pub open spec fn reap_outcome(self, pid: i32, exit: ChildExit) -> ReapOutcome {
        if !self.pids.contains_key(pid) {
            ReapOutcome::UnknownPid
        } else {
            let id = self.pids[pid];
            let svc = self.services[id];
            let reason = stop_reason(exit, svc.state is Stopping);
            match svc.pending {
                PendingAction::Idle => ReapOutcome::Stopped(id, reason),
                PendingAction::Remove => ReapOutcome::Removed(id, reason),
                PendingAction::Restart => ReapOutcome::Restart(id, reason),
            }
        }
    }

    /// The registry after the reap of process `pid`, which ended in the way
    /// `exit`: the process is forgotten, and its service is stopped, or
    /// gone if it was to be removed.
    pub open spec fn reaped(self, pid: i32, exit: ChildExit) -> RegistryView {
        if !self.pids.contains_key(pid) {
            self
        } else {
            let id = self.pids[pid];
            let svc = self.services[id];
            RegistryView {
                services: if svc.pending is Remove {
                    self.services.remove(id)
                } else {
                    self.services.insert(id, svc.reaped(exit))
                },
                pids: self.pids.remove(pid),
                next_id: self.next_id,
            }
        }
    }

    /// What is to be done for the control command `cmd`.
    pub open spec fn control_action(self, cmd: ControlCommand) -> Option<Action> {
        if !self.services.contains_key(cmd.id) {
            None
        } else {
            let svc = self.services[cmd.id];
            match (cmd.op, svc.state) {
                (ControlOp::Start, ServiceState::Stopped(_)) => Some(Action::Spawn(cmd.id)),
                (ControlOp::Restart, ServiceState::Stopped(_)) => Some(Action::Spawn(cmd.id)),
                (ControlOp::Stop, ServiceState::Running) => Some(Action::Terminate(svc.pid->0)),
                (ControlOp::Restart, ServiceState::Running) => Some(Action::Terminate(svc.pid->0)),
                _ => None,
            }
        }
    }

    /// The registry after the control command `cmd` has been applied at
    /// time `now`.
    pub open spec fn controlled(self, cmd: ControlCommand, now: u64) -> RegistryView {
        if !self.services.contains_key(cmd.id) {
            self
        } else {
            let svc = self.services[cmd.id];
            let next = match cmd.op {
                ControlOp::Start => svc,
                ControlOp::Stop => svc.stopped_at(now),
                ControlOp::Restart => if svc.state.alive() {
                    svc.stopped_at(now).with_pending(PendingAction::Restart)
                } else {
                    svc
                },
            };
            RegistryView { services: self.services.insert(cmd.id, next), ..self }
        }
    }
}

impl RegistryView {
    /// The kill that a tick at time `now` asks for service `id`: one for a
    /// stopping service whose deadline has come.
    pub open spec fn kill_of(self, now: u64, id: u64) -> Seq<Action> {
        let due = self.services[id].state matches ServiceState::Stopping(deadline) && now
            >= deadline;
        if self.services.contains_key(id) && due {
            seq![Action::Kill(self.services[id].pid->0)]
        } else {
            Seq::empty()
        }
    }

    /// The kills that a tick at time `now` asks for the services of an id
    /// below `bound`, by rising id.
    pub open spec fn kills(self, now: u64, bound: nat) -> Seq<Action>
        decreases bound,
    {
        if bound == 0 {
            Seq::empty()
        } else {
            self.kills(now, (bound - 1) as nat) + self.kill_of(now, (bound - 1) as u64)
        }
    }

    /// The termination that a shutdown asks for service `id`: one for a
    /// running service.
    pub open spec fn termination_of(self, id: u64) -> Seq<Action> {
        if self.services.contains_key(id) && self.services[id].state is Running {
            seq![Action::Terminate(self.services[id].pid->0)]
        } else {
            Seq::empty()
        }
    }

    /// The terminations that a shutdown asks for the services of an id
    /// below `bound`, by rising id.
    pub open spec fn terminations(self, bound: nat) -> Seq<Action>
        decreases bound,
    {
        if bound == 0 {
            Seq::empty()
        } else {
            self.terminations((bound - 1) as nat) + self.termination_of((bound - 1) as u64)
        }
    }

    /// The registry after every running service has been asked to stop at
    /// time `now`.
    pub open spec fn all_stopped_at(self, now: u64) -> RegistryView {
        RegistryView {
            services: Map::new(
                |id: u64| self.services.contains_key(id),
                |id: u64| self.services[id].stopped_at(now),
            ),
            ..self
        }
    }

    /// Whether no service has a process.
    pub open spec fn quiet(self) -> bool {
        forall|id: u64| #[trigger]
            self.services.contains_key(id) ==> self.services[id].state is Stopped
    }
}

/// What a list of configuration entries holds.
pub open spec fn configs_view(cfg: Seq<ServiceConfig>) -> Seq<ConfigView> {
    cfg.map_values(|c: ServiceConfig| c@)
}

/// Whether an entry of `cfg` has this name.
pub open spec fn names(cfg: Seq<ConfigView>, name: Seq<char>) -> bool {
    exists|j: int| 0 <= j < cfg.len() && (#[trigger] cfg[j]).name == name
}

/// The entry of `cfg` that has this name, if one has.
pub open spec fn config_entry(cfg: Seq<ConfigView>, name: Seq<char>) -> Option<ConfigView> {
    if names(cfg, name) {
        Some(cfg[choose|j: int| 0 <= j < cfg.len() && (#[trigger] cfg[j]).name == name])
    } else {
        None
    }
}

/// A configuration that can be loaded: every entry is valid and no two
/// entries have the same name.
pub open spec fn config_wf(cfg: Seq<ConfigView>) -> bool {
    &&& forall|j: int| 0 <= j < cfg.len() ==> (#[trigger] cfg[j]).wf()
    &&& forall|i: int, j: int|
        0 <= i < j < cfg.len() ==> (#[trigger] cfg[i]).name != (#[trigger] cfg[j]).name
}

/// The record of a service that entry `c` of a configuration adds under
/// the id `id`.
pub open spec fn added_record(id: u64, c: ConfigView) -> ServiceView {
    ServiceView {
        id,
        name: c.name,
        argv: c.argv,
        pid: None,
        state: ServiceState::Stopped(StopReason::NeverStarted),
        pending: PendingAction::Idle,
    }
}

impl ServiceView {
    /// The record after a reload at time `now` in which `entry` is what the
    /// new configuration holds under the service's name; nothing if the
    /// service leaves the registry at once.
    ///
    /// - No entry: a stopped service leaves; a running one is stopped and
    ///   marked for removal; a stopping one is marked for removal.
    /// - An entry with the same command line: no change.
    /// - An entry with another command line: the record takes it; a
    ///   running service is stopped and marked for restart, a stopping one
    ///   is marked for restart.
    pub open spec fn reloaded(self, entry: Option<ConfigView>, now: u64) -> Option<ServiceView> {
        match entry {
            None => if self.state is Stopped {
                None
            } else {
                Some(self.stopped_at(now).with_pending(PendingAction::Remove))
            },
            Some(c) => if c.argv == self.argv {
                Some(self)
            } else if self.state is Stopped {
                Some(self.with_argv(c.argv))
            } else {
                Some(self.stopped_at(now).with_argv(c.argv).with_pending(PendingAction::Restart))
            },
        }
    }

    /// What such a reload asks the caller to do for the service: to
    /// terminate a running service that is removed or changed, and to
    /// spawn a stopped one that is changed.
    pub open spec fn reload_action(self, entry: Option<ConfigView>) -> Seq<Action> {
        match entry {
            None => if self.state is Running {
                seq![Action::Terminate(self.pid->0)]
            } else {
                Seq::empty()
            },
            Some(c) => if c.argv == self.argv {
                Seq::empty()
            } else if self.state is Stopped {
                seq![Action::Spawn(self.id)]
            } else if self.state is Running {
                seq![Action::Terminate(self.pid->0)]
            } else {
                Seq::empty()
            },
        }
    }
}

/// Why a configuration was not loaded.
#[derive(Debug, Clone, Copy, PartialEq, Eq, Structural)]
pub enum ReloadError {
    /// An entry is not valid, or two entries have the same name.
    InvalidConfig,
    /// There are not enough ids left for the services to add.
    IdsExhausted,
}

impl RegistryView {
    /// Whether entry `j` of `cfg` names a service that the registry does
    /// not hold.
    pub open spec fn is_new(self, cfg: Seq<ConfigView>, j: int) -> bool {
        !self.has_name(cfg[j].name)
    }

    /// The number of entries before entry `j` of `cfg` that name a service
    /// that the registry does not hold.
    pub open spec fn added_before(self, cfg: Seq<ConfigView>, j: int) -> nat
        decreases j,
    {
        if j <= 0 {
            0
        } else {
            self.added_before(cfg, j - 1) + if self.is_new(cfg, j - 1) {
                1nat
            } else {
                0nat
            }
        }
    }

    /// The id that a reload gives to the service that entry `j` of `cfg`
    /// adds.
    pub open spec fn added_id(self, cfg: Seq<ConfigView>, j: int) -> u64 {
        (self.next_id + self.added_before(cfg, j)) as u64
    }

    /// What a reload asks for the services that the registry holds under an
    /// id below `bound`, by rising id.
    pub open spec fn existing_actions(self, cfg: Seq<ConfigView>, bound: nat) -> Seq<Action>
        decreases bound,
    {
        if bound == 0 {
            Seq::empty()
        } else {
            let id = (bound - 1) as u64;
            self.existing_actions(cfg, (bound - 1) as nat) + if self.services.contains_key(id) {
                self.services[id].reload_action(config_entry(cfg, self.services[id].name))
            } else {
                Seq::empty()
            }
        }
    }

    /// The spawns that a reload asks for the services that the entries
    /// before entry `j` of `cfg` add, in the order of the entries.
    pub open spec fn added_actions(self, cfg: Seq<ConfigView>, j: int) -> Seq<Action>
        decreases j,
    {
        if j <= 0 {
            Seq::empty()
        } else {
            self.added_actions(cfg, j - 1) + if self.is_new(cfg, j - 1) {
                seq![Action::Spawn(self.added_id(cfg, j - 1))]
            } else {
                Seq::empty()
            }
        }
    }

    /// What a reload of `cfg` asks the caller to do: first what the
    /// services in the registry need, by rising id, then one spawn for each
    /// service added.
    pub open spec fn reload_actions(self, cfg: Seq<ConfigView>) -> Seq<Action> {
        self.existing_actions(cfg, self.next_id as nat) + self.added_actions(cfg, cfg.len() as int)
    }

    /// Why `cfg` cannot be loaded, if it cannot.
    pub open spec fn reload_refusal(self, cfg: Seq<ConfigView>) -> Option<ReloadError> {
        if !config_wf(cfg) {
            Some(ReloadError::InvalidConfig)
        } else if self.next_id + self.added_before(cfg, cfg.len() as int) > MAX_SERVICE_ID + 1 {
            Some(ReloadError::IdsExhausted)
        } else {
            None
        }
    }

    /// Whether `after` is the registry that a reload of `cfg` at time `now`
    /// leaves: the processes are the same; each service that was there is
    /// as `ServiceView::reloaded` says, under its id; and each entry that
    /// names a service that was not there has added one, never started,
    /// under the next id not yet used.
    pub open spec fn reloads_to(self, cfg: Seq<ConfigView>, now: u64, after: RegistryView) -> bool {
        &&& after.pids == self.pids
        &&& after.next_id == self.next_id + self.added_before(cfg, cfg.len() as int)
        &&& forall|id: u64|
            id < self.next_id ==> (#[trigger] after.services.contains_key(id)) == (
            self.services.contains_key(id) && self.services[id].reloaded(
                config_entry(cfg, self.services[id].name),
                now,
            ) is Some)
        &&& forall|id: u64|
            id < self.next_id && #[trigger] after.services.contains_key(id) ==> after.services[id]
                == self.services[id].reloaded(config_entry(cfg, self.services[id].name), now)->0
        &&& forall|id: u64|
            id >= self.next_id ==> (#[trigger] after.services.contains_key(id)) == (id
                < after.next_id)
        &&& forall|j: int|
            0 <= j < cfg.len() && self.is_new(cfg, j) ==> after.services[#[trigger] self.added_id(
                cfg,
                j,
            )] == added_record(self.added_id(cfg, j), cfg[j])
    }

    /// The count of added services does not fall as entries are taken in.
    pub proof fn lemma_added_monotone(self, cfg: Seq<ConfigView>, i: int, j: int)
        requires
            i <= j,
        ensures
            self.added_before(cfg, i) <= self.added_before(cfg, j),
        decreases j - i,
    {
        if i < j {
            self.lemma_added_monotone(cfg, i, j - 1);
        }
    }

    /// Every number below the count of added services is the rank of one
    /// added entry.
    pub proof fn lemma_added_rank(self, cfg: Seq<ConfigView>, n: int, r: nat) -> (j: int)
        requires
            0 <= n <= cfg.len(),
            r < self.added_before(cfg, n),
        ensures
            0 <= j < n,
            self.is_new(cfg, j),
            self.added_before(cfg, j) == r,
        decreases n,
    {
        if self.is_new(cfg, n - 1) && self.added_before(cfg, n - 1) == r {
            n - 1
        } else {
            self.lemma_added_rank(cfg, n - 1, r)
        }
    }

    /// A reload keeps the registry well formed.
    pub proof fn lemma_reload_wf(self, cfg: Seq<ConfigView>, now: u64, after: RegistryView)
        requires
            self.wf(),
            now + GRACE_PERIOD <= u64::MAX,
            self.reload_refusal(cfg) is None,
            self.reloads_to(cfg, now, after),
        ensures
            after.wf(),
    {
        assert forall|id: u64| #[trigger] after.services.contains_key(id) implies {
            &&& after.services[id].id == id
            &&& after.services[id].wf()
            &&& id < after.next_id
            &&& (after.services[id].pid matches Some(p) ==> after.pids.contains_key(p)
                && after.pids[p] == id)
            &&& (id < self.next_id ==> self.services.contains_key(id) && after.services[id].name
                == self.services[id].name)
            &&& (id >= self.next_id ==> !self.has_name(after.services[id].name) && exists|j: int|
                0 <= j < cfg.len() && self.is_new(cfg, j) && #[trigger] self.added_id(cfg, j) == id
                    && after.services[id].name == cfg[j].name)
        } by {
            if id < self.next_id {
                assert(self.services.contains_key(id));
                let svc = self.services[id];
                let entry = config_entry(cfg, svc.name);
                if entry is Some {
                    let j = choose|j: int|
                        0 <= j < cfg.len() && (#[trigger] cfg[j]).name == svc.name;
                    assert(cfg[j].wf());
                }
            } else {
                let r = (id - self.next_id) as nat;
                let j = self.lemma_added_rank(cfg, cfg.len() as int, r);
                assert(self.added_id(cfg, j) == id);
                assert(cfg[j].wf());
            }
        }
        assert forall|p: i32| #[trigger] after.pids.contains_key(p) implies {
            &&& after.services.contains_key(after.pids[p])
            &&& after.services[after.pids[p]].pid == Some(p)
        } by {
            let id = self.pids[p];
            assert(self.services.contains_key(id));
            assert(after.services.contains_key(id));
        }
        assert forall|a: u64, b: u64|
            #![trigger after.services.contains_key(a), after.services.contains_key(b)]
            after.services.contains_key(a) && after.services.contains_key(b) && a
                != b implies after.services[a].name != after.services[b].name by {
            if a < self.next_id && b < self.next_id {
                assert(self.services.contains_key(a) && self.services.contains_key(b));
            } else if a < self.next_id {
                assert(self.services.contains_key(a));
            } else if b < self.next_id {
                assert(self.services.contains_key(b));
            } else {
                let ja = choose|j: int|
                    0 <= j < cfg.len() && self.is_new(cfg, j) && #[trigger] self.added_id(cfg, j)
                        == a && after.services[a].name == cfg[j].name;
                let jb = choose|j: int|
                    0 <= j < cfg.len() && self.is_new(cfg, j) && #[trigger] self.added_id(cfg, j)
                        == b && after.services[b].name == cfg[j].name;
                assert(ja != jb);
                if ja < jb {
                    assert(cfg[ja].name != cfg[jb].name);
                } else {
                    assert(cfg[jb].name != cfg[ja].name);
                }
            }
        }
    }
}

/// The index of the entry of `cfg` that has this name, if one has.
pub fn find_config(cfg: &Vec<ServiceConfig>, name: &String) -> (found: Option<usize>)
    ensures
        found is Some <==> names(configs_view(cfg@), name@),
        found matches Some(j) ==> j < cfg.len() && cfg[j as int].name@ == name@,
{
    let ghost view = configs_view(cfg@);
    let mut j: usize = 0;
    while j < cfg.len()
        invariant
            j <= cfg.len(),
            view == configs_view(cfg@),
            forall|i: int| 0 <= i < j ==> (#[trigger] view[i]).name != name@,
        decreases cfg.len() - j,
    {
        if cfg[j].name == *name {
            assert(view[j as int].name == name@);
            return Some(j);
        }
        j = j + 1;
    }
    None
}

/// Whether the configuration can be loaded: every entry is valid and no
/// two entries have the same name.
pub fn is_valid_config(cfg: &Vec<ServiceConfig>) -> (valid: bool)
    ensures
        valid == config_wf(configs_view(cfg@)),
{
    let ghost view = configs_view(cfg@);
    let mut j: usize = 0;
    while j < cfg.len()
        invariant
            j <= cfg.len(),
            view == configs_view(cfg@),
            forall|i: int| 0 <= i < j ==> (#[trigger] view[i]).wf(),
            forall|a: int, b: int|
                0 <= a < b < j ==> (#[trigger] view[a]).name != (#[trigger] view[b]).name,
        decreases cfg.len() - j,
    {
        if !cfg[j].is_valid() {
            assert(!view[j as int].wf());
            return false;
        }
        let mut i: usize = 0;
        while i < j
            invariant
                i <= j,
                j < cfg.len(),
                view == configs_view(cfg@),
                forall|a: int| 0 <= a < i ==> (#[trigger] view[a]).name != view[j as int].name,
            decreases j - i,
        {
            if cfg[i].name == cfg[j].name {
                assert(view[i as int].name == view[j as int].name);
                return false;
            }
            i = i + 1;
        }
        j = j + 1;
    }
    true
}

impl RegistryView {
    /// In a well-formed registry a running service has a process, a
    /// stopping service has a process, and a stopped service has none.
    pub proof fn lemma_state_and_pid(self, id: u64)
        requires
            self.wf(),
            self.services.contains_key(id),
        ensures
            self.services[id].state is Running ==> self.services[id].pid is Some,
            self.services[id].state is Stopping ==> self.services[id].pid is Some,
            self.services[id].state is Stopped ==> self.services[id].pid is None,
    {
    }

    /// In a well-formed registry the process index is the inverse of the
    /// processes that the records hold: it maps `pid` to `id` exactly when
    /// the service `id` has the process `pid`.
    pub proof fn lemma_pid_index_inverse(self, id: u64, pid: i32)
        requires
            self.wf(),
        ensures
            (self.pids.contains_key(pid) && self.pids[pid] == id) <==> (self.services.contains_key(
                id,
            ) && self.services[id].pid == Some(pid)),
    {
        if self.pids.contains_key(pid) && self.pids[pid] == id {
            assert(self.services.contains_key(self.pids[pid]));
        }
        if self.services.contains_key(id) && self.services[id].pid == Some(pid) {
            assert(self.pids.contains_key(pid));
        }
    }

    /// The ids that a reload gives out are new and distinct: none is the
    /// id of a service in the registry, none was ever in it, and no two
    /// added services get the same.
    pub proof fn lemma_added_ids_fresh(self, cfg: Seq<ConfigView>, i: int, j: int)
        requires
            self.wf(),
            self.reload_refusal(cfg) is None,
            0 <= i < j < cfg.len(),
            self.is_new(cfg, i),
            self.is_new(cfg, j),
        ensures
            self.added_id(cfg, i) < self.added_id(cfg, j),
            self.added_id(cfg, i) >= self.next_id,
            !self.services.contains_key(self.added_id(cfg, i)),
            !self.services.contains_key(self.added_id(cfg, j)),
    {
        self.lemma_added_monotone(cfg, i + 1, j);
        self.lemma_added_monotone(cfg, j + 1, cfg.len() as int);
    }
}

/// What a list of records holds.
pub open spec fn services_view(records: Seq<Service>) -> Seq<ServiceView> {
    records.map_values(|svc: Service| svc@)
}

impl RegistryView {
    /// The records of the services of an id below `bound`, by rising id.
    pub open spec fn records(self, bound: nat) -> Seq<ServiceView>
        decreases bound,
    {
        if bound == 0 {
            Seq::empty()
        } else {
            let id = (bound - 1) as u64;
            self.records((bound - 1) as nat) + if self.services.contains_key(id) {
                seq![self.services[id]]
            } else {
                Seq::empty()
            }
        }
    }
}

/// What a concatenation holds is what one of its two parts holds.
proof fn lemma_contains_concat(a: Seq<Action>, b: Seq<Action>, x: Action)
    ensures
        (a + b).contains(x) <==> a.contains(x) || b.contains(x),
{
    if a.contains(x) {
        let i = choose|i: int| 0 <= i < a.len() && a[i] == x;
        assert((a + b)[i] == x);
    }
    if b.contains(x) {
        let i = choose|i: int| 0 <= i < b.len() && b[i] == x;
        assert((a + b)[a.len() + i] == x);
    }
    if (a + b).contains(x) {
        let i = choose|i: int| 0 <= i < (a + b).len() && (a + b)[i] == x;
        if i < a.len() {
            assert(a[i] == x);
        } else {
            assert(b[i - a.len()] == x);
        }
    }
}

impl RegistryView {
    /// A tick asks for the kill of a process exactly when it is the
    /// process of a stopping service whose deadline has come.
    pub proof fn lemma_kills(self, now: u64, bound: nat, action: Action)
        ensures
            self.kills(now, bound).contains(action) <==> exists|id: u64|
                id < bound && #[trigger] self.services.contains_key(id) && (
                self.services[id].state matches ServiceState::Stopping(deadline) && now >= deadline)
                    && action == Action::Kill(self.services[id].pid->0),
        decreases bound,
    {
        if bound > 0 {
            let before = self.kills(now, (bound - 1) as nat);
            let last = self.kill_of(now, (bound - 1) as u64);
            self.lemma_kills(now, (bound - 1) as nat, action);
            lemma_contains_concat(before, last, action);
            if last.len() > 0 {
                assert(last[0] == Action::Kill(self.services[(bound - 1) as u64].pid->0));
                assert(last.contains(action) <==> action == last[0]);
            }
        }
    }

    /// A shutdown asks for the termination of a process exactly when it is
    /// the process of a running service.
    pub proof fn lemma_terminations(self, bound: nat, action: Action)
        ensures
            self.terminations(bound).contains(action) <==> exists|id: u64|
                id < bound && #[trigger] self.services.contains_key(id)
                    && self.services[id].state is Running && action == Action::Terminate(
                    self.services[id].pid->0,
                ),
        decreases bound,
    {
        if bound > 0 {
            let before = self.terminations((bound - 1) as nat);
            let last = self.termination_of((bound - 1) as u64);
            self.lemma_terminations((bound - 1) as nat, action);
            lemma_contains_concat(before, last, action);
            if last.len() > 0 {
                assert(last[0] == Action::Terminate(self.services[(bound - 1) as u64].pid->0));
                assert(last.contains(action) <==> action == last[0]);
            }
        }
    }
}

impl ServiceRegistry {
    /// What holds of the registry between any two operations.
    pub open spec fn wf(&self) -> bool {
        self@.wf()
    }

    #[inline(always)]
    pub fn new() -> (registry: Self)
        ensures
            registry.wf(),
            registry@.services == Map::<u64, ServiceView>::empty(),
            registry@.pids == Map::<i32, u64>::empty(),
            registry@.next_id == 0,
    {
        let registry = Self {
            services_map: HashMap::new(),
            pids_map: HashMap::new(),
            ids: ServiceIdGen::new(),
        };
        assert(registry@.services =~= Map::<u64, ServiceView>::empty());
        registry
    }

    /// The service of this id, if the registry holds it.
    pub fn service(&self, svc_id: u64) -> (found: Option<&Service>)
        ensures
            found is Some <==> self@.services.contains_key(svc_id),
            found matches Some(svc) ==> svc@ == self@.services[svc_id],
    {
        broadcast use group_hash_axioms;

        self.services_map.get(&svc_id)
    }

    /// The id of the service that the process belongs to, if to any.
    pub fn service_of_pid(&self, pid: i32) -> (found: Option<u64>)
        ensures
            found is Some <==> self@.pids.contains_key(pid),
            found matches Some(id) ==> id == self@.pids[pid],
    {
        broadcast use group_hash_axioms;

        match self.pids_map.get(&pid) {
            Some(id) => Some(*id),
            None => None,
        }
    }

    /// The id that the next service that a reload adds is given.
    pub fn next_id(&self) -> (id: u64)
        ensures
            id == self@.next_id,
    {
        self.ids.0 as u64
    }

    /// The id of the service of this name, if the registry holds one.
    pub fn find_by_name(&self, name: &String) -> (found: Option<u64>)
        requires
            self.wf(),
        ensures
            found is Some <==> self@.has_name(name@),
            found matches Some(id) ==> self@.services.contains_key(id) && self@.services[id].name
                == name@ && id == self@.id_of(name@),
    {
        broadcast use group_hash_axioms;

        let bound: u64 = self.ids.0 as u64;
        let mut id: u64 = 0;
        while id < bound
            invariant
                id <= bound,
                bound == self@.next_id,
                self.wf(),
                forall|k: u64|
                    k < id && #[trigger] self@.services.contains_key(k) ==> self@.services[k].name
                        != name@,
            decreases bound - id,
        {
            match self.services_map.get(&id) {
                Some(svc) => {
                    if svc.name == *name {
                        assert(self@.services.contains_key(id));
                        assert(self@.services.contains_key(self@.id_of(name@)));
                        return Some(id);
                    }
                },
                None => {},
            }
            id = id + 1;
        }
        None
    }

    /// Insert a new service in the `service_id -> service` map.
    ///
    /// The record must be well formed and never started, its id not below
    /// `next_id`, and its name not in use; else it is refused and the
    /// registry stays as it is.
    pub fn insert_service(&mut self, svc: Service) -> (res: Result<(), RegistryError>)
        requires
            old(self).wf(),
        ensures
            final(self).wf(),
            match old(self)@.refusal(svc@) {
                Some(e) => res == Err::<(), RegistryError>(e) && final(self)@ == old(self)@,
                None => res is Ok && final(self)@ == old(self)@.inserted(svc@),
            },
    {
        broadcast use group_hash_axioms;

        let never_started = match svc.state {
            ServiceState::Stopped(StopReason::NeverStarted) => true,
            _ => false,
        };
        if !never_started || !svc.is_valid() {
            return Err(RegistryError::InvalidService);
        }
        if svc.id < self.ids.0 as u64 {
            return Err(RegistryError::DuplicateId);
        }
        if self.find_by_name(&svc.name).is_some() {
            return Err(RegistryError::DuplicateName);
        }
        let id = svc.id;
        let ghost view = svc@;
        self.ids = ServiceIdGen((id + 1) as u32);
        self.services_map.insert(id, svc);
        proof {
            assert(self@.services =~= old(self)@.services.insert(id, view));
            assert forall|a: u64, b: u64|
                #![trigger self@.services.contains_key(a), self@.services.contains_key(b)]
                self@.services.contains_key(a) && self@.services.contains_key(b) && a
                    != b implies self@.services[a].name != self@.services[b].name by {
                if a == id {
                    assert(old(self)@.services.contains_key(b));
                } else if b == id {
                    assert(old(self)@.services.contains_key(a));
                }
            }
        }
        Ok(())
    }

    /// Records what the fork that was to start service `svc_id` returned to
    /// the parent. When it is the id of a new process and the service is
    /// stopped, the service is running and the process is entered in the
    /// `pid -> service_id` map; else nothing changes.
    pub fn register_pid(&mut self, pid: i32, svc_id: u64) -> (res: Result<(), SpawnError>)
        requires
            old(self).wf(),
        ensures
            final(self).wf(),
            match old(self)@.spawn_refusal(pid, svc_id) {
                Some(e) => res == Err::<(), SpawnError>(e) && final(self)@ == old(self)@,
                None => res is Ok && final(self)@ == old(self)@.spawned(pid, svc_id),
            },
    {
        broadcast use group_hash_axioms;

        match self.services_map.remove(&svc_id) {
            None => {
                assert(self.services_map@ =~= old(self).services_map@);
                Err(SpawnError::UnknownService)
            },
            Some(mut svc) => {
                let taken = svc.state.is_stopped() && pid > 0 && self.pids_map.contains_key(&pid);
                let res = if taken {
                    Err(SpawnError::PidInUse)
                } else {
                    start_service(&mut svc, pid)
                };
                if res.is_ok() {
                    self.pids_map.insert(pid, svc_id);
                }
                self.services_map.insert(svc_id, svc);
                proof {
                    if res is Ok {
                        assert(self@.services =~= old(self)@.spawned(pid, svc_id).services);
                        assert(self@.pids =~= old(self)@.spawned(pid, svc_id).pids);
                    } else {
                        assert(self.services_map@ =~= old(self).services_map@);
                    }
                }
                res
            },
        }
    }

    /// Applies a control command at time `now` and returns what is to be
    /// done for it.
    ///
    /// - `Start`: a stopped service is to be spawned; else nothing.
    /// - `Stop`: a running service is stopping and its process is to be
    ///   terminated; else nothing.
    /// - `Restart`: a running or stopping service is marked to be started
    ///   again after its reap, and a running one is stopped as by `Stop`; a
    ///   stopped service is to be spawned.
    ///
    /// A command for an id that the registry does not hold changes nothing.
    pub fn apply_control(&mut self, cmd: ControlCommand, now: u64) -> (action: Option<Action>)
        requires
            old(self).wf(),
            now + GRACE_PERIOD <= u64::MAX,
        ensures
            final(self).wf(),
            final(self)@ == old(self)@.controlled(cmd, now),
            action == old(self)@.control_action(cmd),
    {
        broadcast use group_hash_axioms;

        let taken = self.services_map.remove(&cmd.id);
        match taken {
            None => {
                assert(self.services_map@ =~= old(self).services_map@);
                None
            },
            Some(mut svc) => {
                let action = match cmd.op {
                    ControlOp::Start => {
                        if svc.state.is_stopped() {
                            Some(Action::Spawn(cmd.id))
                        } else {
                            None
                        }
                    },
                    ControlOp::Stop => {
                        match stop_service(&mut svc, now) {
                            Some(pid) => Some(Action::Terminate(pid)),
                            None => None,
                        }
                    },
                    ControlOp::Restart => {
                        if svc.state.is_stopped() {
                            Some(Action::Spawn(cmd.id))
                        } else {
                            svc.pending = PendingAction::Restart;
                            match stop_service(&mut svc, now) {
                                Some(pid) => Some(Action::Terminate(pid)),
                                None => None,
                            }
                        }
                    },
                };
                self.services_map.insert(cmd.id, svc);
                proof {
                    assert(self@.services =~= old(self)@.controlled(cmd, now).services);
                }
                action
            },
        }
    }

    /// The kills that are due at time `now`: one for each stopping service
    /// whose deadline has come, by rising id. The services stay as they
    /// are: a killed one is stopping until it is reaped, and its deadline
    /// is not set anew.
    pub fn tick(&self, now: u64) -> (actions: Vec<Action>)
        requires
            self.wf(),
        ensures
            actions@ == self@.kills(now, self@.next_id as nat),
    {
        broadcast use group_hash_axioms;

        let bound: u64 = self.ids.0 as u64;
        let mut actions: Vec<Action> = Vec::new();
        let mut id: u64 = 0;
        while id < bound
            invariant
                id <= bound,
                bound == self@.next_id,
                self.wf(),
                actions@ == self@.kills(now, id as nat),
            decreases bound - id,
        {
            match self.services_map.get(&id) {
                Some(svc) => {
                    assert(self@.services.contains_key(id));
                    match (svc.state, svc.pid) {
                        (ServiceState::Stopping(deadline), Some(pid)) => {
                            if now >= deadline {
                                actions.push(Action::Kill(pid));
                            }
                        },
                        _ => {},
                    }
                },
                None => {},
            }
            proof {
                assert(actions@ =~= self@.kills(now, id as nat) + self@.kill_of(now, id));
            }
            id = id + 1;
        }
        actions
    }

    /// Asks every running service to stop at time `now`, as a shutdown of
    /// the supervisor does, and returns the terminations to send, by rising
    /// id. Services that are stopping or stopped stay as they are.
    pub fn stop_all(&mut self, now: u64) -> (actions: Vec<Action>)
        requires
            old(self).wf(),
            now + GRACE_PERIOD <= u64::MAX,
        ensures
            final(self).wf(),
            final(self)@ == old(self)@.all_stopped_at(now),
            actions@ == old(self)@.terminations(old(self)@.next_id as nat),
    {
        broadcast use group_hash_axioms;

        let ghost before = self@;
        let bound: u64 = self.ids.0 as u64;
        let mut actions: Vec<Action> = Vec::new();
        let mut id: u64 = 0;
        while id < bound
            invariant
                id <= bound,
                bound == before.next_id,
                before.wf(),
                now + GRACE_PERIOD <= u64::MAX,
                self@.pids == before.pids,
                self@.next_id == before.next_id,
                forall|k: u64| self@.services.contains_key(k) == before.services.contains_key(k),
                forall|k: u64|
                    k < id && #[trigger] before.services.contains_key(k) ==> self@.services[k]
                        == before.services[k].stopped_at(now),
                forall|k: u64|
                    k >= id && #[trigger] before.services.contains_key(k) ==> self@.services[k]
                        == before.services[k],
                actions@ == before.terminations(id as nat),
            decreases bound - id,
        {
            match self.services_map.remove(&id) {
                Some(mut svc) => {
                    assert(before.services.contains_key(id));
                    match stop_service(&mut svc, now) {
                        Some(pid) => {
                            actions.push(Action::Terminate(pid));
                        },
                        None => {},
                    }
                    self.services_map.insert(id, svc);
                },
                None => {},
            }
            proof {
                assert(actions@ =~= before.terminations(id as nat) + before.termination_of(id));
            }
            id = id + 1;
        }
        proof {
            assert(self@.services =~= before.all_stopped_at(now).services);
        }
        actions
    }

    /// Whether every service is stopped.
    pub fn all_stopped(&self) -> (quiet: bool)
        requires
            self.wf(),
        ensures
            quiet == self@.quiet(),
    {
        broadcast use group_hash_axioms;

        let bound: u64 = self.ids.0 as u64;
        let mut id: u64 = 0;
        while id < bound
            invariant
                id <= bound,
                bound == self@.next_id,
                self.wf(),
                forall|k: u64|
                    k < id && #[trigger] self@.services.contains_key(k)
                        ==> self@.services[k].state is Stopped,
            decreases bound - id,
        {
            match self.services_map.get(&id) {
                Some(svc) => {
                    if !svc.state.is_stopped() {
                        assert(self@.services.contains_key(id));
                        return false;
                    }
                },
                None => {},
            }
            id = id + 1;
        }
        true
    }

    /// Applies one service of the registry to a new configuration: the
    /// first half of a reload, for the service under `id`.
    fn reload_existing(
        &mut self,
        id: u64,
        cfg: &Vec<ServiceConfig>,
        now: u64,
        actions: &mut Vec<Action>,
        Ghost(before): Ghost<RegistryView>,
    )
        requires
            before.wf(),
            config_wf(configs_view(cfg@)),
            now + GRACE_PERIOD <= u64::MAX,
            id < before.next_id,
            old(self)@.services.contains_key(id) == before.services.contains_key(id),
            before.services.contains_key(id) ==> old(self)@.services[id] == before.services[id],
        ensures
            final(self)@.pids == old(self)@.pids,
            final(self)@.next_id == old(self)@.next_id,
            forall|k: u64|
                k != id ==> final(self)@.services.contains_key(k)
                    == old(self)@.services.contains_key(k),
            forall|k: u64|
                k != id && old(self)@.services.contains_key(k) ==> final(self)@.services[k]
                    == old(self)@.services[k],
            final(self)@.services.contains_key(id) == (before.services.contains_key(id)
                && before.services[id].reloaded(
                config_entry(configs_view(cfg@), before.services[id].name),
                now,
            ) is Some),
            final(self)@.services.contains_key(id) ==> final(self)@.services[id]
                == before.services[id].reloaded(
                config_entry(configs_view(cfg@), before.services[id].name),
                now,
            )->0,
            final(actions)@ == old(actions)@ + (if before.services.contains_key(id) {
                before.services[id].reload_action(
                    config_entry(configs_view(cfg@), before.services[id].name),
                )
            } else {
                Seq::empty()
            }),
    {
        broadcast use group_hash_axioms;

        let ghost view = configs_view(cfg@);
        let taken = self.services_map.remove(&id);
        match taken {
            None => {
                assert(self.services_map@ =~= old(self).services_map@);
                assert(actions@ =~= old(actions)@ + Seq::<Action>::empty());
            },
            Some(mut svc) => {
                assert(before.services.contains_key(id));
                let ghost rec = before.services[id];
                let ghost entry = config_entry(view, rec.name);
                match find_config(cfg, &svc.name) {
                    None => {
                        if svc.state.is_stopped() {
                            assert(actions@ =~= old(actions)@ + Seq::<Action>::empty());
                        } else {
                            match stop_service(&mut svc, now) {
                                Some(pid) => {
                                    actions.push(Action::Terminate(pid));
                                },
                                None => {
                                    assert(actions@ =~= old(actions)@ + Seq::<Action>::empty());
                                },
                            }
                            svc.pending = PendingAction::Remove;
                            self.services_map.insert(id, svc);
                        }
                    },
                    Some(j) => {
                        proof {
                            let chosen = choose|i: int|
                                0 <= i < view.len() && (#[trigger] view[i]).name == rec.name;
                            assert(view[j as int].name == rec.name);
                            if chosen < j {
                                assert(view[chosen].name != view[j as int].name);
                            } else if j < chosen {
                                assert(view[j as int].name != view[chosen].name);
                            }
                            assert(entry == Some(view[j as int]));
                        }
                        if strings_equal(&cfg[j].argv, &svc.argv) {
                            assert(actions@ =~= old(actions)@ + Seq::<Action>::empty());
                        } else if svc.state.is_stopped() {
                            svc.argv = clone_strings(&cfg[j].argv);
                            actions.push(Action::Spawn(id));
                        } else {
                            match stop_service(&mut svc, now) {
                                Some(pid) => {
                                    actions.push(Action::Terminate(pid));
                                },
                                None => {
                                    assert(actions@ =~= old(actions)@ + Seq::<Action>::empty());
                                },
                            }
                            svc.argv = clone_strings(&cfg[j].argv);
                            svc.pending = PendingAction::Restart;
                        }
                        self.services_map.insert(id, svc);
                    },
                }
            },
        }
    }

    /// Adds the service that `entry` describes, under the next id, and
    /// returns that id.
    fn add_service(&mut self, entry: &ServiceConfig) -> (id: u64)
        requires
            old(self)@.next_id <= MAX_SERVICE_ID,
        ensures
            id == old(self)@.next_id,
            final(self)@.next_id == id + 1,
            final(self)@.pids == old(self)@.pids,
            final(self)@.services == old(self)@.services.insert(id, added_record(id, entry@)),
    {
        broadcast use group_hash_axioms;

        let id: u64 = self.ids.0 as u64;
        self.ids = ServiceIdGen((id + 1) as u32);
        let svc = Service::new(id, entry.name.clone(), clone_strings(&entry.argv));
        self.services_map.insert(id, svc);
        assert(self@.services =~= old(self)@.services.insert(id, added_record(id, entry@)));
        id
    }

    /// Brings the registry in line with a new configuration, at time
    /// `now`, and returns what the caller has to carry out for it.
    ///
    /// Services are matched with the entries of `cfg` by name.
    /// - A service that `cfg` does not name is removed: at once when it is
    ///   stopped; after its reap when it is running, which is then asked to
    ///   stop, or stopping.
    /// - A service that `cfg` names with another command line takes that
    ///   command line. A stopped one is to be spawned; a running one is
    ///   asked to stop and marked for restart; a stopping one is marked for
    ///   restart.
    /// - An entry that names no service of the registry adds one, under the
    ///   next id, which is to be spawned.
    ///
    /// A configuration with an invalid entry or with a name twice is
    /// refused, and so is one that adds more services than ids are left;
    /// the registry then stays as it is.
    pub fn reload(&mut self, cfg: &Vec<ServiceConfig>, now: u64) -> (res: Result<
        Vec<Action>,
        ReloadError,
    >)
        requires
            old(self).wf(),
            now + GRACE_PERIOD <= u64::MAX,
        ensures
            final(self).wf(),
            match old(self)@.reload_refusal(configs_view(cfg@)) {
                Some(e) => res == Err::<Vec<Action>, ReloadError>(e) && final(self)@ == old(self)@,
                None => res is Ok && old(self)@.reloads_to(configs_view(cfg@), now, final(self)@)
                    && res->Ok_0@ == old(self)@.reload_actions(configs_view(cfg@)),
            },
    {
        broadcast use group_hash_axioms;

        let ghost before = self@;
        let ghost view = configs_view(cfg@);
        if !is_valid_config(cfg) {
            return Err(ReloadError::InvalidConfig);
        }
        let first: u64 = self.ids.0 as u64;
        let room: u64 = MAX_SERVICE_ID + 1 - first;

        // Which entries name a service that is not there yet, and how many.
        let mut fresh: Vec<bool> = Vec::new();
        let mut count: u64 = 0;
        let mut j: usize = 0;
        while j < cfg.len()
            invariant
                j <= cfg.len(),
                self.wf(),
                self@ == before,
                view == configs_view(cfg@),
                fresh@.len() == j,
                forall|i: int| 0 <= i < j ==> fresh@[i] == before.is_new(view, i),
                count == before.added_before(view, j as int),
                count <= room,
                room == MAX_SERVICE_ID + 1 - before.next_id,
                config_wf(view),
            decreases cfg.len() - j,
        {
            let is_new = self.find_by_name(&cfg[j].name).is_none();
            fresh.push(is_new);
            if is_new {
                if count == room {
                    proof {
                        assert(before.added_before(view, j + 1) == count + 1);
                        before.lemma_added_monotone(view, j + 1, view.len() as int);
                    }
                    return Err(ReloadError::IdsExhausted);
                }
                count = count + 1;
            }
            j = j + 1;
        }

        // The services that are there: removed, changed or left alone.
        let mut actions: Vec<Action> = Vec::new();
        let mut id: u64 = 0;
        while id < first
            invariant
                id <= first,
                first == before.next_id,
                before.wf(),
                config_wf(view),
                view == configs_view(cfg@),
                now + GRACE_PERIOD <= u64::MAX,
                self@.pids == before.pids,
                self@.next_id == before.next_id,
                forall|k: u64|
                    k < id ==> (#[trigger] self@.services.contains_key(k)) == (
                    before.services.contains_key(k) && before.services[k].reloaded(
                        config_entry(view, before.services[k].name),
                        now,
                    ) is Some),
                forall|k: u64|
                    k < id && #[trigger] self@.services.contains_key(k) ==> self@.services[k]
                        == before.services[k].reloaded(
                        config_entry(view, before.services[k].name),
                        now,
                    )->0,
                forall|k: u64|
                    k >= id ==> (#[trigger] self@.services.contains_key(k))
                        == before.services.contains_key(k),
                forall|k: u64|
                    k >= id && #[trigger] self@.services.contains_key(k) ==> self@.services[k]
                        == before.services[k],
                actions@ == before.existing_actions(view, id as nat),
            decreases first - id,
        {
            assert(self@.services.contains_key(id) == before.services.contains_key(id));
            self.reload_existing(id, cfg, now, &mut actions, Ghost(before));
            id = id + 1;
        }

        // The services that the configuration adds.
        let ghost middle = self@;
        let mut j: usize = 0;
        while j < cfg.len()
            invariant
                j <= cfg.len(),
                first == before.next_id,
                before.wf(),
                view == configs_view(cfg@),
                fresh@.len() == cfg.len(),
                forall|i: int| 0 <= i < cfg.len() ==> fresh@[i] == before.is_new(view, i),
                first + before.added_before(view, view.len() as int) <= MAX_SERVICE_ID + 1,
                self@.pids == before.pids,
                self@.next_id == first + before.added_before(view, j as int),
                forall|k: u64|
                    k < first ==> (#[trigger] self@.services.contains_key(k))
                        == middle.services.contains_key(k),
                forall|k: u64|
                    k < first && #[trigger] self@.services.contains_key(k) ==> self@.services[k]
                        == middle.services[k],
                forall|k: u64|
                    k >= first ==> (#[trigger] self@.services.contains_key(k)) == (k
                        < self@.next_id),
                forall|i: int|
                    0 <= i < j && before.is_new(view, i) ==> self@.services[#[trigger]
                    before.added_id(view, i)] == added_record(before.added_id(view, i), view[i]),
                actions@ == before.existing_actions(view, first as nat) + before.added_actions(
                    view,
                    j as int,
                ),
            decreases cfg.len() - j,
        {
            if fresh[j] {
                proof {
                    before.lemma_added_monotone(view, j + 1, view.len() as int);
                    assert(before.added_before(view, j + 1) == before.added_before(view, j as int)
                        + 1);
                }
                let new_id = self.add_service(&cfg[j]);
                actions.push(Action::Spawn(new_id));
                proof {
                    assert(new_id == before.added_id(view, j as int));
                    assert forall|i: int|
                        0 <= i < j && before.is_new(view, i) implies self@.services[#[trigger]
                    before.added_id(view, i)] == added_record(
                        before.added_id(view, i),
                        view[i],
                    ) by {
                        before.lemma_added_monotone(view, i + 1, j as int);
                        assert(before.added_id(view, i) != new_id);
                    }
                }
            }
            proof {
                assert(actions@ =~= before.existing_actions(view, first as nat)
                    + before.added_actions(view, j + 1));
            }
            j = j + 1;
        }
        proof {
            assert(before.reloads_to(view, now, self@));
            before.lemma_reload_wf(view, now, self@);
        }
        Ok(actions)
    }

    /// A copy of every record, by rising id: the state of the registry at
    /// this moment.
    pub fn snapshot(&self) -> (records: Vec<Service>)
        requires
            self.wf(),
        ensures
            services_view(records@) == self@.records(self@.next_id as nat),
    {
        broadcast use group_hash_axioms;

        let bound: u64 = self.ids.0 as u64;
        let mut records: Vec<Service> = Vec::new();
        let mut id: u64 = 0;
        assert(services_view(records@) =~= self@.records(0));
        while id < bound
            invariant
                id <= bound,
                bound == self@.next_id,
                self.wf(),
                services_view(records@) == self@.records(id as nat),
            decreases bound - id,
        {
            let ghost so_far = records@;
            match self.services_map.get(&id) {
                Some(svc) => {
                    assert(self@.services.contains_key(id));
                    records.push(svc.clone());
                    assert(services_view(records@) =~= services_view(so_far) + seq![
                        self@.services[id],
                    ]);
                },
                None => {
                    assert(services_view(records@) =~= services_view(so_far) + Seq::<
                        ServiceView,
                    >::empty());
                },
            }
            id = id + 1;
        }
        records
    }
}

impl Default for ServiceRegistry {
    fn default() -> (registry: Self)
        ensures
            registry.wf(),
            registry@.services == Map::<u64, ServiceView>::empty(),
            registry@.pids == Map::<i32, u64>::empty(),
            registry@.next_id == 0,
    {
        ServiceRegistry::new()
    }
}

impl Clone for ServiceRegistry {
    fn clone(&self) -> (copy: Self)
        ensures
            copy@ == self@,
    {
        let copy = ServiceRegistry {
            services_map: self.services_map.clone(),
            pids_map: self.pids_map.clone(),
            ids: self.ids,
        };
        assert(copy@.services =~= self@.services);
        copy
    }
}

/// Takes note of a child that was reaped: process `pid` ended in the way
/// `exit`.
///
/// The process is looked up in the `pid -> service_id` map; one that the
/// registry does not know is ignored. Otherwise the entry is removed, the
/// service has no process any more and is stopped, with the reason derived
/// from `exit` and from the state that the service was in. Then what was
/// pending on the service is applied: a service that was to be removed
/// leaves the registry, and one that was to be restarted is named in the
/// result, for the caller to start it.
pub fn handle_sigchld(registry: &mut ServiceRegistry, pid: i32, exit: ChildExit) -> (outcome:
    ReapOutcome)
    requires
        old(registry).wf(),
    ensures
        final(registry).wf(),
        final(registry)@ == old(registry)@.reaped(pid, exit),
        outcome == old(registry)@.reap_outcome(pid, exit),
{
    broadcast use group_hash_axioms;

    let svc_id = match registry.pids_map.remove(&pid) {
        None => {
            assert(registry.pids_map@ =~= old(registry).pids_map@);
            return ReapOutcome::UnknownPid;
        },
        Some(id) => id,
    };
    let taken = registry.services_map.remove(&svc_id);
    let mut svc = taken.unwrap();
    let stopping = match svc.state {
        ServiceState::Stopping(_) => true,
        _ => false,
    };
    let reason = derive_stop_reason(exit, stopping);
    let pending = svc.pending;
    svc.pid = None;
    svc.state = ServiceState::Stopped(reason);
    svc.pending = PendingAction::Idle;
    match pending {
        PendingAction::Remove => {
            proof {
                assert(registry@.services =~= old(registry)@.reaped(pid, exit).services);
            }
            ReapOutcome::Removed(svc_id, reason)
        },
        PendingAction::Idle => {
            registry.services_map.insert(svc_id, svc);
            proof {
                assert(registry@.services =~= old(registry)@.reaped(pid, exit).services);
            }
            ReapOutcome::Stopped(svc_id, reason)
        },
        PendingAction::Restart => {
            registry.services_map.insert(svc_id, svc);
            proof {
                assert(registry@.services =~= old(registry)@.reaped(pid, exit).services);
            }
            ReapOutcome::Restart(svc_id, reason)
        },
    }
}

} // verus!

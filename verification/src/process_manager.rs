//! The process supervisor: a registry of named services, each with
//! its configuration, lifecycle state and (abstract) child-process
//! handle.  Spawning and signalling are outside work: the caller
//! hands them in as functions, and every registry decision — when to
//! spawn, when a stop is a no-op, what a health outcome does to the
//! state machine — is made and verified here.

use vstd::prelude::*;
use vstd::string::*;
use crate::config::Config;
use crate::health_monitor::{HealthStatus, HealthStatusV, res_view};
use crate::numfmt::{dec_digits, u64_to_dec};
use crate::text::{clone_opt_string, clone_pair_vec, clone_string_vec, opt_str_like, str_eq};

verus! {

/// Everything needed to start one service.
pub struct ProcessConfig {
    pub name: String,
    pub command: String,
    pub args: Vec<String>,
    pub working_dir: String,
    pub env: Vec<(String, String)>,
    pub health_check_url: Option<String>,
    pub health_check_interval_ms: u64,
    pub startup_timeout_ms: u64,
    pub restart_policy: RestartPolicy,
    pub log_file: Option<String>,
}

/// Whether an unhealthy or exited service is started again.
#[derive(Clone, Copy, Debug, PartialEq, Eq, Structural)]
pub enum RestartPolicy {
    Never,
    OnFailure,
    Always,
    UnlessStopped,
}

/// Lifecycle state of one service.
#[derive(Debug)]
pub enum ProcessState {
    Starting,
    Running,
    Stopping,
    Stopped,
    Failed(String),
    Restarting,
}

impl Clone for ProcessState {
    /// A copy equal to the original.
    fn clone(&self) -> (r: Self)
        ensures
            r == *self,
    {
        match self {
            ProcessState::Starting => ProcessState::Starting,
            ProcessState::Running => ProcessState::Running,
            ProcessState::Stopping => ProcessState::Stopping,
            ProcessState::Stopped => ProcessState::Stopped,
            ProcessState::Failed(m) => ProcessState::Failed(m.clone()),
            ProcessState::Restarting => ProcessState::Restarting,
        }
    }
}

/// One registry entry: the stored configuration and the live state.
/// The handle is an opaque token for the child process, owned
/// exclusively here; it is taken out before any signal is sent.
pub struct ServiceProcess {
    pub config: ProcessConfig,
    pub state: ProcessState,
    pub handle: Option<u64>,
    pub started_at: Option<i64>,
    pub restart_count: u32,
    pub last_health_check: Option<i64>,
    pub health_status: HealthStatus,
}

/// Errors of the supervisor.
#[derive(Debug)]
pub enum SupervisorError {
    /// The executable could not be launched; carries the OS error text.
    Spawn(String),
    /// An operation named a service that was never started.
    NotFound(String),
}

/// The supervisor: its service registry, keyed by unique name, and
/// the workspace it belongs to.
pub struct ProcessManager {
    pub services: Vec<ServiceProcess>,
    pub config: Config,
}

/// View-level equality of two service configurations.
pub open spec fn config_like(a: ProcessConfig, b: ProcessConfig) -> bool {
    &&& a.name@ == b.name@
    &&& a.command@ == b.command@
    &&& a.args.deep_view() == b.args.deep_view()
    &&& a.working_dir@ == b.working_dir@
    &&& a.env.deep_view() == b.env.deep_view()
    &&& opt_str_like(a.health_check_url, b.health_check_url)
    &&& a.health_check_interval_ms == b.health_check_interval_ms
    &&& a.startup_timeout_ms == b.startup_timeout_ms
    &&& a.restart_policy == b.restart_policy
    &&& opt_str_like(a.log_file, b.log_file)
}

impl Clone for ProcessConfig {
    /// A field-for-field copy.
    fn clone(&self) -> (r: Self)
        ensures
            config_like(*self, r),
    {
        ProcessConfig {
            name: self.name.clone(),
            command: self.command.clone(),
            args: clone_string_vec(&self.args),
            working_dir: self.working_dir.clone(),
            env: clone_pair_vec(&self.env),
            health_check_url: clone_opt_string(&self.health_check_url),
            health_check_interval_ms: self.health_check_interval_ms,
            startup_timeout_ms: self.startup_timeout_ms,
            restart_policy: self.restart_policy,
            log_file: clone_opt_string(&self.log_file),
        }
    }
}

/// First index of the registry entry named `name`.
pub open spec fn find_svc(s: Seq<ServiceProcess>, name: Seq<char>) -> Option<int>
    decreases s.len(),
{
    if s.len() == 0 {
        None
    } else if s[0].config.name@ == name {
        Some(0)
    } else {
        match find_svc(s.drop_first(), name) {
            Some(i) => Some(i + 1),
            None => None,
        }
    }
}

proof fn lemma_find_svc_hit(s: Seq<ServiceProcess>, name: Seq<char>, i: int)
    requires
        0 <= i < s.len(),
        s[i].config.name@ == name,
        forall|j: int| 0 <= j < i ==> s[j].config.name@ != name,
    ensures
        find_svc(s, name) == Some(i),
    decreases i,
{
    if i > 0 {
        lemma_find_svc_hit(s.drop_first(), name, i - 1);
    }
}

proof fn lemma_find_svc_miss(s: Seq<ServiceProcess>, name: Seq<char>)
    requires
        forall|j: int| 0 <= j < s.len() ==> s[j].config.name@ != name,
    ensures
        find_svc(s, name) is None,
    decreases s.len(),
{
    if s.len() > 0 {
        lemma_find_svc_miss(s.drop_first(), name);
    }
}

/// A freshly spawned (or failed) registry entry: the stored
/// configuration, the carried-over restart counter, and the result
/// of the spawn attempt.
pub open spec fn spawned_record(
    rec: ServiceProcess,
    config: ProcessConfig,
    prev_count: u32,
    now_millis: i64,
    r: Result<(), SupervisorError>,
) -> bool {
    &&& rec.config == config
    &&& rec.restart_count == prev_count
    &&& rec.last_health_check is None
    &&& rec.health_status is Unknown
    &&& match r {
        Ok(u) => rec.state is Running && rec.handle is Some && rec.started_at == Some(now_millis),
        Err(e) => {
            &&& rec.state matches ProcessState::Failed(m)
            &&& e matches SupervisorError::Spawn(m2)
            &&& (rec.state matches ProcessState::Failed(m) && e matches SupervisorError::Spawn(m2)
                ==> m@ == m2@)
            &&& rec.handle is None
            &&& rec.started_at is None
        },
    }
}

/// The recorded outcome came from one call of the given spawner on a
/// copy of the given configuration: a success stores exactly the
/// handle the spawner returned, and a failure returns exactly the
/// message the spawner gave.
pub open spec fn spawn_outcome_of<F: Fn(ProcessConfig) -> Result<u64, String>>(
    spawner: F,
    config: ProcessConfig,
    rec: ServiceProcess,
    r: Result<(), SupervisorError>,
) -> bool {
    match r {
        Ok(u) => exists|c: ProcessConfig, h: u64|
            config_like(config, c) && #[trigger] call_ensures(spawner, (c,), Ok(h))
                && rec.handle == Some(h),
        Err(e) => e matches SupervisorError::Spawn(m) && (exists|c: ProcessConfig|
            config_like(config, c) && #[trigger] call_ensures(spawner, (c,), Err(m))),
    }
}

impl ProcessManager {
    /// Unique service names.
    pub open spec fn wf(self) -> bool {
        forall|i: int, j: int|
            0 <= i < j < self.services@.len() ==> (#[trigger] self.services@[i].config.name@)
                != (#[trigger] self.services@[j].config.name@)
    }

    /// The registry entry of a name, if any.
    pub open spec fn record_of(self, name: Seq<char>) -> Option<ServiceProcess> {
        match find_svc(self.services@, name) {
            Some(i) => Some(self.services@[i]),
            None => None,
        }
    }

    /// Whether a name is registered and currently running.
    pub open spec fn running(self, name: Seq<char>) -> bool {
        match self.record_of(name) {
            Some(rec) => rec.state is Running,
            None => false,
        }
    }

    /// A supervisor with an empty registry.
    pub fn new(config: Config) -> (m: ProcessManager)
        ensures
            m.wf(),
            m.services@.len() == 0,
    {
        ProcessManager { services: Vec::new(), config }
    }

    /// Exec search for a registered service name.
    fn find_index(&self, name: &str) -> (r: Option<usize>)
        ensures
            (match r {
                Some(i) => find_svc(self.services@, name@) == Some(i as int) && i
                    < self.services@.len() && self.services@[i as int].config.name@ == name@,
                None => find_svc(self.services@, name@) is None && forall|j: int|
                    0 <= j < self.services@.len() ==> (#[trigger] self.services@[j]).config.name@
                        != name@,
            }),
    {
        let n = self.services.len();
        for i in 0..n
            invariant
                n == self.services.len(),
                forall|j: int| 0 <= j < i ==> (#[trigger] self.services@[j]).config.name@ != name@,
        {
            if str_eq(self.services[i].config.name.as_str(), name) {
                proof {
                    lemma_find_svc_hit(self.services@, name@, i as int);
                }
                return Some(i);
            }
        }
        proof {
            lemma_find_svc_miss(self.services@, name@);
        }
        None
    }

    /// Start a service.  Starting a name that is already `Running` is
    /// a no-op success: no second process is spawned and the registry
    /// is untouched.  Otherwise the caller's `spawner` is invoked
    /// once with the configuration; on success the entry is `Running`
    /// with a fresh start time, on failure it is `Failed` with the
    /// spawn error, which is also returned.  An existing entry keeps
    /// its restart counter; a new entry starts at zero.
    pub fn start_service<F: Fn(ProcessConfig) -> Result<u64, String>>(
        &mut self,
        config: ProcessConfig,
        now_millis: i64,
        spawner: F,
    ) -> (r: Result<(), SupervisorError>)
        requires
            old(self).wf(),
            forall|c: ProcessConfig| #[trigger] call_requires(spawner, (c,)),
        ensures
            final(self).wf(),
            old(self).running(config.name@) ==> r is Ok && final(self).services@ == old(self).services@,
            !old(self).running(config.name@) ==> (match find_svc(
                old(self).services@,
                config.name@,
            ) {
                Some(i) => {
                    &&& final(self).services@.len() == old(self).services@.len()
                    &&& forall|j: int|
                        0 <= j < old(self).services@.len() && j != i
                            ==> #[trigger] final(self).services@[j] == old(self).services@[j]
                    &&& spawned_record(
                        final(self).services@[i],
                        config,
                        old(self).services@[i].restart_count,
                        now_millis,
                        r,
                    )
                    &&& spawn_outcome_of(spawner, config, final(self).services@[i], r)
                },
                None => {
                    &&& final(self).services@.len() == old(self).services@.len() + 1
                    &&& forall|j: int|
                        0 <= j < old(self).services@.len() ==> #[trigger] final(self).services@[j]
                            == old(self).services@[j]
                    &&& spawned_record(
                        final(self).services@[old(self).services@.len() as int],
                        config,
                        0,
                        now_millis,
                        r,
                    )
                    &&& spawn_outcome_of(
                        spawner,
                        config,
                        final(self).services@[old(self).services@.len() as int],
                        r,
                    )
                },
            }),
    {
        let idx = self.find_index(config.name.as_str());
        let prev_count: u32 = match idx {
            Some(i) => {
                if matches!(self.services[i].state, ProcessState::Running) {
                    return Ok(());
                }
                self.services[i].restart_count
            },
            None => 0,
        };
        let ghost gcfg = config;
        let cloned = config.clone();
        let ghost gc = cloned;
        let spawn_res = spawner(cloned);
        match spawn_res {
            Ok(handle) => {
                let rec = ServiceProcess {
                    config,
                    state: ProcessState::Running,
                    handle: Some(handle),
                    started_at: Some(now_millis),
                    restart_count: prev_count,
                    last_health_check: None,
                    health_status: HealthStatus::Unknown,
                };
                match idx {
                    Some(i) => self.services.set(i, rec),
                    None => self.services.push(rec),
                }
                proof {
                    assert(config_like(gcfg, gc));
                    assert(call_ensures(spawner, (gc,), Ok::<u64, String>(handle)));
                }
                Ok(())
            },
            Err(msg) => {
                let err_text = msg.clone();
                let ghost gmsg = msg;
                let rec = ServiceProcess {
                    config,
                    state: ProcessState::Failed(msg),
                    handle: None,
                    started_at: None,
                    restart_count: prev_count,
                    last_health_check: None,
                    health_status: HealthStatus::Unknown,
                };
                match idx {
                    Some(i) => self.services.set(i, rec),
                    None => self.services.push(rec),
                }
                proof {
                    assert(config_like(gcfg, gc));
                    assert(err_text == gmsg);
                    assert(call_ensures(spawner, (gc,), Err::<u64, String>(gmsg)));
                }
                Err(SupervisorError::Spawn(err_text))
            },
        }
    }
}

} // verus!

verus! {

/// Message recorded when a health probe answers with a non-success
/// status.
pub open spec fn check_failed_status_msg(code: int) -> Seq<char> {
    "Health check failed with status: "@ + dec_digits(code)
}

/// Message recorded when a health probe fails in transport.
pub open spec fn check_failed_msg(m: Seq<char>) -> Seq<char> {
    "Health check failed: "@ + m
}

/// The supervisor's health classification: a 2xx status is healthy,
/// everything else — error status, timeout, transport failure — is
/// unhealthy.
pub open spec fn supervisor_status(o: Result<u16, Seq<char>>) -> HealthStatusV {
    match o {
        Ok(code) => if 200 <= code && code < 300 {
            HealthStatusV::Healthy
        } else {
            HealthStatusV::Unhealthy(check_failed_status_msg(code as int))
        },
        Err(m) => HealthStatusV::Unhealthy(check_failed_msg(m)),
    }
}

/// A policy under which a sustained unhealthy status drives a restart.
pub open spec fn policy_restarts(p: RestartPolicy) -> bool {
    p == RestartPolicy::OnFailure || p == RestartPolicy::Always
}

/// A stopped registry entry: the handle has been taken, the state is
/// `Stopped`, everything else is kept.
pub open spec fn stopped_record(prev: ServiceProcess, cur: ServiceProcess) -> bool {
    &&& cur.config == prev.config
    &&& cur.state is Stopped
    &&& cur.handle is None
    &&& cur.started_at == prev.started_at
    &&& cur.restart_count == prev.restart_count
    &&& cur.last_health_check == prev.last_health_check
    &&& cur.health_status == prev.health_status
}

/// A restarted registry entry: like a fresh spawn of the stored
/// configuration, with the restart counter stepped by exactly one.
pub open spec fn restarted_record(
    prev: ServiceProcess,
    cur: ServiceProcess,
    now_millis: i64,
    r: Result<(), SupervisorError>,
) -> bool {
    &&& prev.restart_count < u32::MAX
    &&& spawned_record(cur, prev.config, (prev.restart_count + 1) as u32, now_millis, r)
}

/// How one health-probe outcome transforms a registry entry: the
/// classified status and check time are recorded, and a `Running`
/// service under a restarting policy is marked `Restarting` on an
/// unhealthy probe — nothing else changes.
pub open spec fn health_outcome_applied(
    prev: ServiceProcess,
    cur: ServiceProcess,
    o: Result<u16, Seq<char>>,
    now_millis: i64,
) -> bool {
    let st = supervisor_status(o);
    &&& cur.config == prev.config
    &&& cur.handle == prev.handle
    &&& cur.started_at == prev.started_at
    &&& cur.restart_count == prev.restart_count
    &&& cur.health_status@ == st
    &&& cur.last_health_check == Some(now_millis)
    &&& cur.state == (if st is Unhealthy && policy_restarts(prev.config.restart_policy)
        && prev.state is Running {
        ProcessState::Restarting
    } else {
        prev.state
    })
}

/// Exec classification of one probe outcome, the supervisor's way.
pub fn supervisor_classify(o: &Result<u16, String>) -> (st: HealthStatus)
    ensures
        st@ == supervisor_status(res_view(*o)),
{
    match o {
        Ok(code) => {
            if 200 <= *code && *code < 300 {
                HealthStatus::Healthy
            } else {
                let mut m = String::from_str("Health check failed with status: ");
                let d = u64_to_dec(*code as u64);
                m.append(d.as_str());
                HealthStatus::Unhealthy(m)
            }
        },
        Err(e) => {
            let mut m = String::from_str("Health check failed: ");
            m.append(e.as_str());
            HealthStatus::Unhealthy(m)
        },
    }
}

impl ProcessManager {
    /// Stop a service.  A name that was never registered, or a
    /// service already `Stopped`, is a no-op success — never an
    /// error.  Otherwise the entry passes through `Stopping`, its
    /// handle is taken out (so it cannot be signalled twice), the
    /// caller's `stopper` delivers the signals, and the final state
    /// is `Stopped` whatever the signalling did.
    pub fn stop_service<F: Fn(u64, bool)>(&mut self, name: &str, force: bool, stopper: F) -> (r:
        Result<(), SupervisorError>)
        requires
            old(self).wf(),
            forall|h: u64, f: bool| #[trigger] call_requires(stopper, (h, f)),
        ensures
            final(self).wf(),
            r is Ok,
            (match find_svc(old(self).services@, name@) {
                None => final(self).services@ == old(self).services@,
                Some(i) => if old(self).services@[i].state is Stopped {
                    final(self).services@ == old(self).services@
                } else {
                    &&& final(self).services@.len() == old(self).services@.len()
                    &&& forall|j: int|
                        0 <= j < old(self).services@.len() && j != i
                            ==> #[trigger] final(self).services@[j] == old(self).services@[j]
                    &&& stopped_record(old(self).services@[i], final(self).services@[i])
                },
            }),
    {
        let idx = self.find_index(name);
        match idx {
            None => Ok(()),
            Some(i) => {
                if matches!(self.services[i].state, ProcessState::Stopped) {
                    return Ok(());
                }
                self.services[i].state = ProcessState::Stopping;
                let h = self.services[i].handle;
                self.services[i].handle = None;
                match h {
                    Some(hh) => stopper(hh, force),
                    None => (),
                }
                self.services[i].state = ProcessState::Stopped;
                Ok(())
            },
        }
    }

    /// Restart a service: fails with `NotFound` for a name that was
    /// never started; otherwise stops it (gracefully), spawns the
    /// stored configuration again, and steps the restart counter by
    /// exactly one — whether or not the new spawn succeeded, so the
    /// state afterwards is `Running` or `Failed`, never a transient.
    pub fn restart_service<F: Fn(ProcessConfig) -> Result<u64, String>, G: Fn(u64, bool)>(
        &mut self,
        name: &str,
        now_millis: i64,
        spawner: F,
        stopper: G,
    ) -> (r: Result<(), SupervisorError>)
        requires
            old(self).wf(),
            forall|c: ProcessConfig| #[trigger] call_requires(spawner, (c,)),
            forall|h: u64, f: bool| #[trigger] call_requires(stopper, (h, f)),
            (match find_svc(old(self).services@, name@) {
                Some(i) => old(self).services@[i].restart_count < u32::MAX,
                None => true,
            }),
        ensures
            final(self).wf(),
            (match find_svc(old(self).services@, name@) {
                None => final(self).services@ == old(self).services@ && (r matches Err(
                    SupervisorError::NotFound(n),
                ) && n@ == name@),
                Some(i) => {
                    &&& final(self).services@.len() == old(self).services@.len()
                    &&& forall|j: int|
                        0 <= j < old(self).services@.len() && j != i
                            ==> #[trigger] final(self).services@[j] == old(self).services@[j]
                    &&& restarted_record(
                        old(self).services@[i],
                        final(self).services@[i],
                        now_millis,
                        r,
                    )
                    &&& spawn_outcome_of(
                        spawner,
                        old(self).services@[i].config,
                        final(self).services@[i],
                        r,
                    )
                    &&& (r is Ok <==> final(self).services@[i].state is Running)
                },
            }),
    {
        let idx = self.find_index(name);
        let i = match idx {
            None => {
                return Err(SupervisorError::NotFound(String::from_str(name)));
            },
            Some(i) => i,
        };
        let prev_count = self.services[i].restart_count;

        if !matches!(self.services[i].state, ProcessState::Stopped) {
            self.services[i].state = ProcessState::Stopping;
            let h = self.services[i].handle;
            self.services[i].handle = None;
            match h {
                Some(hh) => stopper(hh, false),
                None => (),
            }
            self.services[i].state = ProcessState::Stopped;
        }

        let cloned = self.services[i].config.clone();
        let ghost gc = cloned;
        proof {
            assert(config_like(old(self).services@[i as int].config, gc));
        }
        let spawn_res = spawner(cloned);
        self.services[i].restart_count = prev_count + 1;
        self.services[i].last_health_check = None;
        self.services[i].health_status = HealthStatus::Unknown;
        match spawn_res {
            Ok(handle) => {
                self.services[i].state = ProcessState::Running;
                self.services[i].handle = Some(handle);
                self.services[i].started_at = Some(now_millis);
                proof {
                    assert(call_ensures(spawner, (gc,), Ok::<u64, String>(handle)));
                }
                Ok(())
            },
            Err(msg) => {
                let err_text = msg.clone();
                let ghost gmsg = msg;
                self.services[i].state = ProcessState::Failed(msg);
                self.services[i].handle = None;
                self.services[i].started_at = None;
                proof {
                    assert(err_text == gmsg);
                    assert(call_ensures(spawner, (gc,), Err::<u64, String>(gmsg)));
                }
                Err(SupervisorError::Spawn(err_text))
            },
        }
    }

    /// A read-only snapshot of one service's state and health.
    pub fn get_service_status(&self, name: &str) -> (r: Option<(ProcessState, HealthStatus)>)
        requires
            self.wf(),
        ensures
            (find_svc(self.services@, name@) is None <==> r is None),
            (match find_svc(self.services@, name@) {
                Some(i) => (match r {
                    Some(p) => p.0 == self.services@[i].state && p.1
                        == self.services@[i].health_status,
                    None => false,
                }),
                None => true,
            }),
    {
        match self.find_index(name) {
            Some(i) => Some(
                (self.services[i].state.clone(), self.services[i].health_status.clone()),
            ),
            None => None,
        }
    }

    /// A read-only snapshot of every service, in registry order.
    pub fn list_services(&self) -> (r: Vec<(String, ProcessState, HealthStatus)>)
        ensures
            r@.len() == self.services@.len(),
            forall|k: int|
                0 <= k < r@.len() ==> (#[trigger] r@[k]).0@ == self.services@[k].config.name@
                    && r@[k].1 == self.services@[k].state && r@[k].2
                    == self.services@[k].health_status,
    {
        let mut out: Vec<(String, ProcessState, HealthStatus)> = Vec::new();
        let n = self.services.len();
        for i in 0..n
            invariant
                n == self.services@.len(),
                out@.len() == i,
                forall|k: int|
                    0 <= k < i ==> (#[trigger] out@[k]).0@ == self.services@[k].config.name@
                        && out@[k].1 == self.services@[k].state && out@[k].2
                        == self.services@[k].health_status,
        {
            let s = &self.services[i];
            out.push((s.config.name.clone(), s.state.clone(), s.health_status.clone()));
        }
        out
    }

    /// Best-effort stop of every registered service; individual
    /// signalling failures are the stopper's business and never
    /// propagate.  Afterwards every entry is `Stopped` with its
    /// handle taken.
    pub fn stop_all<F: Fn(u64, bool)>(&mut self, stopper: F) -> (r: Result<(), SupervisorError>)
        requires
            old(self).wf(),
            forall|h: u64, f: bool| #[trigger] call_requires(stopper, (h, f)),
        ensures
            final(self).wf(),
            r is Ok,
            final(self).services@.len() == old(self).services@.len(),
            forall|i: int|
                0 <= i < old(self).services@.len() ==> (if old(self).services@[i].state
                    is Stopped {
                    #[trigger] final(self).services@[i] == old(self).services@[i]
                } else {
                    stopped_record(old(self).services@[i], final(self).services@[i])
                }),
    {
        let n = self.services.len();
        for i in 0..n
            invariant
                n == old(self).services@.len(),
                self.services@.len() == n,
                forall|h: u64, f: bool| #[trigger] call_requires(stopper, (h, f)),
                forall|j: int|
                    i <= j < n ==> #[trigger] self.services@[j] == old(self).services@[j],
                forall|j: int|
                    0 <= j < i ==> (if old(self).services@[j].state is Stopped {
                        #[trigger] self.services@[j] == old(self).services@[j]
                    } else {
                        stopped_record(old(self).services@[j], self.services@[j])
                    }),
        {
            if !matches!(self.services[i].state, ProcessState::Stopped) {
                self.services[i].state = ProcessState::Stopping;
                let h = self.services[i].handle;
                self.services[i].handle = None;
                match h {
                    Some(hh) => stopper(hh, false),
                    None => (),
                }
                self.services[i].state = ProcessState::Stopped;
            }
        }
        proof {
            assert forall|i: int, j: int|
                0 <= i < j < self.services@.len() implies (self.services@[i].config.name@)
                != (self.services@[j].config.name@) by {
                assert(self.services@[i].config.name@ == old(self).services@[i].config.name@);
                assert(self.services@[j].config.name@ == old(self).services@[j].config.name@);
            }
        }
        Ok(())
    }

    /// Whether the health-polling loop should probe this service
    /// again: it must still be registered, still `Running`, and still
    /// have a health-check URL — else the poller exits.
    pub open spec fn should_poll_spec(self, name: Seq<char>) -> bool {
        match find_svc(self.services@, name) {
            Some(i) => self.services@[i].state is Running
                && self.services@[i].config.health_check_url is Some,
            None => false,
        }
    }

    /// Exec test of `should_poll_spec`.
    pub fn should_poll(&self, name: &str) -> (r: bool)
        ensures
            r == self.should_poll_spec(name@),
    {
        match self.find_index(name) {
            Some(i) => matches!(self.services[i].state, ProcessState::Running) && matches!(
                self.services[i].config.health_check_url,
                Some(_),
            ),
            None => false,
        }
    }

    /// Record one health-probe outcome for a service: classify it,
    /// stamp the check time, and — for an unhealthy outcome under an
    /// `OnFailure` or `Always` policy while `Running` — mark the
    /// entry `Restarting` for the restart path to act on.  Marking an
    /// already-`Restarting` entry again changes nothing, so no second
    /// child can come from repeated marks.  An unregistered name is a
    /// no-op.
    pub fn apply_health_outcome(&mut self, name: &str, outcome: &Result<u16, String>, now_millis: i64)
        requires
            old(self).wf(),
        ensures
            final(self).wf(),
            (match find_svc(old(self).services@, name@) {
                None => final(self).services@ == old(self).services@,
                Some(i) => {
                    &&& final(self).services@.len() == old(self).services@.len()
                    &&& forall|j: int|
                        0 <= j < old(self).services@.len() && j != i
                            ==> #[trigger] final(self).services@[j] == old(self).services@[j]
                    &&& health_outcome_applied(
                        old(self).services@[i],
                        final(self).services@[i],
                        res_view(*outcome),
                        now_millis,
                    )
                },
            }),
    {
        let idx = self.find_index(name);
        match idx {
            None => (),
            Some(i) => {
                let st = supervisor_classify(outcome);
                let unhealthy = matches!(st, HealthStatus::Unhealthy(_));
                let policy = self.services[i].config.restart_policy;
                let restartable = policy == RestartPolicy::OnFailure || policy
                    == RestartPolicy::Always;
                let was_running = matches!(self.services[i].state, ProcessState::Running);
                self.services[i].health_status = st;
                self.services[i].last_health_check = Some(now_millis);
                if unhealthy && restartable && was_running {
                    self.services[i].state = ProcessState::Restarting;
                }
            },
        }
    }

    /// One iteration of the health-polling loop for a service: when
    /// the service is still `Running` and health-checked, probe its
    /// URL once with a five-second timeout and record the outcome;
    /// otherwise do nothing, which is the poller's cue to exit.
    pub fn poll_health_once(&mut self, name: &str, now_millis: i64)
        requires
            old(self).wf(),
        ensures
            final(self).wf(),
            !old(self).should_poll_spec(name@) ==> final(self).services@ == old(self).services@,
            old(self).should_poll_spec(name@) ==> (match find_svc(old(self).services@, name@) {
                Some(i) => {
                    &&& final(self).services@.len() == old(self).services@.len()
                    &&& forall|j: int|
                        0 <= j < old(self).services@.len() && j != i
                            ==> #[trigger] final(self).services@[j] == old(self).services@[j]
                    &&& exists|o: Result<u16, Seq<char>>|
                        #[trigger] health_outcome_applied(
                            old(self).services@[i],
                            final(self).services@[i],
                            o,
                            now_millis,
                        )
                },
                None => false,
            }),
    {
        if !self.should_poll(name) {
            return;
        }
        let idx = self.find_index(name);
        let i = match idx {
            Some(i) => i,
            None => {
                return;
            },
        };
        let url = match &self.services[i].config.health_check_url {
            Some(u) => u.clone(),
            None => {
                return;
            },
        };
        let (outcome, _latency) = crate::health_monitor::http_get_timed(url.as_str(), 5000);
        self.apply_health_outcome(name, &outcome, now_millis);
        proof {
            assert(health_outcome_applied(
                old(self).services@[i as int],
                self.services@[i as int],
                res_view(outcome),
                now_millis,
            ));
        }
    }
}

} // verus!

//! Standalone health monitoring: a registry of named HTTP checks and
//! the classification of their outcomes.  One probe is one bounded
//! HTTP GET; a 2xx status is healthy, a 5xx status and any transport
//! failure are unhealthy, and every other status is degraded.

use vstd::prelude::*;
use vstd::string::*;
use crate::numfmt::{dec_digits, u64_to_dec};
use crate::text::lemma_filter_push;

verus! {

/// Operational status of one service, shared by the standalone
/// monitor and the process supervisor.
#[derive(Debug)]
pub enum HealthStatus {
    Unknown,
    Healthy,
    Degraded(String),
    Unhealthy(String),
}

/// The mathematical shape of a status.
pub ghost enum HealthStatusV {
    Unknown,
    Healthy,
    Degraded(Seq<char>),
    Unhealthy(Seq<char>),
}

impl View for HealthStatus {
    type V = HealthStatusV;

    open spec fn view(&self) -> HealthStatusV {
        match self {
            HealthStatus::Unknown => HealthStatusV::Unknown,
            HealthStatus::Healthy => HealthStatusV::Healthy,
            HealthStatus::Degraded(m) => HealthStatusV::Degraded(m@),
            HealthStatus::Unhealthy(m) => HealthStatusV::Unhealthy(m@),
        }
    }
}

impl Clone for HealthStatus {
    /// A copy equal to the original.
    fn clone(&self) -> (r: Self)
        ensures
            r == *self,
    {
        match self {
            HealthStatus::Unknown => HealthStatus::Unknown,
            HealthStatus::Healthy => HealthStatus::Healthy,
            HealthStatus::Degraded(m) => HealthStatus::Degraded(m.clone()),
            HealthStatus::Unhealthy(m) => HealthStatus::Unhealthy(m.clone()),
        }
    }
}

/// One registered health check.
pub struct HealthCheck {
    pub endpoint: String,
    pub interval_ms: u64,
    pub timeout_ms: u64,
    pub retries: u32,
}

/// The recorded health of one service.
pub struct ServiceHealth {
    pub name: String,
    pub status: HealthStatus,
    pub last_check: Option<i64>,
    pub consecutive_failures: u32,
    pub uptime_ms: Option<u64>,
    pub response_time_ms: Option<u64>,
}

/// Errors of the monitor: an operation named an unregistered check.
#[derive(Debug)]
pub enum MonitorError {
    NotFound(String),
}

/// The registry of checks and their latest results; entry `i` of
/// `results` belongs to entry `i` of `checks`.
pub struct HealthMonitor {
    pub checks: Vec<(String, HealthCheck)>,
    pub results: Vec<ServiceHealth>,
}

/// A probe's outcome, over views: the HTTP status code, or the text
/// of a transport failure.
pub open spec fn res_view(o: Result<u16, String>) -> Result<u16, Seq<char>> {
    match o {
        Ok(c) => Ok(c),
        Err(m) => Err(m@),
    }
}

/// Message recorded for a server-side error status.
pub open spec fn server_error_msg(code: int) -> Seq<char> {
    "Server error: "@ + dec_digits(code)
}

/// Message recorded for any other non-success status.
pub open spec fn status_msg(code: int) -> Seq<char> {
    "Status: "@ + dec_digits(code)
}

/// Message recorded for a transport failure.
pub open spec fn conn_error_msg(m: Seq<char>) -> Seq<char> {
    "Connection error: "@ + m
}

/// Classification of one probe outcome: 2xx is healthy, 5xx and any
/// transport failure are unhealthy, everything else is degraded.
pub open spec fn classify_http(o: Result<u16, Seq<char>>) -> HealthStatusV {
    match o {
        Ok(code) => if 200 <= code && code < 300 {
            HealthStatusV::Healthy
        } else if code >= 500 {
            HealthStatusV::Unhealthy(server_error_msg(code as int))
        } else {
            HealthStatusV::Degraded(status_msg(code as int))
        },
        Err(m) => HealthStatusV::Unhealthy(conn_error_msg(m)),
    }
}

/// Relies on ureq::get, ureq::Request::timeout and
/// ureq::Request::call, and on std::time::Instant for the elapsed
/// time.  Performs one HTTP GET with the given timeout; `Ok` carries
/// the response's status code (an HTTP error status is still `Ok`),
/// `Err` the text of a transport failure.  The second component is
/// the observed latency in milliseconds.  Nothing is promised of the
/// outcome: it depends on the network.
#[verifier::external_body]
pub(crate) fn http_get_timed(url: &str, timeout_ms: u64) -> (r: (Result<u16, String>, u64)) {
    let started = std::time::Instant::now();
    let outcome = match ureq::get(url).timeout(std::time::Duration::from_millis(timeout_ms)).call()
    {
        Ok(resp) => Ok(resp.status()),
        Err(ureq::Error::Status(code, _)) => Ok(code),
        Err(e) => Err(e.to_string()),
    };
    (outcome, started.elapsed().as_millis() as u64)
}

/// Exec classification of one probe outcome.
pub fn classify_outcome(o: &Result<u16, String>) -> (st: HealthStatus)
    ensures
        st@ == classify_http(res_view(*o)),
{
    match o {
        Ok(code) => {
            if 200 <= *code && *code < 300 {
                HealthStatus::Healthy
            } else if *code >= 500 {
                let mut m = String::from_str("Server error: ");
                let d = u64_to_dec(*code as u64);
                m.append(d.as_str());
                HealthStatus::Unhealthy(m)
            } else {
                let mut m = String::from_str("Status: ");
                let d = u64_to_dec(*code as u64);
                m.append(d.as_str());
                HealthStatus::Degraded(m)
            }
        },
        Err(e) => {
            let mut m = String::from_str("Connection error: ");
            m.append(e.as_str());
            HealthStatus::Unhealthy(m)
        },
    }
}

/// First index of `s` whose entry is named `name`.
pub open spec fn find_check(s: Seq<(String, HealthCheck)>, name: Seq<char>) -> Option<int>
    decreases s.len(),
{
    if s.len() == 0 {
        None
    } else if s[0].0@ == name {
        Some(0)
    } else {
        match find_check(s.drop_first(), name) {
            Some(i) => Some(i + 1),
            None => None,
        }
    }
}

proof fn lemma_find_check_hit(s: Seq<(String, HealthCheck)>, name: Seq<char>, i: int)
    requires
        0 <= i < s.len(),
        s[i].0@ == name,
        forall|j: int| 0 <= j < i ==> s[j].0@ != name,
    ensures
        find_check(s, name) == Some(i),
    decreases i,
{
    if i > 0 {
        lemma_find_check_hit(s.drop_first(), name, i - 1);
    }
}

proof fn lemma_find_check_miss(s: Seq<(String, HealthCheck)>, name: Seq<char>)
    requires
        forall|j: int| 0 <= j < s.len() ==> s[j].0@ != name,
    ensures
        find_check(s, name) is None,
    decreases s.len(),
{
    if s.len() > 0 {
        lemma_find_check_miss(s.drop_first(), name);
    }
}

/// `find_check` lands on a matching name.
pub proof fn lemma_find_check_found(s: Seq<(String, HealthCheck)>, name: Seq<char>)
    ensures
        (match find_check(s, name) {
            Some(i) => 0 <= i < s.len() && s[i].0@ == name,
            None => true,
        }),
    decreases s.len(),
{
    if s.len() > 0 {
        lemma_find_check_found(s.drop_first(), name);
    }
}

impl HealthMonitor {
    /// Aligned registries with unique names.
    pub open spec fn wf(self) -> bool {
        &&& self.results@.len() == self.checks@.len()
        &&& forall|i: int|
            0 <= i < self.checks@.len() ==> (#[trigger] self.results@[i]).name@
                == self.checks@[i].0@
        &&& forall|i: int, j: int|
            0 <= i < j < self.checks@.len() ==> (#[trigger] self.checks@[i].0@)
                != (#[trigger] self.checks@[j].0@)
    }

    /// An empty monitor.
    pub fn new() -> (m: HealthMonitor)
        ensures
            m.wf(),
            m.checks@.len() == 0,
            m.results@.len() == 0,
    {
        HealthMonitor { checks: Vec::new(), results: Vec::new() }
    }

    /// Exec search for a registered name.
    fn find_index(&self, name: &str) -> (r: Option<usize>)
        ensures
            (match r {
                Some(i) => find_check(self.checks@, name@) == Some(i as int) && i
                    < self.checks@.len() && self.checks@[i as int].0@ == name@,
                None => find_check(self.checks@, name@) is None && forall|j: int|
                    0 <= j < self.checks@.len() ==> (#[trigger] self.checks@[j]).0@ != name@,
            }),
    {
        let n = self.checks.len();
        for i in 0..n
            invariant
                n == self.checks.len(),
                forall|j: int| 0 <= j < i ==> (#[trigger] self.checks@[j]).0@ != name@,
        {
            if crate::text::str_eq(self.checks[i].0.as_str(), name) {
                proof {
                    lemma_find_check_hit(self.checks@, name@, i as int);
                }
                assert(self.checks@[i as int].0@ == name@);
                return Some(i);
            }
        }
        proof {
            lemma_find_check_miss(self.checks@, name@);
        }
        None
    }

    /// Register (or replace) a named check; its recorded status
    /// starts out `Unknown`.
    pub fn add_check(&mut self, name: String, check: HealthCheck)
        requires
            old(self).wf(),
        ensures
            final(self).wf(),
            (match find_check(old(self).checks@, name@) {
                Some(i) => {
                    &&& final(self).checks@.len() == old(self).checks@.len()
                    &&& forall|j: int|
                        0 <= j < old(self).checks@.len() && j != i
                            ==> #[trigger] final(self).checks@[j] == old(self).checks@[j]
                            && final(self).results@[j] == old(self).results@[j]
                    &&& registered_entry(*final(self), i, name@, check)
                },
                None => {
                    &&& final(self).checks@.len() == old(self).checks@.len() + 1
                    &&& forall|j: int|
                        0 <= j < old(self).checks@.len()
                            ==> #[trigger] final(self).checks@[j] == old(self).checks@[j]
                            && final(self).results@[j] == old(self).results@[j]
                    &&& registered_entry(*final(self), old(self).checks@.len() as int, name@, check)
                },
            }),
    {
        let fresh = ServiceHealth {
            name: name.clone(),
            status: HealthStatus::Unknown,
            last_check: None,
            consecutive_failures: 0,
            uptime_ms: None,
            response_time_ms: None,
        };
        let idx = self.find_index(name.as_str());
        proof {
            lemma_find_check_found(self.checks@, name@);
        }
        match idx {
            Some(i) => {
                self.checks.set(i, (name, check));
                self.results.set(i, fresh);
            },
            None => {
                self.checks.push((name, check));
                self.results.push(fresh);
            },
        }
    }

    /// Record the outcome of one probe for entry `i`: the classified
    /// status, the check time, the latency, and the failure counter —
    /// reset on healthy, stepped (saturating) otherwise.
    fn apply_at(&mut self, i: usize, outcome: &Result<u16, String>, latency_ms: u64, now_millis: i64) -> (st: HealthStatus)
        requires
            old(self).wf(),
            i < old(self).results@.len(),
        ensures
            final(self).wf(),
            final(self).checks@ == old(self).checks@,
            st@ == classify_http(res_view(*outcome)),
            final(self).results@.len() == old(self).results@.len(),
            forall|j: int|
                0 <= j < old(self).results@.len() && j != i ==> #[trigger] final(self).results@[j]
                    == old(self).results@[j],
            probe_recorded(
                old(self).results@[i as int],
                final(self).results@[i as int],
                res_view(*outcome),
                latency_ms,
                now_millis,
            ),
    {
        let st = classify_outcome(outcome);
        let prev = &self.results[i];
        let healthy = matches!(st, HealthStatus::Healthy);
        let failing = matches!(st, HealthStatus::Unhealthy(_)) || matches!(
            st,
            HealthStatus::Degraded(_),
        );
        let fresh = ServiceHealth {
            name: prev.name.clone(),
            status: st.clone(),
            last_check: Some(now_millis),
            consecutive_failures: if healthy {
                0
            } else if failing {
                if prev.consecutive_failures < u32::MAX {
                    prev.consecutive_failures + 1
                } else {
                    prev.consecutive_failures
                }
            } else {
                prev.consecutive_failures
            },
            uptime_ms: if healthy {
                match prev.uptime_ms {
                    None => Some(0),
                    Some(u) => Some(u),
                }
            } else {
                prev.uptime_ms
            },
            response_time_ms: Some(latency_ms),
        };
        self.results.set(i, fresh);
        st
    }

    /// Run one registered check now: probe its endpoint once and
    /// record the outcome.  Fails exactly when the name is not
    /// registered.
    pub fn perform_check(&mut self, name: &str, now_millis: i64) -> (r: Result<
        HealthStatus,
        MonitorError,
    >)
        requires
            old(self).wf(),
        ensures
            final(self).wf(),
            final(self).checks@ == old(self).checks@,
            (find_check(old(self).checks@, name@) is None <==> r is Err),
            r is Err ==> final(self).results@ == old(self).results@,
            (r matches Err(MonitorError::NotFound(n)) ==> n@ == name@),
            (match find_check(old(self).checks@, name@) {
                Some(i) => {
                    &&& final(self).results@.len() == old(self).results@.len()
                    &&& forall|j: int|
                        0 <= j < old(self).results@.len() && j != i
                            ==> #[trigger] final(self).results@[j] == old(self).results@[j]
                    &&& (r matches Ok(st) ==> st@ == final(self).results@[i].status@)
                    &&& exists|o: Result<u16, Seq<char>>, lat: u64|
                        #[trigger] probe_recorded(
                            old(self).results@[i],
                            final(self).results@[i],
                            o,
                            lat,
                            now_millis,
                        )
                },
                None => true,
            }),
    {
        let idx = self.find_index(name);
        match idx {
            None => Err(MonitorError::NotFound(String::from_str(name))),
            Some(i) => {
                let url = self.checks[i].1.endpoint.clone();
                let timeout = self.checks[i].1.timeout_ms;
                let (outcome, latency) = http_get_timed(url.as_str(), timeout);
                let st = self.apply_at(i, &outcome, latency, now_millis);
                proof {
                    let o = res_view(outcome);
                    assert(st@ == classify_http(o) && probe_recorded(
                        old(self).results@[i as int],
                        self.results@[i as int],
                        o,
                        latency,
                        now_millis,
                    ));
                }
                Ok(st)
            },
        }
    }

    /// Record a probe outcome that was obtained elsewhere for a
    /// registered name; the registry is untouched when the name is
    /// unknown.  Returns the classified status either way.
    pub fn apply_check_result(
        &mut self,
        name: &str,
        outcome: &Result<u16, String>,
        latency_ms: u64,
        now_millis: i64,
    ) -> (st: HealthStatus)
        requires
            old(self).wf(),
        ensures
            final(self).wf(),
            final(self).checks@ == old(self).checks@,
            st@ == classify_http(res_view(*outcome)),
            (match find_check(old(self).checks@, name@) {
                None => final(self).results@ == old(self).results@,
                Some(i) => {
                    &&& final(self).results@.len() == old(self).results@.len()
                    &&& forall|j: int|
                        0 <= j < old(self).results@.len() && j != i
                            ==> #[trigger] final(self).results@[j] == old(self).results@[j]
                    &&& probe_recorded(
                        old(self).results@[i],
                        final(self).results@[i],
                        res_view(*outcome),
                        latency_ms,
                        now_millis,
                    )
                },
            }),
    {
        let idx = self.find_index(name);
        match idx {
            None => classify_outcome(outcome),
            Some(i) => self.apply_at(i, outcome, latency_ms, now_millis),
        }
    }

    /// Run every registered check once; one failing probe does not
    /// abort the batch.  Returns each name with its new status.
    pub fn check_all(&mut self, now_millis: i64) -> (r: Vec<(String, HealthStatus)>)
        requires
            old(self).wf(),
        ensures
            final(self).wf(),
            final(self).checks@ == old(self).checks@,
            final(self).results@.len() == old(self).results@.len(),
            r@.len() == old(self).checks@.len(),
            forall|k: int|
                0 <= k < r@.len() ==> (#[trigger] r@[k]).0@ == old(self).checks@[k].0@
                    && r@[k].1@ == final(self).results@[k].status@,
            forall|k: int|
                0 <= k < r@.len() ==> (#[trigger] final(self).results@[k]).last_check == Some(
                    now_millis,
                ) && final(self).results@[k].name@ == old(self).results@[k].name@,
            exists|probes: Seq<(Result<u16, Seq<char>>, u64)>|
                #[trigger] probes_recorded(
                    old(self).results@,
                    final(self).results@,
                    probes,
                    now_millis,
                ),
    {
        let n = self.checks.len();
        let mut out: Vec<(String, HealthStatus)> = Vec::new();
        let ghost mut probes: Seq<(Result<u16, Seq<char>>, u64)> = Seq::empty();
        for i in 0..n
            invariant
                self.wf(),
                n == self.checks@.len(),
                self.checks@ == old(self).checks@,
                self.results@.len() == old(self).results@.len(),
                out@.len() == i,
                forall|j: int|
                    i <= j < n ==> #[trigger] self.results@[j] == old(self).results@[j],
                forall|k: int|
                    0 <= k < i ==> (#[trigger] out@[k]).0@ == old(self).checks@[k].0@
                        && out@[k].1@ == self.results@[k].status@,
                forall|k: int|
                    0 <= k < i ==> (#[trigger] self.results@[k]).last_check == Some(now_millis)
                        && self.results@[k].name@ == old(self).results@[k].name@,
                probes.len() == i,
                forall|k: int|
                    0 <= k < i ==> probe_recorded(
                        old(self).results@[k],
                        #[trigger] self.results@[k],
                        probes[k].0,
                        probes[k].1,
                        now_millis,
                    ),
        {
            let name = self.checks[i].0.clone();
            let url = self.checks[i].1.endpoint.clone();
            let timeout = self.checks[i].1.timeout_ms;
            let (outcome, latency) = http_get_timed(url.as_str(), timeout);
            let st = self.apply_at(i, &outcome, latency, now_millis);
            proof {
                assert(probe_recorded(
                    old(self).results@[i as int],
                    self.results@[i as int],
                    res_view(outcome),
                    latency,
                    now_millis,
                ));
                probes = probes.push((res_view(outcome), latency));
            }
            out.push((name, st));
        }
        proof {
            assert(probes_recorded(old(self).results@, self.results@, probes, now_millis));
        }
        out
    }

    /// The recorded health of one service, if registered.
    pub fn get_status(&self, name: &str) -> (r: Option<&ServiceHealth>)
        requires
            self.wf(),
        ensures
            (find_check(self.checks@, name@) is None <==> r is None),
            (match (r, find_check(self.checks@, name@)) {
                (Some(h), Some(i)) => *h == self.results@[i],
                _ => true,
            }),
    {
        match self.find_index(name) {
            Some(i) => Some(&self.results[i]),
            None => None,
        }
    }

    /// Every recorded result.
    pub fn get_all_status(&self) -> (r: &Vec<ServiceHealth>)
        ensures
            r@ == self.results@,
    {
        &self.results
    }

    /// Whether a service's last recorded status is healthy.
    pub fn is_healthy(&self, name: &str) -> (r: bool)
        requires
            self.wf(),
        ensures
            r == (match find_check(self.checks@, name@) {
                Some(i) => self.results@[i].status is Healthy,
                None => false,
            }),
    {
        match self.find_index(name) {
            Some(i) => matches!(self.results[i].status, HealthStatus::Healthy),
            None => false,
        }
    }

    /// The names whose last recorded status is neither healthy nor
    /// unknown.
    pub fn get_unhealthy_services(&self) -> (r: Vec<String>)
        ensures
            r.deep_view() == unhealthy_names(self.results@),
    {
        let ghost pred = |h: ServiceHealth| !(h.status is Healthy || h.status is Unknown);
        let mut out: Vec<String> = Vec::new();
        let n = self.results.len();
        let ghost rv = self.results@;
        assert(rv.subrange(0, 0).filter(pred) =~= Seq::<ServiceHealth>::empty());
        for i in 0..n
            invariant
                n == self.results@.len(),
                rv == self.results@,
                (pred == |h: ServiceHealth| !(h.status is Healthy || h.status is Unknown)),
                out.deep_view() =~~= names_of(rv.subrange(0, i as int).filter(pred)),
        {
            let keep = !(matches!(self.results[i].status, HealthStatus::Healthy) || matches!(
                self.results[i].status,
                HealthStatus::Unknown,
            ));
            proof {
                lemma_filter_push(rv.subrange(0, i as int), rv[i as int], pred);
                assert(rv.subrange(0, i + 1) =~= rv.subrange(0, i as int).push(rv[i as int]));
            }
            let ghost prevd = out.deep_view();
            if keep {
                out.push(self.results[i].name.clone());
                proof {
                    assert(out.deep_view() =~~= prevd.push(rv[i as int].name@));
                    assert(names_of(rv.subrange(0, i + 1).filter(pred)) =~~= names_of(
                        rv.subrange(0, i as int).filter(pred),
                    ).push(rv[i as int].name@));
                }
            }
            assert(out.deep_view() =~~= names_of(rv.subrange(0, i + 1).filter(pred)));
        }
        assert(rv.subrange(0, n as int) =~= rv);
    out
    }
}

/// The names of a sequence of results.
pub open spec fn names_of(s: Seq<ServiceHealth>) -> Seq<Seq<char>> {
    s.map_values(|h: ServiceHealth| h.name@)
}

/// The names whose status is neither healthy nor unknown, in
/// registry order.
pub open spec fn unhealthy_names(s: Seq<ServiceHealth>) -> Seq<Seq<char>> {
    names_of(s.filter(|h: ServiceHealth| !(h.status is Healthy || h.status is Unknown)))
}

/// The named check occupies entry `i` with a fresh `Unknown` result.
pub open spec fn registered_entry(m: HealthMonitor, i: int, name: Seq<char>, check: HealthCheck) -> bool {
    &&& 0 <= i < m.checks@.len()
    &&& m.checks@[i].0@ == name
    &&& m.checks@[i].1 == check
    &&& m.results@[i].name@ == name
    &&& m.results@[i].status is Unknown
    &&& m.results@[i].last_check is None
    &&& m.results@[i].consecutive_failures == 0
    &&& m.results@[i].uptime_ms is None
    &&& m.results@[i].response_time_ms is None
}

/// Every entry of `post` came from recording the matching probe
/// outcome of `probes` on the matching entry of `pre` at the given
/// instant.
pub open spec fn probes_recorded(
    pre: Seq<ServiceHealth>,
    post: Seq<ServiceHealth>,
    probes: Seq<(Result<u16, Seq<char>>, u64)>,
    now_millis: i64,
) -> bool {
    &&& probes.len() == post.len()
    &&& forall|k: int|
        0 <= k < post.len() ==> probe_recorded(
            pre[k],
            #[trigger] post[k],
            probes[k].0,
            probes[k].1,
            now_millis,
        )
}

/// How one probe outcome transforms a recorded result.
pub open spec fn probe_recorded(
    prev: ServiceHealth,
    cur: ServiceHealth,
    o: Result<u16, Seq<char>>,
    latency_ms: u64,
    now_millis: i64,
) -> bool {
    let st = classify_http(o);
    &&& cur.name@ == prev.name@
    &&& cur.status@ == st
    &&& cur.last_check == Some(now_millis)
    &&& cur.response_time_ms == Some(latency_ms)
    &&& cur.consecutive_failures as int == (if st is Healthy {
        0int
    } else if st is Unhealthy || st is Degraded {
        if prev.consecutive_failures < u32::MAX {
            prev.consecutive_failures as int + 1
        } else {
            prev.consecutive_failures as int
        }
    } else {
        prev.consecutive_failures as int
    })
    &&& cur.uptime_ms == (if st is Healthy {
        if prev.uptime_ms is None {
            Some(0u64)
        } else {
            prev.uptime_ms
        }
    } else {
        prev.uptime_ms
    })
}

} // verus!

//! The service monitor: a registry of named services with status, health
//! and uptime accounting.
//!
//! The registry is a list of records with pairwise distinct names; every
//! operation keeps that invariant, and each is specified against the
//! record it finds by name. Times come from the crate's one clock read,
//! so the contracts pin every field except the instant itself.

use vstd::prelude::*;
use vstd::string::StringExecFns;

use crate::clock::now_unix_secs;
use crate::paths::str_eq;

verus! {

/// What can go wrong in the monitor.
#[derive(Debug, Clone, PartialEq, Eq)]
pub enum Error {
    /// A registry operation on a missing or duplicate service name.
    Service(String),
    /// Anything else.
    Other(String),
}

/// The reported state of a service.
#[derive(Debug, Clone, Copy, PartialEq, Eq, Structural)]
pub enum ServiceStatus {
    /// Running.
    Running,
    /// Stopped.
    Stopped,
    /// Starting up.
    Starting,
    /// Shutting down.
    Stopping,
    /// Failed.
    Error,
    /// Not yet reported.
    Unknown,
}

/// The health a service reported.
#[derive(Debug, Clone, Copy, PartialEq, Eq, Structural)]
pub enum HealthStatus {
    /// Healthy.
    Healthy,
    /// Unhealthy.
    Unhealthy,
    /// Degraded.
    Degraded,
    /// Not yet reported.
    Unknown,
}

/// One registered service.
#[derive(Debug, Clone)]
pub struct ServiceInfo {
    /// The service's name, unique in the registry.
    pub name: String,
    /// Last reported status.
    pub status: ServiceStatus,
    /// Last reported health.
    pub health: HealthStatus,
    /// When the service last entered `Running`, as Unix seconds.
    pub start_time: Option<u64>,
    /// Seconds the service has been running.
    pub uptime: Option<u64>,
    /// When the record was last touched, as Unix seconds.
    pub last_check: u64,
    /// The last error reported for the service.
    pub error: Option<String>,
    /// Extra key-value details, keys pairwise distinct.
    pub extra: Vec<(String, String)>,
}

/// Service names are pairwise distinct.
pub open spec fn names_distinct(s: Seq<ServiceInfo>) -> bool {
    forall|i: int, j: int| 0 <= i < j < s.len() ==> #[trigger] s[i].name@ != #[trigger] s[j].name@
}

/// The keys of an extra list are pairwise distinct.
pub open spec fn extra_keys_distinct(e: Seq<(String, String)>) -> bool {
    forall|i: int, j: int| 0 <= i < j < e.len() ==> #[trigger] e[i].0@ != #[trigger] e[j].0@
}

/// Some record carries the given name.
pub open spec fn spec_contains_name(s: Seq<ServiceInfo>, name: Seq<char>) -> bool {
    exists|i: int| 0 <= i < s.len() && #[trigger] s[i].name@ == name
}

/// The record a status update leaves behind: status, health and check
/// time replaced, the error cleared, and the start time and uptime kept
/// in step with the transition into or out of `Running`.
pub open spec fn status_updated(
    t: ServiceInfo,
    status: ServiceStatus,
    health: HealthStatus,
    now: u64,
) -> ServiceInfo {
    ServiceInfo {
        status,
        health,
        last_check: now,
        error: None,
        start_time: if t.status != ServiceStatus::Running && status == ServiceStatus::Running {
            Some(now)
        } else if t.status == ServiceStatus::Running && status != ServiceStatus::Running {
            None
        } else {
            t.start_time
        },
        uptime: if t.status != ServiceStatus::Running && status == ServiceStatus::Running {
            Some(0u64)
        } else if t.status == ServiceStatus::Running && status != ServiceStatus::Running {
            None
        } else {
            match t.start_time {
                Some(st) => Some(
                    if now >= st {
                        (now - st) as u64
                    } else {
                        0u64
                    },
                ),
                None => t.uptime,
            }
        },
        ..t
    }
}

/// How many records report the given health.
pub open spec fn count_health(s: Seq<ServiceInfo>, h: HealthStatus) -> int
    decreases s.len(),
{
    if s.len() == 0 {
        0
    } else {
        count_health(s.drop_last(), h) + if s.last().health == h {
            1int
        } else {
            0int
        }
    }
}

/// The service registry.
pub struct ServiceMonitor {
    services: Vec<ServiceInfo>,
}

impl ServiceMonitor {
    /// The registered services, in registration order.
    pub closed spec fn services(&self) -> Seq<ServiceInfo> {
        self.services@
    }

    /// The registry's invariant: names distinct, and every record's extra
    /// keys distinct.
    pub open spec fn wf(&self) -> bool {
        &&& names_distinct(self.services())
        &&& forall|i: int|
            0 <= i < self.services().len() ==> extra_keys_distinct(
                #[trigger] self.services()[i].extra@,
            )
    }

    /// Makes an empty registry.
    pub fn new() -> (r: Self)
        ensures
            r.services().len() == 0,
            r.wf(),
    {
        ServiceMonitor { services: Vec::new() }
    }

    /// The index of the record carrying `name`, if any.
    fn find_index(&self, name: &str) -> (r: Option<usize>)
        ensures
            r matches Some(i) ==> i < self.services().len() && self.services()[i as int].name@
                == name@,
            r is None ==> !spec_contains_name(self.services(), name@),
    {
        let n = self.services.len();
        let mut k: usize = 0;
        while k < n
            invariant
                0 <= k <= n,
                n == self.services().len(),
                forall|j: int| 0 <= j < k ==> #[trigger] self.services()[j].name@ != name@,
            decreases n - k,
        {
            if str_eq(self.services[k].name.as_str(), name) {
                return Some(k);
            }
            k += 1;
        }
        None
    }

    /// Registers a new service under `name` with everything unreported:
    /// fails when the name is already taken, and otherwise appends a fresh
    /// record.
    pub fn register_service(&mut self, name: &str) -> (r: Result<(), Error>)
        requires
            old(self).wf(),
        ensures
            final(self).wf(),
            spec_contains_name(old(self).services(), name@) ==> (r matches Err(e)
                && e matches Error::Service(m) && m@ == name@) && *final(self) == *old(self),
            !spec_contains_name(old(self).services(), name@) ==> r is Ok && {
                &&& final(self).services().len() == old(self).services().len() + 1
                &&& final(self).services().drop_last() == old(self).services()
                &&& final(self).services().last().name@ == name@
                &&& final(self).services().last().status == ServiceStatus::Unknown
                &&& final(self).services().last().health == HealthStatus::Unknown
                &&& final(self).services().last().start_time is None
                &&& final(self).services().last().uptime is None
                &&& final(self).services().last().error is None
                &&& final(self).services().last().extra@.len() == 0
            },
    {
        match self.find_index(name) {
            Some(_) => Err(Error::Service(String::from_str(name))),
            None => {
                let now = now_unix_secs();
                let record = ServiceInfo {
                    name: String::from_str(name),
                    status: ServiceStatus::Unknown,
                    health: HealthStatus::Unknown,
                    start_time: None,
                    uptime: None,
                    last_check: now,
                    error: None,
                    extra: Vec::new(),
                };
                self.services.push(record);
                proof {
                    assert(self.services().drop_last() =~= old(self).services());
                }
                Ok(())
            },
        }
    }

    /// Reports a service's status and health: fails when the name is
    /// unknown; otherwise replaces the record by [`status_updated`] of it,
    /// read at some instant `now`.
    pub fn update_service_status(
        &mut self,
        name: &str,
        status: ServiceStatus,
        health: HealthStatus,
    ) -> (r: Result<(), Error>)
        requires
            old(self).wf(),
        ensures
            final(self).wf(),
            !spec_contains_name(old(self).services(), name@) ==> (r matches Err(e)
                && e matches Error::Service(m) && m@ == name@) && *final(self) == *old(self),
            spec_contains_name(old(self).services(), name@) ==> r is Ok && exists|i: int, now: u64|
                {
                    &&& 0 <= i < old(self).services().len()
                    &&& old(self).services()[i].name@ == name@
                    &&& final(self).services() == old(self).services().update(
                        i,
                        status_updated(old(self).services()[i], status, health, now),
                    )
                },
    {
        match self.find_index(name) {
            None => Err(Error::Service(String::from_str(name))),
            Some(i) => {
                let now = now_unix_secs();
                let t = self.services.remove(i);
                let was_running = t.status == ServiceStatus::Running;
                let start_time: Option<u64> = if !was_running && status == ServiceStatus::Running {
                    Some(now)
                } else if was_running && status != ServiceStatus::Running {
                    None
                } else {
                    t.start_time
                };
                let uptime: Option<u64> = if !was_running && status == ServiceStatus::Running {
                    Some(0)
                } else if was_running && status != ServiceStatus::Running {
                    None
                } else {
                    match t.start_time {
                        Some(st) => Some(if now >= st {
                            now - st
                        } else {
                            0
                        }),
                        None => t.uptime,
                    }
                };
                let updated = ServiceInfo { status, health, last_check: now, error: None, start_time, uptime, ..t };
                self.services.insert(i, updated);
                proof {
                    let s = old(self).services();
                    let u = status_updated(s[i as int], status, health, now);
                    assert(self.services() =~= s.update(i as int, u));
                    assert forall|a: int, b: int|
                        0 <= a < b < self.services().len() implies #[trigger] self.services()[a].name@ != #[trigger] self.services()[b].name@ by {
                        assert(self.services()[a].name@ == s[a].name@);
                        assert(self.services()[b].name@ == s[b].name@);
                    }
                }
                Ok(())
            },
        }
    }

    /// Marks a service failed with the given message: fails when the name
    /// is unknown; otherwise the record turns `Error`/`Unhealthy` with the
    /// message recorded and everything else kept.
    pub fn set_service_error(&mut self, name: &str, error: &str) -> (r: Result<(), Error>)
        requires
            old(self).wf(),
        ensures
            final(self).wf(),
            !spec_contains_name(old(self).services(), name@) ==> (r matches Err(e)
                && e matches Error::Service(m) && m@ == name@) && *final(self) == *old(self),
            spec_contains_name(old(self).services(), name@) ==> r is Ok && exists|i: int|
                {
                    &&& 0 <= i < old(self).services().len()
                    &&& old(self).services()[i].name@ == name@
                    &&& final(self).services().len() == old(self).services().len()
                    &&& (forall|j: int|
                        0 <= j < old(self).services().len() && j != i ==> final(self).services()[j]
                            == #[trigger] old(self).services()[j])
                    &&& final(self).services()[i].name == old(self).services()[i].name
                    &&& final(self).services()[i].status == ServiceStatus::Error
                    &&& final(self).services()[i].health == HealthStatus::Unhealthy
                    &&& (final(self).services()[i].error matches Some(m) && m@ == error@)
                    &&& final(self).services()[i].start_time == old(self).services()[i].start_time
                    &&& final(self).services()[i].uptime == old(self).services()[i].uptime
                    &&& final(self).services()[i].extra == old(self).services()[i].extra
                },
    {
        match self.find_index(name) {
            None => Err(Error::Service(String::from_str(name))),
            Some(i) => {
                let now = now_unix_secs();
                let t = self.services.remove(i);
                let updated = ServiceInfo {
                    status: ServiceStatus::Error,
                    health: HealthStatus::Unhealthy,
                    last_check: now,
                    error: Some(String::from_str(error)),
                    ..t
                };
                self.services.insert(i, updated);
                proof {
                    let s = old(self).services();
                    assert(self.services() =~= s.update(i as int, self.services()[i as int]));
                    assert forall|a: int, b: int|
                        0 <= a < b < self.services().len() implies #[trigger] self.services()[a].name@ != #[trigger] self.services()[b].name@ by {
                        assert(self.services()[a].name@ == s[a].name@);
                        assert(self.services()[b].name@ == s[b].name@);
                    }
                }
                Ok(())
            },
        }
    }

    /// Sets one extra key of a service to a value: fails when the name is
    /// unknown; an existing key is overwritten in place, a new one is
    /// appended.
    pub fn set_service_extra(&mut self, name: &str, key: &str, value: &str) -> (r: Result<
        (),
        Error,
    >)
        requires
            old(self).wf(),
        ensures
            final(self).wf(),
            !spec_contains_name(old(self).services(), name@) ==> (r matches Err(e)
                && e matches Error::Service(m) && m@ == name@) && *final(self) == *old(self),
            spec_contains_name(old(self).services(), name@) ==> r is Ok && exists|i: int|
                {
                    &&& 0 <= i < old(self).services().len()
                    &&& old(self).services()[i].name@ == name@
                    &&& final(self).services().len() == old(self).services().len()
                    &&& (forall|j: int|
                        0 <= j < old(self).services().len() && j != i ==> final(self).services()[j]
                            == #[trigger] old(self).services()[j])
                    &&& (final(self).services()[i] == ServiceInfo {
                        extra: final(self).services()[i].extra,
                        ..old(self).services()[i]
                    })
                    &&& extra_set(
                        old(self).services()[i].extra@,
                        final(self).services()[i].extra@,
                        key@,
                        value@,
                    )
                },
    {
        match self.find_index(name) {
            None => Err(Error::Service(String::from_str(name))),
            Some(i) => {
                let mut t = self.services.remove(i);
                set_extra_pair(&mut t.extra, key, value);
                self.services.insert(i, t);
                proof {
                    let s = old(self).services();
                    assert(self.services() =~= s.update(i as int, self.services()[i as int]));
                    assert(self.services()[i as int] == (ServiceInfo {
                        extra: self.services()[i as int].extra,
                        ..s[i as int]
                    }));
                    assert(extra_set(
                        s[i as int].extra@,
                        self.services()[i as int].extra@,
                        key@,
                        value@,
                    ));
                    assert forall|a: int, b: int|
                        0 <= a < b < self.services().len() implies #[trigger] self.services()[a].name@ != #[trigger] self.services()[b].name@ by {
                        assert(self.services()[a].name@ == s[a].name@);
                        assert(self.services()[b].name@ == s[b].name@);
                    }
                    assert forall|idx: int|
                        0 <= idx < self.services().len() implies extra_keys_distinct(
                        #[trigger] self.services()[idx].extra@,
                    ) by {
                        if idx != i as int {
                            assert(self.services()[idx] == s[idx]);
                        }
                    }
                }
                Ok(())
            },
        }
    }

    /// The record registered under `name`, if any.
    pub fn get_service(&self, name: &str) -> (r: Option<&ServiceInfo>)
        ensures
            r matches Some(t) ==> t.name@ == name@ && spec_contains_name(self.services(), name@)
                && exists|i: int|
                0 <= i < self.services().len() && #[trigger] self.services()[i] == *t,
            r is None ==> !spec_contains_name(self.services(), name@),
    {
        match self.find_index(name) {
            Some(i) => Some(&self.services[i]),
            None => None,
        }
    }

    /// All registered services, in registration order.
    pub fn get_all_services(&self) -> (r: &Vec<ServiceInfo>)
        ensures
            r@ == self.services(),
    {
        &self.services
    }

    /// Counts the services at each health: healthy, unhealthy, degraded
    /// and unknown, in that order.
    #[verifier::loop_isolation(false)]
    pub fn check_services_health(&self) -> (r: (usize, usize, usize, usize))
        ensures
            r.0 as int == count_health(self.services(), HealthStatus::Healthy),
            r.1 as int == count_health(self.services(), HealthStatus::Unhealthy),
            r.2 as int == count_health(self.services(), HealthStatus::Degraded),
            r.3 as int == count_health(self.services(), HealthStatus::Unknown),
    {
        let n = self.services.len();
        let mut healthy: usize = 0;
        let mut unhealthy: usize = 0;
        let mut degraded: usize = 0;
        let mut unknown: usize = 0;
        let mut k: usize = 0;
        while k < n
            invariant
                0 <= k <= n,
                n == self.services().len(),
                healthy <= k && unhealthy <= k && degraded <= k && unknown <= k,
                healthy as int == count_health(self.services().take(k as int), HealthStatus::Healthy),
                unhealthy as int == count_health(
                    self.services().take(k as int),
                    HealthStatus::Unhealthy,
                ),
                degraded as int == count_health(
                    self.services().take(k as int),
                    HealthStatus::Degraded,
                ),
                unknown as int == count_health(self.services().take(k as int), HealthStatus::Unknown),
            decreases n - k,
        {
            proof {
                let pre = self.services().take(k as int);
                let cur = self.services().take(k as int + 1);
                assert(cur.drop_last() =~= pre);
                assert(cur.last() == self.services()[k as int]);
            }
            match self.services[k].health {
                HealthStatus::Healthy => {
                    healthy += 1;
                },
                HealthStatus::Unhealthy => {
                    unhealthy += 1;
                },
                HealthStatus::Degraded => {
                    degraded += 1;
                },
                HealthStatus::Unknown => {
                    unknown += 1;
                },
            }
            k += 1;
        }
        proof {
            assert(self.services().take(n as int) =~= self.services());
        }
        (healthy, unhealthy, degraded, unknown)
    }

    /// Removes the service registered under `name`: fails when the name is
    /// unknown, and otherwise drops exactly that record.
    pub fn remove_service(&mut self, name: &str) -> (r: Result<(), Error>)
        requires
            old(self).wf(),
        ensures
            final(self).wf(),
            !spec_contains_name(old(self).services(), name@) ==> (r matches Err(e)
                && e matches Error::Service(m) && m@ == name@) && *final(self) == *old(self),
            spec_contains_name(old(self).services(), name@) ==> r is Ok && exists|i: int|
                {
                    &&& 0 <= i < old(self).services().len()
                    &&& old(self).services()[i].name@ == name@
                    &&& final(self).services() == old(self).services().remove(i)
                },
    {
        match self.find_index(name) {
            None => Err(Error::Service(String::from_str(name))),
            Some(i) => {
                self.services.remove(i);
                proof {
                    let s = old(self).services();
                    assert forall|a: int, b: int|
                        0 <= a < b < self.services().len() implies #[trigger] self.services()[a].name@ != #[trigger] self.services()[b].name@ by {
                        let sa = if a < i as int {
                            a
                        } else {
                            a + 1
                        };
                        let sb = if b < i as int {
                            b
                        } else {
                            b + 1
                        };
                        assert(self.services()[a].name@ == s[sa].name@);
                        assert(self.services()[b].name@ == s[sb].name@);
                    }
                }
                Ok(())
            },
        }
    }
}

/// How a key-value list looks after one key was set: the key's pair
/// replaced in place where it existed, appended where it did not, all
/// other pairs untouched.
pub open spec fn extra_set(
    old_e: Seq<(String, String)>,
    new_e: Seq<(String, String)>,
    key: Seq<char>,
    value: Seq<char>,
) -> bool {
    if exists|j: int| 0 <= j < old_e.len() && #[trigger] old_e[j].0@ == key {
        &&& new_e.len() == old_e.len()
        &&& exists|j: int|
            {
                &&& 0 <= j < old_e.len()
                &&& #[trigger] old_e[j].0@ == key
                &&& new_e == old_e.update(j, new_e[j])
                &&& new_e[j].0@ == key
                &&& new_e[j].1@ == value
            }
    } else {
        &&& new_e.len() == old_e.len() + 1
        &&& new_e.drop_last() == old_e
        &&& new_e.last().0@ == key
        &&& new_e.last().1@ == value
    }
}

/// Sets one key of a key-value list, overwriting in place or appending,
/// and keeps its keys pairwise distinct.
#[verifier::loop_isolation(false)]
fn set_extra_pair(e: &mut Vec<(String, String)>, key: &str, value: &str)
    requires
        extra_keys_distinct(old(e)@),
    ensures
        extra_keys_distinct(final(e)@),
        extra_set(old(e)@, final(e)@, key@, value@),
{
    let n = e.len();
    let mut k: usize = 0;
    while k < n
        invariant
            0 <= k <= n,
            n == e@.len(),
            e@ == old(e)@,
            forall|j: int| 0 <= j < k ==> #[trigger] e@[j].0@ != key@,
        decreases n - k,
    {
        if str_eq(e[k].0.as_str(), key) {
            proof {
                assert(old(e)@[k as int].0@ == key@);
            }
            let pair = (String::from_str(key), String::from_str(value));
            let _ = e.remove(k);
            e.insert(k, pair);
            proof {
                assert(e@ =~= old(e)@.update(k as int, e@[k as int]));
                assert(e@[k as int].0@ == key@);
                assert forall|a: int, b: int| 0 <= a < b < e@.len() implies #[trigger] e@[a].0@
                    != #[trigger] e@[b].0@ by {
                    if a == k {
                        assert(e@[a].0@ == key@);
                        assert(e@[b].0@ == old(e)@[b].0@);
                        assert(old(e)@[k as int].0@ != old(e)@[b].0@);
                    } else if b == k {
                        assert(e@[b].0@ == key@);
                        assert(e@[a].0@ == old(e)@[a].0@);
                        assert(old(e)@[a].0@ != old(e)@[k as int].0@);
                    } else {
                        assert(e@[a].0@ == old(e)@[a].0@);
                        assert(e@[b].0@ == old(e)@[b].0@);
                    }
                }
            }
            return;
        }
        k += 1;
    }
    let pair = (String::from_str(key), String::from_str(value));
    e.push(pair);
    proof {
        assert(e@.drop_last() =~= old(e)@);
        assert forall|a: int, b: int| 0 <= a < b < e@.len() implies #[trigger] e@[a].0@
            != #[trigger] e@[b].0@ by {
            if b < e@.len() - 1 {
                assert(e@[a].0@ == old(e)@[a].0@);
                assert(e@[b].0@ == old(e)@[b].0@);
            } else {
                assert(e@[a].0@ == old(e)@[a].0@);
                assert(e@[b].0@ == key@);
            }
        }
    }
}

} // verus!

//! Deciding which fetched device policies to apply: new ones, changed ones, ones due again,
//! and ones whose last application went wrong.
use vstd::prelude::*;

use crate::outside::{millis_since, monotonic_now};
use crate::policy::{same_policies, same_policy, validation, DevicePolicy, PolicyError, PolicyStatus};
use crate::text::str_eq;

verus! {

/// The application of one device policy's version.
#[derive(Debug, Clone, PartialEq, Eq)]
pub enum ReconcileEvent {
    Apply(String, u64),
}

/// What the reconciler remembers of a device policy: the version and switch it applied, when
/// (in milliseconds), and the status last recorded for it.
pub struct ObservedView {
    pub version: u64,
    pub enabled: bool,
    pub applied_at: u64,
    pub last_status: Option<PolicyStatus>,
}

#[derive(Debug)]
struct ObservedPolicy {
    version: u64,
    enabled: bool,
    applied_at: u64,
    last_status: Option<PolicyStatus>,
}

impl ObservedPolicy {
    closed spec fn view(self) -> ObservedView {
        ObservedView {
            version: self.version,
            enabled: self.enabled,
            applied_at: self.applied_at,
            last_status: self.last_status,
        }
    }
}

spec fn entries_map(v: Seq<(String, ObservedPolicy)>) -> Map<Seq<char>, ObservedView>
    decreases v.len(),
{
    if v.len() == 0 {
        Map::empty()
    } else {
        entries_map(v.drop_last()).insert(v.last().0@, v.last().1.view())
    }
}

spec fn distinct_keys(v: Seq<(String, ObservedPolicy)>) -> bool {
    forall|i: int, j: int| 0 <= i < j < v.len() ==> v[i].0@ != v[j].0@
}

proof fn lemma_entries_contains(v: Seq<(String, ObservedPolicy)>, k: Seq<char>)
    ensures
        entries_map(v).contains_key(k) <==> exists|i: int| 0 <= i < v.len() && #[trigger] v[i].0@ == k,
    decreases v.len(),
{
    if v.len() > 0 {
        lemma_entries_contains(v.drop_last(), k);
        if exists|i: int| 0 <= i < v.drop_last().len() && #[trigger] v.drop_last()[i].0@ == k {
            let i = choose|i: int| 0 <= i < v.drop_last().len() && #[trigger] v.drop_last()[i].0@ == k;
            assert(v[i].0@ == k);
        }
        if exists|i: int| 0 <= i < v.len() && #[trigger] v[i].0@ == k {
            let i = choose|i: int| 0 <= i < v.len() && #[trigger] v[i].0@ == k;
            if i < v.len() - 1 {
                assert(v.drop_last()[i].0@ == k);
            }
        }
    }
}

proof fn lemma_entries_value(v: Seq<(String, ObservedPolicy)>, i: int)
    requires
        distinct_keys(v),
        0 <= i < v.len(),
    ensures
        entries_map(v).contains_key(v[i].0@),
        entries_map(v)[v[i].0@] == v[i].1.view(),
    decreases v.len(),
{
    if i < v.len() - 1 {
        let w = v.drop_last();
        assert(w[i] == v[i]);
        lemma_entries_value(w, i);
        assert(v.last().0@ != v[i].0@);
    }
}

proof fn lemma_entries_update(v: Seq<(String, ObservedPolicy)>, i: int, o: ObservedPolicy)
    requires
        distinct_keys(v),
        0 <= i < v.len(),
    ensures
        entries_map(v.update(i, (v[i].0, o))) == entries_map(v).insert(v[i].0@, o.view()),
        distinct_keys(v.update(i, (v[i].0, o))),
    decreases v.len(),
{
    let u = v.update(i, (v[i].0, o));
    if i == v.len() - 1 {
        assert(u.drop_last() == v.drop_last());
        assert(entries_map(u) =~= entries_map(v).insert(v[i].0@, o.view()));
    } else {
        let w = v.drop_last();
        assert(u.drop_last() == w.update(i, (w[i].0, o)));
        lemma_entries_update(w, i, o);
        assert(v.last().0@ != v[i].0@);
        assert(entries_map(u) =~= entries_map(v).insert(v[i].0@, o.view()));
    }
    assert(forall|a: int, b: int| 0 <= a < b < u.len() ==> u[a].0@ == v[a].0@ && u[b].0@ == v[b].0@);
}

/// Whether a policy is applied, given what is remembered: it is new, its version or switch
/// changed, it is due again after the interval, or its last status was degraded or rolled back.
pub open spec fn needs_apply(
    m: Map<Seq<char>, ObservedView>,
    p: DevicePolicy,
    now: u64,
    interval: Option<u64>,
) -> bool {
    let key = p.device_policy_id@;
    if !m.contains_key(key) {
        true
    } else {
        let o = m[key];
        ||| o.version != p.version
        ||| o.enabled != p.enabled
        ||| (interval matches Some(iv) && (if now >= o.applied_at {
            now - o.applied_at
        } else {
            0
        }) >= iv)
        ||| o.last_status == Some(PolicyStatus::Degraded)
        ||| o.last_status == Some(PolicyStatus::Rollbacked)
    }
}

/// What is remembered once a policy is applied at `now`; its last status stays.
pub open spec fn remember(m: Map<Seq<char>, ObservedView>, p: DevicePolicy, now: u64) -> Map<
    Seq<char>,
    ObservedView,
> {
    let key = p.device_policy_id@;
    m.insert(
        key,
        ObservedView {
            version: p.version,
            enabled: p.enabled,
            applied_at: now,
            last_status: if m.contains_key(key) {
                m[key].last_status
            } else {
                None
            },
        },
    )
}

/// What is remembered once a policy's application is recorded to have ended in `status` at
/// `now`: its last status and time, when the policy is remembered at all.
pub open spec fn status_recorded(
    m: Map<Seq<char>, ObservedView>,
    key: Seq<char>,
    status: PolicyStatus,
    now: u64,
) -> Map<Seq<char>, ObservedView> {
    if m.contains_key(key) {
        m.insert(key, ObservedView { applied_at: now, last_status: Some(status), ..m[key] })
    } else {
        m
    }
}

/// Going through `ps` in order: what is remembered after, and the policies applied.
pub open spec fn reconcile_run(
    m: Map<Seq<char>, ObservedView>,
    ps: Seq<DevicePolicy>,
    now: u64,
    interval: Option<u64>,
) -> (Map<Seq<char>, ObservedView>, Seq<DevicePolicy>)
    decreases ps.len(),
{
    if ps.len() == 0 {
        (m, Seq::empty())
    } else {
        let (m1, out) = reconcile_run(m, ps.drop_last(), now, interval);
        let p = ps.last();
        if needs_apply(m1, p, now, interval) {
            (remember(m1, p, now), out.push(p))
        } else {
            (m1, out)
        }
    }
}

/// `i` is the first policy that fails validation.
pub open spec fn is_first_invalid(ps: Seq<DevicePolicy>, i: int) -> bool {
    &&& 0 <= i < ps.len()
    &&& validation(ps[i]) is Err
    &&& forall|j: int| 0 <= j < i ==> validation(#[trigger] ps[j]) is Ok
}

/// What a run over `ps` at `now` comes to, from what was remembered in `m`: on success what is
/// remembered after and the policies applied; on the first invalid policy its error, with the
/// policies before it handled.
pub open spec fn run_outcome(
    m: Map<Seq<char>, ObservedView>,
    ps: Seq<DevicePolicy>,
    now: u64,
    interval: Option<u64>,
    after: Map<Seq<char>, ObservedView>,
    r: Result<Seq<DevicePolicy>, PolicyError>,
) -> bool {
    match r {
        Ok(v) => (forall|i: int| 0 <= i < ps.len() ==> validation(#[trigger] ps[i]) is Ok) && after
            == reconcile_run(m, ps, now, interval).0 && same_policies(
            v,
            reconcile_run(m, ps, now, interval).1,
        ),
        Err(e) => exists|i: int|
            #[trigger] is_first_invalid(ps, i) && validation(ps[i]) == Err::<(), PolicyError>(e)
                && after == reconcile_run(m, ps.take(i), now, interval).0,
    }
}

pub open spec fn list_result(r: Result<Vec<DevicePolicy>, PolicyError>) -> Result<
    Seq<DevicePolicy>,
    PolicyError,
> {
    match r {
        Ok(v) => Ok(v@),
        Err(e) => Err(e),
    }
}

/// A reconcile result with its events read as the policies they apply.
pub open spec fn applied_result(r: Result<Vec<ReconcileEvent>, PolicyError>, applied: Seq<DevicePolicy>) -> Result<
    Seq<DevicePolicy>,
    PolicyError,
> {
    match r {
        Ok(_) => Ok(applied),
        Err(e) => Err(e),
    }
}

/// An application, as the device policy id and version.
pub open spec fn event_of(p: DevicePolicy) -> (Seq<char>, u64) {
    (p.device_policy_id@, p.version)
}

pub open spec fn event_views(v: Seq<ReconcileEvent>) -> Seq<(Seq<char>, u64)> {
    v.map_values(
        |e: ReconcileEvent|
            match e {
                ReconcileEvent::Apply(id, version) => (id@, version),
            },
    )
}

/// Remembers which version of each device policy it applied, and decides what to apply next.
/// Its clock is the monotonic clock, in milliseconds since the reconciler was made.
#[derive(Debug)]
pub struct PolicyReconciler {
    observed_versions: Vec<(String, ObservedPolicy)>,
    clock_origin: std::time::Instant,
}

impl PolicyReconciler {
    /// What the reconciler remembers, by device policy id.
    pub closed spec fn observed(&self) -> Map<Seq<char>, ObservedView> {
        entries_map(self.observed_versions@)
    }

    #[verifier::type_invariant]
    closed spec fn wf(self) -> bool {
        distinct_keys(self.observed_versions@)
    }

    fn find(&self, device_policy_id: &str) -> (r: Option<usize>)
        ensures
            match r {
                Some(i) => i < self.observed_versions@.len() && self.observed_versions@[i as int].0@
                    == device_policy_id@,
                None => !self.observed().contains_key(device_policy_id@),
            },
    {
        proof {
            use_type_invariant(self);
        }
        let mut i: usize = 0;
        while i < self.observed_versions.len()
            invariant
                0 <= i <= self.observed_versions@.len(),
                forall|j: int| 0 <= j < i ==> #[trigger] self.observed_versions@[j].0@ != device_policy_id@,
            decreases self.observed_versions.len() - i,
        {
            if str_eq(self.observed_versions[i].0.as_str(), device_policy_id) {
                return Some(i);
            }
            i += 1;
        }
        proof {
            lemma_entries_contains(self.observed_versions@, device_policy_id@);
        }
        None
    }

    /// Remembers that `policy` was applied at `now`.
    fn remember_applied(&mut self, policy: &DevicePolicy, now: u64)
        ensures
            final(self).observed() == remember(old(self).observed(), *policy, now),
    {
        proof {
            use_type_invariant(&*self);
        }
        match self.find(policy.device_policy_id.as_str()) {
            Some(i) => {
                let last_status = self.observed_versions[i].1.last_status;
                let o = ObservedPolicy {
                    version: policy.version,
                    enabled: policy.enabled,
                    applied_at: now,
                    last_status,
                };
                proof {
                    lemma_entries_value(self.observed_versions@, i as int);
                    lemma_entries_update(self.observed_versions@, i as int, o);
                }
                let key = self.observed_versions[i].0.clone();
                let ghost before = self.observed_versions@;
                let mut entries: Vec<(String, ObservedPolicy)> = Vec::new();
                std::mem::swap(&mut entries, &mut self.observed_versions);
                entries.set(i, (key, o));
                assert(entries@ == before.update(i as int, (before[i as int].0, o)));
                self.observed_versions = entries;
            },
            None => {
                let o = ObservedPolicy {
                    version: policy.version,
                    enabled: policy.enabled,
                    applied_at: now,
                    last_status: None,
                };
                let ghost before = self.observed_versions@;
                let key = policy.device_policy_id.clone();
                proof {
                    let after = before.push((key, o));
                    assert(after.drop_last() == before);
                    assert forall|a: int, b: int| 0 <= a < b < after.len() implies after[a].0@
                        != after[b].0@ by {
                        if b == before.len() {
                            lemma_entries_contains(before, policy.device_policy_id@);
                            assert(before[a].0@ == after[a].0@);
                        }
                    }
                }
                let mut entries: Vec<(String, ObservedPolicy)> = Vec::new();
                std::mem::swap(&mut entries, &mut self.observed_versions);
                entries.push((key, o));
                assert(entries@.drop_last() == before);
                self.observed_versions = entries;
            },
        }
    }

    fn decide(&self, policy: &DevicePolicy, now: u64, reapply_interval: Option<u64>) -> (r: bool)
        ensures
            r == needs_apply(self.observed(), *policy, now, reapply_interval),
    {
        proof {
            use_type_invariant(self);
        }
        match self.find(policy.device_policy_id.as_str()) {
            None => true,
            Some(i) => {
                proof {
                    lemma_entries_value(self.observed_versions@, i as int);
                }
                let o = &self.observed_versions[i].1;
                let version_changed = o.version != policy.version;
                let enabled_changed = o.enabled != policy.enabled;
                let reapply_due = match reapply_interval {
                    Some(interval) => now.saturating_sub(o.applied_at) >= interval,
                    None => false,
                };
                let retry_due = match o.last_status {
                    Some(PolicyStatus::Degraded) => true,
                    Some(PolicyStatus::Rollbacked) => true,
                    _ => false,
                };
                version_changed || enabled_changed || reapply_due || retry_due
            },
        }
    }

    /// The policies to apply at `now` (milliseconds), in order; each is remembered as applied.
    /// A policy is due again once `reapply_interval` has passed since it was applied. The first
    /// invalid policy stops the run with its error, after the ones before it were handled.
    pub fn policies_to_apply_at(
        &mut self,
        policies: &[DevicePolicy],
        now: u64,
        reapply_interval: Option<u64>,
    ) -> (r: Result<Vec<DevicePolicy>, PolicyError>)
        ensures
            run_outcome(
                old(self).observed(),
                policies@,
                now,
                reapply_interval,
                final(self).observed(),
                list_result(r),
            ),
    {
        let ghost start = self.observed();
        let mut out: Vec<DevicePolicy> = Vec::new();
        let mut i: usize = 0;
        while i < policies.len()
            invariant
                0 <= i <= policies@.len(),
                forall|j: int| 0 <= j < i ==> validation(#[trigger] policies@[j]) is Ok,
                start == old(self).observed(),
                self.observed() == reconcile_run(start, policies@.take(i as int), now, reapply_interval).0,
                same_policies(out@, reconcile_run(start, policies@.take(i as int), now, reapply_interval).1),
            decreases policies.len() - i,
        {
            let policy = &policies[i];
            assert(policies@.take(i + 1).drop_last() == policies@.take(i as int));
            match policy.validate() {
                Ok(()) => {},
                Err(e) => {
                    assert(is_first_invalid(policies@, i as int));
                    return Err(e);
                },
            }
            if self.decide(policy, now, reapply_interval) {
                self.remember_applied(policy, now);
                out.push(policy.copy());
            }
            i += 1;
        }
        assert(policies@.take(policies@.len() as int) == policies@);
        Ok(out)
    }

    /// The policies to apply now, with no interval: new, changed, or last seen failing.
    pub fn policies_to_apply(&mut self, policies: &[DevicePolicy]) -> (r: Result<
        Vec<DevicePolicy>,
        PolicyError,
    >)
        ensures
            exists|now: u64|
                #[trigger] run_outcome(
                    old(self).observed(),
                    policies@,
                    now,
                    None,
                    final(self).observed(),
                    list_result(r),
                ),
    {
        let now = self.clock_millis();
        self.policies_to_apply_at(policies, now, None)
    }

    /// The applications to make now, one event per policy to apply.
    pub fn reconcile(&mut self, policies: &[DevicePolicy]) -> (r: Result<
        Vec<ReconcileEvent>,
        PolicyError,
    >)
        ensures
            exists|now: u64|
                #[trigger] run_outcome(
                    old(self).observed(),
                    policies@,
                    now,
                    None,
                    final(self).observed(),
                    applied_result(r, reconcile_run(old(self).observed(), policies@, now, None).1),
                ) && (r matches Ok(events) ==> event_views(events@) == reconcile_run(
                    old(self).observed(),
                    policies@,
                    now,
                    None,
                ).1.map_values(|p: DevicePolicy| event_of(p))),
    {
        let now = self.clock_millis();
        let to_apply = match self.policies_to_apply_at(policies, now, None) {
            Ok(v) => v,
            Err(e) => {
                assert(run_outcome(
                    old(self).observed(),
                    policies@,
                    now,
                    None,
                    self.observed(),
                    applied_result(
                        Err(e),
                        reconcile_run(old(self).observed(), policies@, now, None).1,
                    ),
                ));
                return Err(e);
            },
        };
        let ghost applied = reconcile_run(old(self).observed(), policies@, now, None).1;
        let mut events: Vec<ReconcileEvent> = Vec::new();
        let mut k: usize = 0;
        while k < to_apply.len()
            invariant
                0 <= k <= to_apply@.len(),
                same_policies(to_apply@, applied),
                event_views(events@) == applied.take(k as int).map_values(|p: DevicePolicy| event_of(p)),
            decreases to_apply.len() - k,
        {
            let p = &to_apply[k];
            let ghost before = events@;
            let event = ReconcileEvent::Apply(p.device_policy_id.clone(), p.version);
            events.push(event);
            proof {
                assert(crate::policy::same_policy(to_apply@[k as int], applied[k as int]));
                assert(events@ == before.push(event));
                assert(applied.take(k + 1) == applied.take(k as int).push(applied[k as int]));
                assert(event_views(events@) =~= event_views(before).push(
                    event_of(applied[k as int]),
                ));
                assert(applied.take(k + 1).map_values(|p: DevicePolicy| event_of(p))
                    =~= applied.take(k as int).map_values(|p: DevicePolicy| event_of(p)).push(
                    event_of(applied[k as int]),
                ));
            }
            k += 1;
        }
        assert(applied.take(to_apply@.len() as int) == applied);
        assert(run_outcome(
            old(self).observed(),
            policies@,
            now,
            None,
            self.observed(),
            applied_result(Ok(events), applied),
        ));
        Ok(events)
    }

    /// Records the status a policy's application ended in, at `now`; a policy the reconciler
    /// does not remember is ignored.
    pub fn record_policy_status(&mut self, device_policy_id: &str, status: PolicyStatus, now: u64)
        ensures
            final(self).observed() == status_recorded(old(self).observed(), device_policy_id@, status, now),
    {
        proof {
            use_type_invariant(&*self);
        }
        match self.find(device_policy_id) {
            None => {},
            Some(i) => {
                let o = ObservedPolicy {
                    version: self.observed_versions[i].1.version,
                    enabled: self.observed_versions[i].1.enabled,
                    applied_at: now,
                    last_status: Some(status),
                };
                proof {
                    lemma_entries_value(self.observed_versions@, i as int);
                    lemma_entries_update(self.observed_versions@, i as int, o);
                }
                let key = self.observed_versions[i].0.clone();
                let ghost before = self.observed_versions@;
                let mut entries: Vec<(String, ObservedPolicy)> = Vec::new();
                std::mem::swap(&mut entries, &mut self.observed_versions);
                entries.set(i, (key, o));
                assert(entries@ == before.update(i as int, (before[i as int].0, o)));
                self.observed_versions = entries;
            },
        }
    }

    /// The reconciler's clock: the milliseconds the monotonic clock has moved on since the
    /// reconciler was made (the time to hand `policies_to_apply_at`).
    pub fn clock_millis(&self) -> (r: u64) {
        millis_since(&self.clock_origin)
    }

    /// The version last applied of a device policy, if the reconciler remembers it.
    pub fn observed_version(&self, device_policy_id: &str) -> (r: Option<u64>)
        ensures
            r == (if self.observed().contains_key(device_policy_id@) {
                Some(self.observed()[device_policy_id@].version)
            } else {
                None
            }),
    {
        proof {
            use_type_invariant(self);
        }
        match self.find(device_policy_id) {
            None => None,
            Some(i) => {
                proof {
                    lemma_entries_value(self.observed_versions@, i as int);
                }
                Some(self.observed_versions[i].1.version)
            },
        }
    }
}

impl Default for PolicyReconciler {
    fn default() -> (r: PolicyReconciler)
        ensures
            r.observed() == Map::<Seq<char>, ObservedView>::empty(),
    {
        PolicyReconciler { observed_versions: Vec::new(), clock_origin: monotonic_now() }
    }
}


// ---------------------------------------------------------------------------
// What a run leaves behind
// ---------------------------------------------------------------------------
/// No two policies share a device policy id.
pub open spec fn distinct_ids(ps: Seq<DevicePolicy>) -> bool {
    forall|i: int, j: int|
        0 <= i < j < ps.len() ==> ps[i].device_policy_id@ != ps[j].device_policy_id@
}

/// The last status remembered for a device policy asks for it to be applied again.
pub open spec fn retry_pending(m: Map<Seq<char>, ObservedView>, key: Seq<char>) -> bool {
    m.contains_key(key) && (m[key].last_status == Some(PolicyStatus::Degraded)
        || m[key].last_status == Some(PolicyStatus::Rollbacked))
}

/// What is remembered of `p` is its current version and switch, with no retry asked for.
pub open spec fn settled(m: Map<Seq<char>, ObservedView>, p: DevicePolicy) -> bool {
    &&& m.contains_key(p.device_policy_id@)
    &&& m[p.device_policy_id@].version == p.version
    &&& m[p.device_policy_id@].enabled == p.enabled
    &&& !retry_pending(m, p.device_policy_id@)
}

/// A run changes nothing remembered of device policies it does not go through.
pub proof fn lemma_run_keeps_other_entries(
    m: Map<Seq<char>, ObservedView>,
    ps: Seq<DevicePolicy>,
    now: u64,
    interval: Option<u64>,
    key: Seq<char>,
)
    requires
        forall|i: int| 0 <= i < ps.len() ==> #[trigger] ps[i].device_policy_id@ != key,
    ensures
        reconcile_run(m, ps, now, interval).0.contains_key(key) == m.contains_key(key),
        m.contains_key(key) ==> reconcile_run(m, ps, now, interval).0[key] == m[key],
    decreases ps.len(),
{
    if ps.len() > 0 {
        let t = ps.drop_last();
        assert forall|i: int| 0 <= i < t.len() implies #[trigger] t[i].device_policy_id@ != key by {
            assert(t[i] == ps[i]);
        }
        lemma_run_keeps_other_entries(m, t, now, interval, key);
        assert(ps.last() == ps[ps.len() - 1]);
    }
}

/// After a run without a reapply interval over policies with distinct ids, none of which was
/// waiting for a retry, every one of them is remembered with its version and switch.
pub proof fn lemma_run_settles_policies(
    m: Map<Seq<char>, ObservedView>,
    ps: Seq<DevicePolicy>,
    now: u64,
)
    requires
        distinct_ids(ps),
        forall|i: int| 0 <= i < ps.len() ==> !retry_pending(m, #[trigger] ps[i].device_policy_id@),
    ensures
        forall|i: int| 0 <= i < ps.len() ==> settled(reconcile_run(m, ps, now, None).0, #[trigger] ps[i]),
    decreases ps.len(),
{
    if ps.len() > 0 {
        let t = ps.drop_last();
        let p = ps.last();
        assert(p == ps[ps.len() - 1]);
        assert forall|i: int| 0 <= i < t.len() implies !retry_pending(m, #[trigger] t[i].device_policy_id@) by {
            assert(t[i] == ps[i]);
        }
        assert forall|i: int, j: int| 0 <= i < j < t.len() implies t[i].device_policy_id@
            != t[j].device_policy_id@ by {
            assert(t[i] == ps[i] && t[j] == ps[j]);
        }
        lemma_run_settles_policies(m, t, now);
        let m1 = reconcile_run(m, t, now, None).0;
        assert forall|i: int| 0 <= i < t.len() implies #[trigger] t[i].device_policy_id@
            != p.device_policy_id@ by {
            assert(t[i] == ps[i]);
        }
        lemma_run_keeps_other_entries(m, t, now, None, p.device_policy_id@);
        let m2 = reconcile_run(m, ps, now, None).0;
        assert forall|i: int| 0 <= i < ps.len() implies settled(m2, #[trigger] ps[i]) by {
            if i < ps.len() - 1 {
                assert(ps[i] == t[i]);
                assert(settled(m1, t[i]));
                assert(ps[i].device_policy_id@ != p.device_policy_id@);
            }
        }
    }
}

/// A run over policies that are all settled applies nothing and changes nothing.
pub proof fn lemma_settled_run_is_empty(
    m: Map<Seq<char>, ObservedView>,
    ps: Seq<DevicePolicy>,
    now: u64,
)
    requires
        forall|i: int| 0 <= i < ps.len() ==> settled(m, #[trigger] ps[i]),
    ensures
        reconcile_run(m, ps, now, None) == (m, Seq::<DevicePolicy>::empty()),
    decreases ps.len(),
{
    if ps.len() > 0 {
        let t = ps.drop_last();
        assert forall|i: int| 0 <= i < t.len() implies settled(m, #[trigger] t[i]) by {
            assert(t[i] == ps[i]);
        }
        lemma_settled_run_is_empty(m, t, now);
        assert(settled(m, ps[ps.len() - 1]));
    }
}

/// Reconciling the same policies twice without a reapply interval applies them once: when their
/// device policy ids are distinct and none was waiting for a retry, the second run applies
/// nothing and leaves what is remembered as the first run left it.
pub proof fn lemma_reconcile_applies_once(
    m: Map<Seq<char>, ObservedView>,
    ps: Seq<DevicePolicy>,
    first_now: u64,
    second_now: u64,
)
    requires
        distinct_ids(ps),
        forall|i: int| 0 <= i < ps.len() ==> !retry_pending(m, #[trigger] ps[i].device_policy_id@),
    ensures
        reconcile_run(reconcile_run(m, ps, first_now, None).0, ps, second_now, None) == (
            reconcile_run(m, ps, first_now, None).0,
            Seq::<DevicePolicy>::empty(),
        ),
{
    lemma_run_settles_policies(m, ps, first_now);
    lemma_settled_run_is_empty(reconcile_run(m, ps, first_now, None).0, ps, second_now);
}

proof fn lemma_run_output_grows(
    m: Map<Seq<char>, ObservedView>,
    ps: Seq<DevicePolicy>,
    n: int,
    now: u64,
    interval: Option<u64>,
    x: DevicePolicy,
)
    requires
        0 <= n <= ps.len(),
        reconcile_run(m, ps.take(n), now, interval).1.contains(x),
    ensures
        reconcile_run(m, ps, now, interval).1.contains(x),
    decreases ps.len(),
{
    if n == ps.len() {
        assert(ps.take(n) == ps);
    } else {
        let t = ps.drop_last();
        assert(t.take(n) == ps.take(n));
        lemma_run_output_grows(m, t, n, now, interval, x);
        let out = reconcile_run(m, t, now, interval).1;
        let i = choose|i: int| 0 <= i < out.len() && out[i] == x;
        if needs_apply(reconcile_run(m, t, now, interval).0, ps.last(), now, interval) {
            assert(out.push(ps.last())[i] == x);
        }
    }
}

/// A policy whose application was recorded as degraded or rolled back is applied again by the
/// next run that goes through it, at the first place it comes in the run.
pub proof fn lemma_recorded_failure_is_retried(
    m: Map<Seq<char>, ObservedView>,
    ps: Seq<DevicePolicy>,
    k: int,
    status: PolicyStatus,
    at: u64,
    now: u64,
    interval: Option<u64>,
)
    requires
        0 <= k < ps.len(),
        m.contains_key(ps[k].device_policy_id@),
        status == PolicyStatus::Degraded || status == PolicyStatus::Rollbacked,
        forall|j: int| 0 <= j < k ==> #[trigger] ps[j].device_policy_id@ != ps[k].device_policy_id@,
    ensures
        reconcile_run(status_recorded(m, ps[k].device_policy_id@, status, at), ps, now, interval).1.contains(
            ps[k],
        ),
{
    let key = ps[k].device_policy_id@;
    let m2 = status_recorded(m, key, status, at);
    let pre = ps.take(k);
    assert forall|j: int| 0 <= j < pre.len() implies #[trigger] pre[j].device_policy_id@ != key by {
        assert(pre[j] == ps[j]);
    }
    lemma_run_keeps_other_entries(m2, pre, now, interval, key);
    let upto = ps.take(k + 1);
    assert(upto.drop_last() == pre);
    assert(upto.last() == ps[k]);
    assert(needs_apply(reconcile_run(m2, pre, now, interval).0, ps[k], now, interval));
    let out = reconcile_run(m2, upto, now, interval).1;
    assert(out == reconcile_run(m2, pre, now, interval).1.push(ps[k]));
    assert(out[out.len() - 1] == ps[k]);
    lemma_run_output_grows(m2, ps, k + 1, now, interval, ps[k]);
}

/// A policy remembered at its current version and switch, whose application was recorded as
/// active, is settled: a run with no reapply interval leaves it be.
pub proof fn lemma_recorded_success_settles(
    m: Map<Seq<char>, ObservedView>,
    p: DevicePolicy,
    at: u64,
    now: u64,
)
    requires
        m.contains_key(p.device_policy_id@),
        m[p.device_policy_id@].version == p.version,
        m[p.device_policy_id@].enabled == p.enabled,
    ensures
        settled(status_recorded(m, p.device_policy_id@, PolicyStatus::Active, at), p),
        !needs_apply(status_recorded(m, p.device_policy_id@, PolicyStatus::Active, at), p, now, None),
{
}

proof fn lemma_run_applies_from_list(
    m: Map<Seq<char>, ObservedView>,
    ps: Seq<DevicePolicy>,
    now: u64,
    interval: Option<u64>,
)
    ensures
        forall|i: int|
            0 <= i < reconcile_run(m, ps, now, interval).1.len() ==> exists|j: int|
                0 <= j < ps.len() && ps[j] == #[trigger] reconcile_run(m, ps, now, interval).1[i],
    decreases ps.len(),
{
    if ps.len() > 0 {
        let t = ps.drop_last();
        lemma_run_applies_from_list(m, t, now, interval);
        let out = reconcile_run(m, ps, now, interval).1;
        let o1 = reconcile_run(m, t, now, interval).1;
        assert forall|i: int| 0 <= i < out.len() implies exists|j: int|
            0 <= j < ps.len() && ps[j] == #[trigger] out[i] by {
            if i < o1.len() {
                assert(out[i] == o1[i]);
                let j = choose|j: int| 0 <= j < t.len() && t[j] == o1[i];
                assert(ps[j] == t[j]);
            } else {
                assert(out[i] == ps[ps.len() - 1]);
            }
        }
    }
}

/// After a run over policies with distinct device policy ids, each policy it applies is
/// remembered with the version it was applied at.
pub proof fn lemma_run_remembers_applied(
    m: Map<Seq<char>, ObservedView>,
    ps: Seq<DevicePolicy>,
    now: u64,
    interval: Option<u64>,
)
    requires
        distinct_ids(ps),
    ensures
        forall|i: int|
            0 <= i < reconcile_run(m, ps, now, interval).1.len() ==> {
                let x = #[trigger] reconcile_run(m, ps, now, interval).1[i];
                &&& reconcile_run(m, ps, now, interval).0.contains_key(x.device_policy_id@)
                &&& reconcile_run(m, ps, now, interval).0[x.device_policy_id@].version == x.version
            },
    decreases ps.len(),
{
    if ps.len() > 0 {
        let t = ps.drop_last();
        let p = ps.last();
        assert forall|i: int, j: int| 0 <= i < j < t.len() implies t[i].device_policy_id@
            != t[j].device_policy_id@ by {
            assert(t[i] == ps[i] && t[j] == ps[j]);
        }
        lemma_run_remembers_applied(m, t, now, interval);
        lemma_run_applies_from_list(m, t, now, interval);
        let (m1, o1) = reconcile_run(m, t, now, interval);
        let (after, out) = reconcile_run(m, ps, now, interval);
        assert forall|i: int| 0 <= i < out.len() implies {
            let x = #[trigger] out[i];
            &&& after.contains_key(x.device_policy_id@)
            &&& after[x.device_policy_id@].version == x.version
        } by {
            if i < o1.len() {
                assert(out[i] == o1[i]);
                let j = choose|j: int| 0 <= j < t.len() && t[j] == o1[i];
                assert(t[j] == ps[j]);
                assert(p == ps[ps.len() - 1]);
                assert(ps[j].device_policy_id@ != p.device_policy_id@);
            }
        }
    }
}

/// After `policies_to_apply_at` goes through policies with distinct device policy ids, each
/// policy it returns is remembered with its version.
pub proof fn lemma_applied_policies_are_remembered(
    m: Map<Seq<char>, ObservedView>,
    ps: Seq<DevicePolicy>,
    now: u64,
    interval: Option<u64>,
    after: Map<Seq<char>, ObservedView>,
    applied: Seq<DevicePolicy>,
)
    requires
        distinct_ids(ps),
        run_outcome(m, ps, now, interval, after, Ok(applied)),
    ensures
        forall|i: int|
            0 <= i < applied.len() ==> after.contains_key(#[trigger] applied[i].device_policy_id@)
                && after[applied[i].device_policy_id@].version == applied[i].version,
{
    lemma_run_remembers_applied(m, ps, now, interval);
    let out = reconcile_run(m, ps, now, interval).1;
    assert forall|i: int| 0 <= i < applied.len() implies after.contains_key(
        #[trigger] applied[i].device_policy_id@,
    ) && after[applied[i].device_policy_id@].version == applied[i].version by {
        assert(same_policy(applied[i], out[i]));
    }
}

} // verus!

//! The web service's store of gateway policies and of the reports machines send, per user.
use vstd::prelude::*;

use crate::assoc::{
    assoc, distinct_by, lemma_assoc_contains, lemma_assoc_push, lemma_assoc_update,
    lemma_assoc_value,
};
use crate::policy::DevicePolicyRole;
use crate::web_policy::{
    gateway_validation, or_else, shows_report, side_policy, side_result, DevicePolicy, DevicePolicyView,
    GatewayFullTunnelPolicy, GatewayPolicyObservedNode, GatewayPolicyObservedState,
    GatewayPolicySnapshot, GatewayPolicyView, PolicyError, ReportView, RuntimeReport,
};

verus! {

/// Whose report of which policy, in which role, from which machine.
#[derive(Debug, Clone, Copy, PartialEq, Eq, Structural)]
pub struct PolicyReportKey {
    pub user_id: i32,
    pub policy_id: u128,
    pub role: DevicePolicyRole,
    pub machine_id: u128,
}

pub open spec fn pkey() -> spec_fn((i32, GatewayFullTunnelPolicy)) -> (i32, u128) {
    |e: (i32, GatewayFullTunnelPolicy)| (e.0, e.1.policy_id)
}

pub open spec fn pval() -> spec_fn((i32, GatewayFullTunnelPolicy)) -> GatewayPolicyView {
    |e: (i32, GatewayFullTunnelPolicy)| e.1@
}

pub open spec fn rkey() -> spec_fn((i32, RuntimeReport)) -> (i32, u128) {
    |e: (i32, RuntimeReport)| (e.0, e.1.machine_id)
}

pub open spec fn rval() -> spec_fn((i32, RuntimeReport)) -> ReportView {
    |e: (i32, RuntimeReport)| e.1@
}

pub open spec fn prkey() -> spec_fn((PolicyReportKey, RuntimeReport)) -> PolicyReportKey {
    |e: (PolicyReportKey, RuntimeReport)| e.0
}

pub open spec fn prval() -> spec_fn((PolicyReportKey, RuntimeReport)) -> ReportView {
    |e: (PolicyReportKey, RuntimeReport)| e.1@
}

/// The policies, reports and per-policy reports of all users.
#[derive(Debug)]
pub struct PolicyStore {
    policies: Vec<(i32, GatewayFullTunnelPolicy)>,
    reports: Vec<(i32, RuntimeReport)>,
    policy_reports: Vec<(PolicyReportKey, RuntimeReport)>,
}

/// Whether another enabled policy of the user already routes the candidate's source.
pub open spec fn source_taken_for(m: Map<(i32, u128), GatewayPolicyView>, user: i32, c: GatewayPolicyView) -> bool {
    exists|k: (i32, u128)|
        #[trigger] m.contains_key(k) && k.0 == user && m[k].enabled && m[k].policy_id
            != c.policy_id && m[k].source_machine_id == c.source_machine_id
}

/// Whether a user may store a policy: it must be valid, and an enabled one must not share its
/// source with another enabled policy of the user.
pub open spec fn upsert_check(m: Map<(i32, u128), GatewayPolicyView>, user: i32, c: GatewayPolicyView) -> Result<
    (),
    PolicyError,
> {
    match gateway_validation(c) {
        Err(e) => Err(e),
        Ok(()) => if c.enabled && source_taken_for(m, user, c) {
            Err(PolicyError::SourceAlreadyHasEnabledPolicy)
        } else {
            Ok(())
        },
    }
}

/// A report with its EasyTier address filled in from the machine's last report when it omits it.
pub open spec fn filled_report(reports: Map<(i32, u128), ReportView>, user: i32, r: ReportView) -> ReportView {
    if r.easytier_ipv4 is None {
        ReportView {
            easytier_ipv4: if reports.contains_key((user, r.machine_id)) {
                reports[(user, r.machine_id)].easytier_ipv4
            } else {
                None
            },
            ..r
        }
    } else {
        r
    }
}

/// The policy and role a report is about: its own, or the side of the named policy its machine
/// is.
pub open spec fn report_role(m: Map<(i32, u128), GatewayPolicyView>, user: i32, r: ReportView) -> Option<
    (u128, DevicePolicyRole),
> {
    match or_else(r.observed_policy_id, r.policy_id) {
        None => None,
        Some(pid) => match r.role {
            Some(role) => Some((pid, role)),
            None => if !m.contains_key((user, pid)) {
                None
            } else if r.machine_id == m[(user, pid)].source_machine_id {
                Some((pid, DevicePolicyRole::ClientGatewayViaPeer))
            } else if r.machine_id == m[(user, pid)].exit_machine_id {
                Some((pid, DevicePolicyRole::ProvideExitForGateway))
            } else {
                None
            },
        },
    }
}

/// The EasyTier address a machine of a user last reported.
pub open spec fn reported_ip(reports: Map<(i32, u128), ReportView>, user: i32, machine: u128) -> Option<Seq<char>> {
    if reports.contains_key((user, machine)) {
        reports[(user, machine)].easytier_ipv4
    } else {
        None
    }
}

/// The exit side's device policy of a stored policy for a machine, appended to `out` once the
/// source's address is known.
pub open spec fn exit_side(
    out: Seq<DevicePolicyView>,
    reports: Map<(i32, u128), ReportView>,
    user: i32,
    machine: u128,
    p: GatewayPolicyView,
) -> Result<Seq<DevicePolicyView>, PolicyError> {
    if p.exit_machine_id == machine {
        match reported_ip(reports, user, p.source_machine_id) {
            None => Ok(out),
            Some(ip) => match side_result(p, DevicePolicyRole::ProvideExitForGateway, ip) {
                Err(e) => Err(e),
                Ok(d) => Ok(out.push(d)),
            },
        }
    } else {
        Ok(out)
    }
}

/// The device policies of one stored policy for a machine, appended to `out`: the source side
/// once the exit's address is known (a source whose exit has no address skips the rest), then
/// the exit side.
pub open spec fn device_step(
    out: Seq<DevicePolicyView>,
    reports: Map<(i32, u128), ReportView>,
    user: i32,
    machine: u128,
    p: GatewayPolicyView,
) -> Result<Seq<DevicePolicyView>, PolicyError> {
    if p.source_machine_id == machine {
        match reported_ip(reports, user, p.exit_machine_id) {
            None => Ok(out),
            Some(ip) => match side_result(p, DevicePolicyRole::ClientGatewayViaPeer, ip) {
                Err(e) => Err(e),
                Ok(d) => exit_side(out.push(d), reports, user, machine, p),
            },
        }
    } else {
        exit_side(out, reports, user, machine, p)
    }
}

/// The device policies of a machine, going through the stored policies in order; the first
/// error stops it.
pub open spec fn device_run(
    order: Seq<(i32, GatewayPolicyView)>,
    reports: Map<(i32, u128), ReportView>,
    user: i32,
    machine: u128,
) -> Result<Seq<DevicePolicyView>, PolicyError>
    decreases order.len(),
{
    if order.len() == 0 {
        Ok(Seq::empty())
    } else {
        match device_run(order.drop_last(), reports, user, machine) {
            Err(e) => Err(e),
            Ok(out) => if order.last().0 != user {
                Ok(out)
            } else {
                device_step(out, reports, user, machine, order.last().1)
            },
        }
    }
}

impl PolicyStore {
    #[verifier::type_invariant]
    closed spec fn wf(self) -> bool {
        &&& distinct_by(self.policies@, pkey())
        &&& distinct_by(self.reports@, rkey())
        &&& distinct_by(self.policy_reports@, prkey())
    }

    /// The stored policies, by user and policy id.
    pub closed spec fn spec_policies(&self) -> Map<(i32, u128), GatewayPolicyView> {
        assoc(self.policies@, pkey(), pval())
    }

    /// The stored policies with their users, in the order they were first stored.
    pub closed spec fn spec_policy_order(&self) -> Seq<(i32, GatewayPolicyView)> {
        self.policies@.map_values(|e: (i32, GatewayFullTunnelPolicy)| (e.0, e.1@))
    }

    /// Each machine's last report, by user and machine id.
    pub closed spec fn spec_reports(&self) -> Map<(i32, u128), ReportView> {
        assoc(self.reports@, rkey(), rval())
    }

    /// The last report of each side of each policy.
    pub closed spec fn spec_policy_reports(&self) -> Map<PolicyReportKey, ReportView> {
        assoc(self.policy_reports@, prkey(), prval())
    }

    fn find_policy(&self, user_id: i32, policy_id: u128) -> (r: Option<usize>)
        ensures
            match r {
                Some(i) => i < self.policies@.len() && self.policies@[i as int].0 == user_id
                    && self.policies@[i as int].1.policy_id == policy_id && self.spec_policies().contains_key(
                    (user_id, policy_id),
                ) && self.spec_policies()[(user_id, policy_id)] == self.policies@[i as int].1@,
                None => !self.spec_policies().contains_key((user_id, policy_id)),
            },
    {
        proof {
            use_type_invariant(self);
        }
        let mut i: usize = 0;
        while i < self.policies.len()
            invariant
                0 <= i <= self.policies@.len(),
                forall|j: int| 0 <= j < i ==> #[trigger] pkey()(self.policies@[j]) != (user_id, policy_id),
            decreases self.policies.len() - i,
        {
            if self.policies[i].0 == user_id && self.policies[i].1.policy_id == policy_id {
                proof {
                    use_type_invariant(self);
                    lemma_assoc_value(self.policies@, pkey(), pval(), i as int);
                }
                return Some(i);
            }
            i += 1;
        }
        proof {
            lemma_assoc_contains(self.policies@, pkey(), pval(), (user_id, policy_id));
        }
        None
    }

    fn find_report(&self, user_id: i32, machine_id: u128) -> (r: Option<usize>)
        ensures
            match r {
                Some(i) => i < self.reports@.len() && self.reports@[i as int].0 == user_id
                    && self.reports@[i as int].1.machine_id == machine_id && self.spec_reports().contains_key(
                    (user_id, machine_id),
                ) && self.spec_reports()[(user_id, machine_id)] == self.reports@[i as int].1@,
                None => !self.spec_reports().contains_key((user_id, machine_id)),
            },
    {
        proof {
            use_type_invariant(self);
        }
        let mut i: usize = 0;
        while i < self.reports.len()
            invariant
                0 <= i <= self.reports@.len(),
                forall|j: int| 0 <= j < i ==> #[trigger] rkey()(self.reports@[j]) != (user_id, machine_id),
            decreases self.reports.len() - i,
        {
            if self.reports[i].0 == user_id && self.reports[i].1.machine_id == machine_id {
                proof {
                    use_type_invariant(self);
                    lemma_assoc_value(self.reports@, rkey(), rval(), i as int);
                }
                return Some(i);
            }
            i += 1;
        }
        proof {
            lemma_assoc_contains(self.reports@, rkey(), rval(), (user_id, machine_id));
        }
        None
    }

    fn find_policy_report(&self, key: PolicyReportKey) -> (r: Option<usize>)
        ensures
            match r {
                Some(i) => i < self.policy_reports@.len() && self.policy_reports@[i as int].0 == key
                    && self.spec_policy_reports().contains_key(key)
                    && self.spec_policy_reports()[key] == self.policy_reports@[i as int].1@,
                None => !self.spec_policy_reports().contains_key(key),
            },
    {
        proof {
            use_type_invariant(self);
        }
        let mut i: usize = 0;
        while i < self.policy_reports.len()
            invariant
                0 <= i <= self.policy_reports@.len(),
                forall|j: int| 0 <= j < i ==> #[trigger] prkey()(self.policy_reports@[j]) != key,
            decreases self.policy_reports.len() - i,
        {
            if self.policy_reports[i].0 == key {
                proof {
                    use_type_invariant(self);
                    lemma_assoc_value(self.policy_reports@, prkey(), prval(), i as int);
                }
                return Some(i);
            }
            i += 1;
        }
        proof {
            lemma_assoc_contains(self.policy_reports@, prkey(), prval(), key);
        }
        None
    }
}

/// Where a user's policy stands in the order.
pub open spec fn order_index(order: Seq<(i32, GatewayPolicyView)>, user: i32, policy_id: u128) -> int {
    choose|i: int| 0 <= i < order.len() && order[i].0 == user && order[i].1.policy_id == policy_id
}

/// The order once a user's policy is stored: replaced where it stood, or added last.
pub open spec fn order_after_upsert(
    order: Seq<(i32, GatewayPolicyView)>,
    had: bool,
    user: i32,
    p: GatewayPolicyView,
) -> Seq<(i32, GatewayPolicyView)> {
    if had {
        order.update(order_index(order, user, p.policy_id), (user, p))
    } else {
        order.push((user, p))
    }
}

impl PolicyStore {
    fn put_policy(&mut self, user_id: i32, policy: GatewayFullTunnelPolicy)
        ensures
            final(self).spec_policies() == old(self).spec_policies().insert(
                (user_id, policy.policy_id),
                policy@,
            ),
            final(self).spec_policy_order() == order_after_upsert(
                old(self).spec_policy_order(),
                old(self).spec_policies().contains_key((user_id, policy.policy_id)),
                user_id,
                policy@,
            ),
            final(self).spec_reports() == old(self).spec_reports(),
            final(self).spec_policy_reports() == old(self).spec_policy_reports(),
    {
        proof {
            use_type_invariant(&*self);
        }
        let ghost order = self.spec_policy_order();
        let ghost pv = policy@;
        let found = self.find_policy(user_id, policy.policy_id);
        let mut entries: Vec<(i32, GatewayFullTunnelPolicy)> = Vec::new();
        std::mem::swap(&mut entries, &mut self.policies);
        let ghost before = entries@;
        match found {
            Some(i) => {
                let e = (user_id, policy);
                proof {
                    lemma_assoc_update(before, pkey(), pval(), i as int, e);
                }
                entries.set(i, e);
                proof {
                    assert(entries@ == before.update(i as int, e));
                    let k = order_index(order, user_id, pv.policy_id);
                    assert(order[i as int].0 == user_id && order[i as int].1.policy_id == pv.policy_id);
                    if k != i {
                        assert(pkey()(before[k]) == pkey()(before[i as int]));
                    }
                    assert(entries@.map_values(|e: (i32, GatewayFullTunnelPolicy)| (e.0, e.1@))
                        =~= order.update(i as int, (user_id, pv)));
                }
            },
            None => {
                let e = (user_id, policy);
                proof {
                    lemma_assoc_push(before, pkey(), pval(), e);
                }
                entries.push(e);
                proof {
                    assert(entries@.map_values(|e: (i32, GatewayFullTunnelPolicy)| (e.0, e.1@))
                        =~= order.push((user_id, pv)));
                }
            },
        }
        self.policies = entries;
    }

    /// Stores a user's policy, replacing the one with its id, once it is valid and does not take
    /// a source that another enabled policy of the user routes.
    pub fn upsert_policy(&mut self, user_id: i32, policy: GatewayFullTunnelPolicy) -> (r: Result<
        (),
        PolicyError,
    >)
        ensures
            r == upsert_check(old(self).spec_policies(), user_id, policy@),
            r is Ok ==> final(self).spec_policies() == old(self).spec_policies().insert(
                (user_id, policy.policy_id),
                policy@,
            ) && final(self).spec_policy_order() == order_after_upsert(
                old(self).spec_policy_order(),
                old(self).spec_policies().contains_key((user_id, policy.policy_id)),
                user_id,
                policy@,
            ),
            r is Err ==> final(self).spec_policies() == old(self).spec_policies()
                && final(self).spec_policy_order() == old(self).spec_policy_order(),
            final(self).spec_reports() == old(self).spec_reports(),
            final(self).spec_policy_reports() == old(self).spec_policy_reports(),
    {
        proof {
            use_type_invariant(&*self);
        }
        policy.validate()?;
        if policy.enabled {
            let mut i: usize = 0;
            while i < self.policies.len()
                invariant
                    0 <= i <= self.policies@.len(),
                    distinct_by(self.policies@, pkey()),
                    self.policies@ == old(self).policies@,
                    self.reports@ == old(self).reports@,
                    self.policy_reports@ == old(self).policy_reports@,
                    gateway_validation(policy@) is Ok,
                    policy.enabled,
                    forall|j: int|
                        0 <= j < i ==> !(#[trigger] self.policies@[j].0 == user_id
                            && self.policies@[j].1.enabled && self.policies@[j].1.policy_id
                            != policy.policy_id && self.policies@[j].1.source_machine_id
                            == policy.source_machine_id),
                decreases self.policies.len() - i,
            {
                let e = &self.policies[i];
                if e.0 == user_id && e.1.enabled && e.1.policy_id != policy.policy_id
                    && e.1.source_machine_id == policy.source_machine_id {
                    proof {
                        lemma_assoc_value(self.policies@, pkey(), pval(), i as int);
                        let k = pkey()(self.policies@[i as int]);
                        assert(self.spec_policies().contains_key(k));
                        assert(self.spec_policies()[k] == self.policies@[i as int].1@);
                        assert(source_taken_for(old(self).spec_policies(), user_id, policy@));
                    }
                    return Err(PolicyError::SourceAlreadyHasEnabledPolicy);
                }
                i += 1;
            }
            proof {
                assert forall|k: (i32, u128)| #[trigger]
                    self.spec_policies().contains_key(k) && k.0 == user_id implies !(
                    self.spec_policies()[k].enabled && self.spec_policies()[k].policy_id
                        != policy.policy_id && self.spec_policies()[k].source_machine_id
                        == policy.source_machine_id) by {
                    lemma_assoc_contains(self.policies@, pkey(), pval(), k);
                    let j = choose|j: int| 0 <= j < self.policies@.len() && pkey()(self.policies@[j]) == k;
                    lemma_assoc_value(self.policies@, pkey(), pval(), j);
                }
            }
        }
        self.put_policy(user_id, policy);
        Ok(())
    }
}

impl PolicyStore {
    fn report_policy_role(&self, user_id: i32, report: &RuntimeReport) -> (r: Option<
        (u128, DevicePolicyRole),
    >)
        ensures
            r == report_role(self.spec_policies(), user_id, report@),
    {
        let policy_id = match report.observed_policy_id {
            Some(id) => id,
            None => match report.policy_id {
                Some(id) => id,
                None => {
                    return None;
                },
            },
        };
        if let Some(role) = report.role {
            return Some((policy_id, role));
        }
        match self.find_policy(user_id, policy_id) {
            None => None,
            Some(i) => {
                let p = &self.policies[i].1;
                if report.machine_id == p.source_machine_id {
                    Some((policy_id, DevicePolicyRole::ClientGatewayViaPeer))
                } else if report.machine_id == p.exit_machine_id {
                    Some((policy_id, DevicePolicyRole::ProvideExitForGateway))
                } else {
                    None
                }
            },
        }
    }

    fn put_report(&mut self, user_id: i32, report: RuntimeReport)
        ensures
            final(self).spec_reports() == old(self).spec_reports().insert(
                (user_id, report.machine_id),
                report@,
            ),
            final(self).spec_policies() == old(self).spec_policies(),
            final(self).spec_policy_order() == old(self).spec_policy_order(),
            final(self).spec_policy_reports() == old(self).spec_policy_reports(),
    {
        proof {
            use_type_invariant(&*self);
        }
        let found = self.find_report(user_id, report.machine_id);
        let mut entries: Vec<(i32, RuntimeReport)> = Vec::new();
        std::mem::swap(&mut entries, &mut self.reports);
        let ghost before = entries@;
        let e = (user_id, report);
        match found {
            Some(i) => {
                proof {
                    lemma_assoc_update(before, rkey(), rval(), i as int, e);
                }
                entries.set(i, e);
                assert(entries@ == before.update(i as int, e));
            },
            None => {
                proof {
                    lemma_assoc_push(before, rkey(), rval(), e);
                }
                entries.push(e);
            },
        }
        self.reports = entries;
    }

    fn put_policy_report(&mut self, key: PolicyReportKey, report: RuntimeReport)
        ensures
            final(self).spec_policy_reports() == old(self).spec_policy_reports().insert(key, report@),
            final(self).spec_policies() == old(self).spec_policies(),
            final(self).spec_policy_order() == old(self).spec_policy_order(),
            final(self).spec_reports() == old(self).spec_reports(),
    {
        proof {
            use_type_invariant(&*self);
        }
        let found = self.find_policy_report(key);
        let mut entries: Vec<(PolicyReportKey, RuntimeReport)> = Vec::new();
        std::mem::swap(&mut entries, &mut self.policy_reports);
        let ghost before = entries@;
        let e = (key, report);
        match found {
            Some(i) => {
                proof {
                    lemma_assoc_update(before, prkey(), prval(), i as int, e);
                }
                entries.set(i, e);
                assert(entries@ == before.update(i as int, e));
            },
            None => {
                proof {
                    lemma_assoc_push(before, prkey(), prval(), e);
                }
                entries.push(e);
            },
        }
        self.policy_reports = entries;
    }

    /// Records a machine's report: as the machine's last report (keeping its last known EasyTier
    /// address when the report omits one), and as the last report of the policy side it is
    /// about.
    pub fn update_report(&mut self, user_id: i32, report: RuntimeReport)
        ensures
            final(self).spec_reports() == old(self).spec_reports().insert(
                (user_id, report.machine_id),
                filled_report(old(self).spec_reports(), user_id, report@),
            ),
            final(self).spec_policy_reports() == match report_role(
                old(self).spec_policies(),
                user_id,
                report@,
            ) {
                Some((policy_id, role)) => old(self).spec_policy_reports().insert(
                    PolicyReportKey { user_id, policy_id, role, machine_id: report.machine_id },
                    filled_report(old(self).spec_reports(), user_id, report@),
                ),
                None => old(self).spec_policy_reports(),
            },
            final(self).spec_policies() == old(self).spec_policies(),
            final(self).spec_policy_order() == old(self).spec_policy_order(),
    {
        let mut report = report;
        if report.easytier_ipv4.is_none() {
            match self.find_report(user_id, report.machine_id) {
                Some(i) => {
                    report.easytier_ipv4 = crate::command::clone_opt_string(
                        &self.reports[i].1.easytier_ipv4,
                    );
                },
                None => {},
            }
        }
        let role = self.report_policy_role(user_id, &report);
        match role {
            Some((policy_id, role)) => {
                let key = PolicyReportKey { user_id, policy_id, role, machine_id: report.machine_id };
                let copy = report.copy();
                self.put_policy_report(key, copy);
            },
            None => {},
        }
        self.put_report(user_id, report);
    }
}

/// A snapshot's side shows the stored report of that side, or nothing when there is none.
pub open spec fn observed_side(o: Option<GatewayPolicyObservedNode>, reports: Map<PolicyReportKey, ReportView>, k: PolicyReportKey) -> bool {
    match o {
        Some(n) => reports.contains_key(k) && shows_report(n, reports[k]),
        None => !reports.contains_key(k),
    }
}

pub open spec fn device_views(v: Seq<DevicePolicy>) -> Seq<DevicePolicyView> {
    v.map_values(|d: DevicePolicy| d@)
}

pub open spec fn device_list_result(r: Result<Vec<DevicePolicy>, PolicyError>) -> Result<
    Seq<DevicePolicyView>,
    PolicyError,
> {
    match r {
        Ok(v) => Ok(device_views(v@)),
        Err(e) => Err(e),
    }
}

/// Which of a user's policies a listing picks: all of them, or, for a machine, the enabled ones
/// it is a side of whose both sides have reported an EasyTier address.
pub open spec fn selected(reports: Map<(i32, u128), ReportView>, user: i32, ready_for: Option<u128>, p: GatewayPolicyView) -> bool {
    match ready_for {
        None => true,
        Some(machine) => p.enabled && (p.source_machine_id == machine || p.exit_machine_id == machine)
            && reported_ip(reports, user, p.source_machine_id) is Some && reported_ip(
            reports,
            user,
            p.exit_machine_id,
        ) is Some,
    }
}

/// Policies in strictly increasing id order.
pub open spec fn sorted_by_id(v: Seq<GatewayFullTunnelPolicy>) -> bool {
    forall|a: int, b: int| 0 <= a < b < v.len() ==> v[a].policy_id < v[b].policy_id
}

/// A listing: exactly the picked policies of the user, in increasing id order.
pub open spec fn is_listing(
    v: Seq<GatewayFullTunnelPolicy>,
    m: Map<(i32, u128), GatewayPolicyView>,
    reports: Map<(i32, u128), ReportView>,
    user: i32,
    ready_for: Option<u128>,
) -> bool {
    &&& sorted_by_id(v)
    &&& forall|j: int|
        0 <= j < v.len() ==> m.contains_key((user, #[trigger] v[j].policy_id)) && m[(
            user,
            v[j].policy_id,
        )] == v[j]@ && selected(reports, user, ready_for, v[j]@)
    &&& forall|k: (i32, u128)|
        #[trigger] m.contains_key(k) && k.0 == user && selected(reports, user, ready_for, m[k])
            ==> exists|j: int| 0 <= j < v.len() && v[j].policy_id == k.1
}

fn insert_sorted(out: &mut Vec<GatewayFullTunnelPolicy>, p: GatewayFullTunnelPolicy) -> (pos: usize)
    requires
        sorted_by_id(old(out)@),
        forall|j: int| 0 <= j < old(out)@.len() ==> #[trigger] old(out)@[j].policy_id != p.policy_id,
    ensures
        sorted_by_id(final(out)@),
        pos <= old(out)@.len(),
        final(out)@ == old(out)@.insert(pos as int, p),
{
    let mut pos: usize = 0;
    while pos < out.len() && out[pos].policy_id < p.policy_id
        invariant
            0 <= pos <= out@.len(),
            forall|j: int| 0 <= j < pos ==> #[trigger] out@[j].policy_id < p.policy_id,
        decreases out.len() - pos,
    {
        pos += 1;
    }
    let ghost before = out@;
    out.insert(pos, p);
    proof {
        assert forall|a: int, b: int| 0 <= a < b < out@.len() implies out@[a].policy_id
            < out@[b].policy_id by {
            if b < pos {
                assert(out@[a] == before[a] && out@[b] == before[b]);
            } else if b == pos {
                assert(out@[a] == before[a]);
            } else if a == pos {
                assert(out@[b] == before[b - 1]);
                if pos < before.len() {
                    assert(before[pos as int].policy_id >= p.policy_id);
                    assert(before[pos as int].policy_id != p.policy_id);
                    if b - 1 > pos {
                        assert(before[pos as int].policy_id < before[b - 1].policy_id);
                    }
                }
            } else if a < pos {
                assert(out@[a] == before[a] && out@[b] == before[b - 1]);
                assert(before[a].policy_id < p.policy_id);
                if pos < before.len() {
                    assert(before[pos as int].policy_id >= p.policy_id);
                    if b - 1 > pos as int {
                        assert(before[pos as int].policy_id < before[b - 1].policy_id);
                    }
                }
            } else {
                assert(out@[a] == before[a - 1] && out@[b] == before[b - 1]);
            }
        }
    }
    pos
}

impl PolicyStore {
    fn is_selected(&self, user_id: i32, ready_for: Option<u128>, p: &GatewayFullTunnelPolicy) -> (r:
        bool)
        ensures
            r == selected(self.spec_reports(), user_id, ready_for, p@),
    {
        match ready_for {
            None => true,
            Some(machine) => {
                if !p.enabled || (p.source_machine_id != machine && p.exit_machine_id != machine) {
                    return false;
                }
                let source_ready = match self.find_report(user_id, p.source_machine_id) {
                    Some(i) => self.reports[i].1.easytier_ipv4.is_some(),
                    None => false,
                };
                let exit_ready = match self.find_report(user_id, p.exit_machine_id) {
                    Some(i) => self.reports[i].1.easytier_ipv4.is_some(),
                    None => false,
                };
                source_ready && exit_ready
            },
        }
    }

    fn listing(&self, user_id: i32, ready_for: Option<u128>) -> (r: Vec<GatewayFullTunnelPolicy>)
        ensures
            is_listing(r@, self.spec_policies(), self.spec_reports(), user_id, ready_for),
    {
        proof {
            use_type_invariant(self);
        }
        let mut out: Vec<GatewayFullTunnelPolicy> = Vec::new();
        let ghost mut src: Seq<int> = Seq::empty();
        let mut i: usize = 0;
        while i < self.policies.len()
            invariant
                0 <= i <= self.policies@.len(),
                distinct_by(self.policies@, pkey()),
                sorted_by_id(out@),
                src.len() == out@.len(),
                forall|j: int|
                    0 <= j < out@.len() ==> 0 <= #[trigger] src[j] < i && pkey()(
                        self.policies@[src[j]],
                    ) == (user_id, out@[j].policy_id) && self.policies@[src[j]].1@ == out@[j]@
                        && selected(self.spec_reports(), user_id, ready_for, out@[j]@),
                forall|idx: int|
                    0 <= idx < i && #[trigger] self.policies@[idx].0 == user_id && selected(
                        self.spec_reports(),
                        user_id,
                        ready_for,
                        self.policies@[idx].1@,
                    ) ==> exists|j: int|
                        0 <= j < out@.len() && out@[j].policy_id == self.policies@[idx].1.policy_id,
            decreases self.policies.len() - i,
        {
            let e = &self.policies[i];
            if e.0 == user_id && self.is_selected(user_id, ready_for, &e.1) {
                let p = e.1.copy();
                let ghost before = out@;
                let ghost src_before = src;
                proof {
                    assert forall|j: int| 0 <= j < before.len() implies #[trigger] before[j].policy_id
                        != p.policy_id by {
                        if before[j].policy_id == p.policy_id {
                            assert(pkey()(self.policies@[src[j]]) == pkey()(self.policies@[i as int]));
                        }
                    }
                }
                let pos = insert_sorted(&mut out, p);
                proof {
                    src = src_before.insert(pos as int, i as int);
                    assert forall|j: int|
                        0 <= j < out@.len() implies 0 <= #[trigger] src[j] < i + 1 && pkey()(
                            self.policies@[src[j]],
                        ) == (user_id, out@[j].policy_id) && self.policies@[src[j]].1@ == out@[j]@
                            && selected(self.spec_reports(), user_id, ready_for, out@[j]@) by {
                        if j < pos {
                            assert(out@[j] == before[j] && src[j] == src_before[j]);
                        } else if j > pos {
                            assert(out@[j] == before[j - 1] && src[j] == src_before[j - 1]);
                        }
                    }
                    assert forall|idx: int|
                        0 <= idx < i + 1 && #[trigger] self.policies@[idx].0 == user_id && selected(
                            self.spec_reports(),
                            user_id,
                            ready_for,
                            self.policies@[idx].1@,
                        ) implies exists|j: int|
                        0 <= j < out@.len() && out@[j].policy_id == self.policies@[idx].1.policy_id by {
                        if idx == i {
                            assert(out@[pos as int] == p);
                        } else {
                            let j = choose|j: int|
                                0 <= j < before.len() && before[j].policy_id
                                    == self.policies@[idx].1.policy_id;
                            if j < pos {
                                assert(out@[j] == before[j]);
                            } else {
                                assert(out@[j + 1] == before[j]);
                            }
                        }
                    }
                }
            }
            i += 1;
        }
        proof {
            assert forall|j: int| 0 <= j < out@.len() implies self.spec_policies().contains_key(
                (user_id, #[trigger] out@[j].policy_id),
            ) && self.spec_policies()[(user_id, out@[j].policy_id)] == out@[j]@ && selected(
                self.spec_reports(),
                user_id,
                ready_for,
                out@[j]@,
            ) by {
                lemma_assoc_value(self.policies@, pkey(), pval(), src[j]);
            }
            assert forall|k: (i32, u128)|
                #[trigger] self.spec_policies().contains_key(k) && k.0 == user_id && selected(
                    self.spec_reports(),
                    user_id,
                    ready_for,
                    self.spec_policies()[k],
                ) implies exists|j: int| 0 <= j < out@.len() && out@[j].policy_id == k.1 by {
                lemma_assoc_contains(self.policies@, pkey(), pval(), k);
                let idx = choose|idx: int| 0 <= idx < self.policies@.len() && pkey()(self.policies@[idx]) == k;
                lemma_assoc_value(self.policies@, pkey(), pval(), idx);
                assert(self.policies@[idx].0 == user_id);
            }
        }
        out
    }

    /// The user's policies, in increasing id order.
    pub fn list_policies(&self, user_id: i32) -> (r: Vec<GatewayFullTunnelPolicy>)
        ensures
            is_listing(r@, self.spec_policies(), self.spec_reports(), user_id, None),
    {
        self.listing(user_id, None)
    }

    /// The user's enabled policies that a machine is a side of and whose both sides reported an
    /// EasyTier address, in increasing id order: those its native network settings follow.
    pub fn native_sync_ready_policies_for_machine(&self, user_id: i32, machine_id: u128) -> (r: Vec<
        GatewayFullTunnelPolicy,
    >)
        ensures
            is_listing(r@, self.spec_policies(), self.spec_reports(), user_id, Some(machine_id)),
    {
        self.listing(user_id, Some(machine_id))
    }

    /// A policy as desired and as its two sides last reported it.
    pub fn policy_snapshot(&self, user_id: i32, policy_id: u128) -> (r: Option<GatewayPolicySnapshot>)
        ensures
            match r {
                None => !self.spec_policies().contains_key((user_id, policy_id)),
                Some(s) => {
                    &&& self.spec_policies().contains_key((user_id, policy_id))
                    &&& s.desired@ == self.spec_policies()[(user_id, policy_id)]
                    &&& observed_side(
                        s.observed.source,
                        self.spec_policy_reports(),
                        PolicyReportKey {
                            user_id,
                            policy_id,
                            role: DevicePolicyRole::ClientGatewayViaPeer,
                            machine_id: s.desired.source_machine_id,
                        },
                    )
                    &&& observed_side(
                        s.observed.exit,
                        self.spec_policy_reports(),
                        PolicyReportKey {
                            user_id,
                            policy_id,
                            role: DevicePolicyRole::ProvideExitForGateway,
                            machine_id: s.desired.exit_machine_id,
                        },
                    )
                },
            },
    {
        let i = match self.find_policy(user_id, policy_id) {
            None => {
                return None;
            },
            Some(i) => i,
        };
        let desired = self.policies[i].1.copy();
        let source_key = PolicyReportKey {
            user_id,
            policy_id,
            role: DevicePolicyRole::ClientGatewayViaPeer,
            machine_id: desired.source_machine_id,
        };
        let exit_key = PolicyReportKey {
            user_id,
            policy_id,
            role: DevicePolicyRole::ProvideExitForGateway,
            machine_id: desired.exit_machine_id,
        };
        let source = match self.find_policy_report(source_key) {
            Some(j) => Some(GatewayPolicyObservedNode::from_report(&self.policy_reports[j].1)),
            None => None,
        };
        let exit = match self.find_policy_report(exit_key) {
            Some(j) => Some(GatewayPolicyObservedNode::from_report(&self.policy_reports[j].1)),
            None => None,
        };
        Some(GatewayPolicySnapshot { desired, observed: GatewayPolicyObservedState { source, exit } })
    }

    /// The snapshots of the user's policies, in increasing id order.
    pub fn list_policy_snapshots(&self, user_id: i32) -> (r: Vec<GatewayPolicySnapshot>)
        ensures
            is_listing(
                r@.map_values(|s: GatewayPolicySnapshot| s.desired),
                self.spec_policies(),
                self.spec_reports(),
                user_id,
                None,
            ),
            forall|j: int|
                0 <= j < r@.len() ==> observed_side(
                    #[trigger] r@[j].observed.source,
                    self.spec_policy_reports(),
                    PolicyReportKey {
                        user_id,
                        policy_id: r@[j].desired.policy_id,
                        role: DevicePolicyRole::ClientGatewayViaPeer,
                        machine_id: r@[j].desired.source_machine_id,
                    },
                ) && observed_side(
                    r@[j].observed.exit,
                    self.spec_policy_reports(),
                    PolicyReportKey {
                        user_id,
                        policy_id: r@[j].desired.policy_id,
                        role: DevicePolicyRole::ProvideExitForGateway,
                        machine_id: r@[j].desired.exit_machine_id,
                    },
                ),
    {
        let policies = self.list_policies(user_id);
        let mut out: Vec<GatewayPolicySnapshot> = Vec::new();
        let mut i: usize = 0;
        while i < policies.len()
            invariant
                0 <= i <= policies@.len(),
                is_listing(policies@, self.spec_policies(), self.spec_reports(), user_id, None),
                out@.len() == i,
                forall|j: int|
                    0 <= j < i ==> (#[trigger] out@[j]).desired@ == policies@[j]@ && observed_side(
                        out@[j].observed.source,
                        self.spec_policy_reports(),
                        PolicyReportKey {
                            user_id,
                            policy_id: out@[j].desired.policy_id,
                            role: DevicePolicyRole::ClientGatewayViaPeer,
                            machine_id: out@[j].desired.source_machine_id,
                        },
                    ) && observed_side(
                        out@[j].observed.exit,
                        self.spec_policy_reports(),
                        PolicyReportKey {
                            user_id,
                            policy_id: out@[j].desired.policy_id,
                            role: DevicePolicyRole::ProvideExitForGateway,
                            machine_id: out@[j].desired.exit_machine_id,
                        },
                    ),
            decreases policies.len() - i,
        {
            let pid = policies[i].policy_id;
            assert(self.spec_policies().contains_key((user_id, policies@[i as int].policy_id)));
            match self.policy_snapshot(user_id, pid) {
                Some(snapshot) => {
                    out.push(snapshot);
                },
                None => {},
            }
            i += 1;
        }
        proof {
            let d = out@.map_values(|s: GatewayPolicySnapshot| s.desired);
            assert forall|j: int| 0 <= j < d.len() implies d[j]@ == policies@[j]@ by {}
            assert(is_listing(d, self.spec_policies(), self.spec_reports(), user_id, None)) by {
                assert forall|a: int, b: int| 0 <= a < b < d.len() implies d[a].policy_id
                    < d[b].policy_id by {
                    assert(d[a]@ == policies@[a]@ && d[b]@ == policies@[b]@);
                }
                assert forall|j: int| 0 <= j < d.len() implies self.spec_policies().contains_key(
                    (user_id, #[trigger] d[j].policy_id),
                ) && self.spec_policies()[(user_id, d[j].policy_id)] == d[j]@ && selected(
                    self.spec_reports(),
                    user_id,
                    None,
                    d[j]@,
                ) by {
                    assert(d[j]@ == policies@[j]@);
                    assert(self.spec_policies().contains_key((user_id, policies@[j].policy_id)));
                }
                assert forall|k: (i32, u128)|
                    #[trigger] self.spec_policies().contains_key(k) && k.0 == user_id && selected(
                        self.spec_reports(),
                        user_id,
                        None,
                        self.spec_policies()[k],
                    ) implies exists|j: int| 0 <= j < d.len() && d[j].policy_id == k.1 by {
                    let j = choose|j: int| 0 <= j < policies@.len() && policies@[j].policy_id == k.1;
                    assert(d[j]@ == policies@[j]@);
                }
            }
        }
        out
    }
}

impl PolicyStore {
    fn reported_ip_of(&self, user_id: i32, machine_id: u128) -> (r: Option<String>)
        ensures
            crate::web_policy::opt_view(r) == reported_ip(self.spec_reports(), user_id, machine_id),
    {
        match self.find_report(user_id, machine_id) {
            Some(i) => crate::command::clone_opt_string(&self.reports[i].1.easytier_ipv4),
            None => None,
        }
    }

    fn push_exit_side(
        &self,
        out: &mut Vec<DevicePolicy>,
        user_id: i32,
        machine_id: u128,
        p: &GatewayFullTunnelPolicy,
    ) -> (r: Result<(), PolicyError>)
        ensures
            match exit_side(device_views(old(out)@), self.spec_reports(), user_id, machine_id, p@) {
                Ok(v) => r is Ok && device_views(final(out)@) == v,
                Err(e) => r == Err::<(), PolicyError>(e),
            },
    {
        if p.exit_machine_id == machine_id {
            match self.reported_ip_of(user_id, p.source_machine_id) {
                None => Ok(()),
                Some(ip) => match p.exit_device_policy(ip) {
                    Err(e) => Err(e),
                    Ok(d) => {
                        let ghost before = out@;
                        out.push(d);
                        assert(device_views(out@) =~= device_views(before).push(d@));
                        Ok(())
                    },
                },
            }
        } else {
            Ok(())
        }
    }

    /// The device policies a machine receives, from the user's stored policies in order: its
    /// side of each, once the peer's EasyTier address is known.
    pub fn device_policies_for_machine(&self, user_id: i32, machine_id: u128) -> (r: Result<
        Vec<DevicePolicy>,
        PolicyError,
    >)
        ensures
            device_list_result(r) == device_run(
                self.spec_policy_order(),
                self.spec_reports(),
                user_id,
                machine_id,
            ),
    {
        let ghost order = self.spec_policy_order();
        let mut out: Vec<DevicePolicy> = Vec::new();
        assert(order.take(0) =~= Seq::<(i32, GatewayPolicyView)>::empty());
        assert(device_views(out@) =~= Seq::<DevicePolicyView>::empty());
        let mut i: usize = 0;
        while i < self.policies.len()
            invariant
                0 <= i <= self.policies@.len(),
                order == self.spec_policy_order(),
                device_run(order.take(i as int), self.spec_reports(), user_id, machine_id) == Ok::<
                    Seq<DevicePolicyView>,
                    PolicyError,
                >(device_views(out@)),
            decreases self.policies.len() - i,
        {
            assert(order.take(i + 1).drop_last() == order.take(i as int));
            assert(order.take(i + 1).last() == (self.policies@[i as int].0, self.policies@[i as int].1@));
            let e = &self.policies[i];
            if e.0 == user_id {
                let p = &e.1;
                if p.source_machine_id == machine_id {
                    match self.reported_ip_of(user_id, p.exit_machine_id) {
                        None => {},
                        Some(ip) => match p.source_device_policy(ip) {
                            Err(err) => {
                                proof {
                                    lemma_device_run_error(
                                        order,
                                        self.spec_reports(),
                                        user_id,
                                        machine_id,
                                        i + 1,
                                    );
                                }
                                return Err(err);
                            },
                            Ok(d) => {
                                let ghost before = out@;
                                out.push(d);
                                assert(device_views(out@) =~= device_views(before).push(d@));
                                match self.push_exit_side(&mut out, user_id, machine_id, p) {
                                    Ok(()) => {},
                                    Err(err) => {
                                        proof {
                                            lemma_device_run_error(
                                                order,
                                                self.spec_reports(),
                                                user_id,
                                                machine_id,
                                                i + 1,
                                            );
                                        }
                                        return Err(err);
                                    },
                                }
                            },
                        },
                    }
                } else {
                    match self.push_exit_side(&mut out, user_id, machine_id, p) {
                        Ok(()) => {},
                        Err(err) => {
                            proof {
                                lemma_device_run_error(
                                    order,
                                    self.spec_reports(),
                                    user_id,
                                    machine_id,
                                    i + 1,
                                );
                            }
                            return Err(err);
                        },
                    }
                }
            }
            i += 1;
        }
        assert(order.take(self.policies@.len() as int) == order);
        Ok(out)
    }
}

/// Once going through the policies fails, going through more of them fails the same way.
pub proof fn lemma_device_run_error(
    order: Seq<(i32, GatewayPolicyView)>,
    reports: Map<(i32, u128), ReportView>,
    user: i32,
    machine: u128,
    j: int,
)
    requires
        0 <= j <= order.len(),
        device_run(order.take(j), reports, user, machine) is Err,
    ensures
        device_run(order, reports, user, machine) == device_run(order.take(j), reports, user, machine),
    decreases order.len() - j,
{
    if j < order.len() {
        assert(order.take(j + 1).drop_last() == order.take(j));
        lemma_device_run_error(order, reports, user, machine, j + 1);
    } else {
        assert(order.take(j) == order);
    }
}

impl Default for PolicyStore {
    fn default() -> (r: PolicyStore)
        ensures
            r.spec_policies() == Map::<(i32, u128), GatewayPolicyView>::empty(),
            r.spec_reports() == Map::<(i32, u128), ReportView>::empty(),
            r.spec_policy_reports() == Map::<PolicyReportKey, ReportView>::empty(),
            r.spec_policy_order().len() == 0,
    {
        let r = PolicyStore { policies: Vec::new(), reports: Vec::new(), policy_reports: Vec::new() };
        assert(r.spec_policy_order() =~= Seq::<(i32, GatewayPolicyView)>::empty());
        r
    }
}


// ---------------------------------------------------------------------------
// What the store promises across calls
// ---------------------------------------------------------------------------
/// No user has two enabled policies with one source.
pub open spec fn one_enabled_policy_per_source(m: Map<(i32, u128), GatewayPolicyView>) -> bool {
    forall|a: (i32, u128), b: (i32, u128)|
        #[trigger] m.contains_key(a) && #[trigger] m.contains_key(b) && a.0 == b.0 && m[a].enabled
            && m[b].enabled && m[a].source_machine_id == m[b].source_machine_id ==> m[a].policy_id
            == m[b].policy_id
}

/// Storing a policy that the store accepts keeps every user at one enabled policy per source.
pub proof fn lemma_upsert_keeps_one_enabled_policy_per_source(
    m: Map<(i32, u128), GatewayPolicyView>,
    user: i32,
    p: GatewayPolicyView,
)
    requires
        one_enabled_policy_per_source(m),
        upsert_check(m, user, p) is Ok,
    ensures
        one_enabled_policy_per_source(m.insert((user, p.policy_id), p)),
{
    let m2 = m.insert((user, p.policy_id), p);
    let key = (user, p.policy_id);
    assert forall|a: (i32, u128), b: (i32, u128)|
        #[trigger] m2.contains_key(a) && #[trigger] m2.contains_key(b) && a.0 == b.0 && m2[a].enabled
            && m2[b].enabled && m2[a].source_machine_id == m2[b].source_machine_id implies m2[a].policy_id
            == m2[b].policy_id by {
        if a == key && b != key {
            assert(m.contains_key(b));
            if m[b].policy_id != p.policy_id {
                assert(source_taken_for(m, user, p));
            }
        } else if b == key && a != key {
            assert(m.contains_key(a));
            if m[a].policy_id != p.policy_id {
                assert(source_taken_for(m, user, p));
            }
        } else if a != key && b != key {
            assert(m.contains_key(a) && m.contains_key(b));
        }
    }
}

/// A policy a user stored is in that user's listing, as stored.
pub proof fn lemma_stored_policy_is_listed(
    v: Seq<GatewayFullTunnelPolicy>,
    m: Map<(i32, u128), GatewayPolicyView>,
    reports: Map<(i32, u128), ReportView>,
    user: i32,
    p: GatewayPolicyView,
)
    requires
        is_listing(v, m.insert((user, p.policy_id), p), reports, user, None),
    ensures
        exists|j: int| 0 <= j < v.len() && #[trigger] v[j]@ == p,
{
    let m2 = m.insert((user, p.policy_id), p);
    assert(m2.contains_key((user, p.policy_id)));
    let j = choose|j: int| 0 <= j < v.len() && v[j].policy_id == p.policy_id;
    assert(m2.contains_key((user, v[j].policy_id)));
    assert(v[j]@ == p);
}

/// What one user stores does not change another user's listing.
pub proof fn lemma_listing_ignores_other_users(
    v: Seq<GatewayFullTunnelPolicy>,
    m: Map<(i32, u128), GatewayPolicyView>,
    reports: Map<(i32, u128), ReportView>,
    user: i32,
    other: i32,
    p: GatewayPolicyView,
    ready_for: Option<u128>,
)
    requires
        user != other,
    ensures
        is_listing(v, m.insert((user, p.policy_id), p), reports, other, ready_for) == is_listing(
            v,
            m,
            reports,
            other,
            ready_for,
        ),
{
    let m2 = m.insert((user, p.policy_id), p);
    assert forall|k: (i32, u128)| k.0 == other implies (m2.contains_key(k) == m.contains_key(k)) && (
    m.contains_key(k) ==> m2[k] == m[k]) by {}
    if is_listing(v, m, reports, other, ready_for) {
        assert forall|j: int|
            0 <= j < v.len() implies m2.contains_key((other, #[trigger] v[j].policy_id)) && m2[(
                other,
                v[j].policy_id,
            )] == v[j]@ && selected(reports, other, ready_for, v[j]@) by {
            assert(m.contains_key((other, v[j].policy_id)));
        }
        assert forall|k: (i32, u128)|
            #[trigger] m2.contains_key(k) && k.0 == other && selected(reports, other, ready_for, m2[k])
                implies exists|j: int| 0 <= j < v.len() && v[j].policy_id == k.1 by {
            assert(m.contains_key(k));
        }
    }
    if is_listing(v, m2, reports, other, ready_for) {
        assert forall|j: int|
            0 <= j < v.len() implies m.contains_key((other, #[trigger] v[j].policy_id)) && m[(
                other,
                v[j].policy_id,
            )] == v[j]@ && selected(reports, other, ready_for, v[j]@) by {
            assert(m2.contains_key((other, v[j].policy_id)));
        }
        assert forall|k: (i32, u128)|
            #[trigger] m.contains_key(k) && k.0 == other && selected(reports, other, ready_for, m[k])
                implies exists|j: int| 0 <= j < v.len() && v[j].policy_id == k.1 by {
            assert(m2.contains_key(k));
        }
    }
}

/// A device policy is addressed to its machine: the source side to the policy's source, the exit
/// side to its exit.
pub open spec fn addressed_to(d: DevicePolicyView, machine: u128) -> bool {
    &&& d.machine_id == machine
    &&& d.role == DevicePolicyRole::ClientGatewayViaPeer ==> d.source_machine_id == machine
    &&& d.role == DevicePolicyRole::ProvideExitForGateway ==> d.exit_machine_id == machine
}

/// Every device policy a machine receives is addressed to it.
pub proof fn lemma_device_policies_are_addressed(
    order: Seq<(i32, GatewayPolicyView)>,
    reports: Map<(i32, u128), ReportView>,
    user: i32,
    machine: u128,
)
    ensures
        device_run(order, reports, user, machine) matches Ok(v) ==> forall|j: int|
            0 <= j < v.len() ==> addressed_to(#[trigger] v[j], machine),
    decreases order.len(),
{
    if order.len() > 0 {
        lemma_device_policies_are_addressed(order.drop_last(), reports, user, machine);
        match device_run(order.drop_last(), reports, user, machine) {
            Err(_) => {},
            Ok(out) => {
                if order.last().0 == user {
                    let p = order.last().1;
                    let after_source = if p.source_machine_id == machine {
                        match reported_ip(reports, user, p.exit_machine_id) {
                            None => out,
                            Some(ip) => out.push(side_policy(p, DevicePolicyRole::ClientGatewayViaPeer, ip)),
                        }
                    } else {
                        out
                    };
                    assert forall|j: int| 0 <= j < after_source.len() implies addressed_to(
                        #[trigger] after_source[j],
                        machine,
                    ) by {
                        if j < out.len() {
                            assert(after_source[j] == out[j]);
                        }
                    }
                    match exit_side(after_source, reports, user, machine, p) {
                        Err(_) => {},
                        Ok(v) => {
                            assert forall|j: int| 0 <= j < v.len() implies addressed_to(
                                #[trigger] v[j],
                                machine,
                            ) by {
                                if j < after_source.len() {
                                    assert(v[j] == after_source[j]);
                                }
                            }
                        },
                    }
                }
            },
        }
    }
}


/// The position of the first device policy of a gateway policy.
pub open spec fn first_device_of(v: Seq<DevicePolicyView>, policy_id: u128) -> Option<int>
    decreases v.len(),
{
    if v.len() == 0 {
        None
    } else {
        match first_device_of(v.drop_last(), policy_id) {
            Some(k) => Some(k),
            None => if v.last().policy_id == policy_id {
                Some(v.len() - 1)
            } else {
                None
            },
        }
    }
}

proof fn lemma_first_device_prefix(v: Seq<DevicePolicyView>, policy_id: u128, n: int)
    requires
        0 <= n <= v.len(),
        first_device_of(v.take(n), policy_id) is Some,
    ensures
        first_device_of(v, policy_id) == first_device_of(v.take(n), policy_id),
    decreases v.len() - n,
{
    if n < v.len() {
        assert(v.take(n + 1).drop_last() =~= v.take(n));
        lemma_first_device_prefix(v, policy_id, n + 1);
    } else {
        assert(v.take(n) =~= v);
    }
}

/// The exit peer address a gateway policy's source is given: that of the first device policy of
/// it among the source's; none when the source has none yet.
pub open spec fn exit_peer_of(
    order: Seq<(i32, GatewayPolicyView)>,
    reports: Map<(i32, u128), ReportView>,
    user: i32,
    p: GatewayPolicyView,
) -> Result<Option<Seq<char>>, PolicyError> {
    match device_run(order, reports, user, p.source_machine_id) {
        Err(e) => Err(e),
        Ok(v) => match first_device_of(v, p.policy_id) {
            Some(k) => Ok(v[k].exit_peer_ipv4),
            None => Ok(None),
        },
    }
}

impl PolicyStore {
    /// The exit peer address the source of a gateway policy is given, once it is known.
    pub fn exit_peer_for_policy(&self, user_id: i32, policy: &GatewayFullTunnelPolicy) -> (r: Result<
        Option<String>,
        PolicyError,
    >)
        ensures
            match r {
                Ok(Some(a)) => exit_peer_of(self.spec_policy_order(), self.spec_reports(), user_id, policy@)
                    == Ok::<Option<Seq<char>>, PolicyError>(Some(a@)),
                Ok(None) => exit_peer_of(self.spec_policy_order(), self.spec_reports(), user_id, policy@)
                    == Ok::<Option<Seq<char>>, PolicyError>(None),
                Err(e) => exit_peer_of(self.spec_policy_order(), self.spec_reports(), user_id, policy@)
                    == Err::<Option<Seq<char>>, PolicyError>(e),
            },
    {
        let devices = match self.device_policies_for_machine(user_id, policy.source_machine_id) {
            Ok(d) => d,
            Err(e) => {
                return Err(e);
            },
        };
        let ghost v = device_views(devices@);
        assert(device_run(self.spec_policy_order(), self.spec_reports(), user_id, policy.source_machine_id)
            == Ok::<Seq<DevicePolicyView>, PolicyError>(v));
        let mut k: usize = 0;
        while k < devices.len()
            invariant
                0 <= k <= devices@.len(),
                v == device_views(devices@),
                device_run(self.spec_policy_order(), self.spec_reports(), user_id, policy.source_machine_id)
                    == Ok::<Seq<DevicePolicyView>, PolicyError>(v),
                first_device_of(v.take(k as int), policy.policy_id) is None,
            decreases devices.len() - k,
        {
            proof {
                assert(v.take(k + 1).drop_last() =~= v.take(k as int));
                assert(v.take(k + 1).last() == devices@[k as int]@);
            }
            if devices[k].policy_id == policy.policy_id {
                proof {
                    lemma_first_device_prefix(v, policy.policy_id, k + 1);
                }
                return Ok(crate::command::clone_opt_string(&devices[k].exit_peer_ipv4));
            }
            k += 1;
        }
        proof {
            assert(v.take(k as int) =~= v);
        }
        Ok(None)
    }
}


// ---------------------------------------------------------------------------
// A store made from what is kept of a user
// ---------------------------------------------------------------------------
/// The policies, and their order, after storing each of `ps` for a user in turn; the first one
/// refused stops it with its error.
pub open spec fn upsert_all(
    m: Map<(i32, u128), GatewayPolicyView>,
    order: Seq<(i32, GatewayPolicyView)>,
    user: i32,
    ps: Seq<GatewayFullTunnelPolicy>,
) -> Result<(Map<(i32, u128), GatewayPolicyView>, Seq<(i32, GatewayPolicyView)>), PolicyError>
    decreases ps.len(),
{
    if ps.len() == 0 {
        Ok((m, order))
    } else {
        match upsert_all(m, order, user, ps.drop_last()) {
            Err(e) => Err(e),
            Ok((m1, o1)) => {
                let p = ps.last()@;
                match upsert_check(m1, user, p) {
                    Err(e) => Err(e),
                    Ok(_) => Ok(
                        (
                            m1.insert((user, p.policy_id), p),
                            order_after_upsert(o1, m1.contains_key((user, p.policy_id)), user, p),
                        ),
                    ),
                }
            },
        }
    }
}

/// The reports, and the reports per policy side, after recording each of `rs` for a user in
/// turn, with the given policies stored.
pub open spec fn record_all(
    reports: Map<(i32, u128), ReportView>,
    policy_reports: Map<PolicyReportKey, ReportView>,
    policies: Map<(i32, u128), GatewayPolicyView>,
    user: i32,
    rs: Seq<RuntimeReport>,
) -> (Map<(i32, u128), ReportView>, Map<PolicyReportKey, ReportView>)
    decreases rs.len(),
{
    if rs.len() == 0 {
        (reports, policy_reports)
    } else {
        let (r1, pr1) = record_all(reports, policy_reports, policies, user, rs.drop_last());
        let rep = rs.last()@;
        let filled = filled_report(r1, user, rep);
        (
            r1.insert((user, rep.machine_id), filled),
            match report_role(policies, user, rep) {
                Some((policy_id, role)) => pr1.insert(
                    PolicyReportKey { user_id: user, policy_id, role, machine_id: rep.machine_id },
                    filled,
                ),
                None => pr1,
            },
        )
    }
}

impl PolicyStore {
    /// A user's store, made by storing the user's policies in order, then recording the user's
    /// reports in order.
    pub fn from_records(user_id: i32, policies: Vec<GatewayFullTunnelPolicy>, reports: Vec<RuntimeReport>) -> (r:
        Result<PolicyStore, PolicyError>)
        ensures
            match r {
                Ok(s) => upsert_all(
                    Map::empty(),
                    Seq::empty(),
                    user_id,
                    policies@,
                ) == Ok::<(Map<(i32, u128), GatewayPolicyView>, Seq<(i32, GatewayPolicyView)>), PolicyError>(
                    (s.spec_policies(), s.spec_policy_order()),
                ) && (s.spec_reports(), s.spec_policy_reports()) == record_all(
                    Map::empty(),
                    Map::empty(),
                    s.spec_policies(),
                    user_id,
                    reports@,
                ),
                Err(e) => upsert_all(Map::empty(), Seq::empty(), user_id, policies@) == Err::<
                    (Map<(i32, u128), GatewayPolicyView>, Seq<(i32, GatewayPolicyView)>),
                    PolicyError,
                >(e),
            },
    {
        let mut store = PolicyStore::default();
        proof {
            assert(policies@.take(0) =~= Seq::<GatewayFullTunnelPolicy>::empty());
            assert(store.spec_policy_order() =~= Seq::<(i32, GatewayPolicyView)>::empty());
        }
        let mut i: usize = 0;
        while i < policies.len()
            invariant
                0 <= i <= policies@.len(),
                upsert_all(Map::empty(), Seq::empty(), user_id, policies@.take(i as int)) == Ok::<
                    (Map<(i32, u128), GatewayPolicyView>, Seq<(i32, GatewayPolicyView)>),
                    PolicyError,
                >((store.spec_policies(), store.spec_policy_order())),
                store.spec_reports() == Map::<(i32, u128), ReportView>::empty(),
                store.spec_policy_reports() == Map::<PolicyReportKey, ReportView>::empty(),
            decreases policies.len() - i,
        {
            proof {
                assert(policies@.take(i + 1).drop_last() =~= policies@.take(i as int));
                assert(policies@.take(i + 1).last() == policies@[i as int]);
            }
            let p = policies[i].copy();
            match store.upsert_policy(user_id, p) {
                Ok(()) => {},
                Err(e) => {
                    proof {
                        lemma_upsert_all_error(Map::empty(), Seq::empty(), user_id, policies@, i + 1);
                    }
                    return Err(e);
                },
            }
            i += 1;
        }
        proof {
            assert(policies@.take(i as int) =~= policies@);
        }
        let ghost stored = store.spec_policies();
        proof {
            assert(reports@.take(0) =~= Seq::<RuntimeReport>::empty());
        }
        let mut k: usize = 0;
        while k < reports.len()
            invariant
                0 <= k <= reports@.len(),
                stored == store.spec_policies(),
                upsert_all(Map::empty(), Seq::empty(), user_id, policies@) == Ok::<
                    (Map<(i32, u128), GatewayPolicyView>, Seq<(i32, GatewayPolicyView)>),
                    PolicyError,
                >((store.spec_policies(), store.spec_policy_order())),
                (store.spec_reports(), store.spec_policy_reports()) == record_all(
                    Map::empty(),
                    Map::empty(),
                    stored,
                    user_id,
                    reports@.take(k as int),
                ),
            decreases reports.len() - k,
        {
            proof {
                assert(reports@.take(k + 1).drop_last() =~= reports@.take(k as int));
                assert(reports@.take(k + 1).last() == reports@[k as int]);
            }
            let rep = reports[k].copy();
            store.update_report(user_id, rep);
            k += 1;
        }
        proof {
            assert(reports@.take(k as int) =~= reports@);
        }
        Ok(store)
    }
}

proof fn lemma_upsert_all_error(
    m: Map<(i32, u128), GatewayPolicyView>,
    order: Seq<(i32, GatewayPolicyView)>,
    user: i32,
    ps: Seq<GatewayFullTunnelPolicy>,
    n: int,
)
    requires
        0 <= n <= ps.len(),
        upsert_all(m, order, user, ps.take(n)) is Err,
    ensures
        upsert_all(m, order, user, ps) == upsert_all(m, order, user, ps.take(n)),
    decreases ps.len() - n,
{
    if n < ps.len() {
        assert(ps.take(n + 1).drop_last() =~= ps.take(n));
        lemma_upsert_all_error(m, order, user, ps, n + 1);
    } else {
        assert(ps.take(n) =~= ps);
    }
}

} // verus!

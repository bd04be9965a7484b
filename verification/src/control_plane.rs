//! The control plane a node must keep reaching while its routes change: the check that it is
//! reachable, and the routes that pin it to the underlay.
use vstd::prelude::*;

use crate::command::{plans, sh, sh_command, CmdView, CommandPlan};
use crate::shell::{shell_single_quote, single_quoted};
use crate::text::{concat2, decimal, owned, push_str, strip_suffixes, trim_end_str, u64_to_decimal};

verus! {

/// A control-plane service and the host it lives on.
#[derive(Debug, Clone, PartialEq, Eq)]
pub struct ControlPlaneEndpoint {
    pub name: String,
    pub host: String,
}

impl ControlPlaneEndpoint {
    pub fn new(name: &str, host: &str) -> (r: ControlPlaneEndpoint)
        ensures
            r.name@ == name@,
            r.host@ == host@,
    {
        ControlPlaneEndpoint { name: owned(name), host: owned(host) }
    }
}

/// Answers whether a control-plane endpoint is reachable right now.
pub trait ControlPlaneProbe {
    /// Whether the probe may answer `reachable` about an endpoint. A probe may say what its
    /// answers can be; one that does not, as one that answers as the network is at the time,
    /// may answer either.
    open spec fn may_answer(&self, endpoint: ControlPlaneEndpoint, reachable: bool) -> bool {
        true
    }

    fn is_reachable(&self, endpoint: &ControlPlaneEndpoint) -> (r: bool)
        ensures
            self.may_answer(*endpoint, r),
    ;
}

/// Why the control plane check failed.
#[derive(Debug, Clone, PartialEq, Eq)]
pub enum ControlPlaneError {
    Unreachable(String),
}

impl ControlPlaneError {
    pub open spec fn spec_message(self) -> Seq<char> {
        match self {
            ControlPlaneError::Unreachable(name) => "control-plane endpoint is unreachable: "@
                + name@,
        }
    }

    /// The error's message.
    pub fn message(&self) -> (r: String)
        ensures
            r@ == self.spec_message(),
    {
        match self {
            ControlPlaneError::Unreachable(name) => concat2(
                "control-plane endpoint is unreachable: ",
                name.as_str(),
            ),
        }
    }
}

/// `i` is the first endpoint found unreachable.
pub open spec fn is_first_unreachable(reachable: Seq<bool>, i: int) -> bool {
    &&& 0 <= i < reachable.len()
    &&& !reachable[i]
    &&& forall|j: int| 0 <= j < i ==> #[trigger] reachable[j]
}

/// The name of the first endpoint that is not reachable, if any, given which are.
pub open spec fn first_unreachable_name(
    endpoints: Seq<ControlPlaneEndpoint>,
    reachable: Seq<bool>,
) -> Option<Seq<char>> {
    if exists|i: int| is_first_unreachable(reachable, i) {
        Some(endpoints[choose|i: int| is_first_unreachable(reachable, i)].name@)
    } else {
        None
    }
}

/// A check's outcome, as the name it reports unreachable.
pub open spec fn failed_name(r: Result<(), ControlPlaneError>) -> Option<Seq<char>> {
    match r {
        Ok(()) => None,
        Err(ControlPlaneError::Unreachable(name)) => Some(name@),
    }
}

/// A check of the endpoints that asked the probe about them in order, once each, and got
/// `asked`: each answer is one the probe may give about its endpoint; every answer but the last
/// is `true`; the questions stop before the end only at a `false`; and the outcome is that
/// endpoint, by name, or success when every endpoint answered `true`.
pub open spec fn probe_check<P: ControlPlaneProbe>(
    probe: P,
    endpoints: Seq<ControlPlaneEndpoint>,
    asked: Seq<bool>,
    r: Result<(), ControlPlaneError>,
) -> bool {
    &&& asked.len() <= endpoints.len()
    &&& forall|k: int| 0 <= k < asked.len() ==> probe.may_answer(endpoints[k], #[trigger] asked[k])
    &&& forall|k: int| 0 <= k < asked.len() - 1 ==> #[trigger] asked[k]
    &&& asked.len() < endpoints.len() ==> asked.len() > 0 && !asked.last()
    &&& failed_name(r) == (if asked.len() > 0 && !asked.last() {
        Some(endpoints[asked.len() - 1].name@)
    } else {
        None
    })
}

/// An outcome a check of these endpoints can have: the outcome for some answers about them.
pub open spec fn possible_check(endpoints: Seq<ControlPlaneEndpoint>, r: Result<(), ControlPlaneError>) -> bool {
    exists|reachable: Seq<bool>|
        reachable.len() == endpoints.len() && failed_name(r) == first_unreachable_name(
            endpoints,
            reachable,
        )
}

/// The routing table clause of a protected route, when a table is named.
pub open spec fn table_clause(table_id: Option<u32>) -> Seq<char> {
    match table_id {
        Some(id) => " table "@ + decimal(id as nat),
        None => Seq::empty(),
    }
}

/// The script that pins `host` to the route the underlay uses now.
pub open spec fn protect_script(host: Seq<char>, table: Seq<char>) -> Seq<char> {
    "host="@ + single_quoted(host) + "; route=\"$(ip route get \"$host\" | head -n1)\"; dev=\"$(printf '%s\\n' \"$route\" | awk '{ for (i=1;i<=NF;i++) if ($i==\"dev\") { print $(i+1); exit } }')\"; via=\"$(printf '%s\\n' \"$route\" | awk '{ for (i=1;i<=NF;i++) if ($i==\"via\") { print $(i+1); exit } }')\"; test -n \"$dev\"; if [ -n \"$via\" ]; then ip route replace \"$host/32\" via \"$via\" dev \"$dev\""@
        + table + "; else ip route replace \"$host/32\" dev \"$dev\""@ + table + "; fi"@
}

/// The command that protects one endpoint's route.
pub open spec fn protect_command(e: ControlPlaneEndpoint, table_id: Option<u32>) -> CmdView {
    sh(protect_script(strip_suffixes(e.host@, "/32"@), table_clause(table_id)))
}

pub open spec fn protect_fn(table_id: Option<u32>) -> spec_fn(ControlPlaneEndpoint) -> CmdView {
    |e: ControlPlaneEndpoint| protect_command(e, table_id)
}

/// The control-plane endpoints a node protects while it changes routes.
#[derive(Debug, Clone)]
pub struct ControlPlaneGuard {
    endpoints: Vec<ControlPlaneEndpoint>,
}

impl ControlPlaneGuard {
    pub closed spec fn spec_endpoints(&self) -> Seq<ControlPlaneEndpoint> {
        self.endpoints@
    }

    pub fn new(endpoints: Vec<ControlPlaneEndpoint>) -> (r: ControlPlaneGuard)
        ensures
            r.spec_endpoints() == endpoints@,
    {
        ControlPlaneGuard { endpoints }
    }

    pub fn endpoints(&self) -> (r: &[ControlPlaneEndpoint])
        ensures
            r@ == self.spec_endpoints(),
    {
        self.endpoints.as_slice()
    }

    /// The check's outcome when the endpoints' reachability is as given: the first unreachable
    /// endpoint, by name, or success.
    pub fn verify_with(&self, reachable: &Vec<bool>) -> (r: Result<(), ControlPlaneError>)
        requires
            reachable@.len() == self.spec_endpoints().len(),
        ensures
            failed_name(r) == first_unreachable_name(self.spec_endpoints(), reachable@),
    {
        let mut i: usize = 0;
        while i < self.endpoints.len()
            invariant
                0 <= i <= self.endpoints@.len(),
                reachable@.len() == self.endpoints@.len(),
                forall|j: int| 0 <= j < i ==> #[trigger] reachable@[j],
            decreases self.endpoints.len() - i,
        {
            if !reachable[i] {
                let name = self.endpoints[i].name.clone();
                proof {
                    assert(is_first_unreachable(reachable@, i as int));
                    let k = choose|k: int| is_first_unreachable(reachable@, k);
                    if k < i {
                        assert(reachable@[k]);
                    } else if k > i {
                        assert(reachable@[i as int]);
                    }
                }
                return Err(ControlPlaneError::Unreachable(name));
            }
            i += 1;
        }
        assert(!exists|k: int| is_first_unreachable(reachable@, k));
        Ok(())
    }

    /// Asks the probe about each endpoint in order, once each, until one is unreachable, and
    /// gives the outcome `verify_with` gives on those answers (the endpoints after an unreachable
    /// one are not asked about, and count as reachable): the first endpoint answered unreachable,
    /// or success.
    pub fn verify<P: ControlPlaneProbe>(&self, probe: &P) -> (r: Result<(), ControlPlaneError>)
        ensures
            exists|asked: Seq<bool>| #[trigger] probe_check(*probe, self.spec_endpoints(), asked, r),
            possible_check(self.spec_endpoints(), r),
            self.spec_endpoints().len() == 0 ==> r is Ok,
            r matches Err(ControlPlaneError::Unreachable(name)) ==> exists|i: int|
                0 <= i < self.spec_endpoints().len() && #[trigger] self.spec_endpoints()[i].name@
                    == name@,
    {
        let n = self.endpoints.len();
        let ghost eps = self.spec_endpoints();
        let mut reachable: Vec<bool> = Vec::new();
        let mut all_reached = true;
        let ghost mut asked: Seq<bool> = Seq::empty();
        while reachable.len() < n
            invariant
                reachable@.len() <= n,
                n == self.endpoints@.len(),
                eps == self.spec_endpoints(),
                eps == self.endpoints@,
                asked.len() <= reachable@.len(),
                asked == reachable@.take(asked.len() as int),
                forall|k: int| 0 <= k < asked.len() ==> probe.may_answer(eps[k], #[trigger] asked[k]),
                all_reached ==> asked == reachable@ && forall|k: int|
                    0 <= k < asked.len() ==> #[trigger] asked[k],
                !all_reached ==> asked.len() > 0 && !asked.last() && (forall|k: int|
                    0 <= k < asked.len() - 1 ==> #[trigger] asked[k]) && (forall|k: int|
                    asked.len() <= k < reachable@.len() ==> #[trigger] reachable@[k]),
            decreases n - reachable.len(),
        {
            let answer = if all_reached {
                let a = probe.is_reachable(&self.endpoints[reachable.len()]);
                proof {
                    asked = asked.push(a);
                }
                a
            } else {
                true
            };
            all_reached = all_reached && answer;
            reachable.push(answer);
            proof {
                assert(reachable@.take(asked.len() as int) =~= asked);
            }
        }
        let r = self.verify_with(&reachable);
        proof {
            if all_reached {
                assert(asked =~= reachable@);
                assert(!exists|k: int| is_first_unreachable(reachable@, k));
            } else {
                let j = asked.len() - 1;
                assert(reachable@[j] == asked[j]);
                assert(is_first_unreachable(reachable@, j)) by {
                    assert forall|i: int| 0 <= i < j implies #[trigger] reachable@[i] by {
                        assert(reachable@[i] == asked[i]);
                    }
                }
                let k = choose|k: int| is_first_unreachable(reachable@, k);
                if k < j {
                    assert(reachable@[k] == asked[k]);
                } else if k > j {
                    assert(reachable@[j]);
                }
            }
            assert(probe_check(*probe, eps, asked, r));
            if r is Err {
                let k = choose|k: int| is_first_unreachable(reachable@, k);
                assert(self.spec_endpoints()[k].name@ == failed_name(r)->0);
            }
        }
        r
    }

    /// The commands that pin each endpoint to its current underlay route.
    pub fn protected_route_plan(&self) -> (r: Vec<CommandPlan>)
        ensures
            plans(r@) == self.spec_endpoints().map_values(protect_fn(None)),
    {
        self.protected_route_plan_for_table(None)
    }

    /// The commands that pin each endpoint to its current underlay route, in the given table.
    pub fn protected_route_plan_for_table(&self, table_id: Option<u32>) -> (r: Vec<CommandPlan>)
        ensures
            plans(r@) == self.spec_endpoints().map_values(protect_fn(table_id)),
    {
        let table = match table_id {
            Some(id) => {
                let n = u64_to_decimal(id as u64);
                concat2(" table ", n.as_str())
            },
            None => String::new(),
        };
        let ghost f = protect_fn(table_id);
        let mut r: Vec<CommandPlan> = Vec::new();
        let mut i: usize = 0;
        while i < self.endpoints.len()
            invariant
                0 <= i <= self.endpoints@.len(),
                table@ == table_clause(table_id),
                f == protect_fn(table_id),
                plans(r@) == self.endpoints@.take(i as int).map_values(f),
            decreases self.endpoints.len() - i,
        {
            let host = trim_end_str(self.endpoints[i].host.as_str(), "/32");
            let script = protect_script_text(host.as_str(), table.as_str());
            let c = sh_command(script.as_str());
            let ghost before = r@;
            r.push(c);
            proof {
                crate::command::lemma_plans_push(before, c);
                assert(self.endpoints@.take(i + 1).map_values(f) =~= self.endpoints@.take(
                    i as int,
                ).map_values(f).push(f(self.endpoints@[i as int])));
            }
            i += 1;
        }
        assert(self.endpoints@.take(self.endpoints@.len() as int) == self.endpoints@);
        r
    }
}

fn protect_script_text(host: &str, table: &str) -> (r: String)
    ensures
        r@ == protect_script(host@, table@),
{
    let mut r = owned("host=");
    let quoted = shell_single_quote(host);
    push_str(&mut r, quoted.as_str());
    push_str(
        &mut r,
        "; route=\"$(ip route get \"$host\" | head -n1)\"; dev=\"$(printf '%s\\n' \"$route\" | awk '{ for (i=1;i<=NF;i++) if ($i==\"dev\") { print $(i+1); exit } }')\"; via=\"$(printf '%s\\n' \"$route\" | awk '{ for (i=1;i<=NF;i++) if ($i==\"via\") { print $(i+1); exit } }')\"; test -n \"$dev\"; if [ -n \"$via\" ]; then ip route replace \"$host/32\" via \"$via\" dev \"$dev\"",
    );
    push_str(&mut r, table);
    push_str(&mut r, "; else ip route replace \"$host/32\" dev \"$dev\"");
    push_str(&mut r, table);
    push_str(&mut r, "; fi");
    r
}

} // verus!

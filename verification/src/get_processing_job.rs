//! Network path resolution and the compute-job run.
//!
//! A job must run on a subnet that is not publicly exposed yet can still reach
//! the outside world. The resolver searches a snapshot of the region's network
//! topology for such subnets: private, with spare addresses, and routed
//! through a NAT gateway of their own virtual network. The snapshot is fetched
//! by the binary; the search and its guarantees live here.
use crate::get_glue_data::GlueTable;
use crate::progress_tracker::JobState;
use crate::text::{replace_all, spec_replace, str_eq};
use crate::PROJECT_NAME;
use base64::Engine;
use vstd::prelude::*;
use vstd::string::StrSliceExecFns;
use vstd::string::StringExecFns;
use vstd::string::StringSliceAdditionalSpecFns;

verus! {

/// One route of a route table; only NAT-gateway targets matter to the search.
pub struct Route {
    pub destination: String,
    pub nat_gateway_id: Option<String>,
}

/// A route table with the subnets it is associated with and its routes.
pub struct RouteTable {
    pub id: String,
    pub subnet_ids: Vec<String>,
    pub routes: Vec<Route>,
}

pub struct Subnet {
    pub id: String,
    pub vpc_id: String,
    pub is_private: bool,
    pub available_ip_count: u32,
}

pub struct NatGateway {
    pub id: String,
    pub vpc_id: String,
}

/// A read-only snapshot of one region's network topology.
pub struct NetworkTopology {
    pub vpc_ids: Vec<String>,
    pub subnets: Vec<Subnet>,
    pub nat_gateways: Vec<NatGateway>,
    pub route_tables: Vec<RouteTable>,
}

/// A subnet the job can be placed on, with the network it belongs to.
#[derive(Clone)]
pub struct ValidSubnet {
    pub vpc: String,
    pub subnet: String,
}

impl ValidSubnet {
    pub fn get_vpc(&self) -> (r: &String)
        ensures
            r@ == self.vpc@,
    {
        &self.vpc
    }

    pub fn get_subnet(&self) -> (r: &String)
        ensures
            r@ == self.subnet@,
    {
        &self.subnet
    }

    /// One line identifying the candidate in a selection menu.
    pub fn format_for_display(&self) -> (r: String)
        ensures
            r@ == "Subnet: "@ + self.subnet@ + " in VPC: "@ + self.vpc@,
    {
        let mut r = String::from_str("Subnet: ");
        r.append(self.subnet.as_str());
        r.append(" in VPC: ");
        r.append(self.vpc.as_str());
        r
    }
}

/// Why the search returned no candidate.
#[derive(Clone, Copy, Debug, PartialEq, Eq, Structural)]
pub enum SubnetSearchError {
    /// The region has no virtual network at all.
    NoNetworksAvailable,
    /// A full scan found no subnet that is private, has capacity, and routes
    /// through a NAT gateway of its own network.
    NoValidPathFound,
}

/// `vpc_id` names one of the topology's virtual networks.
pub open spec fn vpc_listed(t: NetworkTopology, vpc_id: Seq<char>) -> bool {
    exists|v: int| 0 <= v < t.vpc_ids@.len() && #[trigger] t.vpc_ids@[v]@ == vpc_id
}

/// A NAT gateway with this id exists and sits in the network `vpc_id`.
pub open spec fn nat_in_vpc(t: NetworkTopology, gw_id: Seq<char>, vpc_id: Seq<char>) -> bool {
    exists|g: int|
        0 <= g < t.nat_gateways@.len() && (#[trigger] t.nat_gateways@[g]).id@ == gw_id
            && t.nat_gateways@[g].vpc_id@ == vpc_id
}

/// The route table is associated with the subnet `subnet_id`.
pub open spec fn table_serves_subnet(rt: RouteTable, subnet_id: Seq<char>) -> bool {
    exists|a: int| 0 <= a < rt.subnet_ids@.len() && #[trigger] rt.subnet_ids@[a]@ == subnet_id
}

/// Some route of the table targets a NAT gateway of the network `vpc_id`.
pub open spec fn table_has_nat_route(rt: RouteTable, t: NetworkTopology, vpc_id: Seq<char>) -> bool {
    exists|r: int|
        0 <= r < rt.routes@.len() && match (#[trigger] rt.routes@[r]).nat_gateway_id {
            Some(g) => nat_in_vpc(t, g@, vpc_id),
            None => false,
        }
}

/// Some route table associated with the subnet routes through a NAT gateway
/// of the subnet's own network.
pub open spec fn subnet_has_nat_path(t: NetworkTopology, s: Subnet) -> bool {
    exists|i: int|
        0 <= i < t.route_tables@.len() && table_serves_subnet(
            #[trigger] t.route_tables@[i],
            s.id@,
        ) && table_has_nat_route(t.route_tables@[i], t, s.vpc_id@)
}

/// The condition under which a subnet may carry the job: private, spare
/// addresses, in a listed network, and NAT-routed within that network.
pub open spec fn subnet_eligible(t: NetworkTopology, s: Subnet) -> bool {
    s.is_private && s.available_ip_count > 0 && vpc_listed(t, s.vpc_id@) && subnet_has_nat_path(
        t,
        s,
    )
}

/// The candidate list entry `e` names an eligible subnet of the topology.
pub open spec fn valid_entry(t: NetworkTopology, e: ValidSubnet) -> bool {
    exists|s: int|
        0 <= s < t.subnets@.len() && subnet_eligible(t, #[trigger] t.subnets@[s]) && e.subnet@
            == t.subnets@[s].id@ && e.vpc@ == t.subnets@[s].vpc_id@
}

/// The subnet appears in the candidate list.
pub open spec fn subnet_listed(v: Seq<ValidSubnet>, s: Subnet) -> bool {
    exists|i: int| 0 <= i < v.len() && (#[trigger] v[i]).subnet@ == s.id@ && v[i].vpc@ == s.vpc_id@
}

fn nat_gateway_in_vpc(t: &NetworkTopology, gw_id: &String, vpc_id: &String) -> (r: bool)
    ensures
        r == nat_in_vpc(*t, gw_id@, vpc_id@),
{
    let mut g: usize = 0;
    while g < t.nat_gateways.len()
        invariant
            g <= t.nat_gateways@.len(),
            forall|k: int|
                0 <= k < g ==> !((#[trigger] t.nat_gateways@[k]).id@ == gw_id@
                    && t.nat_gateways@[k].vpc_id@ == vpc_id@),
        decreases t.nat_gateways@.len() - g,
    {
        let gw = &t.nat_gateways[g];
        if str_eq(gw.id.as_str(), gw_id.as_str()) && str_eq(gw.vpc_id.as_str(), vpc_id.as_str()) {
            return true;
        }
        g = g + 1;
    }
    false
}

fn table_serves(rt: &RouteTable, subnet_id: &String) -> (r: bool)
    ensures
        r == table_serves_subnet(*rt, subnet_id@),
{
    let mut a: usize = 0;
    while a < rt.subnet_ids.len()
        invariant
            a <= rt.subnet_ids@.len(),
            forall|k: int| 0 <= k < a ==> !(#[trigger] rt.subnet_ids@[k]@ == subnet_id@),
        decreases rt.subnet_ids@.len() - a,
    {
        if str_eq(rt.subnet_ids[a].as_str(), subnet_id.as_str()) {
            return true;
        }
        a = a + 1;
    }
    false
}

fn table_routes_to_nat(t: &NetworkTopology, rt: &RouteTable, vpc_id: &String) -> (r: bool)
    ensures
        r == table_has_nat_route(*rt, *t, vpc_id@),
{
    let mut i: usize = 0;
    while i < rt.routes.len()
        invariant
            i <= rt.routes@.len(),
            forall|k: int|
                0 <= k < i ==> !(match (#[trigger] rt.routes@[k]).nat_gateway_id {
                    Some(g) => nat_in_vpc(*t, g@, vpc_id@),
                    None => false,
                }),
        decreases rt.routes@.len() - i,
    {
        match &rt.routes[i].nat_gateway_id {
            Some(g) => {
                if nat_gateway_in_vpc(t, g, vpc_id) {
                    return true;
                }
            },
            None => {},
        }
        i = i + 1;
    }
    false
}

fn subnet_routes_through_nat(t: &NetworkTopology, s: &Subnet) -> (r: bool)
    ensures
        r == subnet_has_nat_path(*t, *s),
{
    let mut i: usize = 0;
    while i < t.route_tables.len()
        invariant
            i <= t.route_tables@.len(),
            forall|k: int|
                0 <= k < i ==> !(table_serves_subnet(#[trigger] t.route_tables@[k], s.id@)
                    && table_has_nat_route(t.route_tables@[k], *t, s.vpc_id@)),
        decreases t.route_tables@.len() - i,
    {
        let table = &t.route_tables[i];
        if table_serves(table, &s.id) && table_routes_to_nat(t, table, &s.vpc_id) {
            return true;
        }
        i = i + 1;
    }
    false
}

/// Search the topology for every subnet that can carry the job.
///
/// A subnet is in the returned list precisely when it is eligible: private,
/// with available address capacity, and associated with a route table whose
/// routes reach a NAT gateway of the subnet's own network. Candidates are
/// collected network by network in discovery order.
#[verifier::rlimit(30)]
pub fn get_subnet_list(topology: &NetworkTopology) -> (r: Result<
    Vec<ValidSubnet>,
    SubnetSearchError,
>)
    ensures
        match r {
            Ok(v) => {
                &&& topology.vpc_ids@.len() > 0
                &&& v@.len() > 0
                &&& forall|i: int| 0 <= i < v@.len() ==> valid_entry(*topology, #[trigger] v@[i])
                &&& forall|s: int|
                    0 <= s < topology.subnets@.len() && subnet_eligible(
                        *topology,
                        #[trigger] topology.subnets@[s],
                    ) ==> subnet_listed(v@, topology.subnets@[s])
            },
            Err(SubnetSearchError::NoNetworksAvailable) => topology.vpc_ids@.len() == 0,
            Err(SubnetSearchError::NoValidPathFound) => {
                &&& topology.vpc_ids@.len() > 0
                &&& forall|s: int|
                    0 <= s < topology.subnets@.len() ==> !subnet_eligible(
                        *topology,
                        #[trigger] topology.subnets@[s],
                    )
            },
        },
{
    if topology.vpc_ids.len() == 0 {
        return Err(SubnetSearchError::NoNetworksAvailable);
    }
    let mut valid: Vec<ValidSubnet> = Vec::new();
    let mut v: usize = 0;
    while v < topology.vpc_ids.len()
        invariant
            v <= topology.vpc_ids@.len(),
            forall|i: int| 0 <= i < valid@.len() ==> valid_entry(*topology, #[trigger] valid@[i]),
            forall|s: int, w: int|
                #![trigger topology.subnets@[s], topology.vpc_ids@[w]]
                0 <= s < topology.subnets@.len() && 0 <= w < v && topology.vpc_ids@[w]@
                    == topology.subnets@[s].vpc_id@ && subnet_eligible(
                    *topology,
                    topology.subnets@[s],
                ) ==> subnet_listed(valid@, topology.subnets@[s]),
        decreases topology.vpc_ids@.len() - v,
    {
        let vpc = &topology.vpc_ids[v];
        let mut si: usize = 0;
        while si < topology.subnets.len()
            invariant
                v < topology.vpc_ids@.len(),
                si <= topology.subnets@.len(),
                vpc@ == topology.vpc_ids@[v as int]@,
                forall|i: int|
                    0 <= i < valid@.len() ==> valid_entry(*topology, #[trigger] valid@[i]),
                forall|s: int, w: int|
                    #![trigger topology.subnets@[s], topology.vpc_ids@[w]]
                    0 <= s < topology.subnets@.len() && 0 <= w < v && topology.vpc_ids@[w]@
                        == topology.subnets@[s].vpc_id@ && subnet_eligible(
                        *topology,
                        topology.subnets@[s],
                    ) ==> subnet_listed(valid@, topology.subnets@[s]),
                forall|s: int|
                    0 <= s < si && subnet_eligible(*topology, #[trigger] topology.subnets@[s])
                        && topology.subnets@[s].vpc_id@ == vpc@ ==> subnet_listed(
                        valid@,
                        topology.subnets@[s],
                    ),
            decreases topology.subnets@.len() - si,
        {
            let s = &topology.subnets[si];
            let ghost pre = valid@;
            if s.is_private && s.available_ip_count > 0 && str_eq(
                s.vpc_id.as_str(),
                vpc.as_str(),
            ) {
                if subnet_routes_through_nat(topology, s) {
                    let entry = ValidSubnet { vpc: vpc.clone(), subnet: s.id.clone() };
                    proof {
                        assert(subnet_eligible(*topology, topology.subnets@[si as int]));
                        assert(valid_entry(*topology, entry));
                    }
                    valid.push(entry);
                    proof {
                        assert(valid@[pre.len() as int] == entry);
                        assert(subnet_listed(valid@, topology.subnets@[si as int]));
                        assert forall|s2: int|
                            0 <= s2 < topology.subnets@.len() && subnet_listed(
                                pre,
                                #[trigger] topology.subnets@[s2],
                            ) implies subnet_listed(valid@, topology.subnets@[s2]) by {
                            let i = choose|i: int|
                                0 <= i < pre.len() && (#[trigger] pre[i]).subnet@
                                    == topology.subnets@[s2].id@ && pre[i].vpc@
                                    == topology.subnets@[s2].vpc_id@;
                            assert(valid@[i] == pre[i]);
                        }
                    }
                }
            }
            si = si + 1;
        }
        proof {
            assert forall|s2: int, w: int|
                0 <= s2 < topology.subnets@.len() && 0 <= w < v + 1 && #[trigger] topology.vpc_ids@[w]@
                    == (#[trigger] topology.subnets@[s2]).vpc_id@ && subnet_eligible(
                *topology,
                topology.subnets@[s2],
            ) implies subnet_listed(valid@, topology.subnets@[s2]) by {
                if w == v {
                    assert(topology.subnets@[s2].vpc_id@ == vpc@);
                }
            }
        }
        v = v + 1;
    }
    proof {
        assert forall|s: int|
            0 <= s < topology.subnets@.len() && subnet_eligible(
                *topology,
                #[trigger] topology.subnets@[s],
            ) implies subnet_listed(valid@, topology.subnets@[s]) by {
            let w = choose|w: int|
                0 <= w < topology.vpc_ids@.len() && #[trigger] topology.vpc_ids@[w]@
                    == topology.subnets@[s].vpc_id@;
            assert(topology.vpc_ids@[w]@ == topology.subnets@[s].vpc_id@);
        }
    }
    if valid.len() == 0 {
        Err(SubnetSearchError::NoValidPathFound)
    } else {
        Ok(valid)
    }
}

/// The compute instance's power state, as far as the run loop distinguishes
/// it: still initializing, actively running, or anything else.
#[derive(Clone, Copy, Debug, PartialEq, Eq, Structural)]
pub enum PowerState {
    Pending,
    Running,
    Other,
}

/// How a finished run ended.
#[derive(Clone, Copy, Debug, PartialEq, Eq, Structural)]
pub enum JobOutcome {
    /// The job reported completion; the instance is terminated and the
    /// identity torn down.
    Succeeded,
    /// The job reported failure; the instance is left running for
    /// inspection.
    JobFailed,
    /// The instance entered a power state outside the expected set; the loop
    /// ends without a cleanup trigger.
    UnknownPowerState,
}

/// What the run loop does next.
#[derive(Clone, Copy, Debug, PartialEq, Eq, Structural)]
pub enum MonitorStep {
    /// Sleep for the poll interval, then read the power state again.
    Wait,
    /// Read the most recent status-channel event and feed it back.
    ReadStatus,
    /// Leave the loop with this outcome.
    Halt(JobOutcome),
}

/// What a power-state observation does to the monitor: a terminal outcome is
/// final, a pending instance is waited on, a running one has its status
/// read, and an unexpected state ends the run unclassified.
pub open spec fn spec_observe_power(m: Option<JobOutcome>, p: PowerState) -> (
    Option<JobOutcome>,
    MonitorStep,
) {
    match m {
        Some(o) => (m, MonitorStep::Halt(o)),
        None => match p {
            PowerState::Pending => (None, MonitorStep::Wait),
            PowerState::Running => (None, MonitorStep::ReadStatus),
            PowerState::Other => (
                Some(JobOutcome::UnknownPowerState),
                MonitorStep::Halt(JobOutcome::UnknownPowerState),
            ),
        },
    }
}

/// What a classified status line does to the monitor: completion and failure
/// are terminal, anything else keeps polling.
pub open spec fn spec_record_status(m: Option<JobOutcome>, s: JobState) -> (
    Option<JobOutcome>,
    MonitorStep,
) {
    match m {
        Some(o) => (m, MonitorStep::Halt(o)),
        None => match s {
            JobState::Running => (None, MonitorStep::Wait),
            JobState::Completed => (
                Some(JobOutcome::Succeeded),
                MonitorStep::Halt(JobOutcome::Succeeded),
            ),
            JobState::Failed => (Some(JobOutcome::JobFailed), MonitorStep::Halt(JobOutcome::JobFailed)),
        },
    }
}

/// The decision state of one job run: `None` while the loop still polls,
/// `Some` once a terminal outcome is reached.
pub struct JobMonitor {
    pub outcome: Option<JobOutcome>,
}

impl JobMonitor {
    pub fn new() -> (r: JobMonitor)
        ensures
            r.outcome is None,
    {
        JobMonitor { outcome: None }
    }

    pub open spec fn is_terminal(&self) -> bool {
        self.outcome is Some
    }

    /// Feed one power-state reading into the monitor.
    pub fn observe_power(&mut self, p: PowerState) -> (step: MonitorStep)
        ensures
            (final(self).outcome, step) == spec_observe_power(old(self).outcome, p),
    {
        match self.outcome {
            Some(o) => MonitorStep::Halt(o),
            None => match p {
                PowerState::Pending => MonitorStep::Wait,
                PowerState::Running => MonitorStep::ReadStatus,
                PowerState::Other => {
                    self.outcome = Some(JobOutcome::UnknownPowerState);
                    MonitorStep::Halt(JobOutcome::UnknownPowerState)
                },
            },
        }
    }

    /// Feed the classification of one status line into the monitor.
    pub fn record_status(&mut self, s: JobState) -> (step: MonitorStep)
        ensures
            (final(self).outcome, step) == spec_record_status(old(self).outcome, s),
    {
        match self.outcome {
            Some(o) => MonitorStep::Halt(o),
            None => match s {
                JobState::Running => MonitorStep::Wait,
                JobState::Completed => {
                    self.outcome = Some(JobOutcome::Succeeded);
                    MonitorStep::Halt(JobOutcome::Succeeded)
                },
                JobState::Failed => {
                    self.outcome = Some(JobOutcome::JobFailed);
                    MonitorStep::Halt(JobOutcome::JobFailed)
                },
            },
        }
    }
}

/// Once `Completed` or `Failed` — or the unknown exit — is reached, no later
/// observation asks for a status-channel read, and the outcome never changes.
pub proof fn lemma_terminal_exclusivity(m: Option<JobOutcome>, p: PowerState, s: JobState)
    requires
        m is Some,
    ensures
        spec_observe_power(m, p).0 == m,
        spec_observe_power(m, p).1 != MonitorStep::ReadStatus,
        spec_record_status(m, s).0 == m,
        spec_record_status(m, s).1 != MonitorStep::ReadStatus,
{
}

/// Only a reported success terminates the compute instance and tears the
/// identity down; a failed job deliberately leaves the instance running for
/// inspection, and an unknown power state triggers no cleanup at all.
pub fn should_clean_up(o: JobOutcome) -> (r: bool)
    ensures
        r == (o == JobOutcome::Succeeded),
{
    match o {
        JobOutcome::Succeeded => true,
        JobOutcome::JobFailed => false,
        JobOutcome::UnknownPowerState => false,
    }
}

/// Name for what base64's `general_purpose::STANDARD` engine returns: the
/// encoding is a function of the input bytes alone.
pub uninterp spec fn base64_std_of(bytes: Seq<u8>) -> Seq<char>;

/// Relies on base64's `Engine::encode` with the `STANDARD` engine (standard
/// alphabet, padded): the output is four characters for every started group
/// of three input bytes.
#[verifier::external_body]
fn base64_encode(s: &str) -> (r: String)
    ensures
        r@ == base64_std_of(s.spec_bytes()),
        r@.len() == 4 * ((s.spec_bytes().len() + 2) / 3),
{
    base64::engine::general_purpose::STANDARD.encode(s)
}

/// The startup payload before encoding: the wrapper script with the job
/// script and the selected database, table and project name substituted in.
pub open spec fn spec_script(
    bash: Seq<char>,
    python: Seq<char>,
    database: Seq<char>,
    table: Seq<char>,
) -> Seq<char> {
    spec_replace(
        spec_replace(
            spec_replace(spec_replace(bash, "<your python script>"@, python), "<your database>"@, database),
            "<your table>"@,
            table,
        ),
        "<your project>"@,
        PROJECT_NAME@,
    )
}

/// The base64-encoded startup payload handed to the compute instance: the
/// wrapper script template with the job script and the table's coordinates
/// substituted for the placeholder tokens.
pub fn get_script(glue_table: &GlueTable, bash_script: &str, python_script: &str) -> (r: String)
    ensures
        r@ == base64_std_of(
            vstd::utf8::encode_utf8(
                spec_script(
                    bash_script@,
                    python_script@,
                    glue_table.database.name@,
                    glue_table.name@,
                ),
            ),
        ),
{
    proof {
        reveal_strlit("<your python script>");
        reveal_strlit("<your database>");
        reveal_strlit("<your table>");
        reveal_strlit("<your project>");
    }
    let s1 = replace_all(bash_script, "<your python script>", python_script);
    let s2 = replace_all(s1.as_str(), "<your database>", glue_table.database().name().as_str());
    let s3 = replace_all(s2.as_str(), "<your table>", glue_table.name().as_str());
    let s4 = replace_all(s3.as_str(), "<your project>", PROJECT_NAME);
    base64_encode(s4.as_str())
}

/// No subnet whose route tables reach only NAT gateways of other networks is
/// ever returned: an entry of the candidate list always names a subnet with a
/// NAT path inside its own network.
pub proof fn lemma_no_cross_network_candidate(
    t: NetworkTopology,
    v: Seq<ValidSubnet>,
    s: Subnet,
    i: int,
)
    requires
        forall|k: int| 0 <= k < v.len() ==> valid_entry(t, #[trigger] v[k]),
        0 <= i < t.subnets@.len(),
        t.subnets@[i] == s,
        !subnet_has_nat_path(t, s),
        forall|j: int|
            0 <= j < t.subnets@.len() && #[trigger] t.subnets@[j].id@ == s.id@ ==> t.subnets@[j]
                == s,
    ensures
        forall|k: int| 0 <= k < v.len() ==> (#[trigger] v[k]).subnet@ != s.id@,
{
    assert forall|k: int| 0 <= k < v.len() implies (#[trigger] v[k]).subnet@ != s.id@ by {
        if v[k].subnet@ == s.id@ {
            let w = choose|w: int|
                0 <= w < t.subnets@.len() && subnet_eligible(t, #[trigger] t.subnets@[w])
                    && v[k].subnet@ == t.subnets@[w].id@ && v[k].vpc@ == t.subnets@[w].vpc_id@;
            assert(t.subnets@[w].id@ == s.id@);
            assert(t.subnets@[w] == s);
        }
    }
}

} // verus!

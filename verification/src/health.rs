//! Passive health checks: what a finished request says about the endpoint that
//! served it.
use crate::context::RequestCtx;
use crate::text::same_text;
use vstd::prelude::*;

verus! {

/// Where an error came from.
#[derive(Clone, Copy, Debug, PartialEq, Eq, Structural)]
pub enum ErrorSource {
    /// The upstream.
    Upstream,
    /// The client.
    Downstream,
    /// The proxy.
    Internal,
    /// Not known.
    Unset,
}

/// Health of one endpoint: it changes after enough equal observations in a row.
#[derive(Clone, Copy, Debug, PartialEq, Eq, Structural)]
pub struct EndpointHealth {
    /// Whether the endpoint counts as healthy.
    pub healthy: bool,
    /// Failures since the last success.
    pub failures: u32,
    /// Successes since the last failure.
    pub successes: u32,
}

/// One more, as far as the counter goes.
pub open spec fn counted(count: u32) -> u32 {
    if count < u32::MAX {
        (count + 1) as u32
    } else {
        count
    }
}

/// An endpoint after a failure.
pub open spec fn after_failure(endpoint: EndpointHealth, threshold: u32) -> EndpointHealth {
    EndpointHealth {
        healthy: endpoint.healthy && counted(endpoint.failures) < threshold,
        failures: counted(endpoint.failures),
        successes: 0,
    }
}

/// An endpoint after a success.
pub open spec fn after_success(endpoint: EndpointHealth, threshold: u32) -> EndpointHealth {
    EndpointHealth {
        healthy: endpoint.healthy || counted(endpoint.successes) >= threshold,
        failures: 0,
        successes: counted(endpoint.successes),
    }
}

impl EndpointHealth {
    /// An endpoint that nothing was observed of.
    pub fn new() -> (endpoint: Self)
        ensures
            endpoint == (EndpointHealth { healthy: true, failures: 0, successes: 0 }),
    {
        EndpointHealth { healthy: true, failures: 0, successes: 0 }
    }

    /// Whether the endpoint counts as healthy.
    pub fn is_healthy(&self) -> (healthy: bool)
        ensures
            healthy == self.healthy,
    {
        self.healthy
    }

    /// Records a failure. The result tells whether it made the endpoint unhealthy.
    pub fn record_failure(&mut self, threshold: u32) -> (changed: bool)
        ensures
            *final(self) == after_failure(*old(self), threshold),
            changed == (old(self).healthy && !final(self).healthy),
    {
        let was_healthy = self.healthy;
        self.failures = self.failures.saturating_add(1);
        self.successes = 0;
        self.healthy = was_healthy && self.failures < threshold;
        was_healthy && !self.healthy
    }

    /// Records a success. The result tells whether it made the endpoint healthy.
    pub fn record_success(&mut self, threshold: u32) -> (changed: bool)
        ensures
            *final(self) == after_success(*old(self), threshold),
            changed == (!old(self).healthy && final(self).healthy),
    {
        let was_healthy = self.healthy;
        self.failures = 0;
        self.successes = self.successes.saturating_add(1);
        self.healthy = was_healthy || self.successes >= threshold;
        !was_healthy && self.healthy
    }
}

/// Health of the endpoints of one cluster.
pub struct ClusterHealthEntry {
    /// The endpoints, by index.
    pub endpoints: Vec<EndpointHealth>,
    /// Their addresses.
    pub addresses: Vec<String>,
    /// Failures in a row that make an endpoint unhealthy, where passive checks
    /// may do so.
    pub passive_unhealthy: Option<u32>,
    /// Successes in a row that make an endpoint healthy, where passive checks may
    /// do so.
    pub passive_healthy: Option<u32>,
}

/// The endpoints after an observation of one of them.
pub open spec fn observed_endpoints(
    endpoints: Seq<EndpointHealth>,
    passive_unhealthy: Option<u32>,
    passive_healthy: Option<u32>,
    index: int,
    is_failure: bool,
) -> Seq<EndpointHealth> {
    if index >= endpoints.len() {
        endpoints
    } else if is_failure {
        match passive_unhealthy {
            Some(threshold) => endpoints.update(index, after_failure(endpoints[index], threshold)),
            None => endpoints,
        }
    } else {
        match passive_healthy {
            Some(threshold) => endpoints.update(index, after_success(endpoints[index], threshold)),
            None => endpoints,
        }
    }
}

/// How many endpoints are healthy.
pub open spec fn healthy_endpoints(endpoints: Seq<EndpointHealth>) -> nat
    decreases endpoints.len(),
{
    if endpoints.len() == 0 {
        0
    } else {
        healthy_endpoints(endpoints.drop_last()) + (if endpoints.last().healthy {
            1nat
        } else {
            0nat
        })
    }
}

/// An endpoint that became healthy or unhealthy.
#[derive(Clone, Copy, Debug, PartialEq, Eq, Structural)]
pub struct HealthTransition {
    /// Whether it became healthy.
    pub healthy: bool,
    /// Healthy endpoints of the cluster, this one counted.
    pub healthy_endpoints: usize,
    /// All endpoints of the cluster.
    pub endpoints: usize,
}

/// The transition between two states of the endpoints of a cluster that differ at
/// most at `index`.
pub open spec fn transition(
    before: Seq<EndpointHealth>,
    after: Seq<EndpointHealth>,
    index: int,
) -> Option<HealthTransition> {
    if 0 <= index < before.len() && before[index].healthy != after[index].healthy {
        Some(
            HealthTransition {
                healthy: after[index].healthy,
                healthy_endpoints: healthy_endpoints(after) as usize,
                endpoints: after.len() as usize,
            },
        )
    } else {
        None
    }
}

proof fn lemma_healthy_endpoints(endpoints: Seq<EndpointHealth>, i: int)
    requires
        0 <= i < endpoints.len(),
    ensures
        healthy_endpoints(endpoints.take(i + 1)) == healthy_endpoints(endpoints.take(i)) + (
        if endpoints[i].healthy {
            1nat
        } else {
            0nat
        }),
{
    assert(endpoints.take(i + 1).drop_last() =~= endpoints.take(i));
}

/// Counts the healthy endpoints of a cluster, and all of them.
pub fn count_healthy_endpoints(entry: &ClusterHealthEntry) -> (counts: (usize, usize))
    ensures
        counts.0 == healthy_endpoints(entry.endpoints@),
        counts.1 == entry.endpoints@.len(),
{
    let mut healthy: usize = 0;
    let mut i: usize = 0;
    assert(entry.endpoints@.take(0) =~= Seq::empty());
    while i < entry.endpoints.len()
        invariant
            i <= entry.endpoints@.len(),
            healthy <= i,
            healthy == healthy_endpoints(entry.endpoints@.take(i as int)),
        decreases entry.endpoints@.len() - i,
    {
        proof {
            lemma_healthy_endpoints(entry.endpoints@, i as int);
        }
        if entry.endpoints[i].healthy {
            healthy += 1;
        }
        i += 1;
    }
    assert(entry.endpoints@.take(i as int) =~= entry.endpoints@);
    (healthy, entry.endpoints.len())
}

impl ClusterHealthEntry {
    /// A cluster with its endpoints and the thresholds of passive checks.
    pub fn new(
        endpoints: Vec<EndpointHealth>,
        addresses: Vec<String>,
        passive_unhealthy: Option<u32>,
        passive_healthy: Option<u32>,
    ) -> (entry: Self)
        ensures
            entry == (ClusterHealthEntry {
                endpoints,
                addresses,
                passive_unhealthy,
                passive_healthy,
            }),
    {
        ClusterHealthEntry { endpoints, addresses, passive_unhealthy, passive_healthy }
    }
}

/// Records one observation of an endpoint. An index that the cluster does not
/// have, and a cluster without the threshold in question, change nothing.
pub fn apply_passive_threshold(
    entry: &mut ClusterHealthEntry,
    index: usize,
    is_failure: bool,
) -> (changed: Option<HealthTransition>)
    ensures
        final(entry).addresses == old(entry).addresses,
        final(entry).passive_unhealthy == old(entry).passive_unhealthy,
        final(entry).passive_healthy == old(entry).passive_healthy,
        final(entry).endpoints@ == observed_endpoints(
            old(entry).endpoints@,
            old(entry).passive_unhealthy,
            old(entry).passive_healthy,
            index as int,
            is_failure,
        ),
        changed == transition(old(entry).endpoints@, final(entry).endpoints@, index as int),
{
    if index >= entry.endpoints.len() {
        return None;
    }
    let mut endpoint = entry.endpoints[index];
    let changed = if is_failure {
        match entry.passive_unhealthy {
            Some(threshold) => endpoint.record_failure(threshold),
            None => return None,
        }
    } else {
        match entry.passive_healthy {
            Some(threshold) => endpoint.record_success(threshold),
            None => return None,
        }
    };
    entry.endpoints.set(index, endpoint);
    if changed {
        let (healthy_endpoints, endpoints) = count_healthy_endpoints(entry);
        Some(HealthTransition { healthy: !is_failure, healthy_endpoints, endpoints })
    } else {
        None
    }
}

/// The clusters whose health is known, by name; no name occurs twice.
pub struct HealthRegistry {
    /// Name and health of each cluster.
    pub clusters: Vec<(String, ClusterHealthEntry)>,
}

/// The place of the first cluster with a name, or the number of clusters.
pub open spec fn cluster_index(
    clusters: Seq<(String, ClusterHealthEntry)>,
    name: Seq<char>,
) -> int
    decreases clusters.len(),
{
    if clusters.len() == 0 || clusters[0].0@ == name {
        0
    } else {
        1 + cluster_index(clusters.drop_first(), name)
    }
}

/// The first cluster with a name is where none before has it.
pub proof fn lemma_cluster_index(
    clusters: Seq<(String, ClusterHealthEntry)>,
    name: Seq<char>,
    at: int,
)
    requires
        0 <= at <= clusters.len(),
        forall|i: int| 0 <= i < at ==> (#[trigger] clusters[i]).0@ != name,
        at < clusters.len() ==> clusters[at].0@ == name,
    ensures
        cluster_index(clusters, name) == at,
    decreases clusters.len(),
{
    if clusters.len() > 0 && at > 0 {
        let rest = clusters.drop_first();
        assert(clusters[0].0@ != name);
        assert forall|i: int| 0 <= i < at - 1 implies (#[trigger] rest[i]).0@ != name by {
            assert(rest[i] == clusters[i + 1]);
        }
        lemma_cluster_index(rest, name, at - 1);
    }
}

impl HealthRegistry {
    /// No name occurs twice.
    pub open spec fn wf(&self) -> bool {
        forall|i: int, j: int|
            0 <= i < j < self.clusters@.len() ==> (#[trigger] self.clusters@[i]).0@ != (
            #[trigger] self.clusters@[j]).0@
    }

    /// A registry without clusters.
    pub fn new() -> (registry: Self)
        ensures
            registry.wf(),
            registry.clusters@.len() == 0,
    {
        HealthRegistry { clusters: Vec::new() }
    }

    /// The place of a cluster.
    pub fn position(&self, name: &str) -> (at: Option<usize>)
        ensures
            match at {
                Some(at) => at < self.clusters@.len() && at == cluster_index(
                    self.clusters@,
                    name@,
                ),
                None => cluster_index(self.clusters@, name@) == self.clusters@.len(),
            },
    {
        let mut i: usize = 0;
        while i < self.clusters.len()
            invariant
                i <= self.clusters@.len(),
                forall|j: int| 0 <= j < i ==> (#[trigger] self.clusters@[j]).0@ != name@,
            decreases self.clusters@.len() - i,
        {
            if same_text(self.clusters[i].0.as_str(), name) {
                proof {
                    lemma_cluster_index(self.clusters@, name@, i as int);
                }
                return Some(i);
            }
            i += 1;
        }
        proof {
            lemma_cluster_index(self.clusters@, name@, i as int);
        }
        None
    }

    /// Adds a cluster, or replaces the one with its name.
    pub fn insert(&mut self, name: String, entry: ClusterHealthEntry)
        requires
            old(self).wf(),
        ensures
            final(self).wf(),
            final(self).clusters@ == (if cluster_index(old(self).clusters@, name@)
                < old(self).clusters@.len() {
                old(self).clusters@.update(
                    cluster_index(old(self).clusters@, name@),
                    (name, entry),
                )
            } else {
                old(self).clusters@.push((name, entry))
            }),
    {
        proof {
            lemma_cluster_index_bounds(self.clusters@, name@);
        }
        match self.position(name.as_str()) {
            Some(at) => self.clusters.set(at, (name, entry)),
            None => self.clusters.push((name, entry)),
        }
    }
}

/// Where the first cluster with a name is.
pub proof fn lemma_cluster_index_bounds(
    clusters: Seq<(String, ClusterHealthEntry)>,
    name: Seq<char>,
)
    ensures
        0 <= cluster_index(clusters, name) <= clusters.len(),
        forall|i: int|
            0 <= i < cluster_index(clusters, name) ==> (#[trigger] clusters[i]).0@ != name,
        cluster_index(clusters, name) < clusters.len() ==> clusters[cluster_index(
            clusters,
            name,
        )].0@ == name,
    decreases clusters.len(),
{
    if clusters.len() > 0 && clusters[0].0@ != name {
        let rest = clusters.drop_first();
        lemma_cluster_index_bounds(rest, name);
        assert forall|i: int| 0 <= i < cluster_index(clusters, name) implies (
        #[trigger] clusters[i]).0@ != name by {
            if i > 0 {
                assert(rest[i - 1] == clusters[i]);
            }
        }
    }
}

/// Whether a request ended on the client's side before the upstream answered. It
/// then says nothing about the endpoint.
pub fn ended_by_client(error: Option<ErrorSource>, upstream_status: Option<u16>) -> (ended: bool)
    ensures
        ended == client_ending(error, upstream_status),
{
    upstream_status.is_none() && match error {
        Some(ErrorSource::Downstream) => true,
        _ => false,
    }
}

/// See `ended_by_client`.
pub open spec fn client_ending(error: Option<ErrorSource>, upstream_status: Option<u16>) -> bool {
    upstream_status is None && error == Some(ErrorSource::Downstream)
}

/// Whether an observation is a failure: the upstream answered with a server error,
/// or the request failed otherwise than by the client.
pub open spec fn is_failure(error: Option<ErrorSource>, upstream_status: Option<u16>) -> bool {
    ||| upstream_status is Some && upstream_status->0 >= 500
    ||| error is Some && error != Some(ErrorSource::Downstream)
}

/// What a finished request says: of which cluster and endpoint, and whether it
/// failed. `None` where no endpoint was selected or contacted, and where the
/// client ended the request.
pub open spec fn observation<V>(ctx: RequestCtx<V>, error: Option<ErrorSource>) -> Option<
    (Seq<char>, int, bool),
> {
    let cluster = if ctx.cluster is Some {
        ctx.cluster
    } else {
        ctx.metrics_cluster
    };
    if cluster is None || ctx.selected_endpoint_index is None || !ctx.upstream_contacted
        || client_ending(error, ctx.upstream_response_status) {
        None
    } else {
        Some(
            (
                cluster->0@,
                ctx.selected_endpoint_index->0 as int,
                is_failure(error, ctx.upstream_response_status),
            ),
        )
    }
}

/// Two registries that agree on everything but the endpoints of one cluster.
pub open spec fn same_but(
    before: Seq<(String, ClusterHealthEntry)>,
    after: Seq<(String, ClusterHealthEntry)>,
    at: int,
) -> bool {
    &&& after.len() == before.len()
    &&& forall|i: int|
        0 <= i < before.len() ==> (#[trigger] after[i]).0@ == before[i].0@ && (i != at ==> after[i]
            == before[i])
    &&& 0 <= at < before.len() ==> {
        &&& after[at].1.addresses == before[at].1.addresses
        &&& after[at].1.passive_unhealthy == before[at].1.passive_unhealthy
        &&& after[at].1.passive_healthy == before[at].1.passive_healthy
    }
}

/// Records what a finished request says about the endpoint that served it. The
/// result tells of an endpoint that became healthy or unhealthy by it.
pub fn record_passive_health<V>(
    registry: &mut Option<HealthRegistry>,
    error: Option<ErrorSource>,
    ctx: &RequestCtx<V>,
) -> (changed: Option<HealthTransition>)
    requires
        *old(registry) is Some ==> (*old(registry))->0.wf(),
    ensures
        *final(registry) is Some ==> (*final(registry))->0.wf(),
        match (*old(registry), observation(*ctx, error)) {
            (Some(before), Some((cluster, index, failed))) => {
                let at = cluster_index(before.clusters@, cluster);
                &&& *final(registry) matches Some(after)
                &&& same_but(before.clusters@, after.clusters@, at)
                &&& at < before.clusters@.len() ==> {
                    let was = before.clusters@[at].1;
                    let is = after.clusters@[at].1;
                    &&& is.endpoints@ == observed_endpoints(
                        was.endpoints@,
                        was.passive_unhealthy,
                        was.passive_healthy,
                        index,
                        failed,
                    )
                    &&& changed == transition(was.endpoints@, is.endpoints@, index)
                }
                &&& at == before.clusters@.len() ==> changed is None
            },
            _ => *final(registry) == *old(registry) && changed is None,
        },
{
    let cluster_name = match &ctx.cluster {
        Some(name) => name.as_str(),
        None => match &ctx.metrics_cluster {
            Some(name) => name.as_str(),
            None => return None,
        },
    };
    let index: usize = match ctx.selected_endpoint_index {
        Some(index) => index,
        None => return None,
    };
    if !ctx.upstream_contacted || ended_by_client(error, ctx.upstream_response_status) {
        return None;
    }
    let server_error = match ctx.upstream_response_status {
        Some(status) => status >= 500,
        None => false,
    };
    let failed_otherwise = match error {
        Some(ErrorSource::Downstream) => false,
        Some(_) => true,
        None => false,
    };
    match registry {
        Some(held) => {
            proof {
                lemma_cluster_index_bounds(held.clusters@, cluster_name@);
            }
            match held.position(cluster_name) {
                Some(at) => apply_passive_threshold(
                    &mut held.clusters[at].1,
                    index,
                    server_error || failed_otherwise,
                ),
                None => None,
            }
        },
        None => None,
    }
}

// ----- Laws -----

/// An endpoint after a number of failures in a row.
pub open spec fn after_failures(
    endpoint: EndpointHealth,
    threshold: u32,
    count: nat,
) -> EndpointHealth
    decreases count,
{
    if count == 0 {
        endpoint
    } else {
        after_failure(after_failures(endpoint, threshold, (count - 1) as nat), threshold)
    }
}

/// An endpoint after a number of successes in a row.
pub open spec fn after_successes(
    endpoint: EndpointHealth,
    threshold: u32,
    count: nat,
) -> EndpointHealth
    decreases count,
{
    if count == 0 {
        endpoint
    } else {
        after_success(after_successes(endpoint, threshold, (count - 1) as nat), threshold)
    }
}

/// After a success a healthy endpoint becomes unhealthy exactly when as many
/// failures follow in a row as the threshold says, and at least one.
pub proof fn law_failures_in_a_row_eject(endpoint: EndpointHealth, threshold: u32, count: nat)
    requires
        endpoint.healthy,
        endpoint.failures == 0,
        count <= u32::MAX,
    ensures
        after_failures(endpoint, threshold, count).healthy <==> count == 0 || count < threshold,
    decreases count,
{
    lemma_failures_counted(endpoint, threshold, count);
    if count > 0 {
        law_failures_in_a_row_eject(endpoint, threshold, (count - 1) as nat);
        lemma_failures_counted(endpoint, threshold, (count - 1) as nat);
    }
}

proof fn lemma_failures_counted(endpoint: EndpointHealth, threshold: u32, count: nat)
    requires
        endpoint.failures == 0,
        count <= u32::MAX,
    ensures
        after_failures(endpoint, threshold, count).failures == count,
    decreases count,
{
    if count > 0 {
        lemma_failures_counted(endpoint, threshold, (count - 1) as nat);
    }
}

/// After a failure an unhealthy endpoint becomes healthy exactly when as many
/// successes follow in a row as the threshold says, and at least one.
pub proof fn law_successes_in_a_row_recover(endpoint: EndpointHealth, threshold: u32, count: nat)
    requires
        !endpoint.healthy,
        endpoint.successes == 0,
        count <= u32::MAX,
    ensures
        after_successes(endpoint, threshold, count).healthy <==> count > 0 && count >= threshold,
    decreases count,
{
    lemma_successes_counted(endpoint, threshold, count);
    if count > 0 {
        law_successes_in_a_row_recover(endpoint, threshold, (count - 1) as nat);
        lemma_successes_counted(endpoint, threshold, (count - 1) as nat);
    }
}

proof fn lemma_successes_counted(endpoint: EndpointHealth, threshold: u32, count: nat)
    requires
        endpoint.successes == 0,
        count <= u32::MAX,
    ensures
        after_successes(endpoint, threshold, count).successes == count,
    decreases count,
{
    if count > 0 {
        lemma_successes_counted(endpoint, threshold, (count - 1) as nat);
    }
}

/// A request that never contacted the upstream, and one that its client ended
/// before the upstream answered, say nothing: no endpoint is ejected by them, and
/// no streak of failures is cleared. Once the upstream answered, its status counts
/// whoever ended the request.
pub proof fn law_client_endings_are_neutral<V>(ctx: RequestCtx<V>, error: Option<ErrorSource>)
    ensures
        !ctx.upstream_contacted ==> observation(ctx, error) is None,
        ctx.upstream_response_status is None ==> observation(
            ctx,
            Some(ErrorSource::Downstream),
        ) is None,
        ctx.upstream_response_status is Some && ctx.upstream_response_status->0 >= 500 ==> (
        observation(ctx, error) matches Some((_, _, failed)) ==> failed),
{
}

} // verus!

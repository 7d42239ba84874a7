//! Passive health of the endpoint that served a request.
use crate::context::RequestCtx;
use crate::health::{
    apply_passive_threshold, cluster_index, count_healthy_endpoints, ended_by_client,
    lemma_cluster_index, lemma_cluster_index_bounds, record_passive_health, ClusterHealthEntry,
    EndpointHealth, ErrorSource, HealthRegistry, HealthTransition,
};
use vstd::prelude::*;

verus! {

/// The request names its cluster: the selected one, or else the one that metrics are
/// attributed to.
pub open spec fn names_cluster<V>(ctx: RequestCtx<V>, name: Seq<char>) -> bool {
    match (ctx.cluster, ctx.metrics_cluster) {
        (Some(cluster), _) => cluster@ == name,
        (None, Some(cluster)) => cluster@ == name,
        (None, None) => false,
    }
}

/// Every error that is not the client's makes the observation of a contacted endpoint
/// a failure, whatever status the upstream had sent, and so does a status from 500 on,
/// whoever ended the request: the streak of failures grows, that of successes ends, and
/// an endpoint that was healthy stays so only below the threshold.
pub proof fn law_failed_requests_count_against_their_endpoint<V>(
    registry: &mut Option<HealthRegistry>,
    error: Option<ErrorSource>,
    ctx: &RequestCtx<V>,
    changed: Option<HealthTransition>,
    at: int,
    threshold: u32,
)
    requires
        call_ensures(record_passive_health::<V>, (registry, error, ctx), changed),
        *old(registry) is Some,
        (*old(registry))->0.wf(),
        0 <= at < (*old(registry))->0.clusters@.len(),
        names_cluster(*ctx, (*old(registry))->0.clusters@[at].0@),
        ctx.upstream_contacted,
        ctx.selected_endpoint_index is Some,
        ctx.selected_endpoint_index->0 < (*old(registry))->0.clusters@[at].1.endpoints@.len(),
        (*old(registry))->0.clusters@[at].1.passive_unhealthy == Some(threshold),
        (error matches Some(source) && source !is Downstream) || (
        ctx.upstream_response_status matches Some(status) && status >= 500),
    ensures
        *final(registry) is Some,
        (*final(registry))->0.clusters@.len() == (*old(registry))->0.clusters@.len(),
        ({
            let index = ctx.selected_endpoint_index->0 as int;
            let was = (*old(registry))->0.clusters@[at].1.endpoints@[index];
            let now = (*final(registry))->0.clusters@[at].1.endpoints@[index];
            &&& now.failures == was.failures + 1 || (was.failures == u32::MAX && now.failures
                == u32::MAX)
            &&& now.successes == 0
            &&& now.healthy <==> was.healthy && now.failures < threshold
            &&& changed is Some <==> was.healthy && !now.healthy
            &&& changed matches Some(to) ==> !to.healthy
        }),
{
    lemma_place(*old(registry), *ctx, at);
}

/// Without an error, and where it was the client who ended an answered request, a status
/// below 500 makes the observation a success: the streak of successes grows, that of
/// failures ends, and an endpoint that was unhealthy recovers at the threshold.
pub proof fn law_served_requests_count_for_their_endpoint<V>(
    registry: &mut Option<HealthRegistry>,
    error: Option<ErrorSource>,
    ctx: &RequestCtx<V>,
    changed: Option<HealthTransition>,
    at: int,
    threshold: u32,
)
    requires
        call_ensures(record_passive_health::<V>, (registry, error, ctx), changed),
        *old(registry) is Some,
        (*old(registry))->0.wf(),
        0 <= at < (*old(registry))->0.clusters@.len(),
        names_cluster(*ctx, (*old(registry))->0.clusters@[at].0@),
        ctx.upstream_contacted,
        ctx.selected_endpoint_index is Some,
        ctx.selected_endpoint_index->0 < (*old(registry))->0.clusters@[at].1.endpoints@.len(),
        (*old(registry))->0.clusters@[at].1.passive_healthy == Some(threshold),
        ctx.upstream_response_status matches Some(status) ==> status < 500,
        error is None || (error->0 is Downstream && ctx.upstream_response_status is Some),
    ensures
        *final(registry) is Some,
        (*final(registry))->0.clusters@.len() == (*old(registry))->0.clusters@.len(),
        ({
            let index = ctx.selected_endpoint_index->0 as int;
            let was = (*old(registry))->0.clusters@[at].1.endpoints@[index];
            let now = (*final(registry))->0.clusters@[at].1.endpoints@[index];
            &&& now.successes == was.successes + 1 || (was.successes == u32::MAX && now.successes
                == u32::MAX)
            &&& now.failures == 0
            &&& now.healthy <==> was.healthy || now.successes >= threshold
            &&& changed is Some <==> !was.healthy && now.healthy
            &&& changed matches Some(to) ==> to.healthy
        }),
{
    lemma_place(*old(registry), *ctx, at);
}

/// A request says nothing where no endpoint was contacted or selected, where it names no
/// cluster of the registry, and where its client ended it before the upstream answered:
/// nothing is recorded then.
pub proof fn law_silent_requests_record_nothing<V>(
    registry: &mut Option<HealthRegistry>,
    error: Option<ErrorSource>,
    ctx: &RequestCtx<V>,
    changed: Option<HealthTransition>,
)
    requires
        call_ensures(record_passive_health::<V>, (registry, error, ctx), changed),
        ({
            ||| !ctx.upstream_contacted
            ||| ctx.selected_endpoint_index is None
            ||| ctx.cluster is None && ctx.metrics_cluster is None
            ||| error == Some(ErrorSource::Downstream) && ctx.upstream_response_status is None
        }),
    ensures
        *final(registry) == *old(registry),
        changed is None,
{
}

/// A request speaks of one endpoint of one cluster: every other cluster stays as it was,
/// and so do the other endpoints, the addresses and the thresholds of its own. Without
/// the threshold in question the endpoint stays too.
pub proof fn law_a_request_speaks_of_one_endpoint<V>(
    registry: &mut Option<HealthRegistry>,
    error: Option<ErrorSource>,
    ctx: &RequestCtx<V>,
    changed: Option<HealthTransition>,
    at: int,
    other: int,
)
    requires
        call_ensures(record_passive_health::<V>, (registry, error, ctx), changed),
        *old(registry) is Some,
        (*old(registry))->0.wf(),
        0 <= at < (*old(registry))->0.clusters@.len(),
        0 <= other < (*old(registry))->0.clusters@[at].1.endpoints@.len(),
    ensures
        *final(registry) is Some,
        (*final(registry))->0.wf(),
        (*final(registry))->0.clusters@.len() == (*old(registry))->0.clusters@.len(),
        ({
            let was = (*old(registry))->0.clusters@[at];
            let now = (*final(registry))->0.clusters@[at];
            &&& now.0@ == was.0@
            &&& now.1.addresses == was.1.addresses
            &&& now.1.passive_unhealthy == was.1.passive_unhealthy
            &&& now.1.passive_healthy == was.1.passive_healthy
            &&& now.1.endpoints@.len() == was.1.endpoints@.len()
            &&& !names_cluster(*ctx, was.0@) || ctx.selected_endpoint_index != Some(other as usize)
                || (was.1.passive_unhealthy is None && was.1.passive_healthy is None)
                ==> now.1.endpoints@[other] == was.1.endpoints@[other]
        }),
{
    lemma_places((*old(registry))->0.clusters@, at);
}

/// The counts that come with a changed endpoint are those of its cluster after the
/// change: how many of its endpoints are healthy, and how many there are.
pub proof fn law_transitions_count_the_cluster(
    entry: &mut ClusterHealthEntry,
    index: usize,
    is_failure: bool,
    changed: Option<HealthTransition>,
    counts: (usize, usize),
)
    requires
        call_ensures(apply_passive_threshold, (entry, index, is_failure), changed),
        call_ensures(count_healthy_endpoints, (&*final(entry),), counts),
        changed is Some,
    ensures
        index < old(entry).endpoints@.len(),
        changed->0.healthy == !is_failure,
        old(entry).endpoints@[index as int].healthy == is_failure,
        final(entry).endpoints@[index as int].healthy == !is_failure,
        changed->0.healthy_endpoints == counts.0,
        changed->0.endpoints == counts.1,
{
}

/// The healthy endpoints are counted one by one.
pub proof fn law_healthy_endpoints_are_counted(
    entry: &ClusterHealthEntry,
    counts: (usize, usize),
    more: &ClusterHealthEntry,
    endpoint: EndpointHealth,
    more_counts: (usize, usize),
)
    requires
        call_ensures(count_healthy_endpoints, (entry,), counts),
        call_ensures(count_healthy_endpoints, (more,), more_counts),
        more.endpoints@ == entry.endpoints@.push(endpoint),
    ensures
        counts.1 == entry.endpoints@.len(),
        more_counts.0 == counts.0 + (if endpoint.healthy {
            1int
        } else {
            0
        }),
        entry.endpoints@.len() == 0 ==> counts.0 == 0,
{
    assert(more.endpoints@.drop_last() =~= entry.endpoints@);
}

/// The client ended a request exactly where the error is its own and no status came.
pub proof fn law_client_endings(
    error: Option<ErrorSource>,
    upstream_status: Option<u16>,
    ended: bool,
)
    requires
        call_ensures(ended_by_client, (error, upstream_status), ended),
    ensures
        ended <==> error == Some(ErrorSource::Downstream) && upstream_status is None,
{
}

/// An observation counts only where the cluster has the threshold in question: without one
/// for failures a failure changes nothing, and without one for successes a success.
pub proof fn law_observations_need_their_threshold<V>(
    registry: &mut Option<HealthRegistry>,
    error: Option<ErrorSource>,
    ctx: &RequestCtx<V>,
    changed: Option<HealthTransition>,
    at: int,
    failed: bool,
)
    requires
        call_ensures(record_passive_health::<V>, (registry, error, ctx), changed),
        *old(registry) is Some,
        (*old(registry))->0.wf(),
        0 <= at < (*old(registry))->0.clusters@.len(),
        names_cluster(*ctx, (*old(registry))->0.clusters@[at].0@),
        failed <==> (error is Some && error->0 !is Downstream) || (ctx.upstream_response_status
            is Some && ctx.upstream_response_status->0 >= 500),
        failed ==> (*old(registry))->0.clusters@[at].1.passive_unhealthy is None,
        !failed ==> (*old(registry))->0.clusters@[at].1.passive_healthy is None,
    ensures
        changed is None,
        (*final(registry))->0.clusters@[at].1.endpoints@ == (
        *old(registry))->0.clusters@[at].1.endpoints@,
{
    lemma_place(*old(registry), *ctx, at);
}

/// A request of a cluster that the registry does not have changes nothing in it.
pub proof fn law_unknown_clusters_record_nothing<V>(
    registry: &mut Option<HealthRegistry>,
    error: Option<ErrorSource>,
    ctx: &RequestCtx<V>,
    changed: Option<HealthTransition>,
)
    requires
        call_ensures(record_passive_health::<V>, (registry, error, ctx), changed),
        *old(registry) matches Some(held) ==> forall|i: int|
            0 <= i < held.clusters@.len()
                ==> !names_cluster(*ctx, (#[trigger] held.clusters@[i]).0@),
    ensures
        changed is None,
        *old(registry) is None ==> *final(registry) is None,
        *old(registry) is Some ==> *final(registry) is Some && (*final(registry))->0.clusters@
            == (*old(registry))->0.clusters@,
{
    if let Some(held) = *old(registry) {
        if let Some(cluster) = ctx.cluster {
            lemma_cluster_index(held.clusters@, cluster@, held.clusters@.len() as int);
        } else if let Some(cluster) = ctx.metrics_cluster {
            lemma_cluster_index(held.clusters@, cluster@, held.clusters@.len() as int);
        }
        assert((*final(registry))->0.clusters@ =~= held.clusters@);
    }
}

/// The counts that a request reports with a changed endpoint are those of its cluster after
/// the change.
pub proof fn law_requests_report_the_counts_of_their_cluster<V>(
    registry: &mut Option<HealthRegistry>,
    error: Option<ErrorSource>,
    ctx: &RequestCtx<V>,
    changed: Option<HealthTransition>,
    at: int,
    counts: (usize, usize),
)
    requires
        call_ensures(record_passive_health::<V>, (registry, error, ctx), changed),
        *old(registry) is Some,
        (*old(registry))->0.wf(),
        0 <= at < (*old(registry))->0.clusters@.len(),
        names_cluster(*ctx, (*old(registry))->0.clusters@[at].0@),
        call_ensures(
            count_healthy_endpoints,
            (&(*final(registry))->0.clusters@[at].1,),
            counts,
        ),
    ensures
        changed matches Some(to) ==> to.healthy_endpoints == counts.0 && to.endpoints == counts.1,
{
    lemma_place(*old(registry), *ctx, at);
}

/// One observation of an endpoint: the streak of its kind grows and the other ends, the
/// endpoint turns where the threshold is met, and everything else in the cluster stays. An
/// index that the cluster does not have, and a missing threshold, change nothing.
pub proof fn law_observations_extend_a_streak(
    entry: &mut ClusterHealthEntry,
    index: usize,
    is_failure: bool,
    changed: Option<HealthTransition>,
    other: int,
)
    requires
        call_ensures(apply_passive_threshold, (entry, index, is_failure), changed),
        0 <= other < old(entry).endpoints@.len(),
    ensures
        final(entry).addresses == old(entry).addresses,
        final(entry).passive_unhealthy == old(entry).passive_unhealthy,
        final(entry).passive_healthy == old(entry).passive_healthy,
        final(entry).endpoints@.len() == old(entry).endpoints@.len(),
        other != index ==> final(entry).endpoints@[other] == old(entry).endpoints@[other],
        ({
            let was = old(entry).endpoints@[other];
            let now = final(entry).endpoints@[other];
            let threshold = if is_failure {
                old(entry).passive_unhealthy
            } else {
                old(entry).passive_healthy
            };
            &&& threshold is None ==> now == was && changed is None
            &&& other == index && threshold is Some && is_failure ==> {
                &&& now.failures == was.failures + 1 || (was.failures == u32::MAX && now.failures
                    == u32::MAX)
                &&& now.successes == 0
                &&& now.healthy <==> was.healthy && now.failures < threshold->0
                &&& changed is Some <==> now.healthy != was.healthy
            }
            &&& other == index && threshold is Some && !is_failure ==> {
                &&& now.successes == was.successes + 1 || (was.successes == u32::MAX
                    && now.successes == u32::MAX)
                &&& now.failures == 0
                &&& now.healthy <==> was.healthy || now.successes >= threshold->0
                &&& changed is Some <==> now.healthy != was.healthy
            }
        }),
        index >= old(entry).endpoints@.len() ==> changed is None,
{
}

/// A new endpoint is healthy and nothing was observed of it.
pub proof fn law_new_endpoints_are_healthy(fresh: EndpointHealth, healthy: bool)
    requires
        call_ensures(EndpointHealth::new, (), fresh),
        call_ensures(EndpointHealth::is_healthy, (&fresh,), healthy),
    ensures
        healthy,
        fresh.failures == 0,
        fresh.successes == 0,
{
}

/// Failures and successes in a row turn an endpoint at their thresholds, and each kind ends
/// the streak of the other.
pub proof fn law_streaks_turn_an_endpoint(
    endpoint: &mut EndpointHealth,
    failed: bool,
    later: &mut EndpointHealth,
    served: bool,
    threshold: u32,
    healthy: bool,
)
    requires
        call_ensures(EndpointHealth::record_failure, (endpoint, threshold), failed),
        call_ensures(EndpointHealth::record_success, (later, threshold), served),
        call_ensures(EndpointHealth::is_healthy, (&*final(endpoint),), healthy),
    ensures
        final(endpoint).failures == old(endpoint).failures + 1 || (old(endpoint).failures
            == u32::MAX && final(endpoint).failures == u32::MAX),
        final(endpoint).successes == 0,
        healthy <==> old(endpoint).healthy && final(endpoint).failures < threshold,
        failed <==> old(endpoint).healthy && !healthy,
        final(later).successes == old(later).successes + 1 || (old(later).successes == u32::MAX
            && final(later).successes == u32::MAX),
        final(later).failures == 0,
        final(later).healthy <==> old(later).healthy || final(later).successes >= threshold,
        served <==> !old(later).healthy && final(later).healthy,
{
}

/// A registry starts empty. What is put in under a name is found there and replaces what was
/// under it before; every other cluster stays where it was.
pub proof fn law_registries_hold_what_is_put_in(
    fresh: HealthRegistry,
    registry: &mut HealthRegistry,
    name: String,
    entry: ClusterHealthEntry,
    wanted: &str,
    at: Option<usize>,
    other: int,
)
    requires
        call_ensures(HealthRegistry::new, (), fresh),
        old(registry).wf(),
        call_ensures(HealthRegistry::insert, (registry, name, entry), ()),
        call_ensures(HealthRegistry::position, (&*final(registry), wanted), at),
    ensures
        fresh.clusters@.len() == 0,
        final(registry).wf(),
        old(registry).clusters@.len() <= final(registry).clusters@.len()
            <= old(registry).clusters@.len() + 1,
        at matches Some(i) ==> i < final(registry).clusters@.len()
            && final(registry).clusters@[i as int].0@ == wanted@,
        at is None ==> 0 <= other < final(registry).clusters@.len()
            ==> final(registry).clusters@[other].0@ != wanted@,
        wanted@ == name@ ==> at is Some && final(registry).clusters@[at->0 as int].1 == entry,
        0 <= other < old(registry).clusters@.len() && old(registry).clusters@[other].0@ != name@
            ==> final(registry).clusters@[other] == old(registry).clusters@[other],
        (forall|i: int|
            0 <= i < old(registry).clusters@.len()
                ==> (#[trigger] old(registry).clusters@[i]).0@ != name@)
                ==> final(registry).clusters@.len() == old(registry).clusters@.len() + 1,
{
    let before = old(registry).clusters@;
    let after = final(registry).clusters@;
    lemma_cluster_index_bounds(before, name@);
    lemma_cluster_index_bounds(after, wanted@);
    let place = cluster_index(before, name@);
    assert(after[place] == (name, entry));
    if wanted@ == name@ {
        assert forall|i: int| 0 <= i < place implies (#[trigger] after[i]).0@ != name@ by {
            assert(after[i] == before[i]);
        }
        lemma_cluster_index(after, name@, place);
    }
    if 0 <= other < before.len() && before[other].0@ != name@ {
        assert(other != place);
    }
}

/// A cluster is made of what it is given.
pub proof fn law_clusters_are_as_given(
    endpoints: Vec<EndpointHealth>,
    addresses: Vec<String>,
    passive_unhealthy: Option<u32>,
    passive_healthy: Option<u32>,
    entry: ClusterHealthEntry,
)
    requires
        call_ensures(
            ClusterHealthEntry::new,
            (endpoints, addresses, passive_unhealthy, passive_healthy),
            entry,
        ),
    ensures
        entry.endpoints == endpoints,
        entry.addresses == addresses,
        entry.passive_unhealthy == passive_unhealthy,
        entry.passive_healthy == passive_healthy,
{
}

/// A cluster of a registry is found at its place.
proof fn lemma_place<V>(registry: Option<HealthRegistry>, ctx: RequestCtx<V>, at: int)
    requires
        registry is Some,
        registry->0.wf(),
        0 <= at < registry->0.clusters@.len(),
        names_cluster(ctx, registry->0.clusters@[at].0@),
    ensures
        cluster_index(registry->0.clusters@, registry->0.clusters@[at].0@) == at,
{
    lemma_places(registry->0.clusters@, at);
}

proof fn lemma_places(clusters: Seq<(String, ClusterHealthEntry)>, at: int)
    requires
        0 <= at < clusters.len(),
        forall|i: int, j: int|
            0 <= i < j < clusters.len() ==> (#[trigger] clusters[i]).0@ != (
            #[trigger] clusters[j]).0@,
    ensures
        cluster_index(clusters, clusters[at].0@) == at,
        forall|name: Seq<char>|
            #![trigger cluster_index(clusters, name)]
            0 <= cluster_index(clusters, name) <= clusters.len() && (
            cluster_index(clusters, name) == at ==> clusters[at].0@ == name),
{
    lemma_cluster_index(clusters, clusters[at].0@, at);
    assert forall|name: Seq<char>|
        #![trigger cluster_index(clusters, name)]
        0 <= cluster_index(clusters, name) <= clusters.len() && (
        cluster_index(clusters, name) == at ==> clusters[at].0@ == name) by {
        lemma_cluster_index_bounds(clusters, name);
    }
}

} // verus!

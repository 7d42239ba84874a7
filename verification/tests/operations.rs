//! Compression, passive health, the end of a request, and set-up.
use std::collections::HashMap;

use http::HeaderMap;
use praxis::cert_watcher_shutdowns::CertWatcherShutdowns;
use praxis::compression::{
    adjust_compression, configure_compression, effective_levels, Algorithm, CompressionConfig,
    LevelChange,
};
use praxis::context::{FilterContext, Request, RequestCtx};
use praxis::health::{
    ended_by_client, record_passive_health, ClusterHealthEntry, EndpointHealth, ErrorSource,
    HealthRegistry, HealthTransition,
};
use praxis::listener::{handler_settings, Listener};
use praxis::logging::{
    after_deferred_record, cleanup_due, logging_cleanup, maybe_emit_fallback_access_log,
    FallbackRecord,
};

type Ctx = RequestCtx<u32>;

// ----- Compression -----

fn default_config() -> CompressionConfig {
    CompressionConfig {
        default_level: 6,
        gzip_enabled: true,
        gzip_level: None,
        brotli_enabled: true,
        brotli_level: None,
        zstd_enabled: true,
        zstd_level: None,
    }
}

#[test]
fn shared_levels_are_clamped_independently_for_every_algorithm() {
    for default_level in (0..=22).chain([u32::MAX]) {
        let cfg = CompressionConfig {
            default_level,
            ..default_config()
        };
        assert_eq!(
            effective_levels(&cfg),
            [
                (Algorithm::Gzip, default_level.min(9)),
                (Algorithm::Brotli, default_level.min(11)),
                (Algorithm::Zstd, default_level.min(22)),
            ],
            "shared level {default_level} must respect each encoder's own range"
        );
    }
}

#[test]
fn overrides_zero_and_disablement_take_precedence_over_shared_level() {
    for default_level in [0, 6, 22] {
        let mut cfg = CompressionConfig {
            default_level,
            gzip_level: Some(1),
            brotli_level: Some(4),
            zstd_level: Some(3),
            ..default_config()
        };
        assert_eq!(
            effective_levels(&cfg),
            [(Algorithm::Gzip, 1), (Algorithm::Brotli, 4), (Algorithm::Zstd, 3)]
        );
        cfg.gzip_level = Some(0);
        cfg.brotli_level = Some(0);
        cfg.zstd_level = Some(0);
        assert!(
            effective_levels(&cfg).iter().all(|(_, level)| *level == 0),
            "explicit zero must disable compression"
        );
        cfg.gzip_level = Some(1);
        cfg.brotli_level = Some(4);
        cfg.zstd_level = Some(3);
        cfg.gzip_enabled = false;
        cfg.brotli_enabled = false;
        cfg.zstd_enabled = false;
        assert!(
            effective_levels(&cfg).iter().all(|(_, level)| *level == 0),
            "disablement must win over explicit levels"
        );
    }
}

#[test]
fn rust_api_overrides_cannot_exceed_encoder_limits() {
    let cfg = CompressionConfig {
        gzip_level: Some(u32::MAX),
        brotli_level: Some(u32::MAX),
        zstd_level: Some(u32::MAX),
        ..default_config()
    };
    assert_eq!(
        effective_levels(&cfg),
        [(Algorithm::Gzip, 9), (Algorithm::Brotli, 11), (Algorithm::Zstd, 22)]
    );
}

#[test]
fn configuration_starts_from_nothing() {
    assert_eq!(configure_compression(None), vec![LevelChange::All(0)]);
    assert_eq!(
        configure_compression(Some(&default_config())),
        vec![
            LevelChange::All(0),
            LevelChange::One(Algorithm::Gzip, 6),
            LevelChange::One(Algorithm::Brotli, 6),
            LevelChange::One(Algorithm::Zstd, 6),
        ]
    );
}

#[test]
fn only_wanted_final_responses_are_compressed() {
    assert!(!adjust_compression(103, None));
    assert!(!adjust_compression(200, Some(true)));
    assert!(adjust_compression(200, Some(false)));
    assert!(adjust_compression(200, None));
    assert!(adjust_compression(99, None));
}

// ----- Passive health -----

#[test]
fn a_client_abort_before_any_upstream_response_ended_by_client() {
    assert!(
        ended_by_client(Some(ErrorSource::Downstream), None),
        "a downstream error with no upstream status must not be charged to the endpoint"
    );
}

#[test]
fn upstream_errors_and_answered_requests_are_not_client_endings() {
    assert!(
        !ended_by_client(Some(ErrorSource::Upstream), None),
        "an upstream error is the endpoint's"
    );
    assert!(
        !ended_by_client(Some(ErrorSource::Downstream), Some(502)),
        "once the upstream answered, its status is the signal"
    );
    assert!(!ended_by_client(None, None), "no error is not a client ending");
}

fn make_passive_ctx(cluster: &str, endpoint_idx: usize, status: Option<u16>) -> Ctx {
    let mut ctx: Ctx = RequestCtx::new();
    ctx.cluster = Some(cluster.to_owned());
    ctx.selected_endpoint_index = Some(endpoint_idx);
    ctx.upstream_response_status = status;
    ctx.upstream_contacted = true;
    ctx
}

fn make_passive_scenario(
    passive_unhealthy: Option<u32>,
    passive_healthy: Option<u32>,
) -> (Option<HealthRegistry>, Ctx) {
    let entry = ClusterHealthEntry::new(
        vec![EndpointHealth::new()],
        vec!["10.0.0.1:80".to_owned()],
        passive_unhealthy,
        passive_healthy,
    );
    let mut registry = HealthRegistry::new();
    registry.insert("test-cluster".to_owned(), entry);
    (Some(registry), make_passive_ctx("test-cluster", 0, None))
}

fn is_healthy(registry: &Option<HealthRegistry>) -> bool {
    let registry = registry.as_ref().unwrap();
    let at = registry.position("test-cluster").unwrap();
    registry.clusters[at].1.endpoints[0].is_healthy()
}

/// An error that nobody is blamed for.
const UNBLAMED: Option<ErrorSource> = Some(ErrorSource::Unset);

#[test]
fn passive_health_error_is_failure() {
    let (mut registry, ctx) = make_passive_scenario(Some(3), Some(2));
    record_passive_health(&mut registry, UNBLAMED, &ctx);
    assert!(
        is_healthy(&registry),
        "single failure should not yet mark unhealthy (threshold=3)"
    );
}

#[test]
fn passive_health_downstream_error_is_not_failure() {
    let (mut registry, ctx) = make_passive_scenario(Some(1), Some(1));
    record_passive_health(&mut registry, Some(ErrorSource::Downstream), &ctx);
    assert!(
        is_healthy(&registry),
        "a downstream/client error must not mark the endpoint unhealthy"
    );
}

#[test]
fn passive_health_downstream_error_with_5xx_still_counts_as_failure() {
    let (mut registry, mut ctx) = make_passive_scenario(Some(1), Some(1));
    ctx.upstream_response_status = Some(503);
    record_passive_health(&mut registry, Some(ErrorSource::Downstream), &ctx);
    assert!(
        !is_healthy(&registry),
        "a downstream error with an upstream 503 must still mark the endpoint unhealthy"
    );
}

#[test]
fn passive_health_downstream_error_does_not_reset_failure_streak() {
    let (mut registry, ctx) = make_passive_scenario(Some(2), Some(1));
    record_passive_health(&mut registry, Some(ErrorSource::Upstream), &ctx);
    record_passive_health(&mut registry, Some(ErrorSource::Downstream), &ctx);
    record_passive_health(&mut registry, Some(ErrorSource::Upstream), &ctx);
    assert!(
        !is_healthy(&registry),
        "two upstream failures must eject the endpoint even with an interleaved client error"
    );
}

#[test]
fn passive_health_upstream_error_is_failure() {
    let (mut registry, ctx) = make_passive_scenario(Some(1), Some(1));
    let changed = record_passive_health(&mut registry, Some(ErrorSource::Upstream), &ctx);
    assert!(
        !is_healthy(&registry),
        "an upstream error at unhealthy-threshold 1 must mark the endpoint unhealthy"
    );
    assert_eq!(
        changed,
        Some(HealthTransition {
            healthy: false,
            healthy_endpoints: 0,
            endpoints: 1,
        })
    );
}

#[test]
fn passive_health_skips_observations_without_upstream_contact() {
    let (mut registry, mut ctx) = make_passive_scenario(Some(2), Some(1));

    record_passive_health(&mut registry, Some(ErrorSource::Upstream), &ctx);

    ctx.upstream_contacted = false;
    record_passive_health(&mut registry, None, &ctx);

    ctx.upstream_response_status = Some(200);
    record_passive_health(&mut registry, None, &ctx);
    ctx.upstream_response_status = None;

    ctx.upstream_contacted = true;
    record_passive_health(&mut registry, Some(ErrorSource::Upstream), &ctx);
    assert!(
        !is_healthy(&registry),
        "observations without upstream contact must not reset the failure streak"
    );
}

#[test]
fn passive_health_records_connect_failure_after_reselect_clears_upstream() {
    let (mut registry, mut ctx) = make_passive_scenario(Some(1), Some(1));
    ctx.upstream = None;
    ctx.upstream_contacted = true;
    record_passive_health(&mut registry, Some(ErrorSource::Upstream), &ctx);
    assert!(
        !is_healthy(&registry),
        "a connect failure after reselection cleared upstream_for_retry must still count"
    );
}

#[test]
fn passive_health_status_500_is_failure() {
    let (mut registry, mut ctx) = make_passive_scenario(Some(3), Some(2));
    ctx.upstream_response_status = Some(500);
    record_passive_health(&mut registry, None, &ctx);
    assert!(
        is_healthy(&registry),
        "single 500 should not yet mark unhealthy (threshold=3)"
    );
    assert_eq!(registry.unwrap().clusters[0].1.endpoints[0].failures, 1);
}

#[test]
fn passive_health_status_below_500_is_success() {
    let (mut registry, mut ctx) = make_passive_scenario(Some(2), Some(1));
    ctx.upstream_response_status = Some(499);
    record_passive_health(&mut registry, None, &ctx);
    assert!(is_healthy(&registry), "status 499 should count as success");
    assert_eq!(registry.unwrap().clusters[0].1.endpoints[0].successes, 1);
}

#[test]
fn passive_unhealthy_threshold_transition() {
    let (mut registry, ctx) = make_passive_scenario(Some(2), Some(1));
    record_passive_health(&mut registry, UNBLAMED, &ctx);
    record_passive_health(&mut registry, UNBLAMED, &ctx);
    assert!(
        !is_healthy(&registry),
        "2 consecutive failures should mark unhealthy (threshold=2)"
    );
}

#[test]
fn passive_healthy_threshold_recovery() {
    let (mut registry, ctx) = make_passive_scenario(Some(1), Some(2));
    record_passive_health(&mut registry, UNBLAMED, &ctx);
    assert!(!is_healthy(&registry), "should be unhealthy after 1 failure");

    let ctx_ok = make_passive_ctx("test-cluster", 0, Some(200));
    record_passive_health(&mut registry, None, &ctx_ok);
    assert!(
        !is_healthy(&registry),
        "one success should not recover (threshold=2)"
    );

    let changed = record_passive_health(&mut registry, None, &ctx_ok);
    assert!(
        is_healthy(&registry),
        "2 consecutive successes should recover (threshold=2)"
    );
    assert_eq!(
        changed,
        Some(HealthTransition {
            healthy: true,
            healthy_endpoints: 1,
            endpoints: 1,
        })
    );
}

#[test]
fn passive_health_no_thresholds_is_noop() {
    let (mut registry, ctx) = make_passive_scenario(None, None);
    record_passive_health(&mut registry, UNBLAMED, &ctx);
    assert!(
        is_healthy(&registry),
        "no passive thresholds means failures are no-op"
    );
}

#[test]
fn passive_health_endpoint_index_out_of_bounds() {
    let (mut registry, mut ctx) = make_passive_scenario(Some(1), Some(1));
    ctx.selected_endpoint_index = Some(999);
    record_passive_health(&mut registry, UNBLAMED, &ctx);
    assert!(is_healthy(&registry), "out-of-bounds index should be no-op");
}

#[test]
fn passive_health_missing_cluster_is_noop() {
    let (mut registry, mut ctx) = make_passive_scenario(Some(1), Some(1));
    ctx.cluster = None;
    ctx.metrics_cluster = None;
    record_passive_health(&mut registry, UNBLAMED, &ctx);
    assert!(is_healthy(&registry));
}

#[test]
fn passive_health_falls_back_to_metrics_cluster() {
    let (mut registry, mut ctx) = make_passive_scenario(Some(2), Some(1));
    ctx.cluster = None;
    ctx.metrics_cluster = Some("test-cluster".to_owned());
    record_passive_health(&mut registry, UNBLAMED, &ctx);
    record_passive_health(&mut registry, UNBLAMED, &ctx);
    assert!(
        !is_healthy(&registry),
        "fallback to metrics_cluster should still record passive health"
    );
}

#[test]
fn passive_health_missing_endpoint_index_is_noop() {
    let (mut registry, mut ctx) = make_passive_scenario(Some(1), Some(1));
    ctx.selected_endpoint_index = None;
    record_passive_health(&mut registry, UNBLAMED, &ctx);
    assert!(is_healthy(&registry));
}

#[test]
fn passive_health_missing_registry_is_noop() {
    let mut ctx: Ctx = RequestCtx::new();
    ctx.cluster = Some("test-cluster".to_owned());
    ctx.selected_endpoint_index = Some(0);
    let mut registry: Option<HealthRegistry> = None;
    assert!(record_passive_health(&mut registry, UNBLAMED, &ctx).is_none());
    assert!(registry.is_none());
}

#[test]
fn passive_health_unknown_cluster_is_noop() {
    let (mut registry, mut ctx) = make_passive_scenario(Some(1), Some(1));
    ctx.cluster = Some("nonexistent".to_owned());
    record_passive_health(&mut registry, UNBLAMED, &ctx);
    assert!(is_healthy(&registry));
}

#[test]
fn health_of_one_endpoint_leaves_the_others_alone() {
    let mut registry = HealthRegistry::new();
    for name in ["a", "b"] {
        let entry = ClusterHealthEntry::new(
            vec![EndpointHealth::new(), EndpointHealth::new()],
            vec!["10.0.0.1:80".to_owned(), "10.0.0.2:80".to_owned()],
            Some(1),
            Some(1),
        );
        registry.insert(name.to_owned(), entry);
    }
    let mut registry = Some(registry);
    let ctx = make_passive_ctx("b", 1, Some(500));
    let changed = record_passive_health(&mut registry, None, &ctx).unwrap();
    assert_eq!((changed.healthy_endpoints, changed.endpoints), (1, 2));
    let healthy: Vec<bool> = registry
        .unwrap()
        .clusters
        .iter()
        .flat_map(|(_, entry)| entry.endpoints.iter().map(EndpointHealth::is_healthy))
        .collect();
    assert_eq!(healthy, vec![true, true, true, false]);
}

#[test]
fn cluster_is_registered_once() {
    let mut registry = HealthRegistry::new();
    registry.insert("a".to_owned(), ClusterHealthEntry::new(Vec::new(), Vec::new(), None, None));
    registry.insert("a".to_owned(), ClusterHealthEntry::new(Vec::new(), Vec::new(), Some(7), None));
    assert_eq!(registry.clusters.len(), 1);
    assert_eq!(registry.clusters[0].1.passive_unhealthy, Some(7));
    assert_eq!(registry.position("b"), None);
}

// ----- The end of a request -----

fn snapshot(method: &str, uri: &str) -> Option<Request> {
    Some(Request {
        method: method.to_owned(),
        uri: uri.to_owned(),
        headers: HeaderMap::new(),
    })
}

/// Runs filters that change nothing where the clean-up is due.
fn clean_up(ctx: &mut Ctx) -> bool {
    if !cleanup_due(ctx) {
        return false;
    }
    let mut fctx: FilterContext<u32> = FilterContext::new();
    fctx.cluster = ctx.cluster.take();
    fctx.upstream = ctx.upstream.take();
    fctx.extensions = std::mem::take(&mut ctx.extensions);
    fctx.filter_metadata = std::mem::take(&mut ctx.filter_metadata);
    fctx.filter_state = std::mem::take(&mut ctx.filter_state);
    logging_cleanup(ctx, fctx);
    true
}

#[test]
fn logging_cleanup_noop_when_response_phase_done() {
    let mut ctx: Ctx = RequestCtx::new();
    ctx.response_phase_done = true;
    ctx.request_snapshot = snapshot("GET", "/");
    assert!(!clean_up(&mut ctx));
}

#[test]
fn logging_cleanup_noop_when_no_snapshot() {
    let mut ctx: Ctx = RequestCtx::new();
    ctx.response_phase_done = false;
    ctx.request_snapshot = None;
    assert!(!clean_up(&mut ctx));
}

#[test]
fn logging_cleanup_runs_response_pipeline_when_needed() {
    let mut ctx: Ctx = RequestCtx::new();
    ctx.response_phase_done = false;
    ctx.cluster = Some("test-cluster".to_owned());
    ctx.request_snapshot = snapshot("GET", "/test");
    assert!(clean_up(&mut ctx));
    assert_eq!(
        ctx.cluster.as_deref(),
        Some("test-cluster"),
        "cluster must be restored so the fallback access record can attribute the failure"
    );
}

#[test]
fn logging_cleanup_preserves_filter_metadata() {
    let mut ctx: Ctx = RequestCtx::new();
    ctx.response_phase_done = false;
    ctx.filter_metadata = HashMap::from([("json_rpc.method".to_owned(), "service/invoke".to_owned())]);
    ctx.request_snapshot = snapshot("POST", "/api");
    assert!(clean_up(&mut ctx));
    assert_eq!(
        ctx.filter_metadata.get("json_rpc.method").map(String::as_str),
        Some("service/invoke"),
        "filter_metadata should survive logging_cleanup"
    );
}

#[test]
fn logging_cleanup_preserves_extensions() {
    let mut ctx: Ctx = RequestCtx::new();
    ctx.response_phase_done = false;
    ctx.extensions = vec![42_u32];
    ctx.request_snapshot = snapshot("POST", "/test");
    assert!(clean_up(&mut ctx));
    assert_eq!(
        ctx.extensions.first(),
        Some(&42),
        "extensions should survive logging_cleanup"
    );
}

fn make_fallback_ctx() -> Ctx {
    let mut ctx: Ctx = RequestCtx::new();
    ctx.request_snapshot = snapshot("GET", "/");
    ctx
}

#[test]
fn fallback_access_log_emits_for_incomplete_request() {
    let ctx = make_fallback_ctx();
    assert_eq!(
        maybe_emit_fallback_access_log(&ctx, true, false, true),
        FallbackRecord::AskFilters,
        "incomplete request must produce a fallback access record"
    );
}

#[test]
fn fallback_access_log_skips_completed_delivery() {
    let mut ctx = make_fallback_ctx();
    ctx.response_delivery_complete = true;
    assert_eq!(
        maybe_emit_fallback_access_log(&ctx, true, false, true),
        FallbackRecord::Skip,
        "completed delivery already logged via the filter"
    );
}

#[test]
fn fallback_access_log_skips_upgraded_connections() {
    let mut ctx = make_fallback_ctx();
    ctx.connection_upgraded = true;
    assert_eq!(
        maybe_emit_fallback_access_log(&ctx, true, false, true),
        FallbackRecord::Skip,
        "upgraded connections have no body completion"
    );
}

#[test]
fn fallback_access_log_skips_without_access_log_filter() {
    let ctx = make_fallback_ctx();
    assert_eq!(
        maybe_emit_fallback_access_log(&ctx, false, false, true),
        FallbackRecord::Skip,
        "no access_log filter means no fallback record"
    );
}

#[test]
fn fallback_access_log_honors_entry_conditions() {
    let excluded = make_fallback_ctx();
    assert_eq!(
        maybe_emit_fallback_access_log(&excluded, true, false, false),
        FallbackRecord::Skip,
        "requests the operator scoped out must not gain fallback records"
    );
    let mut included = make_fallback_ctx();
    included.request_snapshot = snapshot("GET", "/api/users");
    assert_eq!(
        maybe_emit_fallback_access_log(&included, true, false, true),
        FallbackRecord::AskFilters,
        "in-scope incomplete requests still get a record"
    );
}

#[test]
fn fallback_access_log_is_not_written_twice() {
    let ctx = make_fallback_ctx();
    assert_eq!(
        maybe_emit_fallback_access_log(&ctx, true, true, true),
        FallbackRecord::Skip
    );
}

#[test]
fn clean_up_does_not_change_whether_a_record_is_due() {
    let mut ctx = make_fallback_ctx();
    assert!(clean_up(&mut ctx));
    assert_eq!(
        maybe_emit_fallback_access_log(&ctx, true, false, true),
        FallbackRecord::AskFilters
    );
}

// ----- Set-up -----

#[test]
fn handler_is_set_up_from_its_listener() {
    let settings = handler_settings(&Listener {
        name: "http".to_owned(),
        downstream_read_timeout_ms: Some(1500),
        max_connections: Some(20),
    });
    assert_eq!(settings.service_name, "http-proxy:http");
    assert_eq!(settings.downstream_read_timeout_ms, Some(1500));
    assert_eq!(settings.connection_permits, Some(20));
}

#[test]
fn watcher_handles_are_kept() {
    let (sender, receiver) = tokio::sync::watch::channel(false);
    let shutdowns = CertWatcherShutdowns::new(vec![sender]);
    assert!(receiver.has_changed().is_ok(), "the sender is alive");
    drop(shutdowns);
    assert!(receiver.has_changed().is_err(), "the sender is gone");
}

#[test]
fn unclaimed_record_gets_the_fixed_shape() {
    assert_eq!(after_deferred_record(false), FallbackRecord::FixedShape);
    assert_eq!(after_deferred_record(true), FallbackRecord::Skip);
}

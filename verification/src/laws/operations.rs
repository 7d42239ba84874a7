//! Compression, access records, listeners and the notation of numbers.
use crate::cert_watcher_shutdowns::CertWatcherShutdowns;
use crate::compression::{
    adjust_compression, configure_compression, effective_levels,
    law_configuration_replaces_earlier_levels, level_after, Algorithm, CompressionConfig,
    LevelChange,
};
use crate::context::{Fault, FaultKind, FilterContext, RequestCtx};
use crate::listener::{handler_settings, HandlerSettings, Listener};
use crate::logging::{
    after_deferred_record, cleanup_due, fallback_record_possible, logging_cleanup,
    maybe_emit_fallback_access_log, FallbackRecord,
};
use crate::text::{
    chars_of, decimal, decimal_text, is_visible, is_visible_byte, same_chars, same_text, text_of,
    visible_text,
};
use tokio::sync::watch;
use vstd::prelude::*;
use vstd::string::*;

verus! {

// ----- Compression -----

/// What a configuration says of an encoder: whether it may be used, its own level, and the
/// highest one that it takes.
pub open spec fn encoder(config: CompressionConfig, algorithm: Algorithm) -> (
    bool,
    Option<u32>,
    u32,
) {
    match algorithm {
        Algorithm::Gzip => (config.gzip_enabled, config.gzip_level, 9),
        Algorithm::Brotli => (config.brotli_enabled, config.brotli_level, 11),
        Algorithm::Zstd => (config.zstd_enabled, config.zstd_level, 22),
    }
}

/// A level suits an encoder: it is off where it may not be used, and else it has its own
/// level or the shared one, or the highest it takes where that is exceeded.
pub open spec fn suits(config: CompressionConfig, algorithm: Algorithm, level: u32) -> bool {
    let (enabled, own, highest) = encoder(config, algorithm);
    &&& level <= highest
    &&& !enabled ==> level == 0
    &&& enabled && own is Some ==> level == own->0 || (level == highest && own->0 > highest)
    &&& enabled && own is None ==> level == config.default_level || (level == highest
        && config.default_level > highest)
}

/// Every encoder gets one level, which suits it.
pub proof fn law_levels_suit_their_encoders(
    config: &CompressionConfig,
    levels: [(Algorithm, u32); 3],
)
    requires
        call_ensures(effective_levels, (config,), levels),
    ensures
        levels@.len() == 3,
        levels@[0].0 == Algorithm::Gzip,
        levels@[1].0 == Algorithm::Brotli,
        levels@[2].0 == Algorithm::Zstd,
        forall|i: int|
            0 <= i < 3 ==> suits(*config, (#[trigger] levels@[i]).0, levels@[i].1),
{
}

/// Setting a request up leaves every encoder at a level that suits it, whatever level it had
/// before, and off where nothing is configured.
pub proof fn law_requests_are_set_up_afresh(
    config: Option<&CompressionConfig>,
    changes: Vec<LevelChange>,
    algorithm: Algorithm,
    start: u32,
)
    requires
        call_ensures(configure_compression, (config,), changes),
    ensures
        config matches Some(held) ==> suits(
            *held,
            algorithm,
            level_after(changes@, algorithm, start),
        ),
        config is None ==> level_after(changes@, algorithm, start) == 0,
{
    let held = match config {
        Some(config) => Some(*config),
        None => None,
    };
    law_configuration_replaces_earlier_levels(held, algorithm, start);
}

/// The last change that concerns an encoder decides its level.
pub proof fn law_last_change_decides(
    changes: Seq<LevelChange>,
    level: u32,
    changed: Algorithm,
    algorithm: Algorithm,
    start: u32,
)
    ensures
        level_after(Seq::empty(), algorithm, start) == start,
        level_after(changes.push(LevelChange::All(level)), algorithm, start) == level,
        level_after(changes.push(LevelChange::One(changed, level)), algorithm, start) == if changed
            == algorithm {
            level
        } else {
            level_after(changes, algorithm, start)
        },
{
    assert(changes.push(LevelChange::All(level)).drop_last() =~= changes);
    assert(changes.push(LevelChange::One(changed, level)).drop_last() =~= changes);
}

/// An upstream response is compressed only where that is wanted; an interim response decides
/// nothing yet.
pub proof fn law_compression_has_to_be_wanted(
    status: u16,
    should_compress: Option<bool>,
    disable: bool,
)
    requires
        call_ensures(adjust_compression, (status, should_compress), disable),
    ensures
        100 <= status < 200 ==> !disable,
        !(100 <= status < 200) && should_compress == Some(true) ==> !disable,
        !(100 <= status < 200) && should_compress != Some(true) ==> disable,
{
}

// ----- The end of a request -----

/// Response filters that never ran do so at the end, for a captured request only. What they
/// leave is taken over, and everything else stays, so that the record can be written.
pub proof fn law_filters_get_their_turn_at_the_end<V>(
    ctx: &mut RequestCtx<V>,
    fctx: FilterContext<V>,
    due: bool,
)
    requires
        call_ensures(cleanup_due::<V>, (&*old(ctx),), due),
        call_ensures(logging_cleanup::<V>, (ctx, fctx), ()),
    ensures
        old(ctx).response_phase_done ==> !due,
        old(ctx).request_snapshot is None ==> !due,
        !old(ctx).response_phase_done && old(ctx).request_snapshot is Some ==> due,
        final(ctx).extensions == fctx.extensions,
        final(ctx).filter_metadata == fctx.filter_metadata,
        final(ctx).filter_state == fctx.filter_state,
        final(ctx).cached_executed_filter_indices == fctx.executed_filter_indices,
        final(ctx).cached_body_done_indices == fctx.body_done_indices,
        final(ctx).cluster == fctx.cluster,
        final(ctx).upstream == fctx.upstream,
        *final(ctx) == (RequestCtx {
            extensions: final(ctx).extensions,
            filter_metadata: final(ctx).filter_metadata,
            filter_state: final(ctx).filter_state,
            cached_executed_filter_indices: final(ctx).cached_executed_filter_indices,
            cached_body_done_indices: final(ctx).cached_body_done_indices,
            cluster: final(ctx).cluster,
            upstream: final(ctx).upstream,
            ..*old(ctx)
        }),
{
}

/// A captured request whose response was neither delivered nor upgraded gets one access
/// record where access is logged, unless a filter wrote one or its conditions leave the
/// request out: that of the filters, or else one of the fixed shape. No other request does.
pub proof fn law_every_request_has_one_record<V>(
    ctx: &RequestCtx<V>,
    has_access_log: bool,
    already_emitted: bool,
    conditions_match: bool,
    possible: bool,
    record: FallbackRecord,
    claimed: bool,
    later: FallbackRecord,
)
    requires
        call_ensures(fallback_record_possible::<V>, (ctx, has_access_log), possible),
        call_ensures(
            maybe_emit_fallback_access_log::<V>,
            (ctx, has_access_log, already_emitted, conditions_match),
            record,
        ),
        call_ensures(after_deferred_record, (claimed,), later),
    ensures
        ctx.response_delivery_complete ==> !possible,
        ctx.connection_upgraded ==> !possible,
        !has_access_log ==> !possible,
        ctx.request_snapshot is None ==> !possible,
        !ctx.response_delivery_complete && !ctx.connection_upgraded && has_access_log
            && ctx.request_snapshot is Some ==> possible,
        possible && !already_emitted && conditions_match ==> record == FallbackRecord::AskFilters,
        !possible || already_emitted || !conditions_match ==> record == FallbackRecord::Skip,
        claimed ==> later == FallbackRecord::Skip,
        !claimed ==> later == FallbackRecord::FixedShape,
{
}

/// An error tells what it is given.
pub proof fn law_errors_tell_what_they_are_given(kind: FaultKind, message: &str, fault: Fault)
    requires
        call_ensures(Fault::explain, (kind, message), fault),
    ensures
        fault.kind == kind,
        fault.message@ == message@,
{
}

// ----- Listeners -----

/// A handler is set up with what its listener is configured with, under a name of its own.
pub proof fn law_handlers_are_set_up_as_configured(listener: &Listener, settings: HandlerSettings)
    requires
        call_ensures(handler_settings, (listener,), settings),
    ensures
        settings.service_name@ == "http-proxy:"@ + listener.name@,
        settings.downstream_read_timeout_ms == listener.downstream_read_timeout_ms,
        listener.max_connections is None ==> settings.connection_permits is None,
        listener.max_connections matches Some(max) ==> settings.connection_permits matches Some(
            permits,
        ) && permits == max,
{
}

/// The handles of the certificate watchers are kept, all of them and in order.
pub proof fn law_shutdown_handles_are_kept(
    senders: Vec<watch::Sender<bool>>,
    shutdowns: CertWatcherShutdowns,
)
    requires
        call_ensures(CertWatcherShutdowns::new, (senders,), shutdowns),
    ensures
        shutdowns.held() == senders@,
{
}

// ----- Texts -----

/// The number that digits are read as.
pub open spec fn read_number(digits: Seq<char>) -> int
    decreases digits.len(),
{
    if digits.len() == 0 {
        0
    } else {
        10 * read_number(digits.drop_last()) + (digits.last() as int - '0' as int)
    }
}

/// A number is read back from its notation, which is made of digits and has no leading zero.
proof fn lemma_number_reads_back(n: nat)
    ensures
        read_number(decimal(n)) == n,
        decimal(n).len() > 0,
        forall|i: int| 0 <= i < decimal(n).len() ==> '0' <= #[trigger] decimal(n)[i] <= '9',
        n > 0 ==> decimal(n)[0] != '0',
        n == 0 ==> decimal(n) == seq!['0'],
    decreases n,
{
    if n < 10 {
        assert(decimal(n).drop_last() =~= Seq::empty());
        reveal_with_fuel(read_number, 2);
    } else {
        let before = decimal(n / 10);
        lemma_number_reads_back(n / 10);
        assert(decimal(n).drop_last() =~= before);
    }
}

/// The notation of a number: digits without a leading zero, which are read as the number.
pub proof fn law_numbers_are_read_back(n: u64, text: String)
    requires
        call_ensures(decimal_text, (n,), text),
    ensures
        read_number(text@) == n,
        text@.len() > 0,
        forall|i: int| 0 <= i < text@.len() ==> '0' <= #[trigger] text@[i] <= '9',
        n > 0 ==> text@[0] != '0',
        n == 0 ==> text@ == seq!['0'],
{
    lemma_number_reads_back(n as nat);
}

/// Two numbers with the same notation are the same.
pub proof fn law_notations_differ(one: nat, other: nat)
    requires
        decimal(one) == decimal(other),
    ensures
        one == other,
{
    lemma_number_reads_back(one);
    lemma_number_reads_back(other);
}

/// A text is taken apart into its characters and put together again, and two texts are the
/// same exactly where their characters are.
pub proof fn law_texts_are_their_characters(
    text: &str,
    chars: Vec<char>,
    slice: &[char],
    joined: String,
    other: &str,
    same: bool,
    more: &[char],
    alike: bool,
)
    requires
        call_ensures(chars_of, (text,), chars),
        call_ensures(text_of, (slice,), joined),
        call_ensures(same_text, (text, other), same),
        call_ensures(same_chars, (slice, more), alike),
    ensures
        chars@ == text@,
        joined@ == slice@,
        same <==> text@ == other@,
        alike <==> slice@ == more@,
{
}

/// A header value is read as text exactly where each byte is printable ASCII or a tab, and
/// each byte is then one character.
pub proof fn law_values_are_read_as_text(value: &[u8], text: Option<Vec<char>>)
    requires
        call_ensures(visible_text, (value,), text),
    ensures
        text is Some <==> forall|i: int|
            0 <= i < value@.len() ==> (32 <= #[trigger] value@[i] <= 126 || value@[i] == 9),
        text matches Some(chars) ==> chars@.len() == value@.len() && forall|i: int|
            0 <= i < value@.len() ==> #[trigger] chars@[i] as int == value@[i],
{
    if forall|i: int|
        0 <= i < value@.len() ==> (32 <= #[trigger] value@[i] <= 126 || value@[i] == 9) {
        assert(is_visible(value@));
    } else {
        let i = choose|i: int|
            0 <= i < value@.len() && !(32 <= #[trigger] value@[i] <= 126 || value@[i] == 9);
        assert(!is_visible_byte(value@[i]));
    }
}

} // verus!

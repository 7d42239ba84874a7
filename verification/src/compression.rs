//! Response compression: the level of each encoder, and when a response is left
//! alone.
use vstd::prelude::*;

verus! {

/// A compression encoder that can be configured.
#[derive(Clone, Copy, Debug, PartialEq, Eq, Structural)]
pub enum Algorithm {
    /// gzip.
    Gzip,
    /// Brotli.
    Brotli,
    /// Zstandard.
    Zstd,
}

/// Highest level that the gzip encoder takes.
pub const GZIP_MAX_LEVEL: u32 = 9;

/// Highest level that the Brotli encoder takes.
pub const BROTLI_MAX_LEVEL: u32 = 11;

/// Highest level that the Zstandard encoder takes.
pub const ZSTD_MAX_LEVEL: u32 = 22;

/// How responses are compressed.
#[derive(Clone, Copy, Debug)]
pub struct CompressionConfig {
    /// Level of every encoder without one of its own.
    pub default_level: u32,
    /// Whether gzip may be used.
    pub gzip_enabled: bool,
    /// Level of the gzip encoder.
    pub gzip_level: Option<u32>,
    /// Whether Brotli may be used.
    pub brotli_enabled: bool,
    /// Level of the Brotli encoder.
    pub brotli_level: Option<u32>,
    /// Whether Zstandard may be used.
    pub zstd_enabled: bool,
    /// Level of the Zstandard encoder.
    pub zstd_level: Option<u32>,
}

/// The level of one encoder: zero where it is disabled, else its own or the
/// shared one, no higher than it takes.
pub open spec fn clamped_level(
    enabled: bool,
    level: Option<u32>,
    default_level: u32,
    maximum: u32,
) -> u32 {
    let wanted = match level {
        Some(own) => own,
        None => default_level,
    };
    if !enabled {
        0
    } else if wanted <= maximum {
        wanted
    } else {
        maximum
    }
}

/// The levels of all encoders, in the order in which they are set.
pub open spec fn levels_of(config: CompressionConfig) -> Seq<(Algorithm, u32)> {
    seq![
        (
            Algorithm::Gzip,
            clamped_level(
                config.gzip_enabled,
                config.gzip_level,
                config.default_level,
                GZIP_MAX_LEVEL,
            ),
        ),
        (
            Algorithm::Brotli,
            clamped_level(
                config.brotli_enabled,
                config.brotli_level,
                config.default_level,
                BROTLI_MAX_LEVEL,
            ),
        ),
        (
            Algorithm::Zstd,
            clamped_level(
                config.zstd_enabled,
                config.zstd_level,
                config.default_level,
                ZSTD_MAX_LEVEL,
            ),
        ),
    ]
}

fn clamp_level(enabled: bool, level: Option<u32>, default_level: u32, maximum: u32) -> (clamped:
    u32)
    ensures
        clamped == clamped_level(enabled, level, default_level, maximum),
{
    if !enabled {
        return 0;
    }
    let wanted: u32 = match level {
        Some(own) => own,
        None => default_level,
    };
    if wanted <= maximum {
        wanted
    } else {
        maximum
    }
}

/// The level that each encoder is set to. Levels are limited here, so that a
/// configuration built in code cannot exceed what an encoder takes.
pub fn effective_levels(config: &CompressionConfig) -> (levels: [(Algorithm, u32); 3])
    ensures
        levels@ == levels_of(*config),
{
    [
        (
            Algorithm::Gzip,
            clamp_level(
                config.gzip_enabled,
                config.gzip_level,
                config.default_level,
                GZIP_MAX_LEVEL,
            ),
        ),
        (
            Algorithm::Brotli,
            clamp_level(
                config.brotli_enabled,
                config.brotli_level,
                config.default_level,
                BROTLI_MAX_LEVEL,
            ),
        ),
        (
            Algorithm::Zstd,
            clamp_level(
                config.zstd_enabled,
                config.zstd_level,
                config.default_level,
                ZSTD_MAX_LEVEL,
            ),
        ),
    ]
}

/// One change of the compression of a response.
#[derive(Clone, Copy, Debug, PartialEq, Eq, Structural)]
pub enum LevelChange {
    /// Set the level of every encoder.
    All(u32),
    /// Set the level of one encoder.
    One(Algorithm, u32),
}

/// The changes that set a request up: every encoder is switched off first, so
/// that none keeps an earlier level.
pub open spec fn level_changes(config: Option<CompressionConfig>) -> Seq<LevelChange> {
    match config {
        Some(config) => seq![
            LevelChange::All(0),
            LevelChange::One(levels_of(config)[0].0, levels_of(config)[0].1),
            LevelChange::One(levels_of(config)[1].0, levels_of(config)[1].1),
            LevelChange::One(levels_of(config)[2].0, levels_of(config)[2].1),
        ],
        None => seq![LevelChange::All(0)],
    }
}

/// The changes to make before the request's accepted encodings are read.
pub fn configure_compression(config: Option<&CompressionConfig>) -> (changes: Vec<LevelChange>)
    ensures
        changes@ == level_changes(
            match config {
                Some(config) => Some(*config),
                None => None,
            },
        ),
{
    let mut changes: Vec<LevelChange> = Vec::new();
    changes.push(LevelChange::All(0));
    if let Some(config) = config {
        let levels = effective_levels(config);
        changes.push(LevelChange::One(levels[0].0, levels[0].1));
        changes.push(LevelChange::One(levels[1].0, levels[1].1));
        changes.push(LevelChange::One(levels[2].0, levels[2].1));
    }
    changes
}

/// Whether compression is switched off for an upstream response: unless the
/// configuration wants the response compressed, once its final header is there.
pub fn adjust_compression(status: u16, should_compress: Option<bool>) -> (disable: bool)
    ensures
        disable == !(100 <= status <= 199 || should_compress == Some(true)),
{
    if 100 <= status && status <= 199 {
        return false;
    }
    match should_compress {
        Some(true) => false,
        _ => true,
    }
}

/// The level of an encoder after a list of changes.
pub open spec fn level_after(changes: Seq<LevelChange>, algorithm: Algorithm, start: u32) -> u32
    decreases changes.len(),
{
    if changes.len() == 0 {
        start
    } else {
        let before = level_after(changes.drop_last(), algorithm, start);
        match changes.last() {
            LevelChange::All(level) => level,
            LevelChange::One(changed, level) => if changed == algorithm {
                level
            } else {
                before
            },
        }
    }
}

/// Whatever level an encoder had before, setting a request up leaves it at the
/// level that the configuration gives it, and off where there is none.
pub proof fn law_configuration_replaces_earlier_levels(
    config: Option<CompressionConfig>,
    algorithm: Algorithm,
    start: u32,
)
    ensures
        level_after(level_changes(config), algorithm, start) == match (config, algorithm) {
            (None, _) => 0,
            (Some(config), Algorithm::Gzip) => levels_of(config)[0].1,
            (Some(config), Algorithm::Brotli) => levels_of(config)[1].1,
            (Some(config), Algorithm::Zstd) => levels_of(config)[2].1,
        },
{
    let changes = level_changes(config);
    reveal_with_fuel(level_after, 5);
    if config is Some {
        assert(changes.drop_last() =~= seq![changes[0], changes[1], changes[2]]);
        assert(changes.drop_last().drop_last() =~= seq![changes[0], changes[1]]);
        assert(changes.drop_last().drop_last().drop_last() =~= seq![changes[0]]);
        assert(changes.drop_last().drop_last().drop_last().drop_last() =~= Seq::empty());
    }
}

/// No configuration sets an encoder above what it takes.
pub proof fn law_levels_stay_in_range(config: CompressionConfig)
    ensures
        levels_of(config)[0].1 <= GZIP_MAX_LEVEL,
        levels_of(config)[1].1 <= BROTLI_MAX_LEVEL,
        levels_of(config)[2].1 <= ZSTD_MAX_LEVEL,
{
}

} // verus!

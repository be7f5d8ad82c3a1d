//! Sweeps a box of candidate origins and reports those whose score passes.
//! The x and z dimensions fan out over worker threads; y is swept in order.
use vstd::prelude::*;
use rayon::iter::{IntoParallelIterator, ParallelIterator};
use crate::geometry::{Offset, Position, pos_sub};
use crate::hash::GeneratorVersion;
use crate::score::{AverageDelta, all_match, average_delta, average_delta_result};

verus! {

/// How candidates are scored for the whole run.
#[derive(Clone, Copy, Debug, PartialEq, Eq, Structural)]
pub enum ScoreMode {
    /// Every sample must be reproduced exactly.
    Exact,
    /// The summed deviation must stay under the threshold.
    Tolerant,
}

/// The run's settings, fixed before the search starts.
#[derive(Clone, Copy, Debug, PartialEq, Eq, Structural)]
pub struct SearchConfig {
    /// x and z range over `-spawn_range..spawn_range`.
    pub spawn_range: i32,
    /// y ranges over `y_min..y_max`.
    pub y_min: i32,
    pub y_max: i32,
    pub version: GeneratorVersion,
    pub mode: ScoreMode,
    /// A candidate is dropped once its summed deviation reaches this.
    pub max_total_delta: u64,
}

/// A reported candidate: where it is, where it lies from the recording
/// origin, and its tolerant score (none in exact mode).
#[derive(Clone, Copy, Debug, PartialEq, Eq, Structural)]
pub struct Hit {
    pub candidate: Position,
    pub relative: Position,
    pub score: Option<AverageDelta>,
}

/// The settings that a version implies: the legacy version sweeps `band`
/// vertically, the later one only `y = 0`; the threshold on the summed
/// deviation is the average threshold times the number of samples.
pub open spec fn config_for(
    spawn_range: i32,
    band: (i32, i32),
    version: GeneratorVersion,
    mode: ScoreMode,
    max_average_delta: u64,
    sample_count: usize,
) -> SearchConfig {
    let (y_min, y_max) = match version {
        GeneratorVersion::Legacy => band,
        GeneratorVersion::Later => (0i32, 1i32),
    };
    SearchConfig {
        spawn_range,
        y_min,
        y_max,
        version,
        mode,
        max_total_delta: (max_average_delta * sample_count) as u64,
    }
}

/// What the search reports for the candidate `p`, if anything.
pub open spec fn hit_at(
    cfg: SearchConfig,
    samples: Seq<(Position, Offset)>,
    origin: Position,
    p: Position,
) -> Option<Hit> {
    match cfg.mode {
        ScoreMode::Exact => if all_match(p, samples, origin, cfg.version) {
            Some(Hit { candidate: p, relative: pos_sub(p, origin), score: None })
        } else {
            None
        },
        ScoreMode::Tolerant => match average_delta_result(
            p,
            samples,
            origin,
            cfg.version,
            samples.len() as usize,
            cfg.max_total_delta,
        ) {
            Some(d) => Some(Hit { candidate: p, relative: pos_sub(p, origin), score: Some(d) }),
            None => None,
        },
    }
}

/// A hit as a sequence of at most one item.
pub open spec fn as_seq(h: Option<Hit>) -> Seq<Hit> {
    match h {
        Some(v) => seq![v],
        None => Seq::empty(),
    }
}

/// The hits at `(x, y, z)` for `y` in `cfg.y_min..y_end`, in order of `y`.
pub open spec fn column_hits(
    cfg: SearchConfig,
    samples: Seq<(Position, Offset)>,
    origin: Position,
    x: i32,
    z: i32,
    y_end: int,
) -> Seq<Hit>
    decreases y_end - cfg.y_min,
{
    if y_end <= cfg.y_min {
        Seq::empty()
    } else {
        column_hits(cfg, samples, origin, x, z, y_end - 1) + as_seq(
            hit_at(cfg, samples, origin, Position { x, y: (y_end - 1) as i32, z }),
        )
    }
}

/// The hits with first coordinate `x` and `z` in `-spawn_range..z_end`, by `z` then `y`.
pub open spec fn plane_hits(
    cfg: SearchConfig,
    samples: Seq<(Position, Offset)>,
    origin: Position,
    x: i32,
    z_end: int,
) -> Seq<Hit>
    decreases z_end + cfg.spawn_range,
{
    if z_end <= -cfg.spawn_range {
        Seq::empty()
    } else {
        plane_hits(cfg, samples, origin, x, z_end - 1) + column_hits(
            cfg,
            samples,
            origin,
            x,
            (z_end - 1) as i32,
            cfg.y_max as int,
        )
    }
}

/// The hits with `x` in `-spawn_range..x_end`, by `x`, then `z`, then `y`.
pub open spec fn region_hits(
    cfg: SearchConfig,
    samples: Seq<(Position, Offset)>,
    origin: Position,
    x_end: int,
) -> Seq<Hit>
    decreases x_end + cfg.spawn_range,
{
    if x_end <= -cfg.spawn_range {
        Seq::empty()
    } else {
        region_hits(cfg, samples, origin, x_end - 1) + plane_hits(
            cfg,
            samples,
            origin,
            (x_end - 1) as i32,
            cfg.spawn_range as int,
        )
    }
}

/// The hits of the whole column at `(x, z)`.
pub open spec fn full_column(
    cfg: SearchConfig,
    samples: Seq<(Position, Offset)>,
    origin: Position,
    x: i32,
    z: i32,
) -> Seq<Hit> {
    column_hits(cfg, samples, origin, x, z, cfg.y_max as int)
}

/// The hits of the whole plane at `x`.
pub open spec fn full_plane(
    cfg: SearchConfig,
    samples: Seq<(Position, Offset)>,
    origin: Position,
    x: i32,
) -> Seq<Hit> {
    plane_hits(cfg, samples, origin, x, cfg.spawn_range as int)
}

/// Every hit of the whole candidate box, by `x`, then `z`, then `y`, relative
/// to the first sample's position.
pub open spec fn search_hits(cfg: SearchConfig, samples: Seq<(Position, Offset)>) -> Seq<Hit> {
    region_hits(cfg, samples, samples[0].0, cfg.spawn_range as int)
}

/// Relies on rayon's `into_par_iter` over a range of `i32`, `map` and
/// `collect` into a `Vec`: `f` runs once for each value of `lo..hi`, on any
/// worker thread; a range of `i32` is an indexed parallel iterator, so the
/// results stand in the order of the range.
#[verifier::external_body]
fn par_map_range<T: Send, F: Fn(i32) -> T + Sync + Send>(lo: i32, hi: i32, f: F) -> (r: Vec<T>)
    requires
        lo <= hi,
        forall|v: i32| lo <= v < hi ==> f.requires((v,)),
    ensures
        r@.len() == hi - lo,
        forall|i: int| 0 <= i < r@.len() ==> f.ensures(((lo + i) as i32,), #[trigger] r@[i]),
{
    (lo..hi).into_par_iter().map(f).collect()
}

/// Appends the items of `items` to `out`, in order.
fn append_hits(out: &mut Vec<Hit>, items: &Vec<Hit>)
    ensures
        final(out)@ == old(out)@ + items@,
{
    let mut j: usize = 0;
    while j < items.len()
        invariant
            0 <= j <= items@.len(),
            out@ == old(out)@ + items@.take(j as int),
        decreases items@.len() - j,
    {
        out.push(items[j]);
        j = j + 1;
        assert(out@ =~= old(out)@ + items@.take(j as int));
    }
    assert(items@.take(j as int) =~= items@);
}

impl SearchConfig {
    /// The settings for a run; see `config_for`.
    pub fn new(
        spawn_range: i32,
        band: (i32, i32),
        version: GeneratorVersion,
        mode: ScoreMode,
        max_average_delta: u64,
        sample_count: usize,
    ) -> (r: SearchConfig)
        requires
            max_average_delta * sample_count <= u64::MAX,
        ensures
            r == config_for(spawn_range, band, version, mode, max_average_delta, sample_count),
    {
        let (y_min, y_max) = match version {
            GeneratorVersion::Legacy => band,
            GeneratorVersion::Later => (0i32, 1i32),
        };
        SearchConfig {
            spawn_range,
            y_min,
            y_max,
            version,
            mode,
            max_total_delta: max_average_delta * (sample_count as u64),
        }
    }
}

/// Scores one candidate and says what to report for it.
pub fn evaluate(
    cfg: &SearchConfig,
    samples: &[(Position, Offset)],
    origin: Position,
    p: Position,
) -> (r: Option<Hit>)
    ensures
        r == hit_at(*cfg, samples@, origin, p),
{
    match cfg.mode {
        ScoreMode::Exact => if crate::score::matches(p, samples, origin, cfg.version) {
            Some(Hit { candidate: p, relative: p.sub(origin), score: None })
        } else {
            None
        },
        ScoreMode::Tolerant => match average_delta(
            p,
            samples,
            origin,
            cfg.version,
            samples.len(),
            cfg.max_total_delta,
        ) {
            Some(d) => Some(Hit { candidate: p, relative: p.sub(origin), score: Some(d) }),
            None => None,
        },
    }
}

/// The hits of the column at `(x, z)`, sweeping y upwards.
pub fn scan_column(
    cfg: &SearchConfig,
    samples: &[(Position, Offset)],
    origin: Position,
    x: i32,
    z: i32,
) -> (r: Vec<Hit>)
    ensures
        r@ == full_column(*cfg, samples@, origin, x, z),
{
    let mut out: Vec<Hit> = Vec::new();
    if cfg.y_min >= cfg.y_max {
        return out;
    }
    let mut y: i32 = cfg.y_min;
    while y < cfg.y_max
        invariant
            cfg.y_min <= y <= cfg.y_max,
            out@ == column_hits(*cfg, samples@, origin, x, z, y as int),
        decreases cfg.y_max - y,
    {
        match evaluate(cfg, samples, origin, Position { x, y, z }) {
            Some(h) => out.push(h),
            None => {},
        }
        y = y + 1;
        assert(out@ =~= column_hits(*cfg, samples@, origin, x, z, y as int));
    }
    out
}

/// The hits of the plane at `x`, the z columns scanned in parallel.
pub fn scan_plane(cfg: &SearchConfig, samples: &[(Position, Offset)], origin: Position, x: i32) -> (r:
    Vec<Hit>)
    requires
        cfg.spawn_range >= 0,
    ensures
        r@ == full_plane(*cfg, samples@, origin, x),
{
    let lo: i32 = -cfg.spawn_range;
    let column = |z: i32| -> (col: Vec<Hit>)
        ensures
            col@ == full_column(*cfg, samples@, origin, x, z),
        { scan_column(cfg, samples, origin, x, z) };
    let columns = par_map_range(lo, cfg.spawn_range, column);
    let mut out: Vec<Hit> = Vec::new();
    let mut i: usize = 0;
    while i < columns.len()
        invariant
            lo == -cfg.spawn_range,
            cfg.spawn_range >= 0,
            columns@.len() == cfg.spawn_range - lo,
            forall|k: int|
                0 <= k < columns@.len() ==> (#[trigger] columns@[k])@ == column_hits(
                    *cfg,
                    samples@,
                    origin,
                    x,
                    (lo + k) as i32,
                    cfg.y_max as int,
                ),
            0 <= i <= columns@.len(),
            out@ == plane_hits(*cfg, samples@, origin, x, lo + i),
        decreases columns@.len() - i,
    {
        append_hits(&mut out, &columns[i]);
        i = i + 1;
    }
    out
}

/// Every hit of the candidate box, relative to the first sample's position,
/// with the x planes scanned in parallel. The result is in the order of
/// `search_hits`, however the work was spread.
pub fn search(cfg: &SearchConfig, samples: &[(Position, Offset)]) -> (r: Vec<Hit>)
    requires
        samples@.len() > 0,
        cfg.spawn_range >= 0,
    ensures
        r@ == search_hits(*cfg, samples@),
{
    let origin = samples[0].0;
    let lo: i32 = -cfg.spawn_range;
    let plane = |x: i32| -> (pl: Vec<Hit>)
        ensures
            pl@ == full_plane(*cfg, samples@, origin, x),
        { scan_plane(cfg, samples, origin, x) };
    let planes = par_map_range(lo, cfg.spawn_range, plane);
    let mut out: Vec<Hit> = Vec::new();
    let mut i: usize = 0;
    while i < planes.len()
        invariant
            lo == -cfg.spawn_range,
            cfg.spawn_range >= 0,
            origin == samples@[0].0,
            planes@.len() == cfg.spawn_range - lo,
            forall|k: int|
                0 <= k < planes@.len() ==> (#[trigger] planes@[k])@ == plane_hits(
                    *cfg,
                    samples@,
                    origin,
                    (lo + k) as i32,
                    cfg.spawn_range as int,
                ),
            0 <= i <= planes@.len(),
            out@ == region_hits(*cfg, samples@, origin, lo + i),
        decreases planes@.len() - i,
    {
        append_hits(&mut out, &planes[i]);
        i = i + 1;
    }
    out
}

} // verus!

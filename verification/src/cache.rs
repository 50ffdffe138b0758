//! The graph cache: the deterministic cache path and query string for an
//! area, the fetch-or-load rule (a present file is never re-fetched), and
//! the random pick over cache entries used by the preview path.

use crate::geo::Area;
use crate::graph::RoadGraphView;
use crate::numfmt::spec_decimal;
use crate::numfmt::u64_to_string;
use crate::PipelineError;
use rand::Rng;
use vstd::prelude::*;
use vstd::string::*;

verus! {

/// The query string for one area filter id: a bounded query (fixed
/// 900-second server-side timeout) selecting the closed set of drivable
/// and walkable highway classes inside the area, plus all nodes those
/// ways reference.
pub open spec fn spec_query(area_id: Seq<char>) -> Seq<char> {
    "[timeout:900][out:json];area("@ + area_id
        + ");(._; )->.area;(way[highway~'^(((motorway|trunk|primary|secondary|tertiary)(_link)?)|unclassified|residential|living_street|service|track)$'](area.area);node(w););out skel;"@
}

/// Builds the graph query around the given area filter id.
pub fn get_query(area_id: &str) -> (q: String)
    ensures
        q@ == spec_query(area_id@),
{
    let mut q = String::from_str("[timeout:900][out:json];area(");
    q.append(area_id);
    q.append(
        ");(._; )->.area;(way[highway~'^(((motorway|trunk|primary|secondary|tertiary)(_link)?)|unclassified|residential|living_street|service|track)$'](area.area);node(w););out skel;",
    );
    q
}

/// The cache path for an area: one file per `(name, area_id)`, derived
/// deterministically, so re-runs find the file a first run persisted.
pub open spec fn spec_cache_path(name: Seq<char>, area_id: int) -> Seq<char>
    recommends
        area_id >= 0,
{
    "tmp/overpass/"@ + name + "_"@ + spec_decimal(area_id as nat) + ".json"@
}

/// Derives the cache path for `(name, area_id)`.
pub fn cache_path(name: &str, area_id: i64) -> (p: String)
    requires
        area_id >= 0,
    ensures
        p@ == spec_cache_path(name@, area_id as int),
{
    let mut p = String::from_str("tmp/overpass/");
    p.append(name);
    p.append("_");
    let digits = u64_to_string(area_id as u64);
    p.append(digits.as_str());
    p.append(".json");
    p
}

/// The graph query for an area, with the filter id written in decimal.
pub fn query_for_area(area: &Area) -> (q: String)
    requires
        area.area_id >= 0,
    ensures
        q@ == spec_query(spec_decimal(area@.area_id as nat)),
{
    let digits = u64_to_string(area.area_id as u64);
    get_query(digits.as_str())
}

/// The cache path for an area, derived from its name and filter id.
pub fn cache_path_for_area(area: &Area) -> (p: String)
    requires
        area.area_id >= 0,
    ensures
        p@ == spec_cache_path(area@.name, area@.area_id as int),
{
    cache_path(area.name.as_str(), area.area_id)
}

/// Relies on std's `Path::exists`: whether something is present on disk
/// at `path` when the call runs.  The result depends on the machine's
/// disk state, so nothing is promised of it.
#[verifier::external_body]
pub fn check_for_file(path: &str) -> bool {
    std::path::Path::new(path).exists()
}

/// What fetch-or-load does next for one area, decided by whether its
/// cache file exists.
#[derive(Clone, Copy, PartialEq, Eq, Structural, Debug)]
pub enum CacheAction {
    /// Cache hit: deserialize the file; the network is not touched and
    /// the file is trusted as-is, never revalidated.
    LoadCached,
    /// Cache miss: query the collaborator, then persist the graph under
    /// the same path before returning it.
    FetchAndStore,
}

/// The central cache rule: a present file is loaded and the network is
/// never touched; only a miss fetches.
pub fn fetch_or_load_plan(cache_hit: bool) -> (a: CacheAction)
    ensures
        a == if cache_hit {
            CacheAction::LoadCached
        } else {
            CacheAction::FetchAndStore
        },
{
    if cache_hit {
        CacheAction::LoadCached
    } else {
        CacheAction::FetchAndStore
    }
}

/// One fetch-or-load run over a disk model: a hit returns the stored
/// graph and leaves the disk alone; a miss stores the fetched graph
/// under the path, then returns it.  The boolean records whether the
/// network was used.
pub open spec fn spec_fetch_or_load(
    disk: Map<Seq<char>, RoadGraphView>,
    path: Seq<char>,
    fetched: RoadGraphView,
) -> (Map<Seq<char>, RoadGraphView>, RoadGraphView, bool) {
    if disk.contains_key(path) {
        (disk, disk[path], false)
    } else {
        (disk.insert(path, fetched), fetched, true)
    }
}

/// Idempotence of fetch-or-load: running it twice for one area performs
/// at most one network fetch — whatever either fetch would have returned
/// — and both runs return the same graph, because the first run persists
/// under the area's path before returning and the second run sees a hit.
pub proof fn lemma_fetch_or_load_idempotent(
    disk: Map<Seq<char>, RoadGraphView>,
    path: Seq<char>,
    fetched1: RoadGraphView,
    fetched2: RoadGraphView,
)
    ensures
        ({
            let (d1, g1, n1) = spec_fetch_or_load(disk, path, fetched1);
            let (d2, g2, n2) = spec_fetch_or_load(d1, path, fetched2);
            &&& !(n1 && n2)
            &&& g2 == g1
            &&& d2 == d1
            &&& !n2
        }),
{
}

/// Relies on rand's `thread_rng` and `Rng::gen_range`: a random index
/// below `n`.  Randomness promises nothing beyond the range.
#[verifier::external_body]
fn random_below(n: usize) -> (r: usize)
    requires
        n >= 1,
    ensures
        r < n,
{
    rand::thread_rng().gen_range(0..n)
}

/// Picks one entry of a cache entry list at random.  An empty list is
/// an error, never a crash, and any returned entry is one of the list.
pub fn random_cache_entry(entries: &Vec<String>) -> (r: Result<&String, PipelineError>)
    ensures
        match r {
            Ok(s) => exists|i: int| 0 <= i < entries@.len() && s@ == #[trigger] entries@[i]@,
            Err(e) => {
                &&& e == PipelineError::NoCacheEntries
                &&& entries@.len() == 0
            },
        },
{
    if entries.len() == 0 {
        return Err(PipelineError::NoCacheEntries);
    }
    let at = random_below(entries.len());
    let picked = &entries[at];
    proof {
        assert(picked@ == entries@[at as int]@);
    }
    Ok(picked)
}

} // verus!

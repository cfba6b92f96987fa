//! Session cache of metadata probes, keyed by file path.
//!
//! An entry is served only while it is younger than the maximum age and the
//! modification time that was recorded with it agrees with the current one.
//! An entry that is found stale is dropped.

use crate::json::{json_document, parse_json, JsonValue, JsonView};
use crate::probe::{exit_failure, run_failure, start_failure, ToolRun};
use dashmap::DashMap;
use std::time::Instant;
use vstd::prelude::*;

verus! {

/// Entries of this age in milliseconds, or older, are stale.
pub const CACHE_MAX_AGE_MS: u128 = 300_000;

/// The result of one metadata probe.
#[derive(Debug)]
pub struct CachedProbeResult {
    /// Output of the probe, a JSON document.
    pub json_data: String,
    /// The parsed output.
    pub parsed: JsonValue,
    /// Modification time of the file when it was probed, in seconds since
    /// the epoch, if it could be read.
    pub file_mtime: Option<u64>,
    /// When the entry was made.
    pub cached_at: Instant,
}

/// Mathematical value of a [`CachedProbeResult`], without its clock reading.
pub struct CachedProbeView {
    pub json_data: Seq<char>,
    pub parsed: JsonView,
    pub file_mtime: Option<u64>,
}

impl View for CachedProbeResult {
    type V = CachedProbeView;

    open spec fn view(&self) -> CachedProbeView {
        CachedProbeView {
            json_data: self.json_data@,
            parsed: self.parsed@,
            file_mtime: self.file_mtime,
        }
    }
}

impl Clone for CachedProbeResult {
    fn clone(&self) -> (copy: Self)
        ensures
            copy@ == self@,
            copy.cached_at == self.cached_at,
    {
        CachedProbeResult {
            json_data: self.json_data.clone(),
            parsed: self.parsed.clone(),
            file_mtime: self.file_mtime,
            cached_at: self.cached_at,
        }
    }
}

/// Whether a recorded modification time agrees with the current one. Times
/// that could not be read agree with every time.
pub open spec fn mtime_agrees(recorded: Option<u64>, current: Option<u64>) -> bool {
    match (recorded, current) {
        (Some(then), Some(now)) => then == now,
        _ => true,
    }
}

/// Whether an entry of the given age may be served for a file with the
/// given current modification time.
pub open spec fn entry_is_valid(entry: CachedProbeView, current_mtime: Option<u64>, age_ms: nat) -> bool {
    age_ms < CACHE_MAX_AGE_MS && mtime_agrees(entry.file_mtime, current_mtime)
}

/// Whether `entry`, made `age_ms` milliseconds ago, may be served for a file
/// whose modification time is now `current_mtime`.
pub fn is_cache_valid(entry: &CachedProbeResult, current_mtime: Option<u64>, age_ms: u128) -> (valid:
    bool)
    ensures
        valid == entry_is_valid(entry@, current_mtime, age_ms as nat),
{
    if age_ms >= CACHE_MAX_AGE_MS {
        return false;
    }
    match (entry.file_mtime, current_mtime) {
        (Some(then), Some(now)) => then == now,
        _ => true,
    }
}

/// `Instant::elapsed` and `Duration::as_millis`: the time since `instant` in
/// milliseconds. Nothing is claimed about the reading.
#[verifier::external_body]
fn elapsed_millis(instant: &Instant) -> (age_ms: u128) {
    instant.elapsed().as_millis()
}

/// The entries that a cache map holds, by path.
pub uninterp spec fn cached_entries(map: DashMap<String, CachedProbeResult>) -> Map<
    Seq<char>,
    CachedProbeView,
>;

/// `DashMap::new`: the new map holds nothing.
#[verifier::external_body]
fn entries_new() -> (created: DashMap<String, CachedProbeResult>)
    ensures
        cached_entries(created) =~= Map::empty(),
{
    DashMap::new()
}

/// `DashMap::view`: a copy of the entry filed under `path`, if there is one.
#[verifier::external_body]
fn entries_lookup(map: &DashMap<String, CachedProbeResult>, path: &str) -> (found: Option<
    CachedProbeResult,
>)
    ensures
        found is Some == cached_entries(*map).contains_key(path@),
        found is Some ==> found->0@ == cached_entries(*map)[path@],
{
    map.view(path, |_, entry| entry.clone())
}

/// `DashMap::insert`: files `entry` under `key`, replacing what was there.
#[verifier::external_body]
fn entries_insert(map: &mut DashMap<String, CachedProbeResult>, key: String, entry: CachedProbeResult)
    ensures
        cached_entries(*final(map)) == cached_entries(*old(map)).insert(key@, entry@),
{
    map.insert(key, entry);
}

/// `DashMap::remove`: takes out the entry under `path`; says whether there was one.
#[verifier::external_body]
fn entries_remove(map: &mut DashMap<String, CachedProbeResult>, path: &str) -> (found: bool)
    ensures
        found == cached_entries(*old(map)).contains_key(path@),
        cached_entries(*final(map)) == cached_entries(*old(map)).remove(path@),
{
    map.remove(path).is_some()
}

/// `DashMap::clear`: afterwards the map holds nothing.
#[verifier::external_body]
fn entries_clear(map: &mut DashMap<String, CachedProbeResult>)
    ensures
        cached_entries(*final(map)) =~= Map::empty(),
{
    map.clear();
}

/// `DashMap::iter`: copies of all entries, each key once, in no particular order.
#[verifier::external_body]
fn entries_snapshot(map: &DashMap<String, CachedProbeResult>) -> (entries: Vec<
    (String, CachedProbeResult),
>)
    ensures
        forall|i: int|
            0 <= i < entries@.len() ==> cached_entries(*map).contains_key(
                (#[trigger] entries@[i]).0@,
            ) && cached_entries(*map)[entries@[i].0@] == entries@[i].1@,
        forall|i: int, j: int|
            0 <= i < j < entries@.len() ==> (#[trigger] entries@[i]).0@ != (
            #[trigger] entries@[j]).0@,
        forall|key: Seq<char>| #[trigger]
            cached_entries(*map).contains_key(key) ==> exists|i: int|
                0 <= i < entries@.len() && (#[trigger] entries@[i]).0@ == key,
{
    map.iter().map(|entry| (entry.key().clone(), entry.value().clone())).collect()
}

/// Session cache of metadata probes.
pub struct ProbeCache {
    entries: DashMap<String, CachedProbeResult>,
}

impl View for ProbeCache {
    type V = Map<Seq<char>, CachedProbeView>;

    closed spec fn view(&self) -> Map<Seq<char>, CachedProbeView> {
        cached_entries(self.entries)
    }
}

/// What a lookup found.
#[derive(Debug)]
pub struct ProbeData {
    /// Output of the probe.
    pub json_data: String,
    /// The parsed output.
    pub parsed: JsonValue,
    /// Whether the data was served from the cache.
    pub was_cached: bool,
}

/// The current modification time that the caller supplies for `path`: the
/// time paired with the first occurrence of the path, `None` if the path
/// does not occur.
pub open spec fn supplied_mtime(current: Seq<(String, Option<u64>)>, path: Seq<char>) -> Option<u64>
    decreases current.len(),
{
    if current.len() == 0 {
        None
    } else if current[0].0@ == path {
        current[0].1
    } else {
        supplied_mtime(current.drop_first(), path)
    }
}

impl ProbeCache {
    /// Creates an empty cache.
    pub fn new() -> (cache: Self)
        ensures
            cache@ == Map::<Seq<char>, CachedProbeView>::empty(),
    {
        ProbeCache { entries: entries_new() }
    }

    /// Looks up the probe of `path` for a file whose modification time is
    /// now `current_mtime`.
    ///
    /// An entry is served only if its recorded modification time agrees with
    /// `current_mtime` and it is younger than the maximum age; the age is
    /// read from the clock and handed to [`ProbeCache::lookup_at_age`]. An
    /// entry that is not served is dropped from the cache; nothing else
    /// changes.
    pub fn lookup(&mut self, path: &str, current_mtime: Option<u64>) -> (found: Option<ProbeData>)
        ensures
            found is Some ==> old(self)@.contains_key(path@) && mtime_agrees(
                old(self)@[path@].file_mtime,
                current_mtime,
            ) && found->0.json_data@ == old(self)@[path@].json_data && found->0.parsed@ == old(self)@[path@].parsed && found->0.was_cached && final(self)@ == old(self)@,
            found is None ==> final(self)@ == old(self)@.remove(path@),
            old(self)@.contains_key(path@) && !mtime_agrees(
                old(self)@[path@].file_mtime,
                current_mtime,
            ) ==> found is None,
    {
        match entries_lookup(&self.entries, path) {
            Some(entry) => {
                let age_ms = elapsed_millis(&entry.cached_at);
                self.lookup_at_age(path, current_mtime, age_ms)
            },
            None => None,
        }
    }

    /// Looks up the probe of `path` for a file whose modification time is
    /// now `current_mtime`, given the age of the entry in milliseconds.
    ///
    /// The entry is served exactly if it is valid at that age. An entry that
    /// is not served is dropped from the cache; nothing else changes.
    pub fn lookup_at_age(&mut self, path: &str, current_mtime: Option<u64>, age_ms: u128) -> (found:
        Option<ProbeData>)
        ensures
            found is Some == (old(self)@.contains_key(path@) && entry_is_valid(
                old(self)@[path@],
                current_mtime,
                age_ms as nat,
            )),
            found is Some ==> found->0.json_data@ == old(self)@[path@].json_data && found->0.parsed@
                == old(self)@[path@].parsed && found->0.was_cached && final(self)@ == old(self)@,
            found is None ==> final(self)@ == old(self)@.remove(path@),
    {
        match entries_lookup(&self.entries, path) {
            Some(entry) => {
                if is_cache_valid(&entry, current_mtime, age_ms) {
                    Some(
                        ProbeData {
                            json_data: entry.json_data,
                            parsed: entry.parsed,
                            was_cached: true,
                        },
                    )
                } else {
                    entries_remove(&mut self.entries, path);
                    None
                }
            },
            None => {
                assert(self@.remove(path@) =~= self@);
                None
            },
        }
    }

    /// Whether a message reports output that is not a JSON document: it
    /// names the failure and goes on with the parser's words.
    pub open spec fn reports_malformed_output(message: Seq<char>) -> bool {
        exists|reason: Seq<char>| message == "Failed to parse JSON: "@ + reason
    }

    /// Files the output of a fresh probe of `path` and hands it back parsed.
    ///
    /// Output that is not a JSON document is answered with the parser's
    /// message and leaves the cache as it was.
    pub fn store(&mut self, path: &str, json_data: String, current_mtime: Option<u64>) -> (stored:
        Result<ProbeData, String>)
        ensures
            stored is Ok == json_document(json_data@) is Some,
            stored is Err ==> final(self)@ == old(self)@ && Self::reports_malformed_output(
                stored->Err_0@,
            ),
            stored is Ok ==> final(self)@ == old(self)@.insert(
                path@,
                CachedProbeView {
                    json_data: json_data@,
                    parsed: json_document(json_data@)->0,
                    file_mtime: current_mtime,
                },
            ) && stored->Ok_0.json_data@ == json_data@ && stored->Ok_0.parsed@ == json_document(
                json_data@,
            )->0 && !stored->Ok_0.was_cached,
    {
        let parsed = match parse_json(json_data.as_str()) {
            Ok(value) => value,
            Err(message) => {
                let mut text = String::from_str("Failed to parse JSON: ");
                text.append(message.as_str());
                assert(text@ == "Failed to parse JSON: "@ + message@);
                return Err(text);
            },
        };
        let entry = CachedProbeResult {
            json_data: json_data.clone(),
            parsed: parsed.clone(),
            file_mtime: current_mtime,
            cached_at: Instant::now(),
        };
        entries_insert(&mut self.entries, String::from_str(path), entry);
        Ok(ProbeData { json_data, parsed, was_cached: false })
    }

    /// Number of entries.
    pub fn len(&self) -> (count: usize)
        ensures
            count == self@.dom().len(),
            self@.dom().finite(),
    {
        let entries = entries_snapshot(&self.entries);
        proof {
            lemma_snapshot_covers(entries@, entries@.len() as int, self@);
        }
        entries.len()
    }
}

/// A map that holds exactly the first `n` snapshot entries has `n` keys.
proof fn lemma_snapshot_covers(
    entries: Seq<(String, CachedProbeResult)>,
    n: int,
    cached: Map<Seq<char>, CachedProbeView>,
)
    requires
        0 <= n <= entries.len(),
        forall|i: int| 0 <= i < n ==> cached.contains_key((#[trigger] entries[i]).0@),
        forall|i: int, j: int|
            0 <= i < j < n ==> (#[trigger] entries[i]).0@ != (#[trigger] entries[j]).0@,
        forall|key: Seq<char>| #[trigger]
            cached.contains_key(key) ==> exists|i: int|
                0 <= i < n && (#[trigger] entries[i]).0@ == key,
    ensures
        cached.dom().finite(),
        cached.dom().len() == n,
    decreases n,
{
    if n == 0 {
        assert(cached.dom() =~= Set::<Seq<char>>::empty());
    } else {
        let last = entries[n - 1].0@;
        let rest = cached.remove(last);
        assert forall|key: Seq<char>| #[trigger] rest.contains_key(key) implies exists|i: int|
            0 <= i < n - 1 && (#[trigger] entries[i]).0@ == key by {
            assert(cached.contains_key(key));
            let i = choose|i: int| 0 <= i < n && (#[trigger] entries[i]).0@ == key;
            assert(i != n - 1);
        }
        assert forall|i: int| 0 <= i < n - 1 implies rest.contains_key(
            (#[trigger] entries[i]).0@,
        ) by {
            assert(entries[i].0@ != entries[n - 1].0@);
        }
        lemma_snapshot_covers(entries, n - 1, rest);
        assert(cached.dom() =~= rest.dom().insert(last));
    }
}

/// The cached output of the probe of `path`, if an entry may be served for
/// a file whose modification time is now `current_mtime`. An entry that is
/// not served is dropped from the cache.
pub fn get_probe_string(cache: &mut ProbeCache, path: &str, current_mtime: Option<u64>) -> (output:
    Option<String>)
    ensures
        output is Some ==> old(cache)@.contains_key(path@) && mtime_agrees(
            old(cache)@[path@].file_mtime,
            current_mtime,
        ) && output->0@ == old(cache)@[path@].json_data && final(cache)@ == old(cache)@,
        output is None ==> final(cache)@ == old(cache)@.remove(path@),
        old(cache)@.contains_key(path@) && !mtime_agrees(
            old(cache)@[path@].file_mtime,
            current_mtime,
        ) ==> output is None,
{
    match cache.lookup(path, current_mtime) {
        Some(data) => Some(data.json_data),
        None => None,
    }
}

/// What the cache holds and answers after a fresh probe of `path`: a run
/// without an answer changes nothing and gives its message; the answer of
/// any other run is filed as by [`ProbeCache::store`].
pub fn refresh_probe(cache: &mut ProbeCache, path: &str, run: ToolRun, current_mtime: Option<u64>) -> (
    refreshed: Result<ProbeData, String>)
    ensures
        run_failure(run) is Some ==> refreshed is Err && refreshed->Err_0@ == run_failure(run)->0
            && final(cache)@ == old(cache)@,
        run_failure(run) is None ==> refreshed is Ok == json_document(run->output@) is Some,
        run_failure(run) is None && refreshed is Err ==> final(cache)@ == old(cache)@
            && ProbeCache::reports_malformed_output(refreshed->Err_0@),
        run_failure(run) is None && refreshed is Ok ==> final(cache)@ == old(cache)@.insert(
            path@,
            CachedProbeView {
                json_data: run->output@,
                parsed: json_document(run->output@)->0,
                file_mtime: current_mtime,
            },
        ) && refreshed->Ok_0.json_data@ == run->output@ && refreshed->Ok_0.parsed@ == json_document(
            run->output@,
        )->0 && !refreshed->Ok_0.was_cached,
{
    match run {
        ToolRun::NotStarted { reason } => Err(start_failure(reason.as_str())),
        ToolRun::Finished { success, output, diagnostics } => {
            if success {
                cache.store(path, output, current_mtime)
            } else {
                Err(exit_failure(diagnostics.as_str()))
            }
        },
    }
}

/// Removes the entry of `path`. To be called after the file was rewritten.
pub fn invalidate_cache(cache: &mut ProbeCache, path: &str)
    ensures
        final(cache)@ == old(cache)@.remove(path@),
{
    entries_remove(&mut cache.entries, path);
}

/// Removes every entry.
pub fn clear_cache(cache: &mut ProbeCache)
    ensures
        final(cache)@ == Map::<Seq<char>, CachedProbeView>::empty(),
{
    entries_clear(&mut cache.entries);
}

/// Number of entries among the first `n` of `entries` that may be served,
/// where `ages` gives the age of each entry in milliseconds and `current`
/// the modification time that each file has now.
pub open spec fn valid_count(
    entries: Seq<(String, CachedProbeResult)>,
    current: Seq<(String, Option<u64>)>,
    ages: Seq<u128>,
    n: int,
) -> nat
    decreases n,
{
    if n <= 0 {
        0
    } else {
        valid_count(entries, current, ages, n - 1) + if entry_is_valid(
            entries[n - 1].1@,
            supplied_mtime(current, entries[n - 1].0@),
            ages[n - 1] as nat,
        ) {
            1nat
        } else {
            0nat
        }
    }
}

/// Counts the entries that may be served, given the age of each.
pub fn count_valid_entries(
    entries: &Vec<(String, CachedProbeResult)>,
    current: &Vec<(String, Option<u64>)>,
    ages: &Vec<u128>,
) -> (valid: usize)
    requires
        ages@.len() == entries@.len(),
    ensures
        valid == valid_count(entries@, current@, ages@, entries@.len() as int),
        valid <= entries@.len(),
        (forall|k: int|
            0 <= k < entries@.len() ==> !mtime_agrees(
                (#[trigger] entries@[k]).1@.file_mtime,
                supplied_mtime(current@, entries@[k].0@),
            )) ==> valid == 0,
{
    let mut valid: usize = 0;
    let mut i: usize = 0;
    while i < entries.len()
        invariant
            i <= entries.len(),
            ages@.len() == entries@.len(),
            valid <= i,
            valid == valid_count(entries@, current@, ages@, i as int),
            (forall|k: int|
                0 <= k < entries@.len() ==> !mtime_agrees(
                    (#[trigger] entries@[k]).1@.file_mtime,
                    supplied_mtime(current@, entries@[k].0@),
                )) ==> valid == 0,
        decreases entries.len() - i,
    {
        let mtime = find_supplied_mtime(current, &entries[i].0);
        if is_cache_valid(&entries[i].1, mtime, ages[i]) {
            valid += 1;
        }
        i += 1;
    }
    valid
}

/// Counts the entries of the cache and those among them that may be served.
///
/// `current` pairs paths with the modification time that their files have
/// now. The ages of the entries are read from the clock and handed to
/// [`count_valid_entries`], so the second count is stated here only up to
/// its bounds: it counts no entry whose recorded modification time disagrees
/// with the supplied one.
pub fn get_cache_stats(cache: &ProbeCache, current: &Vec<(String, Option<u64>)>) -> (counts: (
    usize,
    usize,
))
    ensures
        counts.0 == cache@.dom().len(),
        counts.1 <= counts.0,
        (forall|key: Seq<char>| #[trigger]
            cache@.contains_key(key) ==> !mtime_agrees(
                cache@[key].file_mtime,
                supplied_mtime(current@, key),
            )) ==> counts.1 == 0,
{
    let entries = entries_snapshot(&cache.entries);
    proof {
        lemma_snapshot_covers(entries@, entries@.len() as int, cache@);
    }
    let mut ages: Vec<u128> = Vec::new();
    let mut i: usize = 0;
    while i < entries.len()
        invariant
            i <= entries.len(),
            ages@.len() == i,
        decreases entries.len() - i,
    {
        ages.push(elapsed_millis(&entries[i].1.cached_at));
        i += 1;
    }
    (entries.len(), count_valid_entries(&entries, current, &ages))
}

/// The current modification time that the caller supplies for `path`.
pub fn find_supplied_mtime(current: &Vec<(String, Option<u64>)>, path: &String) -> (mtime: Option<
    u64,
>)
    ensures
        mtime == supplied_mtime(current@, path@),
{
    let mut i: usize = 0;
    assert(current@.skip(0) =~= current@);
    while i < current.len()
        invariant
            i <= current.len(),
            supplied_mtime(current@, path@) == supplied_mtime(current@.skip(i as int), path@),
        decreases current.len() - i,
    {
        assert(current@.skip(i as int)[0] == current@[i as int]);
        if current[i].0 == *path {
            return current[i].1;
        }
        assert(current@.skip(i as int).drop_first() =~= current@.skip(i + 1));
        i += 1;
    }
    None
}

/// Cache coherence: an entry whose recorded modification time differs from
/// the current one is never valid, whatever its age.
pub proof fn lemma_stale_entries_are_invalid(
    entry: CachedProbeView,
    recorded: u64,
    current: u64,
    age_ms: nat,
)
    requires
        entry.file_mtime == Some(recorded),
        recorded != current,
    ensures
        !entry_is_valid(entry, Some(current), age_ms),
{
}

} // verus!

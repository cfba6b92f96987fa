//! Store of analysis results on disk, as far as it decides: where the
//! result for a content hash is kept, whether a stored result belongs to a
//! file, and which results make room when the store is full.

use crate::text::{from_chars, same_text, slice_chars, to_chars};
use crate::ties::{
    keeps_ties, lemma_insert_before_ties, lemma_with_key_concat, lemma_with_key_single, with_key,
};
use vstd::prelude::*;

verus! {

/// Number of results that the store keeps.
pub const MAX_CACHE_ENTRIES: usize = 100;

/// The directory of a result within the store: the first two characters of
/// its content hash, or fewer if the hash is shorter.
pub open spec fn subdirectory_of(hash: Seq<char>) -> Seq<char> {
    if hash.len() < 2 {
        hash
    } else {
        hash.take(2)
    }
}

/// The file name of a result: its content hash with the extension `json`.
pub open spec fn file_name_for(hash: Seq<char>) -> Seq<char> {
    hash + ".json"@
}

/// The directory of a result within the store.
pub fn cache_subdirectory(hash: &str) -> (directory: String)
    ensures
        directory@ == subdirectory_of(hash@),
{
    let chars = to_chars(hash);
    if chars.len() < 2 {
        return String::from_str(hash);
    }
    let head = slice_chars(&chars, 0, 2);
    assert(head@ =~= hash@.take(2));
    from_chars(&head)
}

/// The file name of a result.
pub fn cache_file_name(hash: &str) -> (name: String)
    ensures
        name@ == file_name_for(hash@),
{
    let mut name = String::from_str(hash);
    name.append(".json");
    name
}

/// Whether a stored result belongs to the file with content hash `hash`:
/// the hash that was stored with it is the same.
pub fn is_result_current(stored_hash: &str, hash: &str) -> (current: bool)
    ensures
        current == (stored_hash@ == hash@),
{
    let a = to_chars(stored_hash);
    let b = to_chars(hash);
    same_text(&a, &b)
}

/// A stored result: where it is kept and when it was stored, in seconds
/// since the epoch.
#[derive(Debug)]
pub struct StoredResult {
    pub path: String,
    pub cached_at: u64,
}

/// Which results leave the store and which stay.
#[derive(Debug)]
pub struct Eviction {
    /// The results that leave, oldest first.
    pub evicted: Vec<StoredResult>,
    /// The results that stay, oldest first.
    pub kept: Vec<StoredResult>,
}

/// Whether results are in order of age, oldest first.
pub open spec fn oldest_first(results: Seq<StoredResult>) -> bool {
    forall|i: int, j: int|
        0 <= i < j < results.len() ==> (#[trigger] results[i]).cached_at <= (
        #[trigger] results[j]).cached_at
}

/// Number of results that have to leave a store of `count` results that
/// keeps at most `limit`.
pub open spec fn excess(count: nat, limit: nat) -> nat {
    if count > limit {
        (count - limit) as nat
    } else {
        0
    }
}

/// The function from a result to the time at which it was stored.
pub open spec fn age_key() -> spec_fn(StoredResult) -> u64 {
    |result: StoredResult| result.cached_at
}

/// Decides which results make room in a store that keeps at most `limit`
/// results: as many of the oldest results as the store holds too many.
/// Among results of one age, those that were listed first leave first.
pub fn select_evictions(results: Vec<StoredResult>, limit: usize) -> (eviction: Eviction)
    ensures
        eviction.evicted@.len() == excess(results@.len(), limit as nat),
        (eviction.evicted@ + eviction.kept@).to_multiset() == results@.to_multiset(),
        oldest_first(eviction.evicted@ + eviction.kept@),
        keeps_ties(results@, eviction.evicted@ + eviction.kept@, age_key()),
{
    let mut rest = results;
    let ghost original = rest@;
    let total = rest.len();
    let mut sorted: Vec<StoredResult> = Vec::new();
    proof {
        broadcast use vstd::seq_lib::group_to_multiset_ensures;

        assert(sorted@ + rest@ =~= original);
        assert(original.skip(rest@.len() as int) =~= sorted@);
        assert(rest@ =~= original.take(rest@.len() as int));
    }
    while rest.len() > 0
        invariant
            total == original.len(),
            rest@ == original.take(rest@.len() as int),
            keeps_ties(original.skip(rest@.len() as int), sorted@, age_key()),
            sorted@.len() + rest@.len() == total,
            oldest_first(sorted@),
            sorted@.to_multiset().add(rest@.to_multiset()) == original.to_multiset(),
        decreases rest.len(),
    {
        let ghost rest_before = rest@;
        let ghost sorted_before = sorted@;
        let item = match rest.pop() {
            Some(item) => item,
            None => {
                assert(false);
                return Eviction { evicted: Vec::new(), kept: sorted };
            },
        };
        let mut at: usize = sorted.len();
        while at > 0 && item.cached_at <= sorted[at - 1].cached_at
            invariant
                at <= sorted.len(),
                forall|k: int|
                    at <= k < sorted@.len() ==> item.cached_at <= (#[trigger] sorted@[k]).cached_at,
            decreases at,
        {
            at -= 1;
        }
        sorted.insert(at, item);
        proof {
            broadcast use vstd::seq_lib::group_to_multiset_ensures;

            assert(sorted@ =~= sorted_before.insert(at as int, item));
            assert forall|a: int, b: int| 0 <= a < b < sorted@.len() implies (
            #[trigger] sorted@[a]).cached_at <= (#[trigger] sorted@[b]).cached_at by {
                if b < at {
                    assert(sorted@[a] == sorted_before[a] && sorted@[b] == sorted_before[b]);
                } else if b == at {
                    assert(sorted@[a] == sorted_before[a]);
                    assert(sorted_before[at - 1].cached_at < item.cached_at);
                    if a < at - 1 {
                        assert(sorted_before[a].cached_at <= sorted_before[at - 1].cached_at);
                    }
                } else if a < at {
                    assert(sorted@[a] == sorted_before[a] && sorted@[b] == sorted_before[b - 1]);
                } else if a == at {
                    assert(sorted@[b] == sorted_before[b - 1]);
                } else {
                    assert(sorted@[a] == sorted_before[a - 1] && sorted@[b] == sorted_before[b - 1]);
                }
            }
            assert(rest_before =~= rest@.push(item));
            assert(rest@ =~= original.take(rest@.len() as int));
            assert(item == original[rest@.len() as int]);
            let done_before = original.skip(rest_before.len() as int);
            let done = original.skip(rest@.len() as int);
            assert(done =~= seq![item] + done_before);
            assert forall|i: int| 0 <= i < at implies age_key()(#[trigger] sorted_before[i])
                != age_key()(item) by {
                assert(sorted_before[at - 1].cached_at < item.cached_at);
                if i < at - 1 {
                    assert(sorted_before[i].cached_at <= sorted_before[at - 1].cached_at);
                }
            }
            assert forall|k: u64| #[trigger]
                with_key(sorted@, age_key(), k) == with_key(done, age_key(), k) by {
                lemma_insert_before_ties(sorted_before, at as int, item, age_key(), k);
                lemma_with_key_concat(seq![item], done_before, age_key(), k);
                lemma_with_key_single(item, age_key(), k);
                assert(with_key(sorted_before, age_key(), k) == with_key(
                    done_before,
                    age_key(),
                    k,
                ));
                assert(Seq::<StoredResult>::empty() + with_key(done_before, age_key(), k)
                    =~= with_key(done_before, age_key(), k));
            }
            lemma_insert_keeps_results(sorted_before, at as int, item);
            assert(sorted@.to_multiset().add(rest@.to_multiset()) =~= sorted_before.to_multiset().add(
                rest_before.to_multiset(),
            ));
        }
    }
    proof {
        broadcast use vstd::seq_lib::group_to_multiset_ensures;

        assert(rest@ =~= Seq::<StoredResult>::empty());
        assert(sorted@.to_multiset().add(rest@.to_multiset()) =~= sorted@.to_multiset());
        assert(original.skip(0) =~= original);
    }
    let leaving: usize = if total > limit {
        total - limit
    } else {
        0
    };
    let ghost all = sorted@;
    let kept = sorted.split_off(leaving);
    assert(sorted@ + kept@ =~= all);
    Eviction { evicted: sorted, kept }
}

/// Inserting a result into a sequence adds one occurrence of it.
proof fn lemma_insert_keeps_results(results: Seq<StoredResult>, at: int, result: StoredResult)
    requires
        0 <= at <= results.len(),
    ensures
        results.insert(at, result).to_multiset() == results.to_multiset().insert(result),
{
    broadcast use vstd::seq_lib::group_to_multiset_ensures;

    let left = results.take(at);
    let right = results.skip(at);
    assert(results =~= left + right);
    assert(results.insert(at, result) =~= left.push(result) + right);
    vstd::seq_lib::lemma_multiset_commutative(left, right);
    vstd::seq_lib::lemma_multiset_commutative(left.push(result), right);
    assert(left.push(result).to_multiset() =~= left.to_multiset().insert(result));
    assert(results.insert(at, result).to_multiset() =~= results.to_multiset().insert(result));
}

} // verus!

//! Directory listings: which entries are shown, and in which order.

use crate::files::{
    is_media_file, names_media_file, DependenciesResult, DependencyStatus, FileEntry,
};
use crate::metadata::{trim_text, trimmed_text};
use crate::paths::{extension, extension_of};
use crate::ties::{keeps_ties, lemma_insert_before_ties, lemma_with_key_concat, lemma_with_key_single, with_key};
use crate::text::{
    find_char, first_index_of, from_chars, lowercase_chars, lowercased, same_text, slice_chars,
    to_chars,
};
use vstd::prelude::*;

verus! {

/// Whether text `a` comes no later than text `b` in dictionary order by
/// character code.
pub open spec fn text_at_most(a: Seq<char>, b: Seq<char>) -> bool
    decreases a.len(),
{
    if a.len() == 0 {
        true
    } else if b.len() == 0 {
        false
    } else if a[0] != b[0] {
        a[0] < b[0]
    } else {
        text_at_most(a.drop_first(), b.drop_first())
    }
}

/// Dictionary order is total.
pub proof fn lemma_text_order_total(a: Seq<char>, b: Seq<char>)
    ensures
        text_at_most(a, b) || text_at_most(b, a),
    decreases a.len(),
{
    if a.len() > 0 && b.len() > 0 && a[0] == b[0] {
        lemma_text_order_total(a.drop_first(), b.drop_first());
    }
}

/// Dictionary order is transitive.
pub proof fn lemma_text_order_transitive(a: Seq<char>, b: Seq<char>, c: Seq<char>)
    requires
        text_at_most(a, b),
        text_at_most(b, c),
    ensures
        text_at_most(a, c),
    decreases a.len(),
{
    if a.len() > 0 && b.len() > 0 && c.len() > 0 && a[0] == b[0] && b[0] == c[0] {
        lemma_text_order_transitive(a.drop_first(), b.drop_first(), c.drop_first());
    }
}

/// Whether `a` comes no later than `b` in dictionary order.
pub fn chars_at_most(a: &Vec<char>, b: &Vec<char>) -> (ordered: bool)
    ensures
        ordered == text_at_most(a@, b@),
{
    let mut i: usize = 0;
    assert(a@.skip(0) =~= a@);
    assert(b@.skip(0) =~= b@);
    loop
        invariant
            i <= a.len(),
            i <= b.len(),
            text_at_most(a@, b@) == text_at_most(a@.skip(i as int), b@.skip(i as int)),
        decreases a.len() - i,
    {
        if i >= a.len() {
            return true;
        }
        if i >= b.len() {
            return false;
        }
        assert(a@.skip(i as int)[0] == a@[i as int]);
        assert(b@.skip(i as int)[0] == b@[i as int]);
        if a[i] != b[i] {
            return a[i] < b[i];
        }
        assert(a@.skip(i as int).drop_first() =~= a@.skip(i + 1));
        assert(b@.skip(i as int).drop_first() =~= b@.skip(i + 1));
        i += 1;
    }
}

/// What the order of a listing looks at.
pub struct EntryKey {
    pub is_dir: bool,
    /// The name in lower case.
    pub name: Seq<char>,
}

/// What the order of a listing looks at in an entry.
pub open spec fn entry_key(entry: FileEntry) -> EntryKey {
    EntryKey { is_dir: entry.is_dir, name: lowercased(entry.name@) }
}

/// Whether entry `a` is listed no later than entry `b`: directories come
/// before files, and entries of a kind are in dictionary order of their
/// names in lower case.
pub open spec fn listed_before(a: EntryKey, b: EntryKey) -> bool {
    (a.is_dir && !b.is_dir) || (a.is_dir == b.is_dir && text_at_most(a.name, b.name))
}

/// Whether a listing is in order.
pub open spec fn in_listing_order(keys: Seq<EntryKey>) -> bool {
    forall|i: int, j: int|
        0 <= i < j < keys.len() ==> listed_before(#[trigger] keys[i], #[trigger] keys[j])
}

/// The keys of a listing, in order.
pub open spec fn entry_keys(entries: Seq<FileEntry>) -> Seq<EntryKey> {
    entries.map_values(|e: FileEntry| entry_key(e))
}

/// The function from an entry to what the order of a listing looks at.
pub open spec fn listing_key() -> spec_fn(FileEntry) -> EntryKey {
    |entry: FileEntry| entry_key(entry)
}

/// Puts a listing in order: directories first, then files, each in
/// dictionary order of their names in lower case. The listing holds the same
/// entries afterwards; entries that tie keep their order.
pub fn sort_entries(entries: Vec<FileEntry>) -> (sorted: Vec<FileEntry>)
    ensures
        in_listing_order(entry_keys(sorted@)),
        sorted@.to_multiset() == entries@.to_multiset(),
        keeps_ties(entries@, sorted@, listing_key()),
{
    let mut entries = entries;
    let ghost original = entries@;
    let mut sorted: Vec<FileEntry> = Vec::new();
    let mut names: Vec<Vec<char>> = Vec::new();
    proof {
        broadcast use vstd::seq_lib::group_to_multiset_ensures;

        assert(sorted@ + entries@ =~= original);
        assert(original.skip(entries@.len() as int) =~= sorted@);
        assert(entries@ =~= original.take(entries@.len() as int));
    }
    while entries.len() > 0
        invariant
            entries@.len() <= original.len(),
            entries@ == original.take(entries@.len() as int),
            keeps_ties(original.skip(entries@.len() as int), sorted@, listing_key()),
            names@.len() == sorted@.len(),
            forall|k: int|
                0 <= k < sorted@.len() ==> (#[trigger] names@[k])@ == lowercased(sorted@[k].name@),
            in_listing_order(entry_keys(sorted@)),
            sorted@.to_multiset().add(entries@.to_multiset()) == original.to_multiset(),
        decreases entries.len(),
    {
        let ghost rest_before = entries@;
        let ghost sorted_before = sorted@;
        let item = match entries.pop() {
            Some(item) => item,
            None => {
                assert(false);
                return sorted;
            },
        };
        let name_chars = to_chars(item.name.as_str());
        let lower = lowercase_chars(&name_chars);
        let mut at: usize = sorted.len();
        while at > 0 && goes_before(&item, &lower, &sorted[at - 1], &names[at - 1])
            invariant
                at <= sorted.len(),
                names@.len() == sorted@.len(),
                lower@ == lowercased(item.name@),
                forall|k: int|
                    0 <= k < sorted@.len() ==> (#[trigger] names@[k])@ == lowercased(
                        sorted@[k].name@,
                    ),
                forall|k: int|
                    at <= k < sorted@.len() ==> listed_before(
                        entry_key(item),
                        entry_key(#[trigger] sorted@[k]),
                    ),
            decreases at,
        {
            at -= 1;
        }
        let ghost keys_before = entry_keys(sorted@);
        sorted.insert(at, item);
        names.insert(at, lower);
        proof {
            broadcast use vstd::seq_lib::group_to_multiset_ensures;

            let keys = entry_keys(sorted@);
            let key = entry_key(item);
            assert(keys =~= keys_before.insert(at as int, key));
            assert forall|a: int, b: int| 0 <= a < b < keys.len() implies listed_before(
                #[trigger] keys[a],
                #[trigger] keys[b],
            ) by {
                if b < at {
                    assert(keys[a] == keys_before[a] && keys[b] == keys_before[b]);
                } else if b == at {
                    assert(keys[a] == keys_before[a]);
                    assert(keys_before[at - 1] == entry_key(sorted_before[at - 1]));
                    assert(!listed_before(key, keys_before[at - 1]));
                    lemma_text_order_total(key.name, keys_before[at - 1].name);
                    assert(listed_before(keys_before[at - 1], key));
                    if a < at - 1 {
                        assert(listed_before(keys_before[a], keys_before[at - 1]));
                        lemma_listing_order_transitive(keys_before[a], keys_before[at - 1], key);
                    }
                } else if a < at {
                    assert(keys[a] == keys_before[a] && keys[b] == keys_before[b - 1]);
                } else if a == at {
                    assert(keys[b] == keys_before[b - 1]);
                    assert(keys_before[b - 1] == entry_key(sorted_before[b - 1]));
                } else {
                    assert(keys[a] == keys_before[a - 1] && keys[b] == keys_before[b - 1]);
                }
            }
            assert(rest_before =~= entries@.push(item));
            assert(entries@ =~= original.take(entries@.len() as int));
            assert(item == original[entries@.len() as int]);
            let done_before = original.skip(rest_before.len() as int);
            let done = original.skip(entries@.len() as int);
            assert(done =~= seq![item] + done_before);
            assert forall|i: int| 0 <= i < at implies listing_key()(#[trigger] sorted_before[i])
                != listing_key()(item) by {
                if entry_key(sorted_before[i]) == key {
                    assert(keys_before[i] == key);
                    assert(keys_before[at - 1] == entry_key(sorted_before[at - 1]));
                    lemma_text_order_total(key.name, key.name);
                    if i < at - 1 {
                        assert(listed_before(keys_before[i], keys_before[at - 1]));
                    }
                    assert(false);
                }
            }
            assert forall|k: EntryKey| #[trigger]
                with_key(sorted@, listing_key(), k) == with_key(done, listing_key(), k) by {
                assert(sorted@ == sorted_before.insert(at as int, item));
                lemma_insert_before_ties(sorted_before, at as int, item, listing_key(), k);
                lemma_with_key_concat(seq![item], done_before, listing_key(), k);
                lemma_with_key_single(item, listing_key(), k);
                assert(with_key(sorted_before, listing_key(), k) == with_key(
                    done_before,
                    listing_key(),
                    k,
                ));
                assert(Seq::<FileEntry>::empty() + with_key(done_before, listing_key(), k)
                    =~= with_key(done_before, listing_key(), k));
            }
            lemma_insert_keeps_entries(sorted_before, at as int, item);
            assert(sorted@.to_multiset().add(entries@.to_multiset()) =~= sorted_before.to_multiset().add(
                rest_before.to_multiset(),
            ));
            assert forall|k: int| 0 <= k < sorted@.len() implies (#[trigger] names@[k])@
                == lowercased(sorted@[k].name@) by {
                if k < at {
                } else if k > at {
                    assert(sorted@[k] == sorted_before[k - 1]);
                }
            }
        }
    }
    proof {
        broadcast use vstd::seq_lib::group_to_multiset_ensures;

        assert(entries@ =~= Seq::<FileEntry>::empty());
        assert(sorted@.to_multiset().add(entries@.to_multiset()) =~= sorted@.to_multiset());
        assert(original.skip(0) =~= original);
    }
    sorted
}

/// The order of a listing is transitive.
proof fn lemma_listing_order_transitive(a: EntryKey, b: EntryKey, c: EntryKey)
    requires
        listed_before(a, b),
        listed_before(b, c),
    ensures
        listed_before(a, c),
{
    if a.is_dir == b.is_dir && b.is_dir == c.is_dir {
        lemma_text_order_transitive(a.name, b.name, c.name);
    }
}

/// Inserting an entry into a listing adds one occurrence of it.
proof fn lemma_insert_keeps_entries(entries: Seq<FileEntry>, at: int, entry: FileEntry)
    requires
        0 <= at <= entries.len(),
    ensures
        entries.insert(at, entry).to_multiset() == entries.to_multiset().insert(entry),
{
    broadcast use vstd::seq_lib::group_to_multiset_ensures;

    let left = entries.take(at);
    let right = entries.skip(at);
    assert(entries =~= left + right);
    assert(entries.insert(at, entry) =~= left.push(entry) + right);
    vstd::seq_lib::lemma_multiset_commutative(left, right);
    vstd::seq_lib::lemma_multiset_commutative(left.push(entry), right);
    assert(left.push(entry).to_multiset() =~= left.to_multiset().insert(entry));
    assert(entries.insert(at, entry).to_multiset() =~= entries.to_multiset().insert(entry));
}

/// Whether entry `a`, whose name in lower case is `a_name`, is listed no
/// later than entry `b`.
fn goes_before(a: &FileEntry, a_name: &Vec<char>, b: &FileEntry, b_name: &Vec<char>) -> (before:
    bool)
    requires
        a_name@ == lowercased(a.name@),
        b_name@ == lowercased(b.name@),
    ensures
        before == listed_before(entry_key(*a), entry_key(*b)),
{
    if a.is_dir && !b.is_dir {
        true
    } else if a.is_dir == b.is_dir {
        chars_at_most(a_name, b_name)
    } else {
        false
    }
}

/// The entry of a listing for a file or directory; `None` for one whose
/// name begins with a dot. Only files can be media files.
pub fn listing_entry(name: String, path: String, is_dir: bool, size: u64, modified: Option<String>) -> (
    entry: Option<FileEntry>)
    ensures
        entry is None == (name@.len() > 0 && name@[0] == '.'),
        entry is Some ==> entry->0.name == name && entry->0.path == path && entry->0.is_dir
            == is_dir && entry->0.size == size && entry->0.modified == modified && entry->0.is_media
            == (!is_dir && names_media_file(path@)),
{
    if crate::filters::is_hidden_name(name.as_str()) {
        return None;
    }
    let is_media = !is_dir && is_media_file(path.as_str());
    Some(FileEntry { name, path, is_dir, is_media, size, modified })
}

/// The first line of a text, without the white space at its ends; `None`
/// for the empty text.
pub open spec fn first_line(text: Seq<char>) -> Option<Seq<char>> {
    if text.len() == 0 {
        None
    } else {
        Some(
            trimmed_text(text.take(first_index_of(text, '\n', 0, text.len() as int))),
        )
    }
}

/// The version that a tool reports: the first line of what it printed, or
/// of its diagnostics if it printed nothing.
pub open spec fn reported_version(output: Seq<char>, diagnostics: Seq<char>) -> Option<Seq<char>> {
    if output.len() == 0 {
        first_line(diagnostics)
    } else {
        first_line(output)
    }
}

/// The first line of a text, without the white space at its ends.
fn read_first_line(text: &str) -> (line: Option<String>)
    ensures
        crate::streams::text_view(line) == first_line(text@),
{
    let chars = to_chars(text);
    if chars.len() == 0 {
        return None;
    }
    let end = find_char(&chars, '\n', 0, chars.len());
    let line = slice_chars(&chars, 0, end);
    assert(line@ =~= text@.take(end as int));
    let line_text = from_chars(&line);
    let trimmed = trim_text(line_text.as_str());
    Some(from_chars(&trimmed))
}

/// Whether the tool named `cmd` is installed, from the outcome of asking it
/// for its version: `succeeded` says whether it ran and reported success.
pub fn check_command(cmd: &str, succeeded: bool, output: &str, diagnostics: &str) -> (status:
    DependencyStatus)
    ensures
        status.name@ == cmd@,
        status.installed == succeeded,
        crate::streams::text_view(status.version) == if succeeded {
            reported_version(output@, diagnostics@)
        } else {
            None
        },
{
    if succeeded {
        let version = if output.unicode_len() == 0 {
            read_first_line(diagnostics)
        } else {
            read_first_line(output)
        };
        DependencyStatus { name: String::from_str(cmd), installed: true, version }
    } else {
        DependencyStatus { name: String::from_str(cmd), installed: false, version: None }
    }
}

/// Whether the probe and mux tools are installed.
pub fn check_dependencies(ffmpeg: DependencyStatus, ffprobe: DependencyStatus, platform: &str) -> (
    result: DependenciesResult)
    ensures
        result.all_installed == (ffmpeg.installed && ffprobe.installed),
        result.dependencies@ == seq![ffmpeg, ffprobe],
        result.platform@ == platform@,
{
    let all_installed = ffmpeg.installed && ffprobe.installed;
    let mut dependencies: Vec<DependencyStatus> = Vec::new();
    dependencies.push(ffmpeg);
    dependencies.push(ffprobe);
    assert(dependencies@ =~= seq![ffmpeg, ffprobe]);
    DependenciesResult { all_installed, dependencies, platform: String::from_str(platform) }
}

/// Dictionary order is antisymmetric.
pub proof fn lemma_text_order_antisymmetric(a: Seq<char>, b: Seq<char>)
    requires
        text_at_most(a, b),
        text_at_most(b, a),
    ensures
        a == b,
    decreases a.len(),
{
    if a.len() > 0 && b.len() > 0 {
        lemma_text_order_antisymmetric(a.drop_first(), b.drop_first());
        assert(a =~= seq![a[0]] + a.drop_first());
        assert(b =~= seq![b[0]] + b.drop_first());
    } else {
        assert(a =~= b);
    }
}

/// Whether texts are in dictionary order without repetition.
pub open spec fn strictly_ascending(texts: Seq<Seq<char>>) -> bool {
    forall|i: int, j: int|
        0 <= i < j < texts.len() ==> text_at_most(#[trigger] texts[i], #[trigger] texts[j])
            && texts[i] != texts[j]
}

/// The extensions, in lower case, of the first `n` paths that have one.
pub open spec fn extensions_upto(paths: Seq<String>, n: int) -> Set<Seq<char>>
    decreases n,
{
    if n <= 0 {
        Set::empty()
    } else {
        match extension_of(paths[n - 1]@) {
            Some(ext) => extensions_upto(paths, n - 1).insert(lowercased(ext)),
            None => extensions_upto(paths, n - 1),
        }
    }
}

/// Texts of a sequence of character vectors, in order.
pub open spec fn char_texts(list: Seq<Vec<char>>) -> Seq<Seq<char>> {
    list.map_values(|chars: Vec<char>| chars@)
}

/// The extensions of a set of files: each extension once, in lower case,
/// in dictionary order.
pub fn get_available_extensions(paths: &Vec<String>) -> (extensions: Result<Vec<String>, String>)
    ensures
        extensions is Ok,
        strictly_ascending(crate::grouping::path_texts(extensions->Ok_0@)),
        crate::grouping::path_texts(extensions->Ok_0@).to_set() == extensions_upto(
            paths@,
            paths@.len() as int,
        ),
{
    let mut found: Vec<Vec<char>> = Vec::new();
    let mut i: usize = 0;
    assert(char_texts(found@).to_set() =~= Set::<Seq<char>>::empty());
    while i < paths.len()
        invariant
            i <= paths.len(),
            strictly_ascending(char_texts(found@)),
            char_texts(found@).to_set() == extensions_upto(paths@, i as int),
        decreases paths.len() - i,
    {
        let chars = to_chars(paths[i].as_str());
        match extension(&chars) {
            Some(ext) => {
                let lower = lowercase_chars(&ext);
                let ghost before = char_texts(found@);
                let mut at: usize = 0;
                while at < found.len() && !chars_at_most(&lower, &found[at])
                    invariant
                        at <= found.len(),
                        before == char_texts(found@),
                        forall|k: int|
                            0 <= k < at ==> !text_at_most(lower@, #[trigger] before[k]),
                    decreases found.len() - at,
                {
                    assert(before[at as int] == found@[at as int]@);
                    at += 1;
                }
                let present = at < found.len() && same_text(&found[at], &lower);
                proof {
                    if at < found.len() {
                        assert(before[at as int] == found@[at as int]@);
                    }
                    assert forall|k: int| 0 <= k < before.len() && k != at implies before[k]
                        != lower@ by {
                        if k < at {
                            lemma_text_order_total(lower@, before[k]);
                            if before[k] == lower@ {
                                assert(text_at_most(lower@, before[k]));
                            }
                        } else {
                            assert(text_at_most(before[at as int], before[k]) && before[at as int]
                                != before[k]);
                            if before[k] == lower@ {
                                lemma_text_order_antisymmetric(lower@, before[at as int]);
                            }
                        }
                    }
                }
                if present {
                    assert(before.to_set().insert(lower@) =~= before.to_set()) by {
                        assert(before.contains(before[at as int]));
                    }
                } else {
                    found.insert(at, lower);
                    proof {
                        let after = char_texts(found@);
                        assert(after =~= before.insert(at as int, lower@));
                        assert forall|a: int, b: int| 0 <= a < b < after.len() implies text_at_most(
                            #[trigger] after[a],
                            #[trigger] after[b],
                        ) && after[a] != after[b] by {
                            if b < at {
                            } else if b == at {
                                lemma_text_order_total(lower@, before[a]);
                            } else if a < at {
                                assert(after[b] == before[b - 1]);
                            } else if a == at {
                                assert(after[b] == before[b - 1]);
                                if b - 1 > at {
                                    lemma_text_order_transitive(
                                        lower@,
                                        before[at as int],
                                        before[b - 1],
                                    );
                                }
                            } else {
                                assert(after[a] == before[a - 1] && after[b] == before[b - 1]);
                            }
                        }
                        assert(after.to_set() =~= before.to_set().insert(lower@)) by {
                            assert forall|t: Seq<char>| after.contains(t) <==> before.contains(t)
                                || t == lower@ by {
                                if after.contains(t) {
                                    let k = choose|k: int| 0 <= k < after.len() && after[k] == t;
                                    if k < at {
                                        assert(before[k] == t);
                                    } else if k > at {
                                        assert(before[k - 1] == t);
                                    }
                                }
                                if before.contains(t) {
                                    let k = choose|k: int| 0 <= k < before.len() && before[k] == t;
                                    if k < at {
                                        assert(after[k] == t);
                                    } else {
                                        assert(after[k + 1] == t);
                                    }
                                }
                                if t == lower@ {
                                    assert(after[at as int] == t);
                                }
                            }
                        }
                    }
                }
            },
            None => {},
        }
        i += 1;
    }
    let mut extensions: Vec<String> = Vec::new();
    let mut k: usize = 0;
    while k < found.len()
        invariant
            k <= found.len(),
            extensions@.len() == k,
            forall|j: int| 0 <= j < k ==> (#[trigger] extensions@[j])@ == found@[j]@,
        decreases found.len() - k,
    {
        extensions.push(from_chars(&found[k]));
        k += 1;
    }
    assert(crate::grouping::path_texts(extensions@) =~= char_texts(found@));
    Ok(extensions)
}

} // verus!

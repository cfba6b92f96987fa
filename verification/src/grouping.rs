//! Grouping of files into folders.

use crate::paths::{extension, extension_of};
use crate::text::{from_chars, is_text, lowercase_chars, lowercased, to_chars};
use crate::textmap::TextMap;
use vstd::prelude::*;

verus! {

/// Label of the group of files without an extension.
pub open spec fn no_extension_label() -> Seq<char> {
    "no_extension"@
}

/// The extension group of a path: its extension in lower case, or the
/// label for files without one.
pub open spec fn extension_label(path: Seq<char>) -> Seq<char> {
    match extension_of(path) {
        Some(ext) => lowercased(ext),
        None => lowercased(no_extension_label()),
    }
}

/// Whether an extension, in lower case, is that of a video container.
pub open spec fn is_video_extension(ext: Seq<char>) -> bool {
    ||| ext == "mp4"@
    ||| ext == "mkv"@
    ||| ext == "avi"@
    ||| ext == "mov"@
    ||| ext == "webm"@
    ||| ext == "flv"@
    ||| ext == "wmv"@
    ||| ext == "m4v"@
}

/// Whether an extension, in lower case, is that of an audio file.
pub open spec fn is_audio_extension(ext: Seq<char>) -> bool {
    ||| ext == "mp3"@
    ||| ext == "flac"@
    ||| ext == "wav"@
    ||| ext == "aac"@
    ||| ext == "ogg"@
    ||| ext == "m4a"@
    ||| ext == "wma"@
}

/// The media-type group of a path: `video`, `audio` or `other`, by its
/// extension in lower case.
pub open spec fn media_type_label(path: Seq<char>) -> Seq<char> {
    match extension_of(path) {
        Some(ext) => if is_video_extension(lowercased(ext)) {
            "video"@
        } else if is_audio_extension(lowercased(ext)) {
            "audio"@
        } else {
            "other"@
        },
        None => "other"@,
    }
}

/// Texts of a sequence of strings, in order.
pub open spec fn path_texts(paths: Seq<String>) -> Seq<Seq<char>> {
    paths.map_values(|path: String| path@)
}

/// The paths among the first `n` whose label is `label`, in order.
pub open spec fn members_of(
    paths: Seq<Seq<char>>,
    labels: Seq<Seq<char>>,
    label: Seq<char>,
    n: int,
) -> Seq<Seq<char>>
    decreases n,
{
    if n <= 0 {
        Seq::empty()
    } else if labels[n - 1] == label {
        members_of(paths, labels, label, n - 1).push(paths[n - 1])
    } else {
        members_of(paths, labels, label, n - 1)
    }
}

/// The labels at positions below `n`, each once, in order of their first
/// occurrence.
pub open spec fn first_occurrences(labels: Seq<Seq<char>>, n: int) -> Seq<Seq<char>>
    decreases n,
{
    if n <= 0 {
        Seq::empty()
    } else if first_occurrences(labels, n - 1).contains(labels[n - 1]) {
        first_occurrences(labels, n - 1)
    } else {
        first_occurrences(labels, n - 1).push(labels[n - 1])
    }
}

/// Whether `groups` files the first `n` paths under their labels: each
/// group holds the paths with its label in their order, and there is no
/// group without paths.
pub open spec fn is_grouping_of(
    groups: Map<Seq<char>, Vec<String>>,
    paths: Seq<Seq<char>>,
    labels: Seq<Seq<char>>,
    n: int,
) -> bool {
    forall|label: Seq<char>|
        {
            &&& #[trigger] groups.contains_key(label) <==> members_of(paths, labels, label, n).len()
                > 0
            &&& groups.contains_key(label) ==> path_texts(groups[label]@) == members_of(
                paths,
                labels,
                label,
                n,
            )
        }
}

/// Files each path under the label at the same position.
pub fn group_by_labels(paths: &Vec<String>, labels: &Vec<String>) -> (groups: TextMap<Vec<String>>)
    requires
        labels@.len() == paths@.len(),
    ensures
        groups.wf(),
        is_grouping_of(groups@, path_texts(paths@), path_texts(labels@), paths@.len() as int),
        groups.keys() == first_occurrences(path_texts(labels@), paths@.len() as int),
{
    let ghost texts = path_texts(paths@);
    let ghost names = path_texts(labels@);
    let mut groups: TextMap<Vec<String>> = TextMap::new();
    let mut i: usize = 0;
    while i < paths.len()
        invariant
            i <= paths.len(),
            labels@.len() == paths@.len(),
            texts == path_texts(paths@),
            names == path_texts(labels@),
            groups.wf(),
            is_grouping_of(groups@, texts, names, i as int),
            groups.keys() == first_occurrences(names, i as int),
        decreases paths.len() - i,
    {
        let ghost before = groups@;
        proof {
            groups.lemma_keys();
            assert(names[i as int] == labels@[i as int]@);
        }
        let label = labels[i].clone();
        let path = paths[i].clone();
        groups.add_to(label, path);
        proof {
            let key = names[i as int];
            assert(texts[i as int] == paths@[i as int]@);
            assert forall|other: Seq<char>|
                {
                    &&& #[trigger] groups@.contains_key(other) <==> members_of(
                        texts,
                        names,
                        other,
                        i + 1,
                    ).len() > 0
                    &&& groups@.contains_key(other) ==> path_texts(groups@[other]@) == members_of(
                        texts,
                        names,
                        other,
                        i + 1,
                    )
                } by {
                assert(before.contains_key(other) <==> members_of(texts, names, other, i as int).len()
                    > 0);
                if other == key {
                    if before.contains_key(key) {
                        assert(path_texts(groups@[key]@) =~= path_texts(before[key]@).push(
                            texts[i as int],
                        ));
                    } else {
                        assert(members_of(texts, names, key, i as int) =~= Seq::<
                            Seq<char>,
                        >::empty());
                        assert(path_texts(groups@[key]@) =~= seq![texts[i as int]]);
                        assert(seq![texts[i as int]] =~= Seq::<Seq<char>>::empty().push(
                            texts[i as int],
                        ));
                    }
                } else {
                    assert(groups@.remove(key).contains_key(other) == groups@.contains_key(other));
                    assert(before.remove(key).contains_key(other) == before.contains_key(other));
                    if groups@.contains_key(other) {
                        assert(groups@.remove(key)[other] == groups@[other]);
                        assert(before.remove(key)[other] == before[other]);
                    }
                }
            }
        }
        i += 1;
    }
    groups
}

/// The extension group of a path.
pub fn extension_group(path: &str) -> (label: String)
    ensures
        label@ == extension_label(path@),
{
    let chars = to_chars(path);
    let raw = match extension(&chars) {
        Some(ext) => ext,
        None => to_chars("no_extension"),
    };
    from_chars(&lowercase_chars(&raw))
}

/// The media-type group of a path.
pub fn media_type_group(path: &str) -> (label: String)
    ensures
        label@ == media_type_label(path@),
{
    let chars = to_chars(path);
    match extension(&chars) {
        Some(ext) => {
            let lower = lowercase_chars(&ext);
            if is_text(&lower, "mp4") || is_text(&lower, "mkv") || is_text(&lower, "avi")
                || is_text(&lower, "mov") || is_text(&lower, "webm") || is_text(&lower, "flv")
                || is_text(&lower, "wmv") || is_text(&lower, "m4v") {
                String::from_str("video")
            } else if is_text(&lower, "mp3") || is_text(&lower, "flac") || is_text(&lower, "wav")
                || is_text(&lower, "aac") || is_text(&lower, "ogg") || is_text(&lower, "m4a")
                || is_text(&lower, "wma") {
                String::from_str("audio")
            } else {
                String::from_str("other")
            }
        },
        None => String::from_str("other"),
    }
}

/// The labels of a sequence of paths under a labelling.
pub open spec fn labels_of(paths: Seq<Seq<char>>, labelling: spec_fn(Seq<char>) -> Seq<char>) -> Seq<
    Seq<char>,
> {
    paths.map_values(labelling)
}

/// Groups files by extension. Files without an extension form a group of
/// their own.
pub fn group_by_extension(paths: &Vec<String>) -> (groups: Result<TextMap<Vec<String>>, String>)
    ensures
        groups is Ok,
        groups->Ok_0.wf(),
        is_grouping_of(
            groups->Ok_0@,
            path_texts(paths@),
            labels_of(path_texts(paths@), |p: Seq<char>| extension_label(p)),
            paths@.len() as int,
        ),
        groups->Ok_0.keys() == first_occurrences(
            labels_of(path_texts(paths@), |p: Seq<char>| extension_label(p)),
            paths@.len() as int,
        ),
{
    let mut labels: Vec<String> = Vec::new();
    let mut i: usize = 0;
    while i < paths.len()
        invariant
            i <= paths.len(),
            labels@.len() == i,
            forall|k: int| 0 <= k < i ==> (#[trigger] labels@[k])@ == extension_label(paths@[k]@),
        decreases paths.len() - i,
    {
        labels.push(extension_group(paths[i].as_str()));
        i += 1;
    }
    assert(path_texts(labels@) =~= labels_of(
        path_texts(paths@),
        |p: Seq<char>| extension_label(p),
    ));
    Ok(group_by_labels(paths, &labels))
}

/// Groups files into video, audio and other files.
pub fn group_by_media_type(paths: &Vec<String>) -> (groups: Result<TextMap<Vec<String>>, String>)
    ensures
        groups is Ok,
        groups->Ok_0.wf(),
        is_grouping_of(
            groups->Ok_0@,
            path_texts(paths@),
            labels_of(path_texts(paths@), |p: Seq<char>| media_type_label(p)),
            paths@.len() as int,
        ),
        groups->Ok_0.keys() == first_occurrences(
            labels_of(path_texts(paths@), |p: Seq<char>| media_type_label(p)),
            paths@.len() as int,
        ),
{
    let mut labels: Vec<String> = Vec::new();
    let mut i: usize = 0;
    while i < paths.len()
        invariant
            i <= paths.len(),
            labels@.len() == i,
            forall|k: int| 0 <= k < i ==> (#[trigger] labels@[k])@ == media_type_label(paths@[k]@),
        decreases paths.len() - i,
    {
        labels.push(media_type_group(paths[i].as_str()));
        i += 1;
    }
    assert(path_texts(labels@) =~= labels_of(
        path_texts(paths@),
        |p: Seq<char>| media_type_label(p),
    ));
    Ok(group_by_labels(paths, &labels))
}

} // verus!

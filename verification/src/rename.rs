//! New names for files: find and replace, sequential numbering, change of
//! case, and templates.

use crate::json::{json_document, json_views, parse_json, JsonValue, JsonView};
use crate::probe::{push_argument, string_views};
use crate::paths::{
    extension, extension_of, file_name, file_name_of, file_stem, file_stem_of, parent, parent_of,
};
use crate::text::{
    append_chars, char_is_whitespace, contains_text, decimal_text, from_chars, has_literal,
    is_text, is_whitespace, lemma_replace_where_self, lowercase_chars, lowercased,
    padded_decimal_text, push_decimal, push_padded_decimal, replace_all, replace_matches,
    replace_where, slice_chars, to_chars, uppercase_chars, uppercased,
};
use crate::textmap::TextMap;
use vstd::prelude::*;

verus! {

/// How the case of a name is changed.
#[derive(Debug, Clone, Copy, PartialEq, Eq, Structural)]
pub enum CaseMode {
    Lowercase,
    Uppercase,
    TitleCase,
}

/// `name` with every occurrence of `find` replaced by `replace`. With
/// `case_sensitive` unset, occurrences are found without regard to case: a
/// stretch of `name` is an occurrence if `find` in lower case occurs at its
/// place in `name` in lower case. An empty `find` replaces nothing.
pub open spec fn find_replaced(
    name: Seq<char>,
    find: Seq<char>,
    replace: Seq<char>,
    case_sensitive: bool,
) -> Seq<char> {
    if find.len() == 0 {
        name
    } else if case_sensitive {
        replace_all(name, find, replace)
    } else {
        replace_where(name, lowercased(name), lowercased(find), replace)
    }
}

/// Whether a search without regard to case is defined for `name` and
/// `find`: putting either in lower case keeps its length.
pub open spec fn case_folds_evenly(name: Seq<char>, find: Seq<char>) -> bool {
    lowercased(name).len() == name.len() && lowercased(find).len() == find.len()
}

/// Replaces every occurrence of `find` in `name` by `replace`.
pub fn apply_find_replace(name: &str, find: &str, replace: &str, case_sensitive: bool) -> (result:
    String)
    requires
        case_sensitive || find@.len() == 0 || case_folds_evenly(name@, find@),
    ensures
        result@ == find_replaced(name@, find@, replace@, case_sensitive),
{
    let name_chars = to_chars(name);
    let find_chars = to_chars(find);
    if find_chars.len() == 0 {
        return String::from_str(name);
    }
    let replace_chars = to_chars(replace);
    if case_sensitive {
        proof {
            lemma_replace_where_self(name@, find@, replace@);
        }
        let replaced = replace_matches(&name_chars, &name_chars, &find_chars, &replace_chars);
        from_chars(&replaced)
    } else {
        let lower_name = lowercase_chars(&name_chars);
        let lower_find = lowercase_chars(&find_chars);
        let replaced = replace_matches(&name_chars, &lower_name, &lower_find, &replace_chars);
        from_chars(&replaced)
    }
}

/// Replaces every occurrence of `find` in `name` by `replace`, if the
/// search is defined: a search without regard to case is not defined for
/// texts that change their length when put in lower case.
pub fn try_find_replace(name: &str, find: &str, replace: &str, case_sensitive: bool) -> (result:
    Option<String>)
    ensures
        result is Some == (case_sensitive || find@.len() == 0 || case_folds_evenly(name@, find@)),
        result is Some ==> result->0@ == find_replaced(name@, find@, replace@, case_sensitive),
{
    if !case_sensitive {
        let name_chars = to_chars(name);
        let find_chars = to_chars(find);
        if find_chars.len() > 0 {
            let lower_name = lowercase_chars(&name_chars);
            let lower_find = lowercase_chars(&find_chars);
            if lower_name.len() != name_chars.len() || lower_find.len() != find_chars.len() {
                return None;
            }
        }
    }
    Some(apply_find_replace(name, find, replace, case_sensitive))
}

/// First position at or behind `from` that holds no white space, or the
/// length of the text.
pub open spec fn word_start(text: Seq<char>, from: int) -> int
    decreases text.len() - from,
{
    if from >= text.len() {
        text.len() as int
    } else if from < 0 || !is_whitespace(text[from]) {
        from
    } else {
        word_start(text, from + 1)
    }
}

/// First position at or behind `from` that holds white space, or the
/// length of the text.
pub open spec fn word_end(text: Seq<char>, from: int) -> int
    decreases text.len() - from,
{
    if from >= text.len() {
        text.len() as int
    } else if from < 0 || is_whitespace(text[from]) {
        from
    } else {
        word_end(text, from + 1)
    }
}

/// The words of `text` at or behind `from`: the longest stretches without
/// white space, in order.
pub open spec fn words_from(text: Seq<char>, from: int) -> Seq<Seq<char>>
    decreases text.len() - from,
{
    let start = word_start(text, from);
    let end = word_end(text, start);
    if 0 <= from <= start < end <= text.len() {
        seq![text.subrange(start, end)] + words_from(text, end)
    } else {
        Seq::empty()
    }
}

/// A word with its first character in upper case and the rest in lower case.
pub open spec fn title_word(word: Seq<char>) -> Seq<char> {
    if word.len() == 0 {
        word
    } else {
        uppercased(seq![word[0]]) + lowercased(word.skip(1))
    }
}

/// The first `n` words in title case, separated by single spaces.
pub open spec fn title_joined(words: Seq<Seq<char>>, n: int) -> Seq<char>
    decreases n,
{
    if n <= 0 {
        Seq::empty()
    } else if n == 1 {
        title_word(words[0])
    } else {
        title_joined(words, n - 1) + seq![' '] + title_word(words[n - 1])
    }
}

/// `name` in the given case. Title case puts each word in title case and
/// separates the words by single spaces.
pub open spec fn case_transformed(name: Seq<char>, mode: CaseMode) -> Seq<char> {
    match mode {
        CaseMode::Lowercase => lowercased(name),
        CaseMode::Uppercase => uppercased(name),
        CaseMode::TitleCase => title_joined(words_from(name, 0), words_from(name, 0).len() as int),
    }
}

/// The bounds of `word_start` and `word_end`.
proof fn lemma_word_bounds(text: Seq<char>, from: int)
    requires
        0 <= from <= text.len(),
    ensures
        from <= word_start(text, from) <= text.len(),
        from <= word_end(text, from) <= text.len(),
        word_start(text, from) < text.len() ==> word_end(text, word_start(text, from))
            > word_start(text, from),
    decreases text.len() - from,
{
    if from < text.len() {
        lemma_word_bounds(text, from + 1);
        let start = word_start(text, from);
        if start < text.len() {
            lemma_word_start_is_word(text, from);
            lemma_word_bounds_end(text, start);
        }
    }
}

/// `word_start` points at a character that is not white space.
proof fn lemma_word_start_is_word(text: Seq<char>, from: int)
    requires
        0 <= from <= text.len(),
        word_start(text, from) < text.len(),
    ensures
        from <= word_start(text, from),
        !is_whitespace(text[word_start(text, from)]),
    decreases text.len() - from,
{
    if from < text.len() && is_whitespace(text[from]) {
        lemma_word_start_is_word(text, from + 1);
    }
}

/// A word that starts at `from` ends behind `from`.
proof fn lemma_word_bounds_end(text: Seq<char>, from: int)
    requires
        0 <= from < text.len(),
        !is_whitespace(text[from]),
    ensures
        from < word_end(text, from) <= text.len(),
{
    lemma_word_end_bounds(text, from + 1);
}

/// `word_end` lies between `from` and the length of the text.
proof fn lemma_word_end_bounds(text: Seq<char>, from: int)
    requires
        0 <= from <= text.len(),
    ensures
        from <= word_end(text, from) <= text.len(),
    decreases text.len() - from,
{
    if from < text.len() && !is_whitespace(text[from]) {
        lemma_word_end_bounds(text, from + 1);
    }
}

/// `name` in title case.
fn title_case(name: &Vec<char>) -> (result: Vec<char>)
    ensures
        result@ == title_joined(words_from(name@, 0), words_from(name@, 0).len() as int),
{
    let n = name.len();
    let mut result: Vec<char> = Vec::new();
    let ghost mut done: Seq<Seq<char>> = Seq::empty();
    let mut at: usize = 0;
    let mut words: usize = 0;
    assert(result@ =~= title_joined(done, 0));
    loop
        invariant
            at <= n,
            n == name.len(),
            words == done.len(),
            words <= at,
            words_from(name@, 0) == done + words_from(name@, at as int),
            result@ == title_joined(done, done.len() as int),
        decreases n - at,
    {
        let ghost from = at as int;
        let mut start: usize = at;
        while start < n && char_is_whitespace(name[start])
            invariant
                at <= start <= n,
                n == name.len(),
                word_start(name@, from) == word_start(name@, start as int),
            decreases n - start,
        {
            start += 1;
        }
        proof {
            lemma_word_bounds(name@, from);
        }
        if start >= n {
            assert(words_from(name@, from) =~= Seq::<Seq<char>>::empty());
            assert(done + Seq::<Seq<char>>::empty() =~= done);
            return result;
        }
        let mut end: usize = start;
        while end < n && !char_is_whitespace(name[end])
            invariant
                start <= end <= n,
                n == name.len(),
                word_end(name@, start as int) == word_end(name@, end as int),
            decreases n - end,
        {
            end += 1;
        }
        let word = slice_chars(name, start, end);
        let mut first: Vec<char> = Vec::new();
        first.push(word[0]);
        assert(first@ =~= seq![word@[0]]);
        let upper = uppercase_chars(&first);
        let rest = slice_chars(&word, 1, word.len());
        assert(rest@ =~= word@.skip(1));
        let lower = lowercase_chars(&rest);
        let ghost before = result@;
        if words > 0 {
            result.push(' ');
        }
        append_chars(&mut result, &upper);
        append_chars(&mut result, &lower);
        proof {
            let extended = done.push(word@);
            assert(words_from(name@, from) =~= seq![word@] + words_from(name@, end as int));
            assert(done + (seq![word@] + words_from(name@, end as int)) =~= extended + words_from(
                name@,
                end as int,
            ));
            if done.len() == 0 {
                assert(before =~= Seq::<char>::empty());
                assert(result@ =~= title_word(word@));
            } else {
                assert(result@ =~= before + seq![' '] + title_word(word@));
                assert(forall|k: int| 0 <= k < done.len() ==> extended[k] == done[k]);
                lemma_title_joined_prefix(done, extended, done.len() as int);
            }
            done = extended;
        }
        words += 1;
        at = end;
    }
}

/// Title case of the same words is the same text.
proof fn lemma_title_joined_prefix(a: Seq<Seq<char>>, b: Seq<Seq<char>>, n: int)
    requires
        0 <= n <= a.len(),
        n <= b.len(),
        forall|k: int| 0 <= k < n ==> a[k] == b[k],
    ensures
        title_joined(a, n) == title_joined(b, n),
    decreases n,
{
    if n > 1 {
        lemma_title_joined_prefix(a, b, n - 1);
    }
}

/// Changes the case of a name.
pub fn apply_case_transform(name: &str, mode: &CaseMode) -> (result: String)
    ensures
        result@ == case_transformed(name@, *mode),
{
    match mode {
        CaseMode::Lowercase => name.to_lowercase(),
        CaseMode::Uppercase => name.to_uppercase(),
        CaseMode::TitleCase => {
            let chars = to_chars(name);
            let titled = title_case(&chars);
            from_chars(&titled)
        },
    }
}

/// The text of an optional text; empty if there is none.
pub open spec fn or_empty(value: Option<Seq<char>>) -> Seq<char> {
    match value {
        Some(text) => text,
        None => Seq::empty(),
    }
}

/// The characters of an optional text; none if there is no text.
fn chars_or_empty(value: Option<Vec<char>>) -> (chars: Vec<char>)
    ensures
        chars@ == or_empty(
            match value {
                Some(text) => Some(text@),
                None => None,
            },
        ),
{
    match value {
        Some(text) => text,
        None => {
            let empty: Vec<char> = Vec::new();
            assert(empty@ =~= Seq::<char>::empty());
            empty
        },
    }
}

/// `text` with every occurrence of the text of `pattern` replaced by `with`.
fn replace_literal(text: &Vec<char>, pattern: &str, with: &Vec<char>) -> (result: Vec<char>)
    ensures
        result@ == replace_all(text@, pattern@, with@),
{
    let pattern_chars = to_chars(pattern);
    proof {
        lemma_replace_where_self(text@, pattern@, with@);
    }
    replace_matches(text, text, &pattern_chars, with)
}

/// Whether a numbering pattern names a placeholder.
pub open spec fn has_placeholder(pattern: Seq<char>) -> bool {
    contains_text(pattern, "{n}"@) || contains_text(pattern, "{name}"@) || contains_text(
        pattern,
        "{ext}"@,
    )
}

/// The name of the file at `path` under a numbering pattern.
///
/// In a pattern with placeholders, `{n}` stands for the number, filled up
/// with zeros to `padding` digits, `{name}` for the file name without its
/// extension, and `{ext}` for the extension. A pattern without placeholders
/// is not used: the number is appended to the file name, before the
/// extension if there is one.
pub open spec fn numbered_name(path: Seq<char>, pattern: Seq<char>, number: nat, padding: nat) -> Seq<
    char,
> {
    let name = or_empty(file_name_of(path));
    let ext = or_empty(extension_of(path));
    let stem = or_empty(file_stem_of(path));
    let digits = padded_decimal_text(number, padding);
    if has_placeholder(pattern) {
        replace_all(
            replace_all(replace_all(pattern, "{n}"@, digits), "{name}"@, stem),
            "{ext}"@,
            ext,
        )
    } else if ext.len() == 0 {
        name + seq!['_'] + digits
    } else {
        stem + seq!['_'] + digits + seq!['.'] + ext
    }
}

/// The names of the first `n` paths under a numbering pattern, by path;
/// the path at position `i` gets the number `start + i`.
pub open spec fn numbered_names(
    paths: Seq<Seq<char>>,
    pattern: Seq<char>,
    start: nat,
    padding: nat,
    n: int,
) -> Map<Seq<char>, Seq<char>>
    decreases n,
{
    if n <= 0 {
        Map::empty()
    } else {
        numbered_names(paths, pattern, start, padding, n - 1).insert(
            paths[n - 1],
            numbered_name(paths[n - 1], pattern, (start + n - 1) as nat, padding),
        )
    }
}

/// Whether `names` holds the texts of `expected`.
pub open spec fn holds_names(names: Map<Seq<char>, String>, expected: Map<Seq<char>, Seq<char>>) -> bool {
    forall|key: Seq<char>|
        {
            &&& #[trigger] names.contains_key(key) == expected.contains_key(key)
            &&& names.contains_key(key) ==> names[key]@ == expected[key]
        }
}

/// The name of the file at `path` under a numbering pattern.
pub fn sequential_name(path: &str, pattern: &str, number: usize, padding: usize) -> (name: String)
    ensures
        name@ == numbered_name(path@, pattern@, number as nat, padding as nat),
{
    let chars = to_chars(path);
    let original = chars_or_empty(file_name(&chars));
    let ext = chars_or_empty(extension(&chars));
    let stem = chars_or_empty(file_stem(&chars));
    let mut digits: Vec<char> = Vec::new();
    push_padded_decimal(&mut digits, number as u64, padding);
    assert(digits@ =~= padded_decimal_text(number as nat, padding as nat));
    let pattern_chars = to_chars(pattern);
    let placeholders = has_literal(&pattern_chars, "{n}") || has_literal(&pattern_chars, "{name}")
        || has_literal(&pattern_chars, "{ext}");
    let mut name: Vec<char> = Vec::new();
    if placeholders {
        let with_number = replace_literal(&pattern_chars, "{n}", &digits);
        let with_name = replace_literal(&with_number, "{name}", &stem);
        name = replace_literal(&with_name, "{ext}", &ext);
    } else if ext.len() == 0 {
        append_chars(&mut name, &original);
        name.push('_');
        append_chars(&mut name, &digits);
        assert(name@ =~= original@ + seq!['_'] + digits@);
    } else {
        append_chars(&mut name, &stem);
        name.push('_');
        append_chars(&mut name, &digits);
        name.push('.');
        append_chars(&mut name, &ext);
        assert(name@ =~= stem@ + seq!['_'] + digits@ + seq!['.'] + ext@);
    }
    from_chars(&name)
}

/// Names files by a numbering pattern; the file at position `i` gets the
/// number `start + i`. A path that occurs more than once gets the name of
/// its last occurrence.
pub fn apply_sequential_numbering(paths: &Vec<String>, pattern: &str, start: usize, padding: usize) -> (
    names: TextMap<String>)
    requires
        start + paths@.len() <= usize::MAX,
    ensures
        names.wf(),
        holds_names(
            names@,
            numbered_names(
                crate::grouping::path_texts(paths@),
                pattern@,
                start as nat,
                padding as nat,
                paths@.len() as int,
            ),
        ),
{
    let ghost texts = crate::grouping::path_texts(paths@);
    let mut names: TextMap<String> = TextMap::new();
    let mut i: usize = 0;
    while i < paths.len()
        invariant
            i <= paths.len(),
            start + paths@.len() <= usize::MAX,
            texts == crate::grouping::path_texts(paths@),
            names.wf(),
            holds_names(
                names@,
                numbered_names(texts, pattern@, start as nat, padding as nat, i as int),
            ),
        decreases paths.len() - i,
    {
        let ghost before = names@;
        let ghost expected = numbered_names(texts, pattern@, start as nat, padding as nat, i as int);
        let name = sequential_name(paths[i].as_str(), pattern, start + i, padding);
        let ghost name_text = name@;
        names.insert(paths[i].clone(), name);
        proof {
            assert(texts[i as int] == paths@[i as int]@);
            let next = numbered_names(texts, pattern@, start as nat, padding as nat, i + 1);
            assert(next == expected.insert(texts[i as int], name_text));
            assert forall|key: Seq<char>|
                {
                    &&& #[trigger] names@.contains_key(key) == next.contains_key(key)
                    &&& names@.contains_key(key) ==> names@[key]@ == next[key]
                } by {
                assert(before.contains_key(key) == expected.contains_key(key));
            }
        }
        i += 1;
    }
    names
}

/// What is known of the media in a file that is renamed by template.
#[derive(Debug)]
pub struct MediaFacts {
    /// `video`, `audio` or `file`.
    pub file_type: String,
    pub video_codec: Option<String>,
    pub audio_codec: Option<String>,
}

/// Mathematical value of a [`MediaFacts`].
pub struct MediaFactsView {
    pub file_type: Seq<char>,
    pub video_codec: Option<Seq<char>>,
    pub audio_codec: Option<Seq<char>>,
}

impl View for MediaFacts {
    type V = MediaFactsView;

    open spec fn view(&self) -> MediaFactsView {
        MediaFactsView {
            file_type: self.file_type@,
            video_codec: crate::streams::text_view(self.video_codec),
            audio_codec: crate::streams::text_view(self.audio_codec),
        }
    }
}

/// Whether a template names a placeholder that is filled from the media.
pub open spec fn wants_media(text: Seq<char>) -> bool {
    contains_text(text, "{type}"@) || contains_text(text, "{video_codec}"@) || contains_text(
        text,
        "{audio_codec}"@,
    )
}

/// The name of the last directory of a path.
pub open spec fn parent_name_of(path: Seq<char>) -> Seq<char> {
    match parent_of(path) {
        Some(dir) => or_empty(file_name_of(dir)),
        None => Seq::empty(),
    }
}

/// A template with the placeholders filled that do not depend on the media:
/// `{name}`, `{ext}`, `{date}`, `{index}`, `{counter}` and `{parent}`, in
/// this order.
pub open spec fn template_basics(
    path: Seq<char>,
    template: Seq<char>,
    index: nat,
    counter: nat,
    date: Seq<char>,
) -> Seq<char> {
    let with_name = replace_all(template, "{name}"@, or_empty(file_stem_of(path)));
    let with_ext = replace_all(with_name, "{ext}"@, or_empty(extension_of(path)));
    let with_date = replace_all(with_ext, "{date}"@, date);
    let with_index = replace_all(with_date, "{index}"@, decimal_text(index));
    let with_counter = replace_all(with_index, "{counter}"@, decimal_text(counter));
    replace_all(with_counter, "{parent}"@, parent_name_of(path))
}

/// A text with the placeholders `{type}`, `{video_codec}` and
/// `{audio_codec}` filled, in this order. Codecs that are not known are
/// called `unknown`; a file of which nothing is known is a `file` with the
/// codecs `none`.
pub open spec fn with_media(text: Seq<char>, media: Option<MediaFactsView>) -> Seq<char> {
    let (kind, video, audio) = match media {
        Some(facts) => (
            facts.file_type,
            match facts.video_codec {
                Some(codec) => codec,
                None => "unknown"@,
            },
            match facts.audio_codec {
                Some(codec) => codec,
                None => "unknown"@,
            },
        ),
        None => ("file"@, "none"@, "none"@),
    };
    replace_all(
        replace_all(replace_all(text, "{type}"@, kind), "{video_codec}"@, video),
        "{audio_codec}"@,
        audio,
    )
}

/// The name of the file at `path` under a template. A name without a dot
/// gets the extension of the file, if it has one.
pub open spec fn template_name(
    path: Seq<char>,
    template: Seq<char>,
    index: nat,
    counter: nat,
    date: Seq<char>,
    media: Option<MediaFactsView>,
) -> Seq<char> {
    let basics = template_basics(path, template, index, counter, date);
    let filled = if wants_media(basics) {
        with_media(basics, media)
    } else {
        basics
    };
    let ext = or_empty(extension_of(path));
    if ext.len() > 0 && !crate::packets::has_char(filled, '.') {
        filled + seq!['.'] + ext
    } else {
        filled
    }
}

/// Whether a template, filled as far as it does not depend on the media,
/// still names a placeholder that is filled from the media.
pub fn template_needs_media(path: &str, template: &str, index: usize, counter: usize, date: &str) -> (
    needed: bool)
    ensures
        needed == wants_media(
            template_basics(path@, template@, index as nat, counter as nat, date@),
        ),
{
    let basics = fill_basics(path, template, index, counter, date);
    has_literal(&basics, "{type}") || has_literal(&basics, "{video_codec}") || has_literal(
        &basics,
        "{audio_codec}",
    )
}

/// A template with the placeholders filled that do not depend on the media.
fn fill_basics(path: &str, template: &str, index: usize, counter: usize, date: &str) -> (basics:
    Vec<char>)
    ensures
        basics@ == template_basics(path@, template@, index as nat, counter as nat, date@),
{
    let chars = to_chars(path);
    let stem = chars_or_empty(file_stem(&chars));
    let ext = chars_or_empty(extension(&chars));
    let parent_name = match parent(&chars) {
        Some(dir) => chars_or_empty(file_name(&dir)),
        None => {
            let empty: Vec<char> = Vec::new();
            assert(empty@ =~= Seq::<char>::empty());
            empty
        },
    };
    let mut index_text: Vec<char> = Vec::new();
    push_decimal(&mut index_text, index as u64);
    assert(index_text@ =~= decimal_text(index as nat));
    let mut counter_text: Vec<char> = Vec::new();
    push_decimal(&mut counter_text, counter as u64);
    assert(counter_text@ =~= decimal_text(counter as nat));
    let template_chars = to_chars(template);
    let date_chars = to_chars(date);
    let with_name = replace_literal(&template_chars, "{name}", &stem);
    let with_ext = replace_literal(&with_name, "{ext}", &ext);
    let with_date = replace_literal(&with_ext, "{date}", &date_chars);
    let with_index = replace_literal(&with_date, "{index}", &index_text);
    let with_counter = replace_literal(&with_index, "{counter}", &counter_text);
    replace_literal(&with_counter, "{parent}", &parent_name)
}

/// The characters of an optional codec name, or of `missing` if there is none.
fn codec_or(codec: &Option<String>, missing: &str) -> (chars: Vec<char>)
    ensures
        chars@ == match crate::streams::text_view(*codec) {
            Some(name) => name,
            None => missing@,
        },
{
    match codec {
        Some(name) => to_chars(name.as_str()),
        None => to_chars(missing),
    }
}

/// Names the file at `path` by a template.
///
/// `date` is the text for `{date}`; `media` is what is known of the media
/// in the file, `None` if it is not a media file.
pub fn apply_template(
    path: &str,
    template: &str,
    index: usize,
    counter: usize,
    date: &str,
    media: &Option<MediaFacts>,
) -> (name: Result<String, String>)
    ensures
        name is Ok,
        name->Ok_0@ == template_name(
            path@,
            template@,
            index as nat,
            counter as nat,
            date@,
            match *media {
                Some(facts) => Some(facts@),
                None => None,
            },
        ),
{
    let basics = fill_basics(path, template, index, counter, date);
    let needs_media = has_literal(&basics, "{type}") || has_literal(&basics, "{video_codec}")
        || has_literal(&basics, "{audio_codec}");
    let mut filled: Vec<char> = if needs_media {
        let (kind, video, audio) = match media {
            Some(facts) => (
                to_chars(facts.file_type.as_str()),
                codec_or(&facts.video_codec, "unknown"),
                codec_or(&facts.audio_codec, "unknown"),
            ),
            None => (to_chars("file"), to_chars("none"), to_chars("none")),
        };
        let with_kind = replace_literal(&basics, "{type}", &kind);
        let with_video = replace_literal(&with_kind, "{video_codec}", &video);
        replace_literal(&with_video, "{audio_codec}", &audio)
    } else {
        basics
    };
    let chars = to_chars(path);
    let ext = chars_or_empty(extension(&chars));
    if ext.len() > 0 && crate::text::find_char(&filled, '.', 0, filled.len()) >= filled.len() {
        let ghost before = filled@;
        filled.push('.');
        append_chars(&mut filled, &ext);
        assert(filled@ =~= before + seq!['.'] + ext@);
    }
    Ok(from_chars(&filled))
}

/// What is known of the media after a look at one more stream; `None` if
/// the stream does not name its kind.
pub open spec fn media_facts_step(facts: MediaFactsView, stream: JsonView) -> Option<MediaFactsView> {
    match stream.text_of("codec_type"@) {
        None => None,
        Some(kind) => Some(
            if kind == "video"@ {
                MediaFactsView {
                    file_type: "video"@,
                    video_codec: if facts.video_codec is None {
                        stream.text_of("codec_name"@)
                    } else {
                        facts.video_codec
                    },
                    ..facts
                }
            } else if kind == "audio"@ {
                MediaFactsView {
                    file_type: if facts.file_type == "file"@ {
                        "audio"@
                    } else {
                        facts.file_type
                    },
                    audio_codec: if facts.audio_codec is None {
                        stream.text_of("codec_name"@)
                    } else {
                        facts.audio_codec
                    },
                    ..facts
                }
            } else {
                facts
            },
        ),
    }
}

/// What is known of the media after a look at the first `n` streams.
pub open spec fn media_facts_upto(streams: Seq<JsonView>, n: int) -> Option<MediaFactsView>
    decreases n,
{
    if n <= 0 {
        Some(MediaFactsView { file_type: "file"@, video_codec: None, audio_codec: None })
    } else {
        match media_facts_upto(streams, n - 1) {
            Some(facts) => media_facts_step(facts, streams[n - 1]),
            None => None,
        }
    }
}

/// What a metadata document tells of the media in a file: whether it is a
/// video, an audio file or neither, and its first video and audio codec.
/// Nothing is known if the document has no stream list or lists a stream
/// that does not name its kind.
pub open spec fn media_facts_in(document: JsonView) -> Option<MediaFactsView> {
    match document.get("streams"@) {
        Some(member) => match member.as_array() {
            Some(streams) => media_facts_upto(streams, streams.len() as int),
            None => None,
        },
        None => None,
    }
}

/// Reads what a metadata document tells of the media in a file.
pub fn media_facts_of(document: &JsonValue) -> (facts: Option<MediaFacts>)
    ensures
        facts is Some == media_facts_in(document@) is Some,
        facts is Some ==> facts->0@ == media_facts_in(document@)->0,
{
    let streams = match document.get("streams") {
        Some(member) => match member.as_array() {
            Some(streams) => streams,
            None => {
                return None;
            },
        },
        None => {
            return None;
        },
    };
    let ghost views = json_views(streams@);
    let mut facts = MediaFacts {
        file_type: String::from_str("file"),
        video_codec: None,
        audio_codec: None,
    };
    let mut i: usize = 0;
    while i < streams.len()
        invariant
            i <= streams.len(),
            views == json_views(streams@),
            media_facts_in(document@) == media_facts_upto(views, views.len() as int),
            media_facts_upto(views, i as int) == Some(facts@),
        decreases streams.len() - i,
    {
        let stream = &streams[i];
        assert(views[i as int] == stream@);
        let kind = match stream.text_of("codec_type") {
            Some(kind) => kind,
            None => {
                proof {
                    lemma_media_facts_stay_unknown(views, i + 1, views.len() as int);
                }
                return None;
            },
        };
        if is_text(&kind, "video") {
            facts.file_type = String::from_str("video");
            if facts.video_codec.is_none() {
                facts.video_codec = stream.string_of("codec_name");
            }
        } else if is_text(&kind, "audio") {
            let current = to_chars(facts.file_type.as_str());
            if is_text(&current, "file") {
                facts.file_type = String::from_str("audio");
            }
            if facts.audio_codec.is_none() {
                facts.audio_codec = stream.string_of("codec_name");
            }
        }
        i += 1;
    }
    Some(facts)
}

/// Once nothing is known, nothing becomes known.
proof fn lemma_media_facts_stay_unknown(streams: Seq<JsonView>, low: int, high: int)
    requires
        0 <= low <= high,
        media_facts_upto(streams, low) is None,
    ensures
        media_facts_upto(streams, high) is None,
    decreases high - low,
{
    if low < high {
        lemma_media_facts_stay_unknown(streams, low, high - 1);
    }
}

/// Argument list of the probe that reports the streams and the container
/// format of the file at `path` for the names of templates.
pub open spec fn media_facts_arguments(path: Seq<char>) -> Seq<Seq<char>> {
    seq![
        "-v"@,
        "quiet"@,
        "-print_format"@,
        "json"@,
        "-show_streams"@,
        "-show_format"@,
        path,
    ]
}

/// Argument list of the probe for the names of templates.
pub fn media_facts_probe_arguments(path: &str) -> (arguments: Vec<String>)
    ensures
        string_views(arguments@) == media_facts_arguments(path@),
{
    let mut arguments: Vec<String> = Vec::new();
    assert(string_views(arguments@) =~= Seq::<Seq<char>>::empty());
    push_argument(&mut arguments, "-v");
    push_argument(&mut arguments, "quiet");
    push_argument(&mut arguments, "-print_format");
    push_argument(&mut arguments, "json");
    push_argument(&mut arguments, "-show_streams");
    push_argument(&mut arguments, "-show_format");
    push_argument(&mut arguments, path);
    assert(string_views(arguments@) =~= media_facts_arguments(path@));
    arguments
}

/// What a finished probe tells of the media in a file: nothing if the tool
/// reported failure or its output is no JSON document, else what the
/// document tells.
pub open spec fn media_facts_of_run(success: bool, output: Seq<char>) -> Option<MediaFactsView> {
    if success && json_document(output) is Some {
        media_facts_in(json_document(output)->0)
    } else {
        None
    }
}

/// Reads what a finished probe tells of the media in a file.
pub fn get_media_metadata(success: bool, output: &str) -> (facts: Option<MediaFacts>)
    ensures
        facts is Some == media_facts_of_run(success, output@) is Some,
        facts is Some ==> facts->0@ == media_facts_of_run(success, output@)->0,
{
    if !success {
        return None;
    }
    match parse_json(output) {
        Ok(document) => media_facts_of(&document),
        Err(_) => None,
    }
}

} // verus!

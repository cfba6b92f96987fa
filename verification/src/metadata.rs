//! Listing and editing of metadata: the tags that the probe reports, and
//! the argument lists of the tools that rewrite them.

use crate::files::FileMetadata;
use crate::json::{
    json_document, json_text, json_views, member_views, parse_json, JsonValue, JsonView,
};
use crate::paths::{extension_of, file_stem_of, parent_of, SEPARATOR};
use crate::packets::{micros_value, parse_micros};
use crate::probe::string_views;
use crate::streams::text_view;
use crate::text::{
    append_chars, append_text, char_is_whitespace, from_chars, is_text, is_whitespace,
    push_signed_decimal, signed_decimal_text, slice_chars, to_chars,
};
use vstd::prelude::*;

verus! {

/// What a tag belongs to.
#[derive(Debug, Clone, Copy, PartialEq, Eq, Structural)]
pub enum MetadataScope {
    /// The container.
    Format,
    /// One stream of the container.
    Stream,
    /// The file, as the file-level tool sees it.
    File,
}

/// Which tool reported a tag.
#[derive(Debug, Clone, Copy, PartialEq, Eq, Structural)]
pub enum MetadataOrigin {
    Ffprobe,
    Exiftool,
}

/// What an edit does to a tag.
#[derive(Debug, Clone, Copy, PartialEq, Eq, Structural)]
pub enum MetadataAction {
    SetValue,
    Delete,
}

/// One tag.
#[derive(Debug)]
pub struct MetadataEntry {
    pub key: String,
    pub value: String,
    pub scope: MetadataScope,
    pub stream_index: Option<i32>,
    pub origin: MetadataOrigin,
    /// Whether the tool that can rewrite the tag is installed.
    pub editable: bool,
}

/// One edit.
#[derive(Debug)]
pub struct MetadataOperation {
    pub action: MetadataAction,
    pub key: String,
    pub value: Option<String>,
    pub scope: MetadataScope,
    pub stream_index: Option<i32>,
}

/// Which tools are installed.
#[derive(Debug, Clone, Copy, PartialEq, Eq, Structural)]
pub struct MetadataToolAvailability {
    pub ffmpeg: bool,
    pub ffprobe: bool,
    pub exiftool: bool,
}

/// Outcome of a batch of edits.
#[derive(Debug)]
pub struct MetadataUpdateResult {
    pub success: bool,
    pub applied: Vec<MetadataOperation>,
    pub errors: Vec<String>,
}

/// Mathematical value of a [`MetadataEntry`].
pub struct EntryView {
    pub key: Seq<char>,
    pub value: Seq<char>,
    pub scope: MetadataScope,
    pub stream_index: Option<i32>,
    pub origin: MetadataOrigin,
    pub editable: bool,
}

impl View for MetadataEntry {
    type V = EntryView;

    open spec fn view(&self) -> EntryView {
        EntryView {
            key: self.key@,
            value: self.value@,
            scope: self.scope,
            stream_index: self.stream_index,
            origin: self.origin,
            editable: self.editable,
        }
    }
}

/// Mathematical value of a [`MetadataOperation`].
pub struct OperationView {
    pub action: MetadataAction,
    pub key: Seq<char>,
    pub value: Option<Seq<char>>,
    pub scope: MetadataScope,
    pub stream_index: Option<i32>,
}

impl View for MetadataOperation {
    type V = OperationView;

    open spec fn view(&self) -> OperationView {
        OperationView {
            action: self.action,
            key: self.key@,
            value: text_view(self.value),
            scope: self.scope,
            stream_index: self.stream_index,
        }
    }
}

impl Clone for MetadataOperation {
    fn clone(&self) -> (copy: Self)
        ensures
            copy@ == self@,
    {
        MetadataOperation {
            action: self.action,
            key: self.key.clone(),
            value: match &self.value {
                Some(v) => Some(v.clone()),
                None => None,
            },
            scope: self.scope,
            stream_index: self.stream_index,
        }
    }
}

/// Which tools are installed, from whether each was found.
pub fn tool_status(ffmpeg: bool, ffprobe: bool, exiftool: bool) -> (tools: MetadataToolAvailability)
    ensures
        tools == (MetadataToolAvailability { ffmpeg, ffprobe, exiftool }),
{
    MetadataToolAvailability { ffmpeg, ffprobe, exiftool }
}

/// Which tools are installed, from where each was found.
pub fn detect_tools(ffmpeg: &Option<String>, ffprobe: &Option<String>, exiftool: &Option<String>) -> (
    tools: MetadataToolAvailability)
    ensures
        tools == (MetadataToolAvailability {
            ffmpeg: ffmpeg is Some,
            ffprobe: ffprobe is Some,
            exiftool: exiftool is Some,
        }),
{
    tool_status(ffmpeg.is_some(), ffprobe.is_some(), exiftool.is_some())
}

/// Views of a sequence of entries, in order.
pub open spec fn entry_views(entries: Seq<MetadataEntry>) -> Seq<EntryView> {
    entries.map_values(|e: MetadataEntry| e@)
}

/// The tags among the first `n` members of a tag object: the members whose
/// value is a string, in order.
pub open spec fn tags_of(
    members: Seq<(Seq<char>, JsonView)>,
    scope: MetadataScope,
    stream_index: Option<i32>,
    editable: bool,
    n: int,
) -> Seq<EntryView>
    decreases n,
{
    if n <= 0 {
        Seq::empty()
    } else {
        let before = tags_of(members, scope, stream_index, editable, n - 1);
        match members[n - 1].1 {
            JsonView::Text(value) => before.push(
                EntryView {
                    key: members[n - 1].0,
                    value,
                    scope,
                    stream_index,
                    origin: MetadataOrigin::Ffprobe,
                    editable,
                },
            ),
            _ => before,
        }
    }
}

/// The tags of a container or stream: the string members of its member
/// `tags`, if that is an object.
pub open spec fn tags_in(
    owner: JsonView,
    scope: MetadataScope,
    stream_index: Option<i32>,
    editable: bool,
) -> Seq<EntryView> {
    match owner.get("tags"@) {
        Some(JsonView::Object(members)) => tags_of(
            members,
            scope,
            stream_index,
            editable,
            members.len() as int,
        ),
        _ => Seq::empty(),
    }
}

/// Appends the tags of a container or stream.
pub fn push_tags(
    entries: &mut Vec<MetadataEntry>,
    owner: &JsonValue,
    scope: MetadataScope,
    stream_index: Option<i32>,
    editable: bool,
)
    ensures
        entry_views(final(entries)@) == entry_views(old(entries)@) + tags_in(
            owner@,
            scope,
            stream_index,
            editable,
        ),
{
    let ghost start = entry_views(entries@);
    let members = match owner.get("tags") {
        Some(tags) => match tags.as_object() {
            Some(members) => members,
            None => {
                assert(start + Seq::<EntryView>::empty() =~= start);
                return ;
            },
        },
        None => {
            assert(start + Seq::<EntryView>::empty() =~= start);
            return ;
        },
    };
    let ghost views = member_views(members@);
    let mut i: usize = 0;
    assert(start + tags_of(views, scope, stream_index, editable, 0) =~= start);
    while i < members.len()
        invariant
            i <= members.len(),
            views == member_views(members@),
            entry_views(entries@) == start + tags_of(views, scope, stream_index, editable, i as int),
        decreases members.len() - i,
    {
        let ghost before = entry_views(entries@);
        assert(views[i as int] == (members@[i as int].0@, members@[i as int].1@));
        match members[i].1.as_str() {
            Some(value) => {
                entries.push(
                    MetadataEntry {
                        key: members[i].0.clone(),
                        value: value.clone(),
                        scope,
                        stream_index,
                        origin: MetadataOrigin::Ffprobe,
                        editable,
                    },
                );
                assert(entry_views(entries@) =~= before.push(
                    EntryView {
                        key: views[i as int].0,
                        value: value@,
                        scope,
                        stream_index,
                        origin: MetadataOrigin::Ffprobe,
                        editable,
                    },
                ));
                assert(before.push(
                    EntryView {
                        key: views[i as int].0,
                        value: value@,
                        scope,
                        stream_index,
                        origin: MetadataOrigin::Ffprobe,
                        editable,
                    },
                ) =~= start + tags_of(views, scope, stream_index, editable, i + 1));
            },
            None => {},
        }
        i += 1;
    }
}

/// `text` without the white space at its ends.
pub open spec fn trimmed_text(text: Seq<char>) -> Seq<char> {
    text.subrange(leading_space(text, 0), trailing_space(text, text.len() as int))
}

/// First position at or behind `from` that holds no white space, or the
/// length of the text.
pub open spec fn leading_space(text: Seq<char>, from: int) -> int
    decreases text.len() - from,
{
    if from >= text.len() {
        text.len() as int
    } else if from < 0 || !is_whitespace(text[from]) {
        from
    } else {
        leading_space(text, from + 1)
    }
}

/// End of the text before position `to` without the white space that ends
/// it, but not before the end of the leading white space.
pub open spec fn trailing_space(text: Seq<char>, to: int) -> int
    decreases to,
{
    if to <= 0 || to <= leading_space(text, 0) || to > text.len() {
        leading_space(text, 0)
    } else if !is_whitespace(text[to - 1]) {
        to
    } else {
        trailing_space(text, to - 1)
    }
}

/// `leading_space` lies between `from` and the length of the text.
proof fn lemma_leading_space(text: Seq<char>, from: int)
    requires
        0 <= from <= text.len(),
    ensures
        from <= leading_space(text, from) <= text.len(),
    decreases text.len() - from,
{
    if from < text.len() && is_whitespace(text[from]) {
        lemma_leading_space(text, from + 1);
    }
}

/// The characters of `text` without the white space at its ends.
pub fn trim_text(text: &str) -> (trimmed: Vec<char>)
    ensures
        trimmed@ == trimmed_text(text@),
{
    let chars = to_chars(text);
    let n = chars.len();
    let mut start: usize = 0;
    while start < n && char_is_whitespace(chars[start])
        invariant
            start <= n,
            n == chars.len(),
            leading_space(chars@, 0) == leading_space(chars@, start as int),
        decreases n - start,
    {
        start += 1;
    }
    let mut end: usize = n;
    while end > start && char_is_whitespace(chars[end - 1])
        invariant
            start <= end <= n,
            n == chars.len(),
            start == leading_space(chars@, 0),
            trailing_space(chars@, n as int) == trailing_space(chars@, end as int),
        decreases end,
    {
        end -= 1;
    }
    slice_chars(&chars, start, end)
}

/// The assignment that an edit makes: the trimmed key, `=`, and the new
/// value, which is empty for a deletion.
pub open spec fn assignment(operation: OperationView) -> Seq<char> {
    trimmed_text(operation.key) + seq!['='] + match operation.action {
        MetadataAction::Delete => Seq::<char>::empty(),
        MetadataAction::SetValue => match operation.value {
            Some(value) => value,
            None => Seq::<char>::empty(),
        },
    }
}

/// Whether an edit deletes every tag of its scope.
pub open spec fn wipes(operation: OperationView) -> bool {
    operation.action == MetadataAction::Delete && trimmed_text(operation.key) == seq!['*']
}

/// The stream that a stream edit names; `-1` if it names none.
pub open spec fn named_stream(operation: OperationView) -> int {
    match operation.stream_index {
        Some(index) => index as int,
        None => -1,
    }
}

/// The arguments of the mux tool for the edits of single tags among the
/// first `n` operations, in order.
pub open spec fn mux_tag_arguments(operations: Seq<OperationView>, n: int) -> Seq<Seq<char>>
    decreases n,
{
    if n <= 0 {
        Seq::empty()
    } else {
        let before = mux_tag_arguments(operations, n - 1);
        let operation = operations[n - 1];
        if wipes(operation) {
            before
        } else {
            match operation.scope {
                MetadataScope::Format => before + seq!["-metadata"@, assignment(operation)],
                MetadataScope::Stream => before + seq![
                    "-metadata:s:"@ + signed_decimal_text(named_stream(operation)),
                    assignment(operation),
                ],
                MetadataScope::File => before,
            }
        }
    }
}

/// Whether one of the first `n` operations deletes every tag of the container.
pub open spec fn wipes_format(operations: Seq<OperationView>, n: int) -> bool
    decreases n,
{
    if n <= 0 {
        false
    } else {
        wipes_format(operations, n - 1) || (operations[n - 1].scope == MetadataScope::Format
            && wipes(operations[n - 1]))
    }
}

/// The arguments of the mux tool that delete every tag of a stream, for
/// the first `n` operations, in order.
pub open spec fn mux_stream_wipes(operations: Seq<OperationView>, n: int) -> Seq<Seq<char>>
    decreases n,
{
    if n <= 0 {
        Seq::empty()
    } else {
        let before = mux_stream_wipes(operations, n - 1);
        let operation = operations[n - 1];
        if operation.scope == MetadataScope::Stream && wipes(operation) {
            before + seq![
                "-map_metadata:s:"@ + signed_decimal_text(named_stream(operation)),
                "-1"@,
            ]
        } else {
            before
        }
    }
}

/// Argument list of the mux tool for a batch of edits: all streams are
/// copied, single tags are set or emptied in the order of the edits, then
/// whole scopes are wiped, and the result goes to `output`.
pub open spec fn mux_arguments(input: Seq<char>, output: Seq<char>, operations: Seq<OperationView>) -> Seq<
    Seq<char>,
> {
    let n = operations.len() as int;
    seq!["-y"@, "-i"@, input, "-map"@, "0"@, "-c"@, "copy"@] + mux_tag_arguments(operations, n) + (
    if wipes_format(operations, n) {
        seq!["-map_metadata"@, "-1"@]
    } else {
        Seq::empty()
    }) + mux_stream_wipes(operations, n) + seq![output]
}

/// Views of a sequence of operations, in order.
pub open spec fn operation_views(operations: Seq<MetadataOperation>) -> Seq<OperationView> {
    operations.map_values(|o: MetadataOperation| o@)
}

/// The assignment that an edit makes.
fn build_assignment(operation: &MetadataOperation) -> (text: String)
    ensures
        text@ == assignment(operation@),
{
    let mut chars = trim_text(operation.key.as_str());
    chars.push('=');
    match operation.action {
        MetadataAction::Delete => {},
        MetadataAction::SetValue => match &operation.value {
            Some(value) => {
                append_text(&mut chars, value.as_str());
            },
            None => {},
        },
    }
    assert(chars@ =~= assignment(operation@));
    from_chars(&chars)
}

/// Whether an edit deletes every tag of its scope.
fn is_wipe(operation: &MetadataOperation) -> (wipe: bool)
    ensures
        wipe == wipes(operation@),
{
    match operation.action {
        MetadataAction::Delete => {
            let key = trim_text(operation.key.as_str());
            let star = key.len() == 1 && key[0] == '*';
            assert(star == (key@ == seq!['*'])) by {
                if key@ == seq!['*'] {
                    assert(key@.len() == 1 && key@[0] == '*');
                }
                if star {
                    assert(key@ =~= seq!['*']);
                }
            }
            star
        },
        MetadataAction::SetValue => false,
    }
}

/// `prefix` followed by the stream that a stream edit names.
fn stream_option(prefix: &str, operation: &MetadataOperation) -> (text: String)
    ensures
        text@ == prefix@ + signed_decimal_text(named_stream(operation@)),
{
    let mut chars: Vec<char> = Vec::new();
    append_text(&mut chars, prefix);
    let index: i32 = match operation.stream_index {
        Some(i) => i,
        None => -1,
    };
    push_signed_decimal(&mut chars, index as i64);
    assert(chars@ =~= prefix@ + signed_decimal_text(named_stream(operation@)));
    from_chars(&chars)
}

/// Argument list of the mux tool for a batch of edits.
pub fn ffmpeg_operation_arguments(input: &str, output: &str, operations: &Vec<MetadataOperation>) -> (
    arguments: Vec<String>)
    ensures
        string_views(arguments@) == mux_arguments(input@, output@, operation_views(operations@)),
{
    let ghost views = operation_views(operations@);
    let mut arguments: Vec<String> = Vec::new();
    arguments.push(String::from_str("-y"));
    arguments.push(String::from_str("-i"));
    arguments.push(String::from_str(input));
    arguments.push(String::from_str("-map"));
    arguments.push(String::from_str("0"));
    arguments.push(String::from_str("-c"));
    arguments.push(String::from_str("copy"));
    let ghost head = string_views(arguments@);
    assert(head =~= seq!["-y"@, "-i"@, input@, "-map"@, "0"@, "-c"@, "copy"@]);
    let mut format_wipe = false;
    let mut wipes_list: Vec<String> = Vec::new();
    assert(string_views(wipes_list@) =~= Seq::<Seq<char>>::empty());
    assert(head + Seq::<Seq<char>>::empty() =~= head);
    let mut i: usize = 0;
    while i < operations.len()
        invariant
            i <= operations.len(),
            views == operation_views(operations@),
            string_views(arguments@) == head + mux_tag_arguments(views, i as int),
            format_wipe == wipes_format(views, i as int),
            string_views(wipes_list@) == mux_stream_wipes(views, i as int),
        decreases operations.len() - i,
    {
        let operation = &operations[i];
        assert(views[i as int] == operation@);
        let ghost before = string_views(arguments@);
        let ghost wiped = string_views(wipes_list@);
        let wipe = is_wipe(operation);
        match operation.scope {
            MetadataScope::Format => {
                if wipe {
                    format_wipe = true;
                } else {
                    arguments.push(String::from_str("-metadata"));
                    arguments.push(build_assignment(operation));
                    assert(string_views(arguments@) =~= before + seq![
                        "-metadata"@,
                        assignment(operation@),
                    ]);
                }
            },
            MetadataScope::Stream => {
                if wipe {
                    wipes_list.push(stream_option("-map_metadata:s:", operation));
                    wipes_list.push(String::from_str("-1"));
                    assert(string_views(wipes_list@) =~= wiped + seq![
                        "-map_metadata:s:"@ + signed_decimal_text(named_stream(operation@)),
                        "-1"@,
                    ]);
                } else {
                    arguments.push(stream_option("-metadata:s:", operation));
                    arguments.push(build_assignment(operation));
                    assert(string_views(arguments@) =~= before + seq![
                        "-metadata:s:"@ + signed_decimal_text(named_stream(operation@)),
                        assignment(operation@),
                    ]);
                }
            },
            MetadataScope::File => {},
        }
        assert(head + mux_tag_arguments(views, i + 1) =~= string_views(arguments@));
        i += 1;
    }
    let ghost tagged = string_views(arguments@);
    if format_wipe {
        arguments.push(String::from_str("-map_metadata"));
        arguments.push(String::from_str("-1"));
        assert(string_views(arguments@) =~= tagged + seq!["-map_metadata"@, "-1"@]);
    } else {
        assert(tagged + Seq::<Seq<char>>::empty() =~= tagged);
    }
    let ghost wiped_format = string_views(arguments@);
    let mut k: usize = 0;
    while k < wipes_list.len()
        invariant
            k <= wipes_list.len(),
            string_views(arguments@) == wiped_format + string_views(wipes_list@).take(k as int),
        decreases wipes_list.len() - k,
    {
        let ghost so_far = string_views(arguments@);
        arguments.push(wipes_list[k].clone());
        k += 1;
        assert(string_views(arguments@) =~= so_far.push(wipes_list@[k - 1]@));
        assert(string_views(wipes_list@).take(k as int) =~= string_views(wipes_list@).take(
            k - 1,
        ).push(wipes_list@[k - 1]@));
    }
    assert(string_views(wipes_list@).take(k as int) =~= string_views(wipes_list@));
    let ghost almost = string_views(arguments@);
    arguments.push(String::from_str(output));
    assert(string_views(arguments@) =~= almost + seq![output@]);
    assert(string_views(arguments@) =~= mux_arguments(input@, output@, views));
    arguments
}

/// The argument of the file-level tool for one edit.
pub open spec fn exif_argument(operation: OperationView) -> Seq<char> {
    match operation.action {
        MetadataAction::SetValue => seq!['-'] + trimmed_text(operation.key) + seq!['='] + match operation.value {
            Some(value) => value,
            None => Seq::<char>::empty(),
        },
        MetadataAction::Delete => if trimmed_text(operation.key) == seq!['*'] {
            "-all="@
        } else {
            seq!['-'] + trimmed_text(operation.key) + seq!['=']
        },
    }
}

/// Argument list of the file-level tool for a batch of edits: the result
/// goes to `output`, the edits follow in order, and the input comes last.
pub open spec fn exif_arguments(input: Seq<char>, output: Seq<char>, operations: Seq<OperationView>) -> Seq<
    Seq<char>,
> {
    seq!["-quiet"@, "-out"@, output] + operations.map_values(|o: OperationView| exif_argument(o))
        + seq![input]
}

/// Argument list of the file-level tool for a batch of edits.
pub fn exiftool_operation_arguments(input: &str, output: &str, operations: &Vec<MetadataOperation>) -> (
    arguments: Vec<String>)
    ensures
        string_views(arguments@) == exif_arguments(input@, output@, operation_views(operations@)),
{
    let ghost views = operation_views(operations@);
    let mut arguments: Vec<String> = Vec::new();
    arguments.push(String::from_str("-quiet"));
    arguments.push(String::from_str("-out"));
    arguments.push(String::from_str(output));
    let ghost head = string_views(arguments@);
    assert(head =~= seq!["-quiet"@, "-out"@, output@]);
    let mut i: usize = 0;
    while i < operations.len()
        invariant
            i <= operations.len(),
            views == operation_views(operations@),
            string_views(arguments@) == head + views.map_values(
                |o: OperationView| exif_argument(o),
            ).take(i as int),
        decreases operations.len() - i,
    {
        let operation = &operations[i];
        assert(views[i as int] == operation@);
        let key = trim_text(operation.key.as_str());
        let mut chars: Vec<char> = Vec::new();
        match operation.action {
            MetadataAction::SetValue => {
                chars.push('-');
                append_chars(&mut chars, &key);
                chars.push('=');
                match &operation.value {
                    Some(value) => {
                        append_text(&mut chars, value.as_str());
                    },
                    None => {},
                }
            },
            MetadataAction::Delete => {
                let star = is_wipe(operation);
                if star {
                    append_text(&mut chars, "-all=");
                } else {
                    chars.push('-');
                    append_chars(&mut chars, &key);
                    chars.push('=');
                }
            },
        }
        assert(chars@ =~= exif_argument(operation@));
        let ghost so_far = string_views(arguments@);
        let ghost mapped = views.map_values(|o: OperationView| exif_argument(o));
        arguments.push(from_chars(&chars));
        i += 1;
        assert(string_views(arguments@) =~= so_far.push(chars@));
        assert(mapped.take(i as int) =~= mapped.take(i - 1).push(exif_argument(views[i - 1])));
    }
    assert(views.map_values(|o: OperationView| exif_argument(o)).take(i as int)
        =~= views.map_values(|o: OperationView| exif_argument(o)));
    let ghost almost = string_views(arguments@);
    arguments.push(String::from_str(input));
    assert(string_views(arguments@) =~= almost + seq![input@]);
    arguments
}

/// The edits among the first `n` that the given tool makes, in order: the
/// file-level tool makes the edits of scope `File`, the mux tool all others.
pub open spec fn edits_for(operations: Seq<OperationView>, file_level: bool, n: int) -> Seq<
    OperationView,
>
    decreases n,
{
    if n <= 0 {
        Seq::empty()
    } else if (operations[n - 1].scope == MetadataScope::File) == file_level {
        edits_for(operations, file_level, n - 1).push(operations[n - 1])
    } else {
        edits_for(operations, file_level, n - 1)
    }
}

/// The edits that the given tool makes, in order.
pub fn select_operations(operations: &Vec<MetadataOperation>, file_level: bool) -> (selected: Vec<
    MetadataOperation,
>)
    ensures
        operation_views(selected@) == edits_for(
            operation_views(operations@),
            file_level,
            operations@.len() as int,
        ),
{
    let ghost views = operation_views(operations@);
    let mut selected: Vec<MetadataOperation> = Vec::new();
    let mut i: usize = 0;
    assert(operation_views(selected@) =~= Seq::<OperationView>::empty());
    while i < operations.len()
        invariant
            i <= operations.len(),
            views == operation_views(operations@),
            operation_views(selected@) == edits_for(views, file_level, i as int),
        decreases operations.len() - i,
    {
        let operation = &operations[i];
        assert(views[i as int] == operation@);
        let is_file = match operation.scope {
            MetadataScope::File => true,
            _ => false,
        };
        if is_file == file_level {
            let ghost before = operation_views(selected@);
            selected.push(operation.clone());
            assert(operation_views(selected@) =~= before.push(operation@));
        }
        i += 1;
    }
    selected
}

/// Why a batch of edits cannot be made; `None` if it can.
pub open spec fn update_obstacle(operations: Seq<OperationView>, tools: MetadataToolAvailability) -> Option<
    Seq<char>,
> {
    let n = operations.len() as int;
    if n == 0 {
        Some("No operations provided"@)
    } else if edits_for(operations, false, n).len() > 0 && !tools.ffmpeg {
        Some("ffmpeg is required to edit container/stream metadata"@)
    } else if edits_for(operations, true, n).len() > 0 && !tools.exiftool {
        Some("exiftool is required to edit file-level metadata"@)
    } else {
        None
    }
}

/// Checks that a batch of edits can be made with the tools that are installed.
pub fn check_update(operations: &Vec<MetadataOperation>, tools: &MetadataToolAvailability) -> (
    checked: Result<(), String>)
    ensures
        match update_obstacle(operation_views(operations@), *tools) {
            Some(message) => checked is Err && checked->Err_0@ == message,
            None => checked is Ok,
        },
{
    if operations.len() == 0 {
        return Err(String::from_str("No operations provided"));
    }
    let mux_edits = select_operations(operations, false);
    if mux_edits.len() > 0 && !tools.ffmpeg {
        return Err(String::from_str("ffmpeg is required to edit container/stream metadata"));
    }
    let file_edits = select_operations(operations, true);
    if file_edits.len() > 0 && !tools.exiftool {
        return Err(String::from_str("exiftool is required to edit file-level metadata"));
    }
    Ok(())
}

/// Summary of the container or of one stream.
#[derive(Debug)]
pub struct StreamSummary {
    /// Index of the stream; `-1` for the container.
    pub index: i32,
    pub codec_type: Option<String>,
    pub codec_name: Option<String>,
    pub codec_long_name: Option<String>,
    /// Duration in microseconds.
    pub duration_us: Option<i64>,
    pub bit_rate: Option<String>,
}

/// Mathematical value of a [`StreamSummary`].
pub struct SummaryView {
    pub index: i32,
    pub codec_type: Option<Seq<char>>,
    pub codec_name: Option<Seq<char>>,
    pub codec_long_name: Option<Seq<char>>,
    pub duration_us: Option<i64>,
    pub bit_rate: Option<Seq<char>>,
}

impl View for StreamSummary {
    type V = SummaryView;

    open spec fn view(&self) -> SummaryView {
        SummaryView {
            index: self.index,
            codec_type: text_view(self.codec_type),
            codec_name: text_view(self.codec_name),
            codec_long_name: text_view(self.codec_long_name),
            duration_us: self.duration_us,
            bit_rate: text_view(self.bit_rate),
        }
    }
}

/// The tags and summaries of a media file.
#[derive(Debug)]
pub struct TagListing {
    pub format_tags: Vec<MetadataEntry>,
    pub stream_tags: Vec<MetadataEntry>,
    /// The summary of the container, if the document describes it, and
    /// then one summary per stream.
    pub stream_summaries: Vec<StreamSummary>,
}

/// Everything that is known of the metadata of a file.
#[derive(Debug)]
pub struct MetadataSnapshot {
    pub path: String,
    pub file_name: String,
    pub size: u64,
    pub modified: Option<String>,
    pub created: Option<String>,
    pub extension: Option<String>,
    pub format_tags: Vec<MetadataEntry>,
    pub stream_tags: Vec<MetadataEntry>,
    pub file_tags: Vec<MetadataEntry>,
    pub stream_summaries: Vec<StreamSummary>,
    pub tool_availability: MetadataToolAvailability,
}

/// The duration that the member `duration` of a container or stream
/// declares, in microseconds.
pub open spec fn duration_in(owner: JsonView) -> Option<i64> {
    match owner.text_of("duration"@) {
        Some(text) => match micros_value(text) {
            Some(micros) => Some(micros as i64),
            None => None,
        },
        None => None,
    }
}

/// The summary of the container: its long name, or else its short name,
/// stands for the codec.
pub open spec fn format_summary(format: JsonView) -> SummaryView {
    SummaryView {
        index: -1i32,
        codec_type: Some("format"@),
        codec_name: if format.text_of("format_long_name"@) is Some {
            format.text_of("format_long_name"@)
        } else {
            format.text_of("format_name"@)
        },
        codec_long_name: None,
        duration_us: duration_in(format),
        bit_rate: format.text_of("bit_rate"@),
    }
}

/// The index that a stream declares; `-1` if it declares none.
pub open spec fn declared_index(stream: JsonView) -> i32 {
    match stream.i64_of("index"@) {
        Some(value) => value as i32,
        None => -1i32,
    }
}

/// The summary of a stream.
pub open spec fn stream_summary(stream: JsonView) -> SummaryView {
    SummaryView {
        index: declared_index(stream),
        codec_type: stream.text_of("codec_type"@),
        codec_name: stream.text_of("codec_name"@),
        codec_long_name: stream.text_of("codec_long_name"@),
        duration_us: duration_in(stream),
        bit_rate: stream.text_of("bit_rate"@),
    }
}

/// The tags of the first `n` streams, in stream order.
pub open spec fn stream_tags_of(streams: Seq<JsonView>, editable: bool, n: int) -> Seq<EntryView>
    decreases n,
{
    if n <= 0 {
        Seq::empty()
    } else {
        stream_tags_of(streams, editable, n - 1) + tags_in(
            streams[n - 1],
            MetadataScope::Stream,
            Some(declared_index(streams[n - 1])),
            editable,
        )
    }
}

/// The streams that a metadata document lists; none if it has no list.
pub open spec fn listed_streams(document: JsonView) -> Seq<JsonView> {
    match document.get("streams"@) {
        Some(member) => match member.as_array() {
            Some(streams) => streams,
            None => Seq::empty(),
        },
        None => Seq::empty(),
    }
}

/// Views of a sequence of summaries, in order.
pub open spec fn summary_views(summaries: Seq<StreamSummary>) -> Seq<SummaryView> {
    summaries.map_values(|s: StreamSummary| s@)
}

/// Whether a listing holds what a metadata document tells: the tags of the
/// container, the tags of the streams in stream order, and the summaries of
/// the container, if the document describes it, and of the streams.
pub open spec fn lists_document(listing: TagListing, document: JsonView, editable: bool) -> bool {
    &&& entry_views(listing.format_tags@) == match document.get("format"@) {
        Some(format) => tags_in(format, MetadataScope::Format, None, editable),
        None => Seq::empty(),
    }
    &&& entry_views(listing.stream_tags@) == stream_tags_of(
        listed_streams(document),
        editable,
        listed_streams(document).len() as int,
    )
    &&& summary_views(listing.stream_summaries@) == (match document.get("format"@) {
        Some(format) => seq![format_summary(format)],
        None => Seq::empty(),
    }) + listed_streams(document).map_values(|s: JsonView| stream_summary(s))
}

/// Whether a listing is empty.
pub open spec fn lists_nothing(listing: TagListing) -> bool {
    listing.format_tags@.len() == 0 && listing.stream_tags@.len() == 0
        && listing.stream_summaries@.len() == 0
}

/// The duration that a container or stream declares.
fn read_duration(owner: &JsonValue) -> (duration: Option<i64>)
    ensures
        duration == duration_in(owner@),
{
    match owner.text_of("duration") {
        Some(text) => parse_micros(&text),
        None => None,
    }
}

/// Reads the tags and summaries from a parsed metadata document.
pub fn list_probe_tags(document: &JsonValue, tools: &MetadataToolAvailability) -> (listing: TagListing)
    ensures
        lists_document(listing, document@, tools.ffmpeg),
{
    let mut format_tags: Vec<MetadataEntry> = Vec::new();
    let mut stream_tags: Vec<MetadataEntry> = Vec::new();
    let mut stream_summaries: Vec<StreamSummary> = Vec::new();
    assert(entry_views(format_tags@) =~= Seq::<EntryView>::empty());
    assert(entry_views(stream_tags@) =~= Seq::<EntryView>::empty());
    assert(summary_views(stream_summaries@) =~= Seq::<SummaryView>::empty());
    match document.get("format") {
        Some(format) => {
            push_tags(&mut format_tags, format, MetadataScope::Format, None, tools.ffmpeg);
            assert(Seq::<EntryView>::empty() + tags_in(
                format@,
                MetadataScope::Format,
                None,
                tools.ffmpeg,
            ) =~= tags_in(format@, MetadataScope::Format, None, tools.ffmpeg));
            let codec_name = match format.string_of("format_long_name") {
                Some(name) => Some(name),
                None => format.string_of("format_name"),
            };
            stream_summaries.push(
                StreamSummary {
                    index: -1,
                    codec_type: Some(String::from_str("format")),
                    codec_name,
                    codec_long_name: None,
                    duration_us: read_duration(format),
                    bit_rate: format.string_of("bit_rate"),
                },
            );
            assert(summary_views(stream_summaries@) =~= seq![format_summary(format@)]);
        },
        None => {},
    }
    let ghost head = summary_views(stream_summaries@);
    let streams = match document.get("streams") {
        Some(member) => match member.as_array() {
            Some(streams) => streams,
            None => {
                assert(head + Seq::<SummaryView>::empty() =~= head);
                assert(listed_streams(document@).map_values(|s: JsonView| stream_summary(s))
                    =~= Seq::<SummaryView>::empty());
                return TagListing { format_tags, stream_tags, stream_summaries };
            },
        },
        None => {
            assert(head + Seq::<SummaryView>::empty() =~= head);
            assert(listed_streams(document@).map_values(|s: JsonView| stream_summary(s))
                =~= Seq::<SummaryView>::empty());
            return TagListing { format_tags, stream_tags, stream_summaries };
        },
    };
    let ghost views = json_views(streams@);
    let mut i: usize = 0;
    assert(head + views.map_values(|s: JsonView| stream_summary(s)).take(0) =~= head);
    while i < streams.len()
        invariant
            i <= streams.len(),
            views == json_views(streams@),
            entry_views(stream_tags@) == stream_tags_of(views, tools.ffmpeg, i as int),
            summary_views(stream_summaries@) == head + views.map_values(
                |s: JsonView| stream_summary(s),
            ).take(i as int),
        decreases streams.len() - i,
    {
        let stream = &streams[i];
        assert(views[i as int] == stream@);
        let index: i32 = match stream.i64_of("index") {
            Some(value) => #[verifier::truncate] (value as i32),
            None => -1,
        };
        push_tags(&mut stream_tags, stream, MetadataScope::Stream, Some(index), tools.ffmpeg);
        let ghost so_far = summary_views(stream_summaries@);
        let ghost mapped = views.map_values(|s: JsonView| stream_summary(s));
        stream_summaries.push(
            StreamSummary {
                index,
                codec_type: stream.string_of("codec_type"),
                codec_name: stream.string_of("codec_name"),
                codec_long_name: stream.string_of("codec_long_name"),
                duration_us: read_duration(stream),
                bit_rate: stream.string_of("bit_rate"),
            },
        );
        i += 1;
        assert(summary_views(stream_summaries@) =~= so_far.push(stream_summary(stream@)));
        assert(mapped.take(i as int) =~= mapped.take(i - 1).push(stream_summary(views[i - 1])));
    }
    assert(views.map_values(|s: JsonView| stream_summary(s)).take(i as int) =~= views.map_values(
        |s: JsonView| stream_summary(s),
    ));
    TagListing { format_tags, stream_tags, stream_summaries }
}

/// Reads the tags and summaries from the output of the metadata probe.
/// Without output, and with output that is not a JSON document, there is
/// nothing to list.
pub fn parse_ffprobe_tags(ffprobe_data: &Option<String>, tools: &MetadataToolAvailability) -> (
    listing: TagListing)
    ensures
        ffprobe_data is None || json_document(ffprobe_data->0@) is None ==> lists_nothing(listing),
        ffprobe_data is Some && json_document(ffprobe_data->0@) is Some ==> lists_document(
            listing,
            json_document(ffprobe_data->0@)->0,
            tools.ffmpeg,
        ),
{
    match ffprobe_data {
        Some(text) => match parse_json(text.as_str()) {
            Ok(document) => list_probe_tags(&document, tools),
            Err(_) => TagListing {
                format_tags: Vec::new(),
                stream_tags: Vec::new(),
                stream_summaries: Vec::new(),
            },
        },
        None => TagListing {
            format_tags: Vec::new(),
            stream_tags: Vec::new(),
            stream_summaries: Vec::new(),
        },
    }
}

/// The text of a value of the file-level tool: a string as it is, a number
/// or a truth value in JSON notation, and any other value but null in
/// compact JSON notation. Null has no text.
pub open spec fn exif_value_text(value: JsonView) -> Option<Seq<char>> {
    match value {
        JsonView::Text(text) => Some(text),
        JsonView::Number { unsigned, signed, text } => Some(text),
        JsonView::Bool(truth) => Some(
            if truth {
                "true"@
            } else {
                "false"@
            },
        ),
        JsonView::Null => None,
        other => Some(json_text(other)),
    }
}

/// The file-level tags among the first `n` members of the tool's report:
/// every member but `SourceFile` whose value has a text, in order.
pub open spec fn exif_tags_of(members: Seq<(Seq<char>, JsonView)>, editable: bool, n: int) -> Seq<
    EntryView,
>
    decreases n,
{
    if n <= 0 {
        Seq::empty()
    } else {
        let before = exif_tags_of(members, editable, n - 1);
        let member = members[n - 1];
        if member.0 == "SourceFile"@ || exif_value_text(member.1) is None {
            before
        } else {
            before.push(
                EntryView {
                    key: member.0,
                    value: exif_value_text(member.1)->0,
                    scope: MetadataScope::File,
                    stream_index: None,
                    origin: MetadataOrigin::Exiftool,
                    editable,
                },
            )
        }
    }
}

/// The file-level tags that a report of the file-level tool lists: those
/// of the first item of the report, if the report is an array and its first
/// item an object.
pub open spec fn exif_tags_in(report: JsonView, editable: bool) -> Seq<EntryView> {
    match report {
        JsonView::Array(items) => if items.len() > 0 {
            match items[0] {
                JsonView::Object(members) => exif_tags_of(members, editable, members.len() as int),
                _ => Seq::empty(),
            }
        } else {
            Seq::empty()
        },
        _ => Seq::empty(),
    }
}

/// The text of a value of the file-level tool.
fn exif_text(value: &JsonValue) -> (text: Option<String>)
    ensures
        text_view(text) == exif_value_text(value@),
{
    match value {
        JsonValue::Text(t) => Some(t.clone()),
        JsonValue::Number(n) => Some(n.text.clone()),
        JsonValue::Bool(truth) => Some(
            if *truth {
                String::from_str("true")
            } else {
                String::from_str("false")
            },
        ),
        JsonValue::Null => None,
        JsonValue::Array(_) => {
            proof {
                crate::json::lemma_json_view(*value);
            }
            Some(value.to_text())
        },
        JsonValue::Object(_) => {
            proof {
                crate::json::lemma_json_view(*value);
            }
            Some(value.to_text())
        },
    }
}

/// Reads the file-level tags from a parsed report of the file-level tool.
pub fn list_exif_tags(report: &JsonValue, tools: &MetadataToolAvailability) -> (entries: Vec<
    MetadataEntry,
>)
    ensures
        entry_views(entries@) == exif_tags_in(report@, tools.exiftool),
{
    let mut entries: Vec<MetadataEntry> = Vec::new();
    assert(entry_views(entries@) =~= Seq::<EntryView>::empty());
    let items = match report.as_array() {
        Some(items) => items,
        None => {
            return entries;
        },
    };
    if items.len() == 0 {
        return entries;
    }
    assert(json_views(items@)[0] == items@[0]@);
    let members = match items[0].as_object() {
        Some(members) => members,
        None => {
            return entries;
        },
    };
    let ghost views = member_views(members@);
    let mut i: usize = 0;
    while i < members.len()
        invariant
            i <= members.len(),
            views == member_views(members@),
            entry_views(entries@) == exif_tags_of(views, tools.exiftool, i as int),
        decreases members.len() - i,
    {
        assert(views[i as int] == (members@[i as int].0@, members@[i as int].1@));
        let key_chars = to_chars(members[i].0.as_str());
        if !is_text(&key_chars, "SourceFile") {
            match exif_text(&members[i].1) {
                Some(value) => {
                    let ghost before = entry_views(entries@);
                    let ghost value_text = value@;
                    entries.push(
                        MetadataEntry {
                            key: members[i].0.clone(),
                            value,
                            scope: MetadataScope::File,
                            stream_index: None,
                            origin: MetadataOrigin::Exiftool,
                            editable: tools.exiftool,
                        },
                    );
                    assert(entry_views(entries@) =~= before.push(
                        EntryView {
                            key: views[i as int].0,
                            value: value_text,
                            scope: MetadataScope::File,
                            stream_index: None,
                            origin: MetadataOrigin::Exiftool,
                            editable: tools.exiftool,
                        },
                    ));
                },
                None => {},
            }
        }
        i += 1;
    }
    entries
}

/// Whether an extension, in lower case, is that of a picture.
pub open spec fn is_image_extension_text(ext: Seq<char>) -> bool {
    ||| ext == "jpg"@
    ||| ext == "jpeg"@
    ||| ext == "png"@
    ||| ext == "gif"@
    ||| ext == "bmp"@
    ||| ext == "webp"@
    ||| ext == "tiff"@
    ||| ext == "heic"@
}

/// Whether an extension, in lower case, is that of a video or audio file.
pub open spec fn is_video_audio_extension_text(ext: Seq<char>) -> bool {
    ||| ext == "mp4"@
    ||| ext == "mkv"@
    ||| ext == "avi"@
    ||| ext == "mov"@
    ||| ext == "wmv"@
    ||| ext == "flv"@
    ||| ext == "webm"@
    ||| ext == "m4v"@
    ||| ext == "mp3"@
    ||| ext == "flac"@
    ||| ext == "wav"@
    ||| ext == "aac"@
    ||| ext == "ogg"@
    ||| ext == "wma"@
    ||| ext == "m4a"@
    ||| ext == "opus"@
}

/// Whether an extension is that of a picture, without regard to case.
pub fn is_image_extension(extension: &str) -> (image: bool)
    ensures
        image == is_image_extension_text(crate::text::lowercased(extension@)),
{
    let chars = to_chars(extension);
    let lower = crate::text::lowercase_chars(&chars);
    is_text(&lower, "jpg") || is_text(&lower, "jpeg") || is_text(&lower, "png") || is_text(
        &lower,
        "gif",
    ) || is_text(&lower, "bmp") || is_text(&lower, "webp") || is_text(&lower, "tiff") || is_text(
        &lower,
        "heic",
    )
}

/// Whether an extension is that of a video or audio file, without regard to case.
pub fn is_video_audio_extension(extension: &str) -> (media: bool)
    ensures
        media == is_video_audio_extension_text(crate::text::lowercased(extension@)),
{
    let chars = to_chars(extension);
    let lower = crate::text::lowercase_chars(&chars);
    is_text(&lower, "mp4") || is_text(&lower, "mkv") || is_text(&lower, "avi") || is_text(
        &lower,
        "mov",
    ) || is_text(&lower, "wmv") || is_text(&lower, "flv") || is_text(&lower, "webm") || is_text(
        &lower,
        "m4v",
    ) || is_text(&lower, "mp3") || is_text(&lower, "flac") || is_text(&lower, "wav") || is_text(
        &lower,
        "aac",
    ) || is_text(&lower, "ogg") || is_text(&lower, "wma") || is_text(&lower, "m4a") || is_text(
        &lower,
        "opus",
    )
}

/// The extension of a file for the choice of tools; empty if it has none.
pub open spec fn extension_or_empty(metadata: FileMetadata) -> Seq<char> {
    match metadata.extension {
        Some(ext) => ext@,
        None => Seq::empty(),
    }
}

/// The tags and summaries of a snapshot that come from the metadata probe.
pub open spec fn probe_part(snapshot: MetadataSnapshot) -> TagListing {
    TagListing {
        format_tags: snapshot.format_tags,
        stream_tags: snapshot.stream_tags,
        stream_summaries: snapshot.stream_summaries,
    }
}

/// Whether a snapshot shows the probe tags that it should: none for a
/// picture, for a file without probe output and for probe output that is
/// not a JSON document, and else what the document tells.
pub open spec fn shows_probe_tags(
    snapshot: MetadataSnapshot,
    file_metadata: FileMetadata,
    tools: MetadataToolAvailability,
) -> bool {
    if is_image_extension_text(crate::text::lowercased(extension_or_empty(file_metadata)))
        || file_metadata.ffprobe_data is None || json_document(file_metadata.ffprobe_data->0@)
        is None {
        lists_nothing(probe_part(snapshot))
    } else {
        lists_document(
            probe_part(snapshot),
            json_document(file_metadata.ffprobe_data->0@)->0,
            tools.ffmpeg,
        )
    }
}

/// Lists the metadata of a file.
///
/// Pictures have no probe tags, and video and audio files have no
/// file-level tags. `exif_report` is the parsed report of the file-level
/// tool, if the tool ran and its report is a JSON document.
pub fn list_metadata(
    path: String,
    file_name: Option<String>,
    file_metadata: FileMetadata,
    tools: MetadataToolAvailability,
    exif_report: &Option<JsonValue>,
) -> (snapshot: Result<MetadataSnapshot, String>)
    ensures
        snapshot is Ok,
        snapshot->Ok_0.path@ == path@,
        snapshot->Ok_0.file_name@ == match file_name {
            Some(name) => name@,
            None => path@,
        },
        snapshot->Ok_0.size == file_metadata.size,
        snapshot->Ok_0.tool_availability == tools,
        text_view(snapshot->Ok_0.extension) == text_view(file_metadata.extension),
        text_view(snapshot->Ok_0.modified) == text_view(file_metadata.modified),
        text_view(snapshot->Ok_0.created) == text_view(file_metadata.created),
        shows_probe_tags(snapshot->Ok_0, file_metadata, tools),
        entry_views(snapshot->Ok_0.file_tags@) == if is_video_audio_extension_text(
            crate::text::lowercased(extension_or_empty(file_metadata)),
        ) || !tools.exiftool || exif_report is None {
            Seq::<EntryView>::empty()
        } else {
            exif_tags_in(exif_report->0@, tools.exiftool)
        },
{
    let extension: String = match &file_metadata.extension {
        Some(ext) => ext.clone(),
        None => String::new(),
    };
    let listing = if is_image_extension(extension.as_str()) {
        TagListing { format_tags: Vec::new(), stream_tags: Vec::new(), stream_summaries: Vec::new() }
    } else {
        parse_ffprobe_tags(&file_metadata.ffprobe_data, &tools)
    };
    let mut file_tags: Vec<MetadataEntry> = Vec::new();
    assert(entry_views(file_tags@) =~= Seq::<EntryView>::empty());
    if !is_video_audio_extension(extension.as_str()) && tools.exiftool {
        match exif_report {
            Some(report) => {
                file_tags = list_exif_tags(report, &tools);
            },
            None => {},
        }
    }
    let shown_name = match file_name {
        Some(name) => name,
        None => path.clone(),
    };
    Ok(
        MetadataSnapshot {
            path,
            file_name: shown_name,
            size: file_metadata.size,
            modified: file_metadata.modified,
            created: file_metadata.created,
            extension: file_metadata.extension,
            format_tags: listing.format_tags,
            stream_tags: listing.stream_tags,
            file_tags,
            stream_summaries: listing.stream_summaries,
            tool_availability: tools,
        },
    )
}

/// The name of a working copy of a file: the stem, `.seer_`, the label, an
/// underscore, the time stamp, and the extension with its dot. A path
/// without a stem is called `file`.
pub open spec fn temp_name(path: Seq<char>, label: Seq<char>, stamp: nat) -> Seq<char> {
    (match file_stem_of(path) {
        Some(stem) => stem,
        None => "file"@,
    }) + ".seer_"@ + label + seq!['_'] + crate::text::decimal_text(stamp) + match extension_of(path) {
        Some(ext) => seq!['.'] + ext,
        None => Seq::<char>::empty(),
    }
}

/// The path of a working copy of a file, beside the file; in the current
/// directory if the file has no directory.
pub open spec fn temp_path(path: Seq<char>, label: Seq<char>, stamp: nat) -> Seq<char> {
    crate::locate::joined(
        match parent_of(path) {
            Some(dir) => dir,
            None => "."@,
        },
        temp_name(path, label, stamp),
        SEPARATOR,
    )
}

/// The path of a working copy of a file. `stamp_ms` is the time in
/// milliseconds since the epoch.
pub fn create_temp_path(original: &str, label: &str, stamp_ms: u64) -> (path: String)
    ensures
        path@ == temp_path(original@, label@, stamp_ms as nat),
{
    let chars = to_chars(original);
    let mut name: Vec<char> = match crate::paths::file_stem(&chars) {
        Some(stem) => stem,
        None => to_chars("file"),
    };
    append_text(&mut name, ".seer_");
    append_text(&mut name, label);
    name.push('_');
    crate::text::push_decimal(&mut name, stamp_ms);
    match crate::paths::extension(&chars) {
        Some(ext) => {
            name.push('.');
            append_chars(&mut name, &ext);
        },
        None => {},
    }
    assert(name@ =~= temp_name(original@, label@, stamp_ms as nat));
    let dir = match crate::paths::parent(&chars) {
        Some(d) => d,
        None => to_chars("."),
    };
    let directory = from_chars(&dir);
    let file = from_chars(&name);
    crate::locate::join_path(directory.as_str(), file.as_str(), SEPARATOR)
}

/// The path of the backup of a file.
pub fn create_backup_path(original: &str, stamp_ms: u64) -> (path: String)
    ensures
        path@ == temp_path(original@, "backup"@, stamp_ms as nat),
{
    create_temp_path(original, "backup", stamp_ms)
}

} // verus!

//! Removal of streams from a media file with the mux tool: where the
//! output goes, the argument list, and the checks before the input file
//! is replaced.

use crate::files::StreamRemovalResult;
use crate::locate::{join_path, joined};
use crate::paths::{extension, extension_of, file_stem, file_stem_of, parent, parent_of, SEPARATOR};
use crate::probe::string_views;
use crate::text::{
    append_chars, append_text, decimal_text, from_chars, push_decimal, push_signed_decimal,
    signed_decimal_text, to_chars,
};
use vstd::prelude::*;

verus! {

/// The stem of a path for the name of an output file; `output` if the path
/// has none.
pub open spec fn output_stem(path: Seq<char>) -> Seq<char> {
    match file_stem_of(path) {
        Some(stem) => stem,
        None => "output"@,
    }
}

/// The extension of a path for the name of an output file; `mkv` if the
/// path has none.
pub open spec fn output_extension(path: Seq<char>) -> Seq<char> {
    match extension_of(path) {
        Some(ext) => ext,
        None => "mkv"@,
    }
}

/// The directory of a path for an output file; the current directory if
/// the path has none.
pub open spec fn output_directory(path: Seq<char>) -> Seq<char> {
    match parent_of(path) {
        Some(dir) => dir,
        None => "."@,
    }
}

/// Where the mux tool writes: beside the input file, under its name with
/// `marker` behind the stem.
pub open spec fn beside(path: Seq<char>, marker: Seq<char>) -> Seq<char> {
    joined(
        output_directory(path),
        output_stem(path) + marker + seq!['.'] + output_extension(path),
        SEPARATOR,
    )
}

/// The file that the mux tool writes when the input file is kept.
pub open spec fn modified_path(path: Seq<char>) -> Seq<char> {
    beside(path, "_modified"@)
}

/// The file that the mux tool writes when the input file is to be replaced;
/// `process_id` tells the files of different processes apart.
pub open spec fn temporary_path(path: Seq<char>, process_id: nat) -> Seq<char> {
    beside(path, "_temp_"@ + decimal_text(process_id))
}

/// The file beside `path` with `marker` behind the stem.
fn path_beside(path: &str, marker: &Vec<char>) -> (output: String)
    ensures
        output@ == beside(path@, marker@),
{
    let chars = to_chars(path);
    let stem = match file_stem(&chars) {
        Some(s) => s,
        None => to_chars("output"),
    };
    let ext = match extension(&chars) {
        Some(e) => e,
        None => to_chars("mkv"),
    };
    let dir = match parent(&chars) {
        Some(d) => d,
        None => to_chars("."),
    };
    let mut name: Vec<char> = Vec::new();
    append_chars(&mut name, &stem);
    append_chars(&mut name, marker);
    name.push('.');
    append_chars(&mut name, &ext);
    assert(name@ =~= output_stem(path@) + marker@ + seq!['.'] + output_extension(path@));
    let directory = from_chars(&dir);
    let file = from_chars(&name);
    join_path(directory.as_str(), file.as_str(), SEPARATOR)
}

/// The file that the mux tool writes when the input file is kept.
pub fn modified_output_path(path: &str) -> (output: String)
    ensures
        output@ == modified_path(path@),
{
    let marker = to_chars("_modified");
    path_beside(path, &marker)
}

/// The file that the mux tool writes when the input file is to be replaced.
pub fn temporary_output_path(path: &str, process_id: u32) -> (output: String)
    ensures
        output@ == temporary_path(path@, process_id as nat),
{
    let mut marker: Vec<char> = Vec::new();
    append_text(&mut marker, "_temp_");
    push_decimal(&mut marker, process_id as u64);
    assert(marker@ =~= "_temp_"@ + decimal_text(process_id as nat));
    path_beside(path, &marker)
}

/// The arguments that drop the first `n` of `indices`: a negative mapping
/// for each index that names a stream of the file.
pub open spec fn dropped_streams(indices: Seq<i32>, total_streams: nat, n: int) -> Seq<Seq<char>>
    decreases n,
{
    if n <= 0 {
        Seq::empty()
    } else if 0 <= indices[n - 1] < total_streams {
        dropped_streams(indices, total_streams, n - 1) + seq![
            "-map"@,
            "-0:"@ + signed_decimal_text(indices[n - 1] as int),
        ]
    } else {
        dropped_streams(indices, total_streams, n - 1)
    }
}

/// Argument list of the mux tool for the removal of streams: all streams
/// of the input are mapped, the streams to remove are mapped out, and the
/// rest is copied to `output` without re-encoding.
pub open spec fn removal_arguments(
    path: Seq<char>,
    indices: Seq<i32>,
    total_streams: nat,
    output: Seq<char>,
) -> Seq<Seq<char>> {
    seq!["-i"@, path, "-map"@, "0"@] + dropped_streams(indices, total_streams, indices.len() as int)
        + seq!["-c"@, "copy"@, "-y"@, output]
}

/// Argument list of the mux tool for the removal of streams.
pub fn removal_tool_arguments(
    path: &str,
    stream_indices: &Vec<i32>,
    total_streams: usize,
    output: &str,
) -> (arguments: Vec<String>)
    ensures
        string_views(arguments@) == removal_arguments(
            path@,
            stream_indices@,
            total_streams as nat,
            output@,
        ),
{
    let mut arguments: Vec<String> = Vec::new();
    arguments.push(String::from_str("-i"));
    arguments.push(String::from_str(path));
    arguments.push(String::from_str("-map"));
    arguments.push(String::from_str("0"));
    assert(string_views(arguments@) =~= seq!["-i"@, path@, "-map"@, "0"@]);
    let ghost head = string_views(arguments@);
    let mut i: usize = 0;
    while i < stream_indices.len()
        invariant
            i <= stream_indices.len(),
            string_views(arguments@) == head + dropped_streams(
                stream_indices@,
                total_streams as nat,
                i as int,
            ),
        decreases stream_indices.len() - i,
    {
        let index = stream_indices[i];
        if index >= 0 && (index as usize) < total_streams {
            let ghost before = string_views(arguments@);
            arguments.push(String::from_str("-map"));
            let mut mapping: Vec<char> = Vec::new();
            append_text(&mut mapping, "-0:");
            push_signed_decimal(&mut mapping, index as i64);
            assert(mapping@ =~= "-0:"@ + signed_decimal_text(index as int));
            arguments.push(from_chars(&mapping));
            assert(string_views(arguments@) =~= before + seq!["-map"@, mapping@]);
        }
        i += 1;
    }
    let ghost middle = string_views(arguments@);
    arguments.push(String::from_str("-c"));
    arguments.push(String::from_str("copy"));
    arguments.push(String::from_str("-y"));
    arguments.push(String::from_str(output));
    assert(string_views(arguments@) =~= middle + seq!["-c"@, "copy"@, "-y"@, output@]);
    arguments
}

/// Why the output of the mux tool must not replace the input file.
#[derive(Debug, Clone, Copy, PartialEq, Eq, Structural)]
pub enum ReplacementRisk {
    /// The output is empty.
    Empty,
    /// The output has less than a tenth of the size of the input file.
    Shrunk,
}

/// Why an output of `temp_size` bytes must not replace an input file of
/// `original_size` bytes; `None` if it may.
pub open spec fn replacement_risk(temp_size: nat, original_size: nat) -> Option<ReplacementRisk> {
    if temp_size == 0 {
        Some(ReplacementRisk::Empty)
    } else if original_size > 0 && temp_size < original_size / 10 {
        Some(ReplacementRisk::Shrunk)
    } else {
        None
    }
}

/// The message for an output that must not replace the input file.
pub open spec fn risk_message(risk: ReplacementRisk, temp_size: nat, original_size: nat) -> Seq<char> {
    match risk {
        ReplacementRisk::Empty => "Temp file is empty - aborting to prevent data loss"@,
        ReplacementRisk::Shrunk => "Temp file ("@ + decimal_text(temp_size)
            + " bytes) is suspiciously smaller than original ("@ + decimal_text(original_size)
            + " bytes) - aborting to prevent data loss"@,
    }
}

/// Checks that the output of the mux tool may replace the input file.
pub fn check_replacement(temp_size: u64, original_size: u64) -> (checked: Result<(), String>)
    ensures
        match replacement_risk(temp_size as nat, original_size as nat) {
            Some(risk) => checked is Err && checked->Err_0@ == risk_message(
                risk,
                temp_size as nat,
                original_size as nat,
            ),
            None => checked is Ok,
        },
{
    if temp_size == 0 {
        return Err(String::from_str("Temp file is empty - aborting to prevent data loss"));
    }
    if original_size > 0 && temp_size < original_size / 10 {
        let mut message: Vec<char> = Vec::new();
        append_text(&mut message, "Temp file (");
        push_decimal(&mut message, temp_size);
        append_text(&mut message, " bytes) is suspiciously smaller than original (");
        push_decimal(&mut message, original_size);
        append_text(&mut message, " bytes) - aborting to prevent data loss");
        assert(message@ =~= risk_message(
            ReplacementRisk::Shrunk,
            temp_size as nat,
            original_size as nat,
        ));
        return Err(from_chars(&message));
    }
    Ok(())
}

/// The message of a successful removal.
pub open spec fn removal_message(removed: nat, overwrite: bool, output: Seq<char>) -> Seq<char> {
    if overwrite {
        "Successfully removed "@ + decimal_text(removed) + " stream(s). Original file updated."@
    } else {
        "Successfully removed "@ + decimal_text(removed) + " stream(s). Output saved to: "@
            + output
    }
}

/// The result of a successful removal of `removed` streams.
pub fn removal_result(removed: usize, overwrite: bool, output_path: &str) -> (result:
    StreamRemovalResult)
    ensures
        result.success,
        result.output_path@ == output_path@,
        result.message@ == removal_message(removed as nat, overwrite, output_path@),
{
    let mut message: Vec<char> = Vec::new();
    append_text(&mut message, "Successfully removed ");
    push_decimal(&mut message, removed as u64);
    if overwrite {
        append_text(&mut message, " stream(s). Original file updated.");
    } else {
        append_text(&mut message, " stream(s). Output saved to: ");
        append_text(&mut message, output_path);
    }
    assert(message@ =~= removal_message(removed as nat, overwrite, output_path@));
    StreamRemovalResult {
        success: true,
        output_path: String::from_str(output_path),
        message: from_chars(&message),
    }
}

} // verus!

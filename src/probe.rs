//! The media-metadata probe: which paths it runs on, and what its reply is
//! for each way the external inspection tool can end.

use vstd::prelude::*;
use crate::listing::PathKind;
use crate::paths::{is_inside, ConfinedPath};
use crate::text::{push_str, string_of};
use crate::types::{JsonResponse, ReplyView};

verus! {

/// How a run of the inspection tool ended.
#[derive(Clone, Debug)]
pub struct ProbeRun {
    /// The tool exited with success.
    pub exit_ok: bool,
    /// Its standard output, when that was valid UTF-8.
    pub stdout: Option<String>,
}

/// The tool runs on regular files only.
pub open spec fn probe_applies(kind: PathKind) -> bool {
    kind == PathKind::File
}

/// Whether the tool is to be run on a path of this kind.
pub fn should_probe(kind: PathKind) -> (r: bool)
    ensures
        r == probe_applies(kind),
{
    kind == PathKind::File
}

/// The arguments the tool runs with on the file at `path`: quiet, JSON
/// output, format and streams shown, and the path last.
pub open spec fn probe_arguments(path: Seq<char>) -> Seq<Seq<char>> {
    seq![
        "-v"@,
        "quiet"@,
        "-print_format"@,
        "json"@,
        "-show_format"@,
        "-show_streams"@,
        path,
    ]
}

fn owned(s: &str) -> (r: String)
    ensures
        r@ == s@,
{
    let mut out: Vec<char> = Vec::new();
    push_str(&mut out, s);
    string_of(out.as_slice())
}

/// The arguments to run the tool with on `target`, a path confirmed inside
/// the root.
pub fn probe_args(target: &ConfinedPath) -> (r: Vec<String>)
    ensures
        r@.map_values(|a: String| a@) == probe_arguments(target@),
        is_inside(target.root(), r@.last()@),
{
    let mut r: Vec<String> = Vec::new();
    r.push(owned("-v"));
    r.push(owned("quiet"));
    r.push(owned("-print_format"));
    r.push(owned("json"));
    r.push(owned("-show_format"));
    r.push(owned("-show_streams"));
    r.push(owned(target.as_str()));
    assert(r@.map_values(|a: String| a@) =~= probe_arguments(target@));
    r
}

/// The probe's output: the tool's text, or an empty object when that text
/// was not UTF-8; `None` when the path is not a file, the tool could not be
/// started, or it failed.
pub open spec fn probe_result(kind: PathKind, run: Option<ProbeRun>) -> Option<Seq<char>> {
    match run {
        Some(r) => if probe_applies(kind) && r.exit_ok {
            Some(
                match r.stdout {
                    Some(s) => s@,
                    None => "{}"@,
                },
            )
        } else {
            None
        },
        None => None,
    }
}

/// Decides the probe's output for a path of the given kind, from how the
/// tool's run ended (`None` when it could not be started).
pub fn probe_output(kind: PathKind, run: &Option<ProbeRun>) -> (r: Option<String>)
    ensures
        match r {
            Some(s) => probe_result(kind, *run) == Some(s@),
            None => probe_result(kind, *run) is None,
        },
{
    match run {
        Some(p) => {
            if kind == PathKind::File && p.exit_ok {
                match &p.stdout {
                    Some(s) => Some(s.clone()),
                    None => {
                        let mut out: Vec<char> = Vec::new();
                        push_str(&mut out, "{}");
                        Some(string_of(out.as_slice()))
                    },
                }
            } else {
                None
            }
        },
        None => None,
    }
}

/// The reply when no probe output is available.
pub fn probe_unavailable() -> (r: JsonResponse)
    ensures
        r@ == (ReplyView { succeeded: false, msg: Some("ffprobe not found"@) }),
{
    let mut out: Vec<char> = Vec::new();
    push_str(&mut out, "ffprobe not found");
    JsonResponse::Failed { msg: Some(string_of(out.as_slice())) }
}

} // verus!

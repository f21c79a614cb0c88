//! The control-plane decisions behind the HTTP surface: validating stream
//! bodies, filling defaults, merging updates with the current entry, and
//! mapping each outcome to its status code. The HTTP transport and JSON
//! codec live in the shell.

use vstd::prelude::*;
use crate::streams::RestartPolicy;
use crate::streams::StreamEntryState;
use crate::streams::StreamsTable;
use crate::streams::StreamsTableEntry;
use crate::streams::EntryModel;
use crate::streams::UpdateOutcome;
use crate::streams::dup_input_elsewhere;
use crate::streams::dup_output_elsewhere;
use crate::streams::find_index;
use crate::streams::opt_string_view;
use crate::streams::rebuilt_entry;
use crate::streams::sanitize_path;
use crate::streams::spec_live_hash;
use crate::streams::spec_parse_policy;
use crate::streams::table_has_input;
use crate::streams::table_has_output;
use crate::streams::screen_chars;
use crate::streams::uses_file_scheme;

verus! {

/// A stream mutation request body: all fields optional, so one shape serves
/// creation and update.
pub struct StreamBody {
    pub input_uri: Option<String>,
    pub output_uri: Option<String>,
    pub frame_path: Option<Vec<String>>,
    pub restart_policy: Option<String>,
}

/// How a creation request ends.
#[derive(Debug, Clone, Copy, PartialEq, Eq, Structural)]
pub enum AddStreamOutcome {
    /// The entry was added.
    Added,
    /// The body carried no input URI.
    MissingInputUri,
    /// The body carried no frame path.
    MissingFramePath,
    /// The restart-policy string parsed to no policy.
    InvalidRestartPolicy,
    /// The input URI is already taken.
    DuplicateInput,
    /// The non-screen output URI is already taken.
    DuplicateOutput,
}

/// The status code of a creation outcome: user-input errors answer 400.
pub fn add_stream_status(outcome: AddStreamOutcome) -> (r: u16)
    ensures
        outcome == AddStreamOutcome::Added <==> r == 200,
        outcome != AddStreamOutcome::Added <==> r == 400,
{
    match outcome {
        AddStreamOutcome::Added => 200,
        AddStreamOutcome::MissingInputUri => 400,
        AddStreamOutcome::MissingFramePath => 400,
        AddStreamOutcome::InvalidRestartPolicy => 400,
        AddStreamOutcome::DuplicateInput => 400,
        AddStreamOutcome::DuplicateOutput => 400,
    }
}

/// The policy a creation request denotes: the parsed string when one was
/// given, `Never` when none was.
pub open spec fn spec_requested_policy(body_policy: Option<Seq<char>>) -> Option<RestartPolicy> {
    match body_policy {
        Some(s) => spec_parse_policy(s),
        None => Some(RestartPolicy::Never),
    }
}

/// Handles a stream-creation request: the body must carry an input URI and
/// a frame path, the policy string must parse when given and defaults to
/// `Never`, and the add obeys the table's uniqueness rules; a rejected
/// request leaves the table untouched.
pub fn handle_add_stream(table: &mut StreamsTable, body: StreamBody) -> (r: AddStreamOutcome)
    requires
        match body.input_uri {
            Some(u) => !crate::video::file_uri_without_absolute_path(u@),
            None => true,
        },
    ensures
        body.input_uri is None ==> r == AddStreamOutcome::MissingInputUri && final(table)@
            == old(table)@,
        body.input_uri is Some && body.frame_path is None ==> r
            == AddStreamOutcome::MissingFramePath && final(table)@ == old(table)@,
        (body.input_uri is Some && body.frame_path is Some && spec_requested_policy(
            match body.restart_policy {
                Some(p) => Some(p@),
                None => None,
            },
        ) is None) ==> r == AddStreamOutcome::InvalidRestartPolicy && final(table)@ == old(table)@,
        (body.input_uri is Some && body.frame_path is Some && spec_requested_policy(
            match body.restart_policy {
                Some(p) => Some(p@),
                None => None,
            },
        ) is Some) ==> {
            let input = body.input_uri->Some_0@;
            let output = opt_string_view(body.output_uri);
            let path = body.frame_path->Some_0@.map_values(|s: String| s@);
            let policy = spec_requested_policy(
                match body.restart_policy {
                    Some(p) => Some(p@),
                    None => None,
                },
            )->Some_0;
            if table_has_input(old(table)@, input) {
                r == AddStreamOutcome::DuplicateInput && final(table)@ == old(table)@
            } else if match output {
                Some(u) => u != screen_chars() && table_has_output(old(table)@, u),
                None => false,
            } {
                r == AddStreamOutcome::DuplicateOutput && final(table)@ == old(table)@
            } else {
                let t = final(table)@;
                r == AddStreamOutcome::Added && t.len() == old(table)@.len() + 1 && t.take(
                    old(table)@.len() as int,
                ) == old(table)@ && t.last().input_uri == input && t.last().output_uri == output
                    && t.last().frame_path == sanitize_path(path) && t.last().pipeline_id
                    is None && t.last().target_state == StreamEntryState::Running
                    && t.last().restart_policy == (if uses_file_scheme(input, output) {
                    RestartPolicy::Never
                } else {
                    policy
                }) && t.last().stored_hash == spec_live_hash(t.last())
            }
        },
{
    let input_uri = match body.input_uri {
        Some(u) => u,
        None => {
            return AddStreamOutcome::MissingInputUri;
        },
    };
    let frame_path = match body.frame_path {
        Some(p) => p,
        None => {
            return AddStreamOutcome::MissingFramePath;
        },
    };
    let restart_policy = match &body.restart_policy {
        Some(p) => match RestartPolicy::from_str(p.as_str()) {
            Ok(policy) => policy,
            Err(_) => {
                return AddStreamOutcome::InvalidRestartPolicy;
            },
        },
        None => RestartPolicy::Never,
    };
    let input_for_check = input_uri.clone();
    let entry = StreamsTableEntry::new(input_uri, body.output_uri, frame_path, restart_policy);
    let ghost entry_model = entry@;
    match table.add(entry) {
        Ok(_) => {
            proof {
                assert(final(table)@.take(old(table)@.len() as int) =~= old(table)@);
                assert(final(table)@.last() == entry_model);
            }
            AddStreamOutcome::Added
        },
        Err(_) => {
            if table_contains_input(table, input_for_check.as_str()) {
                AddStreamOutcome::DuplicateInput
            } else {
                AddStreamOutcome::DuplicateOutput
            }
        },
    }
}

/// Whether some entry already holds this input URI.
fn table_contains_input(table: &StreamsTable, uri: &str) -> (r: bool)
    ensures
        r == table_has_input(table@, uri@),
{
    let snapshot = table.get_table();
    let mut i: usize = 0;
    while i < snapshot.len()
        invariant
            i <= snapshot@.len(),
            snapshot@.map_values(|e: StreamsTableEntry| e@) == table@,
            forall|j: int| 0 <= j < i ==> table@[j].input_uri != uri@,
        decreases snapshot@.len() - i,
    {
        if crate::text::str_eq(snapshot[i].get_input_uri(), uri) {
            proof {
                assert(table@[i as int].input_uri == uri@);
            }
            return true;
        }
        i = i + 1;
    }
    false
}

/// How an update request ends.
#[derive(Debug, Clone, Copy, PartialEq, Eq, Structural)]
pub enum UpdateStreamOutcome {
    /// The entry was rebuilt.
    Updated,
    /// No entry carries the given id.
    NotFound,
    /// The restart-policy string parsed to no policy.
    InvalidRestartPolicy,
    /// The new input URI is already taken by another entry.
    DuplicateInput,
    /// The new non-screen output URI is already taken by another entry.
    DuplicateOutput,
}

/// The status code of an update outcome: an unknown id answers 404, a bad
/// policy 400, and a uniqueness violation 500.
pub fn update_stream_status(outcome: UpdateStreamOutcome) -> (r: u16)
    ensures
        outcome == UpdateStreamOutcome::Updated ==> r == 200,
        outcome == UpdateStreamOutcome::NotFound ==> r == 404,
        outcome == UpdateStreamOutcome::InvalidRestartPolicy ==> r == 400,
        outcome == UpdateStreamOutcome::DuplicateInput ==> r == 500,
        outcome == UpdateStreamOutcome::DuplicateOutput ==> r == 500,
{
    match outcome {
        UpdateStreamOutcome::Updated => 200,
        UpdateStreamOutcome::NotFound => 404,
        UpdateStreamOutcome::InvalidRestartPolicy => 400,
        UpdateStreamOutcome::DuplicateInput => 500,
        UpdateStreamOutcome::DuplicateOutput => 500,
    }
}

/// The input URI an update denotes: the body's, or the entry's current one.
pub open spec fn merged_input(e: EntryModel, body_input: Option<Seq<char>>) -> Seq<char> {
    match body_input {
        Some(u) => u,
        None => e.input_uri,
    }
}

/// The output URI an update denotes: the body's, or the entry's current one.
pub open spec fn merged_output(
    e: EntryModel,
    body_output: Option<Seq<char>>,
) -> Option<Seq<char>> {
    match body_output {
        Some(u) => Some(u),
        None => e.output_uri,
    }
}

/// The frame path an update denotes: the body's when it names at least one
/// stage, else the entry's current path.
pub open spec fn merged_path(
    e: EntryModel,
    body_path: Option<Seq<Seq<char>>>,
) -> Seq<Seq<char>> {
    match body_path {
        Some(p) => if p.len() > 0 {
            p
        } else {
            e.frame_path
        },
        None => e.frame_path,
    }
}

/// The policy an update denotes: the parsed body string, or the entry's
/// current policy; a body string that parses to nothing denotes none.
pub open spec fn merged_policy(
    e: EntryModel,
    body_policy: Option<Seq<char>>,
) -> Option<RestartPolicy> {
    match body_policy {
        Some(p) => spec_parse_policy(p),
        None => Some(e.restart_policy),
    }
}

/// Handles a stream-update request: fields absent from the body inherit the
/// entry's current values, an absent or empty frame path inherits the
/// current path, and the rebuilt entry keeps its stored hash so the
/// dispatcher sees the drift and restarts the stream.
pub fn handle_update_stream(table: &mut StreamsTable, id: u128, body: StreamBody) -> (r:
    UpdateStreamOutcome)
    ensures
        match find_index(old(table)@, id) {
            None => r == UpdateStreamOutcome::NotFound && final(table)@ == old(table)@,
            Some(i) => {
                let e = old(table)@[i];
                let policy = merged_policy(
                    e,
                    match body.restart_policy {
                        Some(p) => Some(p@),
                        None => None,
                    },
                );
                let input = merged_input(
                    e,
                    match body.input_uri {
                        Some(u) => Some(u@),
                        None => None,
                    },
                );
                let output = merged_output(e, opt_string_view(body.output_uri));
                let path = merged_path(
                    e,
                    match body.frame_path {
                        Some(p) => Some(p@.map_values(|s: String| s@)),
                        None => None,
                    },
                );
                if policy is None {
                    r == UpdateStreamOutcome::InvalidRestartPolicy && final(table)@ == old(
                        table,
                    )@
                } else if dup_input_elsewhere(old(table)@, i, input) {
                    r == UpdateStreamOutcome::DuplicateInput && final(table)@ == old(table)@
                } else if dup_output_elsewhere(old(table)@, i, output) {
                    r == UpdateStreamOutcome::DuplicateOutput && final(table)@ == old(table)@
                } else {
                    r == UpdateStreamOutcome::Updated && final(table)@ == old(table)@.update(
                        i,
                        rebuilt_entry(e, input, output, path, policy->Some_0),
                    )
                }
            },
        },
{
    let current = match table.get_entry_by_id(id) {
        Some(e) => e,
        None => {
            return UpdateStreamOutcome::NotFound;
        },
    };
    let input_uri: String = match &body.input_uri {
        Some(u) => u.clone(),
        None => current.get_input_uri().to_owned(),
    };
    let output_uri: Option<String> = match body.output_uri {
        Some(u) => Some(u),
        None => match current.get_output_uri() {
            Some(u) => Some(u.to_owned()),
            None => None,
        },
    };
    let frame_path: Vec<String> = match body.frame_path {
        Some(p) => {
            if p.len() == 0 {
                clone_paths(current.get_frame_path())
            } else {
                p
            }
        },
        None => clone_paths(current.get_frame_path()),
    };
    let restart_policy = match &body.restart_policy {
        Some(p) => match RestartPolicy::from_str(p.as_str()) {
            Ok(policy) => policy,
            Err(_) => {
                return UpdateStreamOutcome::InvalidRestartPolicy;
            },
        },
        None => current.get_restart_policy(),
    };
    let outcome = table.update_by_entry_id(
        id,
        input_uri.as_str(),
        output_uri,
        frame_path,
        restart_policy,
    );
    proof {
        crate::streams::lemma_find_index_spec(old(table)@, id);
        match find_index(old(table)@, id) {
            Some(i) => {
                assert(outcome == UpdateOutcome::Updated ==> table@ == old(table)@.update(
                    i,
                    rebuilt_entry(
                        old(table)@[i],
                        input_uri@,
                        opt_string_view(output_uri),
                        frame_path@.map_values(|s: String| s@),
                        restart_policy,
                    ),
                ));
            },
            None => {},
        }
    }
    match outcome {
        UpdateOutcome::Updated => UpdateStreamOutcome::Updated,
        UpdateOutcome::NotFound => UpdateStreamOutcome::NotFound,
        UpdateOutcome::DuplicateInput => UpdateStreamOutcome::DuplicateInput,
        UpdateOutcome::DuplicateOutput => UpdateStreamOutcome::DuplicateOutput,
    }
}

/// Copies a frame path.
fn clone_paths(paths: &Vec<String>) -> (r: Vec<String>)
    ensures
        r@.map_values(|s: String| s@) == paths@.map_values(|s: String| s@),
{
    let mut out: Vec<String> = Vec::new();
    let mut i: usize = 0;
    while i < paths.len()
        invariant
            i <= paths@.len(),
            out@.len() == i,
            forall|j: int| 0 <= j < i ==> out@[j]@ == paths@[j]@,
        decreases paths@.len() - i,
    {
        out.push(paths[i].clone());
        i = i + 1;
    }
    proof {
        assert(out@.map_values(|s: String| s@) =~= paths@.map_values(|s: String| s@));
    }
    out
}

/// Handles a stream-removal request: the removed entry comes back for the
/// response, or nothing when the id is unknown, which answers 404.
pub fn handle_remove_stream(table: &mut StreamsTable, id: u128) -> (r: Option<StreamsTableEntry>)
    ensures
        match find_index(old(table)@, id) {
            Some(i) => r is Some && r->Some_0@ == old(table)@[i] && final(table)@ == old(table)@.remove(i),
            None => r is None && final(table)@ == old(table)@,
        },
{
    table.remove(id)
}

} // verus!

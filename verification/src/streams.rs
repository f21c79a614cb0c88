//! The streams table: the declarative record of every stream the runtime has
//! to keep alive, with its uniqueness invariants, the restart policies, and
//! the content hash used for change detection.

use vstd::prelude::*;
use crate::hash::spec_hash_chars;
use crate::hash::calculate_hash;
use crate::text::lower_char;
use crate::text::normalize_keyword;
use crate::text::normalize_keyword_chars;
use crate::text::chars_eq_str;
use crate::text::join_slash;
use crate::text::join_with_slash;
use crate::text::dash_to_underscore;
use crate::text::sanitize_stage_name;
use crate::text::seq_starts_with;
use crate::text::str_starts_with;
use crate::ids::fresh_uuid;

verus! {

/// Where the reconciler has to move a stream: kept running, settled as
/// completed, or settled as failed.
#[derive(Debug, Clone, Copy, PartialEq, Eq, Structural)]
pub enum StreamEntryState {
    Running,
    Completed,
    Error,
}

/// A restart-policy string that matched none of the known policies.
#[derive(Debug, Clone, Copy, PartialEq, Eq, Structural)]
pub struct RestartPolicyError;

/// What to do with a stream once its pipeline finishes.
#[derive(Debug, Clone, Copy, PartialEq, Eq, Structural)]
pub enum RestartPolicy {
    /// Never restart.
    Never,
    /// Restart both on error and at end of stream.
    Always,
    /// Restart only when there was an error.
    OnError,
    /// Restart only when the stream reached its end.
    OnEos,
}

/// The normalized keyword for each policy: its emitted string with
/// underscores dropped.
pub open spec fn policy_keyword(p: RestartPolicy) -> Seq<char> {
    match p {
        RestartPolicy::Never => seq!['n', 'e', 'v', 'e', 'r'],
        RestartPolicy::Always => seq!['a', 'l', 'w', 'a', 'y', 's'],
        RestartPolicy::OnError => seq!['o', 'n', 'e', 'r', 'r', 'o', 'r'],
        RestartPolicy::OnEos => seq!['o', 'n', 'e', 'o', 's'],
    }
}

/// The string each policy is emitted as.
pub open spec fn policy_chars(p: RestartPolicy) -> Seq<char> {
    match p {
        RestartPolicy::Never => seq!['n', 'e', 'v', 'e', 'r'],
        RestartPolicy::Always => seq!['a', 'l', 'w', 'a', 'y', 's'],
        RestartPolicy::OnError => seq!['o', 'n', '_', 'e', 'r', 'r', 'o', 'r'],
        RestartPolicy::OnEos => seq!['o', 'n', '_', 'e', 'o', 's'],
    }
}

/// The policy a normalized keyword denotes, if any.
pub open spec fn policy_of_keyword(k: Seq<char>) -> Option<RestartPolicy> {
    if k == policy_keyword(RestartPolicy::Never) {
        Some(RestartPolicy::Never)
    } else if k == policy_keyword(RestartPolicy::Always) {
        Some(RestartPolicy::Always)
    } else if k == policy_keyword(RestartPolicy::OnError) {
        Some(RestartPolicy::OnError)
    } else if k == policy_keyword(RestartPolicy::OnEos) {
        Some(RestartPolicy::OnEos)
    } else {
        None
    }
}

/// What parsing a restart-policy string yields: keyword matching is
/// insensitive to case and underscores.
pub open spec fn spec_parse_policy(s: Seq<char>) -> Option<RestartPolicy> {
    policy_of_keyword(normalize_keyword(s))
}

impl RestartPolicy {
    /// Parses a restart-policy string, insensitive to ASCII case and
    /// underscores; any other string is rejected.
    pub fn from_str(s: &str) -> (r: Result<RestartPolicy, RestartPolicyError>)
        ensures
            r == match spec_parse_policy(s@) {
                Some(p) => Result::<RestartPolicy, RestartPolicyError>::Ok(p),
                None => Result::<RestartPolicy, RestartPolicyError>::Err(RestartPolicyError),
            },
    {
        let norm = normalize_keyword_chars(s);
        proof {
            reveal_strlit("never");
            reveal_strlit("always");
            reveal_strlit("onerror");
            reveal_strlit("oneos");
            assert("never"@ =~= policy_keyword(RestartPolicy::Never));
            assert("always"@ =~= policy_keyword(RestartPolicy::Always));
            assert("onerror"@ =~= policy_keyword(RestartPolicy::OnError));
            assert("oneos"@ =~= policy_keyword(RestartPolicy::OnEos));
        }
        if chars_eq_str(&norm, "never") {
            Ok(RestartPolicy::Never)
        } else if chars_eq_str(&norm, "always") {
            Ok(RestartPolicy::Always)
        } else if chars_eq_str(&norm, "onerror") {
            Ok(RestartPolicy::OnError)
        } else if chars_eq_str(&norm, "oneos") {
            Ok(RestartPolicy::OnEos)
        } else {
            Err(RestartPolicyError)
        }
    }

    /// The string form of the policy, as emitted to users and hashed into
    /// the content hash.
    pub fn to_str(&self) -> (r: &'static str)
        ensures
            r@ == policy_chars(*self),
    {
        match self {
            RestartPolicy::Never => {
                proof {
                    reveal_strlit("never");
                    assert("never"@ =~= policy_chars(RestartPolicy::Never));
                }
                "never"
            },
            RestartPolicy::Always => {
                proof {
                    reveal_strlit("always");
                    assert("always"@ =~= policy_chars(RestartPolicy::Always));
                }
                "always"
            },
            RestartPolicy::OnError => {
                proof {
                    reveal_strlit("on_error");
                    assert("on_error"@ =~= policy_chars(RestartPolicy::OnError));
                }
                "on_error"
            },
            RestartPolicy::OnEos => {
                proof {
                    reveal_strlit("on_eos");
                    assert("on_eos"@ =~= policy_chars(RestartPolicy::OnEos));
                }
                "on_eos"
            },
        }
    }
}

/// Peeling one character off the front of a normalization.
proof fn lemma_norm_cons(c: char, rest: Seq<char>)
    ensures
        c == '_' ==> normalize_keyword(seq![c] + rest) == normalize_keyword(rest),
        c != '_' ==> normalize_keyword(seq![c] + rest) == seq![lower_char(c)]
            + normalize_keyword(rest),
{
    let s = seq![c] + rest;
    assert(s.len() > 0);
    assert(s[0] == c);
    assert(s.skip(1) =~= rest);
}

/// The emitted string of each policy normalizes to its keyword.
pub proof fn lemma_policy_chars_normalize(p: RestartPolicy)
    ensures
        normalize_keyword(policy_chars(p)) == policy_keyword(p),
{
    assert(normalize_keyword(Seq::<char>::empty()) =~= Seq::<char>::empty());
    match p {
        RestartPolicy::Never => {
            lemma_norm_chain(seq!['n', 'e', 'v', 'e', 'r']);
        },
        RestartPolicy::Always => {
            lemma_norm_chain(seq!['a', 'l', 'w', 'a', 'y', 's']);
        },
        RestartPolicy::OnError => {
            let s = policy_chars(RestartPolicy::OnError);
            let t1 = seq!['n', '_', 'e', 'r', 'r', 'o', 'r'];
            let t2 = seq!['_', 'e', 'r', 'r', 'o', 'r'];
            let t3 = seq!['e', 'r', 'r', 'o', 'r'];
            assert(s =~= seq!['o'] + t1);
            lemma_norm_cons('o', t1);
            assert(t1 =~= seq!['n'] + t2);
            lemma_norm_cons('n', t2);
            assert(t2 =~= seq!['_'] + t3);
            lemma_norm_cons('_', t3);
            lemma_norm_chain(t3);
            assert(normalize_keyword(s) =~= policy_keyword(RestartPolicy::OnError));
        },
        RestartPolicy::OnEos => {
            let s = policy_chars(RestartPolicy::OnEos);
            let t1 = seq!['n', '_', 'e', 'o', 's'];
            let t2 = seq!['_', 'e', 'o', 's'];
            let t3 = seq!['e', 'o', 's'];
            assert(s =~= seq!['o'] + t1);
            lemma_norm_cons('o', t1);
            assert(t1 =~= seq!['n'] + t2);
            lemma_norm_cons('n', t2);
            assert(t2 =~= seq!['_'] + t3);
            lemma_norm_cons('_', t3);
            lemma_norm_chain(t3);
            assert(normalize_keyword(s) =~= policy_keyword(RestartPolicy::OnEos));
        },
    }
}

/// A string of lowercase non-underscore characters normalizes to itself.
proof fn lemma_norm_chain(s: Seq<char>)
    requires
        forall|i: int| 0 <= i < s.len() ==> s[i] != '_' && lower_char(s[i]) == s[i],
    ensures
        normalize_keyword(s) == s,
    decreases s.len(),
{
    if s.len() == 0 {
        assert(normalize_keyword(s) =~= s);
    } else {
        lemma_norm_chain(s.skip(1));
        assert(s =~= seq![s[0]] + s.skip(1));
        lemma_norm_cons(s[0], s.skip(1));
        assert(normalize_keyword(s) =~= s);
    }
}

/// Emitting a policy and parsing the result yields the policy back.
pub proof fn lemma_policy_emit_parse(p: RestartPolicy)
    ensures
        spec_parse_policy(policy_chars(p)) == Some(p),
{
    lemma_policy_chars_normalize(p);
}

/// Parsing a string and re-emitting the policy round-trips modulo the
/// case-and-underscore normalization: the emitted string normalizes to the
/// same keyword as the input.
pub proof fn lemma_policy_parse_emit(s: Seq<char>)
    requires
        spec_parse_policy(s) is Some,
    ensures
        normalize_keyword(policy_chars(spec_parse_policy(s)->Some_0))
            == normalize_keyword(s),
{
    let p = spec_parse_policy(s)->Some_0;
    lemma_policy_chars_normalize(p);
}

/// The URI scheme that marks a finite, file-backed stream.
pub open spec fn file_scheme() -> Seq<char> {
    seq!['f', 'i', 'l', 'e', ':', '/', '/']
}

/// The sentinel output URI that renders to the local screen, for which
/// duplicates are permitted.
pub open spec fn screen_chars() -> Seq<char> {
    seq!['s', 'c', 'r', 'e', 'e', 'n']
}

/// The mathematical content of a stream entry.
pub ghost struct EntryModel {
    pub id: u128,
    pub input_uri: Seq<char>,
    pub output_uri: Option<Seq<char>>,
    pub frame_path: Seq<Seq<char>>,
    pub pipeline_id: Option<u128>,
    pub stored_hash: u64,
    pub target_state: StreamEntryState,
    pub restart_policy: RestartPolicy,
}

/// The content hash of an entry's user-supplied fields: the component hashes
/// of the input URI, the output URI (when present), the slash-joined frame
/// path and the emitted restart-policy string, combined with XOR.
pub open spec fn spec_entry_hash(
    input_uri: Seq<char>,
    output_uri: Option<Seq<char>>,
    frame_path: Seq<Seq<char>>,
    restart_policy: RestartPolicy,
) -> u64 {
    let input_part = spec_hash_chars(input_uri);
    let with_output = match output_uri {
        Some(u) => input_part ^ spec_hash_chars(u),
        None => input_part,
    };
    with_output ^ spec_hash_chars(join_slash(frame_path)) ^ spec_hash_chars(
        policy_chars(restart_policy),
    )
}

/// The hash an entry's current field values denote; divergence from the
/// stored hash is the table's change signal.
pub open spec fn spec_live_hash(e: EntryModel) -> u64 {
    spec_entry_hash(e.input_uri, e.output_uri, e.frame_path, e.restart_policy)
}

/// The view of the fields of an optional string.
pub open spec fn opt_string_view(o: Option<String>) -> Option<Seq<char>> {
    match o {
        Some(u) => Some(u@),
        None => None,
    }
}

/// Stage-name sanitization lifted to a whole frame path.
pub open spec fn sanitize_path(path: Seq<Seq<char>>) -> Seq<Seq<char>> {
    path.map_values(|n: Seq<char>| n.map_values(|c: char| dash_to_underscore(c)))
}

/// An entry whose input or output uses the file scheme is forced to the
/// `Never` restart policy.
pub open spec fn uses_file_scheme(
    input_uri: Seq<char>,
    output_uri: Option<Seq<char>>,
) -> bool {
    seq_starts_with(input_uri, file_scheme()) || match output_uri {
        Some(u) => seq_starts_with(u, file_scheme()),
        None => false,
    }
}

/// Computes an entry's content hash from its components, exact against
/// `spec_entry_hash`.
pub fn calculate_entry_hash(
    input_uri: &str,
    output_uri: Option<&str>,
    frame_path: &Vec<String>,
    restart_policy: &RestartPolicy,
) -> (r: u64)
    ensures
        r == spec_entry_hash(
            input_uri@,
            match output_uri {
                Some(u) => Some(u@),
                None => None,
            },
            frame_path@.map_values(|s: String| s@),
            *restart_policy,
        ),
{
    let mut h: u64 = calculate_hash(input_uri);
    if let Some(out_uri) = output_uri {
        h = h ^ calculate_hash(out_uri);
    }
    let joined = join_with_slash(frame_path);
    h = h ^ calculate_hash(joined.as_str());
    h = h ^ calculate_hash(restart_policy.to_str());
    h
}

/// One stream's declarative record in the streams table.
#[derive(Debug, PartialEq)]
pub struct StreamsTableEntry {
    /// Identifier of the entry, fixed at creation.
    id: u128,
    input_uri: String,
    /// A stream may run without an output.
    output_uri: Option<String>,
    /// The ordered list of stage names frames pass through.
    frame_path: Vec<String>,
    /// Identifier of the pipeline currently processing the stream; bound by
    /// the dispatcher while a manager runs, cleared on termination.
    pipeline_id: Option<u128>,
    /// Snapshot of the content hash at creation; never rewritten by entry
    /// mutators, only by the dispatcher when it rebuilds the entry.
    hash: u64,
    target_state: StreamEntryState,
    restart_policy: RestartPolicy,
}

impl View for StreamsTableEntry {
    type V = EntryModel;

    closed spec fn view(&self) -> EntryModel {
        EntryModel {
            id: self.id,
            input_uri: self.input_uri@,
            output_uri: opt_string_view(self.output_uri),
            frame_path: self.frame_path@.map_values(|s: String| s@),
            pipeline_id: self.pipeline_id,
            stored_hash: self.hash,
            target_state: self.target_state,
            restart_policy: self.restart_policy,
        }
    }
}

impl Clone for StreamsTableEntry {
    fn clone(&self) -> (res: Self)
        ensures
            res@ == self@,
    {
        let mut frame_path: Vec<String> = Vec::new();
        let mut i: usize = 0;
        while i < self.frame_path.len()
            invariant
                i <= self.frame_path@.len(),
                frame_path@.len() == i,
                forall|j: int| 0 <= j < i ==> frame_path@[j]@ == self.frame_path@[j]@,
            decreases self.frame_path@.len() - i,
        {
            frame_path.push(self.frame_path[i].clone());
            i = i + 1;
        }
        proof {
            assert(frame_path@.map_values(|s: String| s@)
                =~= self.frame_path@.map_values(|s: String| s@));
        }
        let res = StreamsTableEntry {
            id: self.id,
            input_uri: self.input_uri.clone(),
            output_uri: match &self.output_uri {
                Some(u) => Some(u.clone()),
                None => None,
            },
            frame_path,
            pipeline_id: self.pipeline_id,
            hash: self.hash,
            target_state: self.target_state,
            restart_policy: self.restart_policy,
        };
        res
    }
}

impl StreamsTableEntry {
    /// Builds a fresh entry: stage names are sanitized, a file-scheme URI on
    /// either side forces the restart policy to `Never`, the target state
    /// starts at `Running`, no pipeline is bound, and the content hash is the
    /// snapshot of the stored fields.
    pub fn new(
        input_uri: String,
        output_uri: Option<String>,
        frame_path: Vec<String>,
        restart_policy: RestartPolicy,
    ) -> (r: Self)
        ensures
            r@.input_uri == input_uri@,
            r@.output_uri == opt_string_view(output_uri),
            r@.frame_path == sanitize_path(frame_path@.map_values(|s: String| s@)),
            r@.pipeline_id is None,
            r@.target_state == StreamEntryState::Running,
            r@.restart_policy == (if uses_file_scheme(input_uri@, opt_string_view(output_uri)) {
                RestartPolicy::Never
            } else {
                restart_policy
            }),
            r@.stored_hash == spec_live_hash(r@),
    {
        let mut sanitized: Vec<String> = Vec::new();
        let mut i: usize = 0;
        while i < frame_path.len()
            invariant
                i <= frame_path@.len(),
                sanitized@.len() == i,
                forall|j: int| 0 <= j < i ==> sanitized@[j]@ == frame_path@[j]@.map_values(
                    |c: char| dash_to_underscore(c),
                ),
            decreases frame_path@.len() - i,
        {
            sanitized.push(sanitize_stage_name(frame_path[i].as_str()));
            i = i + 1;
        }
        proof {
            assert(sanitized@.map_values(|s: String| s@)
                =~= sanitize_path(frame_path@.map_values(|s: String| s@)));
        }

        let input_is_file = str_starts_with(input_uri.as_str(), "file://");
        let output_is_file = match &output_uri {
            Some(u) => str_starts_with(u.as_str(), "file://"),
            None => false,
        };
        proof {
            reveal_strlit("file://");
            assert("file://"@ =~= file_scheme());
        }
        let restart_policy = if input_is_file || output_is_file {
            RestartPolicy::Never
        } else {
            restart_policy
        };

        let entry_hash = calculate_entry_hash(
            input_uri.as_str(),
            match &output_uri {
                Some(u) => Some(u.as_str()),
                None => None,
            },
            &sanitized,
            &restart_policy,
        );

        StreamsTableEntry {
            id: fresh_uuid(),
            input_uri,
            output_uri,
            frame_path: sanitized,
            pipeline_id: None,
            hash: entry_hash,
            target_state: StreamEntryState::Running,
            restart_policy,
        }
    }

    /// Identifier of the entry.
    pub fn get_id(&self) -> (r: u128)
        ensures
            r == self@.id,
    {
        self.id
    }

    /// The input URI.
    pub fn get_input_uri(&self) -> (r: &str)
        ensures
            r@ == self@.input_uri,
    {
        self.input_uri.as_str()
    }

    /// Replaces the input URI; everything else, the stored hash included,
    /// stays.
    pub fn set_input_uri(&mut self, new_uri: &str)
        ensures
            final(self)@ == (EntryModel { input_uri: new_uri@, ..old(self)@ }),
    {
        self.input_uri = new_uri.to_owned();
    }

    /// The output URI, when one is configured.
    pub fn get_output_uri(&self) -> (r: Option<&str>)
        ensures
            match r {
                Some(u) => self@.output_uri == Some(u@),
                None => self@.output_uri is None,
            },
    {
        match &self.output_uri {
            Some(u) => Some(u.as_str()),
            None => None,
        }
    }

    /// Replaces the output URI; everything else stays.
    pub fn set_output_uri(&mut self, new_uri: Option<String>)
        ensures
            final(self)@ == (EntryModel { output_uri: opt_string_view(new_uri), ..old(self)@ }),
    {
        self.output_uri = new_uri;
    }

    /// The ordered stage names of the frame path.
    pub fn get_frame_path(&self) -> (r: &Vec<String>)
        ensures
            r@.map_values(|s: String| s@) == self@.frame_path,
    {
        &self.frame_path
    }

    /// Replaces the frame path; everything else stays.
    pub fn set_frame_path(&mut self, new_path: Vec<String>)
        ensures
            final(self)@ == (EntryModel {
                frame_path: new_path@.map_values(|s: String| s@),
                ..old(self)@
            }),
    {
        self.frame_path = new_path;
    }

    /// Binds the entry to a running pipeline.
    pub fn assign_pipeline(&mut self, pipeline_id: u128)
        ensures
            final(self)@ == (EntryModel { pipeline_id: Some(pipeline_id), ..old(self)@ }),
    {
        self.pipeline_id = Some(pipeline_id);
    }

    /// Clears the pipeline binding.
    pub fn unassign_pipeline(&mut self)
        ensures
            final(self)@ == (EntryModel { pipeline_id: None, ..old(self)@ }),
    {
        self.pipeline_id = None;
    }

    /// The bound pipeline, when one is running for this entry.
    pub fn get_pipeline(&self) -> (r: Option<u128>)
        ensures
            r == self@.pipeline_id,
    {
        self.pipeline_id
    }

    /// The hash the entry has carried since its creation.
    pub fn get_stored_hash(&self) -> (r: u64)
        ensures
            r == self@.stored_hash,
    {
        self.hash
    }

    /// The hash the entry's current field values denote.
    pub fn hash(&self) -> (r: u64)
        ensures
            r == spec_live_hash(self@),
    {
        calculate_entry_hash(
            self.input_uri.as_str(),
            match &self.output_uri {
                Some(u) => Some(u.as_str()),
                None => None,
            },
            &self.frame_path,
            &self.restart_policy,
        )
    }

    /// The state the reconciler has to move the stream to.
    pub fn get_target_state(&self) -> (r: StreamEntryState)
        ensures
            r == self@.target_state,
    {
        self.target_state
    }

    /// Sets the target state; everything else stays.
    pub fn set_target_state(&mut self, state: StreamEntryState)
        ensures
            final(self)@ == (EntryModel { target_state: state, ..old(self)@ }),
    {
        self.target_state = state;
    }

    /// Sets the restart policy; everything else stays.
    pub fn set_restart_policy(&mut self, restart_policy: RestartPolicy)
        ensures
            final(self)@ == (EntryModel { restart_policy: restart_policy, ..old(self)@ }),
    {
        self.restart_policy = restart_policy;
    }

    /// The restart policy.
    pub fn get_restart_policy(&self) -> (r: RestartPolicy)
        ensures
            r == self@.restart_policy,
    {
        self.restart_policy
    }
}

/// Index of the first entry with the given id, if any.
pub open spec fn find_index(t: Seq<EntryModel>, id: u128) -> Option<int>
    decreases t.len(),
{
    if t.len() == 0 {
        None
    } else if t[0].id == id {
        Some(0)
    } else {
        match find_index(t.skip(1), id) {
            Some(j) => Some(j + 1),
            None => None,
        }
    }
}

/// Index of the first entry bound to the given pipeline, if any.
pub open spec fn find_pipeline_index(t: Seq<EntryModel>, pid: u128) -> Option<int>
    decreases t.len(),
{
    if t.len() == 0 {
        None
    } else if t[0].pipeline_id == Some(pid) {
        Some(0)
    } else {
        match find_pipeline_index(t.skip(1), pid) {
            Some(j) => Some(j + 1),
            None => None,
        }
    }
}

/// `find_index` returns exactly the first matching position.
pub proof fn lemma_find_index_spec(t: Seq<EntryModel>, id: u128)
    ensures
        match find_index(t, id) {
            Some(i) => 0 <= i < t.len() && t[i].id == id && forall|j: int|
                0 <= j < i ==> t[j].id != id,
            None => forall|j: int| 0 <= j < t.len() ==> t[j].id != id,
        },
    decreases t.len(),
{
    if t.len() > 0 && t[0].id != id {
        lemma_find_index_spec(t.skip(1), id);
        match find_index(t.skip(1), id) {
            Some(ip) => {
                assert(t.skip(1)[ip] == t[ip + 1]);
                assert forall|j: int| 1 <= j < ip + 1 implies t[j].id != id by {
                    assert(t.skip(1)[j - 1] == t[j]);
                };
            },
            None => {
                assert forall|j: int| 1 <= j < t.len() implies t[j].id != id by {
                    assert(t.skip(1)[j - 1] == t[j]);
                };
            },
        }
    }
}

/// A position known to be the first match determines `find_index`.
pub proof fn lemma_find_index_first(t: Seq<EntryModel>, id: u128, i: int)
    requires
        0 <= i < t.len(),
        t[i].id == id,
        forall|j: int| 0 <= j < i ==> t[j].id != id,
    ensures
        find_index(t, id) == Some(i),
    decreases t.len(),
{
    if i > 0 {
        lemma_find_index_first(t.skip(1), id, i - 1);
    }
}

/// A table without the id has no index for it.
pub proof fn lemma_find_index_none(t: Seq<EntryModel>, id: u128)
    requires
        forall|j: int| 0 <= j < t.len() ==> t[j].id != id,
    ensures
        find_index(t, id) is None,
    decreases t.len(),
{
    if t.len() > 0 {
        lemma_find_index_none(t.skip(1), id);
    }
}

/// `find_pipeline_index` returns exactly the first matching position.
pub proof fn lemma_find_pipeline_index_spec(t: Seq<EntryModel>, pid: u128)
    ensures
        match find_pipeline_index(t, pid) {
            Some(i) => 0 <= i < t.len() && t[i].pipeline_id == Some(pid) && forall|j: int|
                0 <= j < i ==> t[j].pipeline_id != Some(pid),
            None => forall|j: int| 0 <= j < t.len() ==> t[j].pipeline_id != Some(pid),
        },
    decreases t.len(),
{
    if t.len() > 0 && t[0].pipeline_id != Some(pid) {
        lemma_find_pipeline_index_spec(t.skip(1), pid);
        match find_pipeline_index(t.skip(1), pid) {
            Some(ip) => {
                assert(t.skip(1)[ip] == t[ip + 1]);
                assert forall|j: int| 1 <= j < ip + 1 implies t[j].pipeline_id != Some(pid) by {
                    assert(t.skip(1)[j - 1] == t[j]);
                };
            },
            None => {
                assert forall|j: int| 1 <= j < t.len() implies t[j].pipeline_id != Some(pid) by {
                    assert(t.skip(1)[j - 1] == t[j]);
                };
            },
        }
    }
}

/// A position known to be the first pipeline match determines
/// `find_pipeline_index`.
pub proof fn lemma_find_pipeline_index_first(t: Seq<EntryModel>, pid: u128, i: int)
    requires
        0 <= i < t.len(),
        t[i].pipeline_id == Some(pid),
        forall|j: int| 0 <= j < i ==> t[j].pipeline_id != Some(pid),
    ensures
        find_pipeline_index(t, pid) == Some(i),
    decreases t.len(),
{
    if i > 0 {
        lemma_find_pipeline_index_first(t.skip(1), pid, i - 1);
    }
}

/// A table where no entry is bound to the pipeline has no index for it.
pub proof fn lemma_find_pipeline_index_none(t: Seq<EntryModel>, pid: u128)
    requires
        forall|j: int| 0 <= j < t.len() ==> t[j].pipeline_id != Some(pid),
    ensures
        find_pipeline_index(t, pid) is None,
    decreases t.len(),
{
    if t.len() > 0 {
        lemma_find_pipeline_index_none(t.skip(1), pid);
    }
}

/// Some entry holds this input URI.
pub open spec fn table_has_input(t: Seq<EntryModel>, uri: Seq<char>) -> bool {
    exists|i: int| 0 <= i < t.len() && t[i].input_uri == uri
}

/// Some entry holds this output URI.
pub open spec fn table_has_output(t: Seq<EntryModel>, uri: Seq<char>) -> bool {
    exists|i: int| 0 <= i < t.len() && t[i].output_uri == Some(uri)
}

/// Some entry is bound to this pipeline.
pub open spec fn table_has_pipeline(t: Seq<EntryModel>, pid: u128) -> bool {
    exists|i: int| 0 <= i < t.len() && t[i].pipeline_id == Some(pid)
}

/// No two entries share an input URI.
pub open spec fn inputs_unique(t: Seq<EntryModel>) -> bool {
    forall|i: int, j: int| 0 <= i < j < t.len() ==> t[i].input_uri != t[j].input_uri
}

/// No two entries share a non-screen output URI.
pub open spec fn outputs_unique(t: Seq<EntryModel>) -> bool {
    forall|i: int, j: int|
        0 <= i < t.len() && 0 <= j < t.len() && i != j && t[i].output_uri is Some
            && t[i].output_uri->Some_0 != screen_chars()
            ==> t[j].output_uri != t[i].output_uri
}

/// No two entries are bound to one pipeline.
pub open spec fn pipelines_unique(t: Seq<EntryModel>) -> bool {
    forall|i: int, j: int|
        0 <= i < t.len() && 0 <= j < t.len() && i != j && t[i].pipeline_id is Some
            ==> t[j].pipeline_id != t[i].pipeline_id
}

/// The three uniqueness invariants the table maintains: at most one entry per
/// input URI, per non-screen output URI, and per bound pipeline.
pub open spec fn table_invariant(t: Seq<EntryModel>) -> bool {
    inputs_unique(t) && outputs_unique(t) && pipelines_unique(t)
}

/// Whether `add` accepts the entry against the current table.
pub open spec fn add_accepted(t: Seq<EntryModel>, e: EntryModel) -> bool {
    !table_has_input(t, e.input_uri) && match e.output_uri {
        Some(u) => u == screen_chars() || !table_has_output(t, u),
        None => true,
    }
}

/// The dynamic streams configuration: the set of streams the runtime must
/// reconcile the world against.
pub struct StreamsTable {
    table: Vec<StreamsTableEntry>,
}

impl View for StreamsTable {
    type V = Seq<EntryModel>;

    closed spec fn view(&self) -> Seq<EntryModel> {
        self.table@.map_values(|e: StreamsTableEntry| e@)
    }
}

impl StreamsTable {
    /// An empty table.
    pub fn new() -> (r: Self)
        ensures
            r@ =~= Seq::<EntryModel>::empty(),
    {
        StreamsTable { table: Vec::new() }
    }

    /// A copy of the whole table.
    pub fn get_table(&self) -> (r: Vec<StreamsTableEntry>)
        ensures
            r@.map_values(|e: StreamsTableEntry| e@) == self@,
    {
        let mut copy: Vec<StreamsTableEntry> = Vec::new();
        let mut i: usize = 0;
        while i < self.table.len()
            invariant
                i <= self.table@.len(),
                copy@.len() == i,
                forall|j: int| 0 <= j < i ==> copy@[j]@ == self.table@[j]@,
            decreases self.table@.len() - i,
        {
            copy.push(self.table[i].clone());
            i = i + 1;
        }
        proof {
            assert(copy@.map_values(|e: StreamsTableEntry| e@) =~= self@);
        }
        copy
    }

    /// Adds an entry, unless its input URI, or its non-screen output URI, is
    /// already present; a rejected add leaves the table untouched.
    pub fn add(&mut self, entry: StreamsTableEntry) -> (r: Result<(), String>)
        ensures
            add_accepted(old(self)@, entry@) ==> r is Ok && final(self)@ == old(
                self,
            )@.push(entry@),
            table_has_input(old(self)@, entry@.input_uri) ==> r is Err && final(self)@ == old(
                self,
            )@,
            (!table_has_input(old(self)@, entry@.input_uri) && entry@.output_uri is Some
                && entry@.output_uri->Some_0 != screen_chars()
                && table_has_output(old(self)@, entry@.output_uri->Some_0)) ==> r is Err
                && final(self)@ == old(self)@,
    {
        let n = self.table.len();
        let mut i: usize = 0;
        while i < n
            invariant
                i <= n,
                n == self.table@.len(),
                forall|j: int| 0 <= j < i ==> self@[j].input_uri != entry@.input_uri,
                self@ == old(self)@,
        decreases n - i,
        {
            if crate::text::str_eq(self.table[i].get_input_uri(), entry.get_input_uri()) {
                proof {
                    reveal_strlit("Duplicated input_uri");
                    assert(old(self)@[i as int].input_uri == entry@.input_uri);
                    assert(table_has_input(old(self)@, entry@.input_uri));
                }
                return Err("Duplicated input_uri".to_owned());
            }
            i = i + 1;
        }
        if let Some(output_uri) = entry.get_output_uri() {
            proof {
                reveal_strlit("screen");
                assert("screen"@ =~= screen_chars());
            }
            if !crate::text::str_eq(output_uri, "screen") {
                let mut k: usize = 0;
                while k < n
                    invariant
                        k <= n,
                        n == self.table@.len(),
                        entry@.output_uri == Some(output_uri@),
                        output_uri@ != screen_chars(),
                        forall|j: int| 0 <= j < k ==> self@[j].output_uri != Some(output_uri@),
                        self@ == old(self)@,
                    decreases n - k,
                {
                    let other = match self.table[k].get_output_uri() {
                        Some(u) => crate::text::str_eq(u, output_uri),
                        None => false,
                    };
                    if other {
                        proof {
                            reveal_strlit("Duplicated output_uri");
                            reveal_strlit("screen");
                            assert("screen"@ =~= screen_chars());
                            assert(output_uri@ != screen_chars());
                            assert(old(self)@[k as int].output_uri == Some(output_uri@));
                            assert(table_has_output(old(self)@, output_uri@));
                            assert(!add_accepted(old(self)@, entry@));
                        }
                        return Err("Duplicated output_uri".to_owned());
                    }
                    k = k + 1;
                }
            }
        }
        self.table.push(entry);
        proof {
            assert(final(self)@ =~= old(self)@.push(entry@));
        }
        Ok(())
    }

    /// The entry with the given id, if present.
    pub fn get_entry_by_id(&self, entry_id: u128) -> (r: Option<&StreamsTableEntry>)
        ensures
            match find_index(self@, entry_id) {
                Some(i) => r is Some && r->Some_0@ == self@[i],
                None => r is None,
            },
    {
        let n = self.table.len();
        let mut i: usize = 0;
        while i < n
            invariant
                i <= n,
                n == self.table@.len(),
                forall|j: int| 0 <= j < i ==> self@[j].id != entry_id,
                self@ == self.table@.map_values(|e: StreamsTableEntry| e@),
            decreases n - i,
        {
            if self.table[i].get_id() == entry_id {
                proof {
                    lemma_find_index_first(self@, entry_id, i as int);
                }
                return Some(&self.table[i]);
            }
            i = i + 1;
        }
        proof {
            lemma_find_index_none(self@, entry_id);
        }
        None
    }

    /// Removes and returns the entry with the given id; a miss leaves the
    /// table untouched.
    pub fn remove(&mut self, stream_id: u128) -> (r: Option<StreamsTableEntry>)
        ensures
            match find_index(old(self)@, stream_id) {
                Some(i) => r is Some && r->Some_0@ == old(self)@[i] && final(self)@ == old(
                    self,
                )@.remove(i),
                None => r is None && final(self)@ == old(self)@,
            },
    {
        let n = self.table.len();
        let mut i: usize = 0;
        while i < n
            invariant
                i <= n,
                n == self.table@.len(),
                forall|j: int| 0 <= j < i ==> self@[j].id != stream_id,
                self@ == old(self)@,
            decreases n - i,
        {
            if self.table[i].get_id() == stream_id {
                proof {
                    lemma_find_index_first(self@, stream_id, i as int);
                }
                let removed = self.table.remove(i);
                proof {
                    assert(final(self)@ =~= old(self)@.remove(i as int));
                }
                return Some(removed);
            }
            i = i + 1;
        }
        proof {
            lemma_find_index_none(self@, stream_id);
        }
        None
    }

    /// Binds a pipeline to the entry with the given id. Fails when the
    /// pipeline is already bound elsewhere, or when the id is unknown; either
    /// failure leaves the table untouched.
    pub fn set_stream_pipeline(&mut self, stream_id: u128, pipeline_id: u128) -> (r: Result<
        (),
        String,
    >)
        ensures
            table_has_pipeline(old(self)@, pipeline_id) ==> r is Err && final(self)@ == old(
                self,
            )@,
            !table_has_pipeline(old(self)@, pipeline_id) ==> match find_index(
                old(self)@,
                stream_id,
            ) {
                Some(i) => r is Ok && final(self)@ == old(self)@.update(
                    i,
                    EntryModel { pipeline_id: Some(pipeline_id), ..old(self)@[i] },
                ),
                None => r is Err && final(self)@ == old(self)@,
            },
    {
        let n = self.table.len();
        let mut i: usize = 0;
        while i < n
            invariant
                i <= n,
                n == self.table@.len(),
                forall|j: int| 0 <= j < i ==> self@[j].pipeline_id != Some(pipeline_id),
                self@ == old(self)@,
            decreases n - i,
        {
            if match self.table[i].get_pipeline() {
                Some(p) => p == pipeline_id,
                None => false,
            } {
                proof {
                    reveal_strlit("Pipeline ID already assigned to another entry");
                    assert(old(self)@[i as int].pipeline_id == Some(pipeline_id));
                    assert(table_has_pipeline(old(self)@, pipeline_id));
                }
                return Err("Pipeline ID already assigned to another entry".to_owned());
            }
            i = i + 1;
        }
        let mut k: usize = 0;
        while k < n
            invariant
                k <= n,
                n == self.table@.len(),
                forall|j: int| 0 <= j < k ==> self@[j].id != stream_id,
                forall|j: int| 0 <= j < n ==> self@[j].pipeline_id != Some(pipeline_id),
                self@ == old(self)@,
            decreases n - k,
        {
            if self.table[k].get_id() == stream_id {
                proof {
                    lemma_find_index_first(self@, stream_id, k as int);
                }
                let mut entry = self.table.remove(k);
                entry.assign_pipeline(pipeline_id);
                self.table.insert(k, entry);
                proof {
                    assert(final(self)@ =~= old(self)@.update(
                        k as int,
                        EntryModel { pipeline_id: Some(pipeline_id), ..old(self)@[k as int] },
                    ));
                }
                return Ok(());
            }
            k = k + 1;
        }
        proof {
            lemma_find_index_none(self@, stream_id);
            reveal_strlit("Entry not found");
        }
        Err("Entry not found".to_owned())
    }

    /// The entry bound to the given pipeline, if any.
    pub fn find_by_pipeline_id(&self, pipeline_id: u128) -> (r: Option<&StreamsTableEntry>)
        ensures
            match find_pipeline_index(self@, pipeline_id) {
                Some(i) => r is Some && r->Some_0@ == self@[i],
                None => r is None,
            },
    {
        let n = self.table.len();
        let mut i: usize = 0;
        while i < n
            invariant
                i <= n,
                n == self.table@.len(),
                forall|j: int| 0 <= j < i ==> self@[j].pipeline_id != Some(pipeline_id),
                self@ == self.table@.map_values(|e: StreamsTableEntry| e@),
            decreases n - i,
        {
            if match self.table[i].get_pipeline() {
                Some(p) => p == pipeline_id,
                None => false,
            } {
                proof {
                    lemma_find_pipeline_index_first(self@, pipeline_id, i as int);
                }
                return Some(&self.table[i]);
            }
            i = i + 1;
        }
        proof {
            lemma_find_pipeline_index_none(self@, pipeline_id);
        }
        None
    }

    /// The entry bound to the given pipeline, if any; pipeline bindings are
    /// unique, so the lookup is unambiguous.
    pub fn get_entry_by_pipeline_id(&self, pipeline_id: u128) -> (r: Option<&StreamsTableEntry>)
        ensures
            match find_pipeline_index(self@, pipeline_id) {
                Some(i) => r is Some && r->Some_0@ == self@[i],
                None => r is None,
            },
    {
        self.find_by_pipeline_id(pipeline_id)
    }

    /// Position of the entry with the given id in the backing vector.
    fn index_of_entry(&self, entry_id: u128) -> (r: Option<usize>)
        ensures
            match r {
                Some(i) => i < self@.len() && find_index(self@, entry_id) == Some(i as int),
                None => find_index(self@, entry_id) is None,
            },
    {
        let n = self.table.len();
        let mut k: usize = 0;
        while k < n
            invariant
                k <= n,
                n == self.table@.len(),
                forall|j: int| 0 <= j < k ==> self@[j].id != entry_id,
                self@ == self.table@.map_values(|e: StreamsTableEntry| e@),
            decreases n - k,
        {
            if self.table[k].get_id() == entry_id {
                proof {
                    lemma_find_index_first(self@, entry_id, k as int);
                }
                return Some(k);
            }
            k = k + 1;
        }
        proof {
            lemma_find_index_none(self@, entry_id);
        }
        None
    }

    /// Rebuilds the entry with the given id from new user-supplied values:
    /// stage names are sanitized and file-scheme URIs coerce the policy, as
    /// at construction; the pipeline binding is cleared so the dispatcher
    /// tears the old manager down; the stored hash is kept, so the entry now
    /// reads as drifted until the dispatcher rebuilds it. An update that
    /// would break a uniqueness invariant is rejected and changes nothing.
    pub fn update_by_entry_id(
        &mut self,
        entry_id: u128,
        input_uri: &str,
        output_uri: Option<String>,
        frame_path: Vec<String>,
        restart_policy: RestartPolicy,
    ) -> (r: UpdateOutcome)
        ensures
            match find_index(old(self)@, entry_id) {
                Some(i) => {
                    if dup_input_elsewhere(old(self)@, i, input_uri@) {
                        r == UpdateOutcome::DuplicateInput && final(self)@ == old(self)@
                    } else if dup_output_elsewhere(old(self)@, i, opt_string_view(output_uri)) {
                        r == UpdateOutcome::DuplicateOutput && final(self)@ == old(self)@
                    } else {
                        r == UpdateOutcome::Updated && final(self)@ == old(self)@.update(
                            i,
                            rebuilt_entry(
                                old(self)@[i],
                                input_uri@,
                                opt_string_view(output_uri),
                                frame_path@.map_values(|s: String| s@),
                                restart_policy,
                            ),
                        )
                    }
                },
                None => r == UpdateOutcome::NotFound && final(self)@ == old(self)@,
            },
    {
        let n = self.table.len();
        let i = match self.index_of_entry(entry_id) {
            Some(i) => i,
            None => {
                return UpdateOutcome::NotFound;
            },
        };

        let mut j: usize = 0;
        while j < n
            invariant
                j <= n,
                n == self.table@.len(),
                self@ == old(self)@,
                i < n,
                find_index(self@, entry_id) == Some(i as int),
                forall|m: int|
                    0 <= m < j && m != i ==> self@[m].input_uri != input_uri@,
            decreases n - j,
        {
            if j != i && crate::text::str_eq(self.table[j].get_input_uri(), input_uri) {
                proof {
                    assert(self@[j as int].input_uri == input_uri@ && j != i);
                    assert(dup_input_elsewhere(old(self)@, i as int, input_uri@));
                }
                return UpdateOutcome::DuplicateInput;
            }
            j = j + 1;
        }

        if let Some(ref out_uri) = output_uri {
            proof {
                reveal_strlit("screen");
                assert("screen"@ =~= screen_chars());
            }
            if !crate::text::str_eq(out_uri.as_str(), "screen") {
                let mut m: usize = 0;
                while m < n
                    invariant
                        m <= n,
                        n == self.table@.len(),
                        self@ == old(self)@,
                        i < n,
                        find_index(self@, entry_id) == Some(i as int),
                        !dup_input_elsewhere(self@, i as int, input_uri@),
                        output_uri == Some(*out_uri),
                        out_uri@ != screen_chars(),
                        forall|q: int|
                            0 <= q < m && q != i ==> self@[q].output_uri != Some(out_uri@),
                    decreases n - m,
                {
                    let hit = m != i && match self.table[m].get_output_uri() {
                        Some(u) => crate::text::str_eq(u, out_uri.as_str()),
                        None => false,
                    };
                    if hit {
                        proof {
                            assert(self@[m as int].output_uri == Some(out_uri@) && m != i);
                            assert(dup_output_elsewhere(
                                old(self)@,
                                i as int,
                                opt_string_view(output_uri),
                            ));
                        }
                        return UpdateOutcome::DuplicateOutput;
                    }
                    m = m + 1;
                }
            }
        }

        let old_entry = self.table.remove(i);
        let sanitized = sanitize_path_vec(&frame_path);
        let input_is_file = str_starts_with(input_uri, "file://");
        let output_is_file = match &output_uri {
            Some(u) => str_starts_with(u.as_str(), "file://"),
            None => false,
        };
        proof {
            reveal_strlit("file://");
            assert("file://"@ =~= file_scheme());
        }
        let restart_policy = if input_is_file || output_is_file {
            RestartPolicy::Never
        } else {
            restart_policy
        };
        let rebuilt = StreamsTableEntry {
            id: old_entry.id,
            input_uri: input_uri.to_owned(),
            output_uri,
            frame_path: sanitized,
            pipeline_id: None,
            hash: old_entry.hash,
            target_state: old_entry.target_state,
            restart_policy,
        };
        self.table.insert(i, rebuilt);
        proof {
            assert(final(self)@ =~= old(self)@.update(
                i as int,
                rebuilt_entry(
                    old(self)@[i as int],
                    input_uri@,
                    opt_string_view(output_uri),
                    frame_path@.map_values(|s: String| s@),
                    restart_policy,
                ),
            ));
        }
        UpdateOutcome::Updated
    }

    /// Settles a finished pipeline: clears the binding of the entry bound to
    /// it and moves the entry to the given target state. Nothing changes
    /// when no entry is bound to the pipeline.
    pub fn settle_pipeline(&mut self, pipeline_id: u128, target_state: StreamEntryState) -> (found:
        bool)
        ensures
            match find_pipeline_index(old(self)@, pipeline_id) {
                Some(i) => found && final(self)@ == old(self)@.update(
                    i,
                    EntryModel {
                        pipeline_id: None,
                        target_state: target_state,
                        ..old(self)@[i]
                    },
                ),
                None => !found && final(self)@ == old(self)@,
            },
    {
        let n = self.table.len();
        let mut k: usize = 0;
        while k < n
            invariant
                k <= n,
                n == self.table@.len(),
                self@ == old(self)@,
                forall|j: int| 0 <= j < k ==> self@[j].pipeline_id != Some(pipeline_id),
            decreases n - k,
        {
            if match self.table[k].get_pipeline() {
                Some(p) => p == pipeline_id,
                None => false,
            } {
                proof {
                    lemma_find_pipeline_index_first(self@, pipeline_id, k as int);
                }
                let mut entry = self.table.remove(k);
                entry.unassign_pipeline();
                entry.set_target_state(target_state);
                self.table.insert(k, entry);
                proof {
                    assert(final(self)@ =~= old(self)@.update(
                        k as int,
                        EntryModel {
                            pipeline_id: None,
                            target_state: target_state,
                            ..old(self)@[k as int]
                        },
                    ));
                }
                return true;
            }
            k = k + 1;
        }
        proof {
            lemma_find_pipeline_index_none(self@, pipeline_id);
        }
        false
    }

    /// Rewrites the stored hash of the entry with the given id to its live
    /// hash: the dispatcher's rebuild step once it has restarted the stream
    /// after an update.
    pub fn refresh_stored_hash(&mut self, entry_id: u128)
        ensures
            match find_index(old(self)@, entry_id) {
                Some(i) => final(self)@ == old(self)@.update(
                    i,
                    EntryModel { stored_hash: spec_live_hash(old(self)@[i]), ..old(self)@[i] },
                ),
                None => final(self)@ == old(self)@,
            },
    {
        let n = self.table.len();
        let mut k: usize = 0;
        while k < n
            invariant
                k <= n,
                n == self.table@.len(),
                self@ == old(self)@,
                forall|j: int| 0 <= j < k ==> self@[j].id != entry_id,
            decreases n - k,
        {
            if self.table[k].get_id() == entry_id {
                proof {
                    lemma_find_index_first(self@, entry_id, k as int);
                }
                let mut entry = self.table.remove(k);
                let live = entry.hash();
                entry.hash = live;
                self.table.insert(k, entry);
                proof {
                    assert(final(self)@ =~= old(self)@.update(
                        k as int,
                        EntryModel {
                            stored_hash: spec_live_hash(old(self)@[k as int]),
                            ..old(self)@[k as int]
                        },
                    ));
                }
                return;
            }
            k = k + 1;
        }
        proof {
            lemma_find_index_none(self@, entry_id);
        }
    }
}

/// The outcome of rebuilding an entry in place.
#[derive(Debug, Clone, Copy, PartialEq, Eq, Structural)]
pub enum UpdateOutcome {
    /// The entry was rebuilt.
    Updated,
    /// No entry carries the given id.
    NotFound,
    /// The new input URI is already taken by another entry.
    DuplicateInput,
    /// The new output URI is non-screen and already taken by another entry.
    DuplicateOutput,
}

/// Another entry than the one at `i` already holds this input URI.
pub open spec fn dup_input_elsewhere(t: Seq<EntryModel>, i: int, uri: Seq<char>) -> bool {
    exists|j: int| 0 <= j < t.len() && j != i && t[j].input_uri == uri
}

/// Another entry than the one at `i` already holds this non-screen output.
pub open spec fn dup_output_elsewhere(
    t: Seq<EntryModel>,
    i: int,
    uri: Option<Seq<char>>,
) -> bool {
    match uri {
        Some(u) => u != screen_chars() && exists|j: int|
            0 <= j < t.len() && j != i && t[j].output_uri == Some(u),
        None => false,
    }
}

/// The model of an entry rebuilt in place from new user-supplied values.
pub open spec fn rebuilt_entry(
    e: EntryModel,
    input_uri: Seq<char>,
    output_uri: Option<Seq<char>>,
    frame_path: Seq<Seq<char>>,
    restart_policy: RestartPolicy,
) -> EntryModel {
    EntryModel {
        id: e.id,
        input_uri: input_uri,
        output_uri: output_uri,
        frame_path: sanitize_path(frame_path),
        pipeline_id: None,
        stored_hash: e.stored_hash,
        target_state: e.target_state,
        restart_policy: if uses_file_scheme(input_uri, output_uri) {
            RestartPolicy::Never
        } else {
            restart_policy
        },
    }
}

/// Sanitizes every name of a frame path.
fn sanitize_path_vec(frame_path: &Vec<String>) -> (r: Vec<String>)
    ensures
        r@.map_values(|s: String| s@) == sanitize_path(frame_path@.map_values(|s: String| s@)),
{
    let mut sanitized: Vec<String> = Vec::new();
    let mut i: usize = 0;
    while i < frame_path.len()
        invariant
            i <= frame_path@.len(),
            sanitized@.len() == i,
            forall|j: int| 0 <= j < i ==> sanitized@[j]@ == frame_path@[j]@.map_values(
                |c: char| dash_to_underscore(c),
            ),
        decreases frame_path@.len() - i,
    {
        sanitized.push(sanitize_stage_name(frame_path[i].as_str()));
        i = i + 1;
    }
    proof {
        assert(sanitized@.map_values(|s: String| s@)
            =~= sanitize_path(frame_path@.map_values(|s: String| s@)));
    }
    sanitized
}

/// Adding an accepted entry that binds no pipeline, or one whose pipeline is
/// not yet bound elsewhere, keeps all three uniqueness invariants.
pub proof fn lemma_add_preserves_invariant(t: Seq<EntryModel>, e: EntryModel)
    requires
        table_invariant(t),
        add_accepted(t, e),
        match e.pipeline_id {
            Some(p) => !table_has_pipeline(t, p),
            None => true,
        },
    ensures
        table_invariant(t.push(e)),
{
    let t2 = t.push(e);
    assert forall|i: int, j: int| 0 <= i < j < t2.len() implies t2[i].input_uri
        != t2[j].input_uri by {
        if j == t.len() {
            assert(!table_has_input(t, e.input_uri));
            assert(t2[i] == t[i]);
        }
    };
    assert forall|i: int, j: int|
        0 <= i < t2.len() && 0 <= j < t2.len() && i != j && t2[i].output_uri is Some
            && t2[i].output_uri->Some_0 != screen_chars() implies t2[j].output_uri
        != t2[i].output_uri by {
        if i == t.len() {
            assert(!table_has_output(t, e.output_uri->Some_0));
            assert(t2[j] == t[j]);
        } else if j == t.len() {
            assert(t2[i] == t[i]);
            if t2[j].output_uri == t2[i].output_uri {
                assert(e.output_uri == t[i].output_uri);
                assert(e.output_uri->Some_0 != screen_chars());
                assert(table_has_output(t, e.output_uri->Some_0));
            }
        }
    };
    assert forall|i: int, j: int|
        0 <= i < t2.len() && 0 <= j < t2.len() && i != j && t2[i].pipeline_id is Some
            implies t2[j].pipeline_id != t2[i].pipeline_id by {
        if i == t.len() {
            assert(!table_has_pipeline(t, e.pipeline_id->Some_0));
            assert(t2[j] == t[j]);
        } else if j == t.len() {
            assert(t2[i] == t[i]);
            if t2[j].pipeline_id == t2[i].pipeline_id {
                assert(table_has_pipeline(t, e.pipeline_id->Some_0));
            }
        }
    };
}

/// Removing an entry keeps all three uniqueness invariants.
pub proof fn lemma_remove_preserves_invariant(t: Seq<EntryModel>, i: int)
    requires
        table_invariant(t),
        0 <= i < t.len(),
    ensures
        table_invariant(t.remove(i)),
{
    let t2 = t.remove(i);
    assert forall|a: int, b: int| 0 <= a < b < t2.len() implies t2[a].input_uri
        != t2[b].input_uri by {
        let a0 = if a < i { a } else { a + 1 };
        let b0 = if b < i { b } else { b + 1 };
        assert(t2[a] == t[a0]);
        assert(t2[b] == t[b0]);
    };
    assert forall|a: int, b: int|
        0 <= a < t2.len() && 0 <= b < t2.len() && a != b && t2[a].output_uri is Some
            && t2[a].output_uri->Some_0 != screen_chars() implies t2[b].output_uri
        != t2[a].output_uri by {
        let a0 = if a < i { a } else { a + 1 };
        let b0 = if b < i { b } else { b + 1 };
        assert(t2[a] == t[a0]);
        assert(t2[b] == t[b0]);
    };
    assert forall|a: int, b: int|
        0 <= a < t2.len() && 0 <= b < t2.len() && a != b && t2[a].pipeline_id is Some
            implies t2[b].pipeline_id != t2[a].pipeline_id by {
        let a0 = if a < i { a } else { a + 1 };
        let b0 = if b < i { b } else { b + 1 };
        assert(t2[a] == t[a0]);
        assert(t2[b] == t[b0]);
    };
}

/// Binding a not-yet-bound pipeline to one entry keeps all three uniqueness
/// invariants.
pub proof fn lemma_bind_preserves_invariant(t: Seq<EntryModel>, i: int, pid: u128)
    requires
        table_invariant(t),
        0 <= i < t.len(),
        !table_has_pipeline(t, pid),
    ensures
        table_invariant(t.update(i, EntryModel { pipeline_id: Some(pid), ..t[i] })),
{
    let t2 = t.update(i, EntryModel { pipeline_id: Some(pid), ..t[i] });
    assert forall|a: int, b: int|
        0 <= a < t2.len() && 0 <= b < t2.len() && a != b && t2[a].pipeline_id is Some
            implies t2[b].pipeline_id != t2[a].pipeline_id by {
        if a != i && b != i {
            assert(t2[a] == t[a]);
            assert(t2[b] == t[b]);
        } else if a == i {
            assert(t2[b] == t[b]);
            if t2[b].pipeline_id == Some(pid) {
                assert(table_has_pipeline(t, pid));
            }
        } else {
            assert(t2[a] == t[a]);
            if t2[b].pipeline_id == t2[a].pipeline_id {
                assert(table_has_pipeline(t, t[a].pipeline_id->Some_0));
                assert(t[a].pipeline_id == Some(pid));
            }
        }
    };
    assert(inputs_unique(t2));
    assert(outputs_unique(t2));
}

/// Clearing one entry's pipeline binding keeps all three uniqueness
/// invariants.
pub proof fn lemma_unbind_preserves_invariant(t: Seq<EntryModel>, i: int)
    requires
        table_invariant(t),
        0 <= i < t.len(),
    ensures
        table_invariant(t.update(i, EntryModel { pipeline_id: None, ..t[i] })),
{
    let t2 = t.update(i, EntryModel { pipeline_id: None, ..t[i] });
    assert(inputs_unique(t2));
    assert(outputs_unique(t2));
    assert(pipelines_unique(t2));
}

/// Rebuilding one entry in place keeps all three uniqueness invariants when
/// the new input URI and non-screen output URI occur in no other entry.
pub proof fn lemma_rebuild_preserves_invariant(
    t: Seq<EntryModel>,
    i: int,
    input_uri: Seq<char>,
    output_uri: Option<Seq<char>>,
    frame_path: Seq<Seq<char>>,
    restart_policy: RestartPolicy,
)
    requires
        table_invariant(t),
        0 <= i < t.len(),
        !dup_input_elsewhere(t, i, input_uri),
        !dup_output_elsewhere(t, i, output_uri),
    ensures
        table_invariant(
            t.update(i, rebuilt_entry(t[i], input_uri, output_uri, frame_path, restart_policy)),
        ),
{
    let e2 = rebuilt_entry(t[i], input_uri, output_uri, frame_path, restart_policy);
    let t2 = t.update(i, e2);
    assert forall|a: int, b: int| 0 <= a < b < t2.len() implies t2[a].input_uri
        != t2[b].input_uri by {
        if a == i {
            assert(t2[b] == t[b]);
        } else if b == i {
            assert(t2[a] == t[a]);
        } else {
            assert(t2[a] == t[a]);
            assert(t2[b] == t[b]);
        }
    };
    assert forall|a: int, b: int|
        0 <= a < t2.len() && 0 <= b < t2.len() && a != b && t2[a].output_uri is Some
            && t2[a].output_uri->Some_0 != screen_chars() implies t2[b].output_uri
        != t2[a].output_uri by {
        if a == i {
            assert(t2[b] == t[b]);
        } else if b == i {
            assert(t2[a] == t[a]);
            if t2[b].output_uri == t2[a].output_uri {
                assert(dup_output_elsewhere(t, i, output_uri));
            }
        } else {
            assert(t2[a] == t[a]);
            assert(t2[b] == t[b]);
        }
    };
    assert forall|a: int, b: int|
        0 <= a < t2.len() && 0 <= b < t2.len() && a != b && t2[a].pipeline_id is Some
            implies t2[b].pipeline_id != t2[a].pipeline_id by {
        if a != i && b != i {
            assert(t2[a] == t[a]);
            assert(t2[b] == t[b]);
        } else if b == i {
            assert(t2[a] == t[a]);
        }
    };
}

/// Rewriting one entry's stored hash keeps all three uniqueness invariants.
pub proof fn lemma_refresh_preserves_invariant(t: Seq<EntryModel>, i: int)
    requires
        table_invariant(t),
        0 <= i < t.len(),
    ensures
        table_invariant(
            t.update(i, EntryModel { stored_hash: spec_live_hash(t[i]), ..t[i] }),
        ),
{
    let t2 = t.update(i, EntryModel { stored_hash: spec_live_hash(t[i]), ..t[i] });
    assert(inputs_unique(t2));
    assert(outputs_unique(t2));
    assert(pipelines_unique(t2));
}

/// Adding an entry with a fresh id and then removing that id restores the
/// table exactly, and a lookup of the id finds nothing afterwards.
pub proof fn lemma_add_remove_round_trip(t: Seq<EntryModel>, e: EntryModel)
    requires
        find_index(t, e.id) is None,
    ensures
        find_index(t.push(e), e.id) == Some(t.len() as int),
        t.push(e).remove(t.len() as int) =~= t,
{
    lemma_find_index_spec(t, e.id);
    let t2 = t.push(e);
    assert(t2[t.len() as int].id == e.id);
    assert(forall|j: int| 0 <= j < t.len() ==> t2[j] == t[j]);
    lemma_find_index_first(t2, e.id, t.len() as int);
}

/// A screen output is never a ground for rejection: an entry whose output is
/// the screen sentinel is accepted whenever its input URI is fresh.
pub proof fn lemma_screen_output_never_rejected(t: Seq<EntryModel>, e: EntryModel)
    requires
        !table_has_input(t, e.input_uri),
        e.output_uri == Some(screen_chars()),
    ensures
        add_accepted(t, e),
{
}

/// Sanitizing a frame path twice is the same as sanitizing it once.
pub proof fn lemma_sanitize_idempotent(p: Seq<Seq<char>>)
    ensures
        sanitize_path(sanitize_path(p)) == sanitize_path(p),
{
    assert forall|i: int| 0 <= i < p.len() implies sanitize_path(sanitize_path(p))[i]
        == sanitize_path(p)[i] by {
        assert(sanitize_path(sanitize_path(p))[i] =~= sanitize_path(p)[i]);
    };
    assert(sanitize_path(sanitize_path(p)) =~= sanitize_path(p));
}

/// Rebuilding an entry in place with its own current values leaves its live
/// hash where it was: an update that changes nothing causes no divergence
/// between the stored and the live hash of a settled entry.
pub proof fn lemma_update_same_values_settled(e: EntryModel)
    requires
        e.stored_hash == spec_live_hash(e),
        e.frame_path == sanitize_path(e.frame_path),
        uses_file_scheme(e.input_uri, e.output_uri) ==> e.restart_policy
            == RestartPolicy::Never,
    ensures
        ({
            let r = rebuilt_entry(e, e.input_uri, e.output_uri, e.frame_path, e.restart_policy);
            r.stored_hash == spec_live_hash(r)
        }),
{
}

/// A refreshed entry is settled: its stored hash equals its live hash.
pub proof fn lemma_refresh_settles_entry(e: EntryModel)
    ensures
        ({
            let r = EntryModel { stored_hash: spec_live_hash(e), ..e };
            r.stored_hash == spec_live_hash(r)
        }),
{
}

} // verus!

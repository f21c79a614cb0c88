//! Loading stages: how hook file names select a phase and a language, how a
//! hook is marked stateful, how a process-hook JSON specification is read,
//! and how a stage set is assembled. Reading the project directory and
//! building the hook bodies belong to the embedding shell; every decision
//! about what was read is here.

use vstd::prelude::*;
use vstd::string::StrSliceExecFns;
use crate::hook::Hook;
use crate::hook::HookType;
use crate::inference::InferenceRuntime;
use crate::inference::SessionParams;
use crate::inference::session_params_from_raw_data;
use crate::json::parse_json;
use crate::json::json_doc_of;
use crate::json::json_member;
use crate::json::json_null_of;
use crate::json::json_object_of;
use crate::json::json_boolean_of;
use crate::json::json_bool_of;
use crate::json::json_get;
use crate::json::json_as_string;
use crate::json::json_as_bool;
use crate::json::json_is_null;
use crate::json::json_is_object;
use crate::json::json_is_boolean;
use crate::language::Language;
use crate::stage::Context;
use crate::stage::Stage;
use crate::text::find_char_from;
use crate::text::lemma_find_char_first;
use crate::text::lemma_find_char_none;

verus! {

/// What a hook file contributes to its stage: the context initializer, or
/// one of the three phases.
#[derive(Debug, Clone, Copy, PartialEq, Eq, Structural)]
pub enum HookFileRole {
    /// An `init` file: it builds the stage context.
    Init,
    /// A phase hook.
    Phase(HookType),
}

/// The stem of a hook file name: the text before its first dot.
pub open spec fn spec_file_stem(s: Seq<char>) -> Seq<char> {
    match find_char_from(s, '.', 0) {
        Some(p) => s.take(p),
        None => s,
    }
}

/// The extension of a hook file name: the text between its first and second
/// dots, or from the first dot to the end.
pub open spec fn spec_file_extension(s: Seq<char>) -> Option<Seq<char>> {
    match find_char_from(s, '.', 0) {
        Some(p) => {
            let end = match find_char_from(s, '.', p + 1) {
                Some(q) => q,
                None => s.len() as int,
            };
            Some(s.subrange(p + 1, end))
        },
        None => None,
    }
}

/// The role a file stem denotes, if any: `init`, or a phase in its
/// hyphenated or underscored spelling.
pub open spec fn spec_role_of_stem(stem: Seq<char>) -> Option<HookFileRole> {
    if stem == seq!['i', 'n', 'i', 't'] {
        Some(HookFileRole::Init)
    } else if stem == seq!['p', 'r', 'e', '-', 'p', 'r', 'o', 'c', 'e', 's', 's'] || stem == seq![
        'p', 'r', 'e', '_', 'p', 'r', 'o', 'c', 'e', 's', 's',
    ] {
        Some(HookFileRole::Phase(HookType::PreProcess))
    } else if stem == seq!['p', 'r', 'o', 'c', 'e', 's', 's'] {
        Some(HookFileRole::Phase(HookType::Process))
    } else if stem == seq!['p', 'o', 's', 't', '-', 'p', 'r', 'o', 'c', 'e', 's', 's'] || stem
        == seq!['p', 'o', 's', 't', '_', 'p', 'r', 'o', 'c', 'e', 's', 's'] {
        Some(HookFileRole::Phase(HookType::PostProcess))
    } else {
        None
    }
}

/// The language an extension selects, if any.
pub open spec fn spec_language_of_extension(ext: Seq<char>) -> Option<Language> {
    if ext == crate::language::extension_chars(Language::Python) {
        Some(Language::Python)
    } else if ext == crate::language::extension_chars(Language::Rust) {
        Some(Language::Rust)
    } else if ext == crate::language::extension_chars(Language::Json) {
        Some(Language::Json)
    } else {
        None
    }
}

/// Extracts the stem of a file name.
fn file_stem(name: &str) -> (r: String)
    ensures
        r@ == spec_file_stem(name@),
{
    let len = name.unicode_len();
    let mut p: usize = 0;
    while p < len
        invariant
            p <= len,
            len == name@.len(),
            forall|w: int| 0 <= w < p ==> name@[w] != '.',
        decreases len - p,
    {
        if name.get_char(p) == '.' {
            proof {
                lemma_find_char_first(name@, '.', 0, p as int);
            }
            return name.substring_char(0, p).to_owned();
        }
        p = p + 1;
    }
    proof {
        lemma_find_char_none(name@, '.', 0);
        assert(name@.take(len as int) =~= name@);
    }
    name.substring_char(0, len).to_owned()
}

/// Extracts the extension of a file name, when it has one.
fn file_extension(name: &str) -> (r: Option<String>)
    ensures
        match r {
            Some(e) => spec_file_extension(name@) == Some(e@),
            None => spec_file_extension(name@) is None,
        },
{
    let len = name.unicode_len();
    let mut p: usize = 0;
    while p < len
        invariant
            p <= len,
            len == name@.len(),
            forall|w: int| 0 <= w < p ==> name@[w] != '.',
        decreases len - p,
    {
        if name.get_char(p) == '.' {
            proof {
                lemma_find_char_first(name@, '.', 0, p as int);
            }
            let mut q: usize = p + 1;
            while q < len
                invariant
                    p + 1 <= q,
                    q <= len,
                    len == name@.len(),
                    name@[p as int] == '.',
                    find_char_from(name@, '.', 0) == Some(p as int),
                    forall|w: int| p + 1 <= w < q ==> name@[w] != '.',
                decreases len - q,
            {
                if name.get_char(q) == '.' {
                    proof {
                        lemma_find_char_first(name@, '.', p + 1, q as int);
                    }
                    return Some(name.substring_char(p + 1, q).to_owned());
                }
                q = q + 1;
            }
            proof {
                lemma_find_char_none(name@, '.', p + 1);
            }
            return Some(name.substring_char(p + 1, len).to_owned());
        }
        p = p + 1;
    }
    proof {
        lemma_find_char_none(name@, '.', 0);
    }
    None
}

/// Classifies a hook file by its name: its role and its language, when
/// both resolve; anything else is not a hook file.
pub fn parse_hook_file_name(name: &str) -> (r: Option<(HookFileRole, Language)>)
    ensures
        match r {
            Some(rl) => spec_role_of_stem(spec_file_stem(name@)) == Some(rl.0) && (match
                spec_file_extension(name@) {
                Some(e) => spec_language_of_extension(e) == Some(rl.1),
                None => false,
            }),
            None => spec_role_of_stem(spec_file_stem(name@)) is None || (match
                spec_file_extension(name@) {
                Some(e) => spec_language_of_extension(e) is None,
                None => true,
            }),
        },
{
    proof {
        reveal_strlit("init");
        reveal_strlit("pre-process");
        reveal_strlit("pre_process");
        reveal_strlit("process");
        reveal_strlit("post-process");
        reveal_strlit("post_process");
        reveal_strlit("py");
        reveal_strlit("rs");
        reveal_strlit("json");
        assert("init"@ =~= seq!['i', 'n', 'i', 't']);
        assert("pre-process"@ =~= seq![
            'p', 'r', 'e', '-', 'p', 'r', 'o', 'c', 'e', 's', 's',
        ]);
        assert("pre_process"@ =~= seq![
            'p', 'r', 'e', '_', 'p', 'r', 'o', 'c', 'e', 's', 's',
        ]);
        assert("process"@ =~= seq!['p', 'r', 'o', 'c', 'e', 's', 's']);
        assert("post-process"@ =~= seq![
            'p', 'o', 's', 't', '-', 'p', 'r', 'o', 'c', 'e', 's', 's',
        ]);
        assert("post_process"@ =~= seq![
            'p', 'o', 's', 't', '_', 'p', 'r', 'o', 'c', 'e', 's', 's',
        ]);
        assert("py"@ =~= crate::language::extension_chars(Language::Python));
        assert("rs"@ =~= crate::language::extension_chars(Language::Rust));
        assert("json"@ =~= crate::language::extension_chars(Language::Json));
    }
    let stem = file_stem(name);
    let role = if crate::text::str_eq(stem.as_str(), "init") {
        HookFileRole::Init
    } else if crate::text::str_eq(stem.as_str(), "pre-process") || crate::text::str_eq(
        stem.as_str(),
        "pre_process",
    ) {
        HookFileRole::Phase(HookType::PreProcess)
    } else if crate::text::str_eq(stem.as_str(), "process") {
        HookFileRole::Phase(HookType::Process)
    } else if crate::text::str_eq(stem.as_str(), "post-process") || crate::text::str_eq(
        stem.as_str(),
        "post_process",
    ) {
        HookFileRole::Phase(HookType::PostProcess)
    } else {
        return None;
    };
    let ext = match file_extension(name) {
        Some(e) => e,
        None => {
            return None;
        },
    };
    let language = if crate::text::str_eq(ext.as_str(), "py") {
        Language::Python
    } else if crate::text::str_eq(ext.as_str(), "rs") {
        Language::Rust
    } else if crate::text::str_eq(ext.as_str(), "json") {
        Language::Json
    } else {
        return None;
    };
    Some((role, language))
}

/// The first line of a hook file: up to its first newline, with a carriage
/// return before that newline not counted, so marker lines match in files
/// with either line ending.
pub open spec fn spec_first_line(s: Seq<char>) -> Seq<char> {
    match find_char_from(s, '\n', 0) {
        Some(p) => if p > 0 && s[p - 1] == '\r' {
            s.take(p - 1)
        } else {
            s.take(p)
        },
        None => s,
    }
}

/// The marker line that makes a hook stateful.
pub open spec fn stateful_marker() -> Seq<char> {
    seq!['#', ' ', 'm', 'a', 'k', 'e', ' ', 's', 't', 'a', 't', 'e', 'f', 'u', 'l']
}

/// A hook is bound as stateful when the first line of its code is the
/// marker comment.
pub fn is_stateful_marked(code: &str) -> (r: bool)
    ensures
        r == (spec_first_line(code@) == stateful_marker()),
{
    proof {
        reveal_strlit("# make stateful");
        assert("# make stateful"@ =~= stateful_marker());
    }
    let len = code.unicode_len();
    let mut p: usize = 0;
    while p < len
        invariant
            p <= len,
            len == code@.len(),
            forall|w: int| 0 <= w < p ==> code@[w] != '\n',
        decreases len - p,
    {
        if code.get_char(p) == '\n' {
            proof {
                lemma_find_char_first(code@, '\n', 0, p as int);
                reveal_strlit("# make stateful");
                assert("# make stateful"@ =~= stateful_marker());
            }
            let end = if p > 0 && code.get_char(p - 1) == '\r' {
                p - 1
            } else {
                p
            };
            proof {
                assert(code@.subrange(0, end as int) =~= spec_first_line(code@));
            }
            let first = code.substring_char(0, end);
            return crate::text::str_eq(first, "# make stateful");
        }
        p = p + 1;
    }
    proof {
        lemma_find_char_none(code@, '\n', 0);
        assert(code@.take(len as int) =~= code@);
    }
    crate::text::str_eq(code, "# make stateful")
}

/// Everything a process-hook JSON specification determines: the runtime,
/// the model location, the session parameters, and whether the hook binding
/// is stateful.
pub struct ProcessHookSpec {
    /// The inference runtime.
    pub runtime: InferenceRuntime,
    /// Where the model lives.
    pub model_uri: String,
    /// The packed session parameters.
    pub params: SessionParams,
    /// Whether the binding is stateful.
    pub stateful: bool,
}


/// The runtime a process-hook document names, when its `runtime` field is a
/// string naming one.
pub open spec fn doc_runtime(d: serde_json::Value) -> Option<InferenceRuntime> {
    match crate::inference::doc_text_member(d, "runtime"@) {
        Some(rs) => crate::inference::spec_runtime_of(rs),
        None => None,
    }
}

/// The model location a process-hook document names, when its `model_uri`
/// field is a string.
pub open spec fn doc_model_uri(d: serde_json::Value) -> Option<Seq<char>> {
    crate::inference::doc_text_member(d, "model_uri"@)
}

/// The inference-parameters object of a process-hook document, when one is
/// present.
pub open spec fn doc_params(d: serde_json::Value) -> Option<serde_json::Value> {
    json_member(d, "inference_params"@)
}

/// The `inference_params` field, when present, is null or an object.
pub open spec fn params_shape_ok(d: serde_json::Value) -> bool {
    match doc_params(d) {
        Some(v) => json_null_of(v) || json_object_of(v),
        None => true,
    }
}

/// The `make_stateful` field, when present, is null or a boolean.
pub open spec fn stateful_shape_ok(d: serde_json::Value) -> bool {
    match json_member(d, "make_stateful"@) {
        Some(v) => json_null_of(v) || json_boolean_of(v),
        None => true,
    }
}

/// Whether a process-hook document asks for a stateful binding: the value
/// of its boolean `make_stateful` field, false when absent or non-boolean.
pub open spec fn spec_stateful_of(d: serde_json::Value) -> bool {
    match json_member(d, "make_stateful"@) {
        Some(v) => match json_bool_of(v) {
            Some(b) => b,
            None => false,
        },
        None => false,
    }
}

/// Reads a process-hook specification: a JSON document with a `runtime`
/// string, a `model_uri` string, optional `inference_params` (an object
/// when present), and an optional boolean `make_stateful`. Any shape error
/// rejects the specification; rejection at stage loading aborts startup in
/// the shell.
pub fn parse_process_hook_spec(hook_code: &str, roboflow_api_key: Option<String>, stage_name:
    &str) -> (r: Result<ProcessHookSpec, String>)
    ensures
        r matches Ok(spec) ==> (json_doc_of(hook_code@) matches Some(d) && {
            &&& doc_runtime(d) == Some(spec.runtime)
            &&& !(spec.runtime is Openvino)
            &&& (spec.runtime is Onnx <==> spec.params is Onnx)
            &&& (spec.runtime is Roboflow <==> spec.params is Roboflow)
            &&& doc_model_uri(d) == Some(spec.model_uri@)
            &&& params_shape_ok(d)
            &&& stateful_shape_ok(d)
            &&& spec.stateful == spec_stateful_of(d)
            &&& (spec.params matches SessionParams::Onnx(q) ==> match doc_params(d) {
                Some(pv) => crate::inference::spec_onnx_params_match(q, pv, stage_name@),
                None => true,
            })
            &&& (spec.params matches SessionParams::Roboflow(q) ==> match doc_params(d) {
                Some(pv) => crate::inference::spec_roboflow_params_match(
                    q,
                    pv,
                    crate::inference::opt_key_view(roboflow_api_key),
                ),
                None => true,
            })
        }),
        r is Err ==> match json_doc_of(hook_code@) {
            None => true,
            Some(d) => {
                ||| doc_runtime(d) is None
                ||| doc_runtime(d) == Some(InferenceRuntime::Openvino)
                ||| doc_model_uri(d) is None
                ||| !params_shape_ok(d)
                ||| !stateful_shape_ok(d)
                ||| (doc_runtime(d) == Some(InferenceRuntime::Roboflow) && match doc_params(d) {
                    Some(pv) => crate::inference::spec_roboflow_rejected(
                        pv,
                        crate::inference::opt_key_view(roboflow_api_key),
                    ),
                    None => true,
                })
                ||| (doc_params(d) is None && json_doc_of("{}"@) is None)
            },
        },
{
    let document = match parse_json(hook_code) {
        Ok(d) => d,
        Err(_) => {
            return Err("Error parsing the JSON definition of the hook".to_owned());
        },
    };
    let runtime_value = match json_get(&document, "runtime") {
        Some(v) => v,
        None => {
            return Err(
                "The json definition of the hook must include the field 'runtime' as a string".to_owned(),
            );
        },
    };
    let runtime_str = match json_as_string(runtime_value) {
        Some(s) => s,
        None => {
            return Err(
                "The json definition of the hook must include the field 'runtime' as a string".to_owned(),
            );
        },
    };
    let runtime = match InferenceRuntime::from_str(runtime_str.as_str()) {
        Some(r) => r,
        None => {
            return Err("The provided inference runtime is not recognized".to_owned());
        },
    };
    let model_uri = match json_get(&document, "model_uri") {
        Some(v) => match json_as_string(v) {
            Some(s) => s,
            None => {
                return Err(
                    "The json definition of the hook must include the field 'model_uri' as a string".to_owned(),
                );
            },
        },
        None => {
            return Err(
                "The json definition of the hook must include the field 'model_uri' as a string".to_owned(),
            );
        },
    };
    let raw_params_ok = match json_get(&document, "inference_params") {
        Some(v) => json_is_null(v) || json_is_object(v),
        None => true,
    };
    if !raw_params_ok {
        return Err(
            "The json definition of the hook should include the field 'inference_params' as an object".to_owned(),
        );
    }
    let params = match json_get(&document, "inference_params") {
        Some(v) => session_params_from_raw_data(stage_name, &runtime, v, roboflow_api_key)?,
        None => {
            let empty = match parse_json("{}") {
                Ok(d) => d,
                Err(_) => {
                    return Err("Error building the default inference parameters".to_owned());
                },
            };
            session_params_from_raw_data(stage_name, &runtime, &empty, roboflow_api_key)?
        },
    };
    let stateful = match json_get(&document, "make_stateful") {
        Some(v) => {
            if !json_is_null(v) && !json_is_boolean(v) {
                return Err(
                    "The json definition of the hook is wrong: the 'make_stateful' field must be a boolean".to_owned(),
                );
            }
            match json_as_bool(v) {
                Some(b) => b,
                None => false,
            }
        },
        None => false,
    };
    Ok(ProcessHookSpec { runtime, model_uri, params, stateful })
}

/// What the shell hands over for one stage directory: its name, the hook
/// bodies built from its files, and the context its initializer produced.
pub struct StageSource<H, C> {
    /// The directory's name.
    pub dir_name: String,
    /// One entry per phase hook file: the phase, whether the binding is
    /// stateful, and the built body.
    pub hooks: Vec<(HookType, bool, H)>,
    /// The stage context, empty when no initializer exists.
    pub context: Context<C>,
}


/// Index of the first source hook of the given phase, if any.
pub open spec fn first_hook_index<H>(hs: Seq<(HookType, bool, H)>, t: HookType) -> Option<int>
    decreases hs.len(),
{
    if hs.len() == 0 {
        None
    } else if hs[0].0 == t {
        Some(0)
    } else {
        match first_hook_index(hs.skip(1), t) {
            Some(j) => Some(j + 1),
            None => None,
        }
    }
}

/// A found index lies within the list and names the phase.
pub proof fn lemma_first_hook_range<H>(hs: Seq<(HookType, bool, H)>, t: HookType)
    requires
        first_hook_index(hs, t) is Some,
    ensures
        0 <= first_hook_index(hs, t)->Some_0 < hs.len(),
        hs[first_hook_index(hs, t)->Some_0].0 == t,
    decreases hs.len(),
{
    if hs.len() > 0 && hs[0].0 != t {
        lemma_first_hook_range(hs.skip(1), t);
        let j = first_hook_index(hs.skip(1), t)->Some_0;
        assert(hs.skip(1)[j] == hs[j + 1]);
    }
}

/// Appending one hook file: the first index of a phase stays where it was,
/// or lands on the appended file when the phase was new.
proof fn lemma_first_hook_push<H>(hs: Seq<(HookType, bool, H)>, e: (HookType, bool, H), t: HookType)
    ensures
        first_hook_index(hs.push(e), t) == (match first_hook_index(hs, t) {
            Some(k) => Some(k),
            None => if e.0 == t {
                Some(hs.len() as int)
            } else {
                None::<int>
            },
        }),
    decreases hs.len(),
{
    if hs.len() == 0 {
        assert(hs.push(e)[0] == e);
        assert(hs.push(e).skip(1) =~= Seq::<(HookType, bool, H)>::empty());
        assert(first_hook_index(Seq::<(HookType, bool, H)>::empty(), t) is None);
    } else {
        assert(hs.push(e)[0] == hs[0]);
        assert(hs.push(e).skip(1) =~= hs.skip(1).push(e));
        lemma_first_hook_push(hs.skip(1), e, t);
        assert(first_hook_index(hs.push(e).skip(1), t) == first_hook_index(
            hs.skip(1).push(e),
            t,
        ));
        if hs[0].0 == t {
            assert(first_hook_index(hs.push(e), t) == Some(0int));
            assert(first_hook_index(hs, t) == Some(0int));
        } else {
            assert(hs.skip(1).len() as int == hs.len() - 1);
        }
    }
}

/// A stage carries the first-per-phase hooks of its source: for each phase,
/// a hook of that phase exists iff the source names one, and every hook of
/// that phase carries the discipline of the source's first file of the
/// phase.
pub open spec fn stage_matches_source<H, C>(
    stage: Stage<H, C>,
    hs: Seq<(HookType, bool, H)>,
) -> bool {
    forall|t: HookType|
        {
            &&& (crate::stage::has_hook_of_type(stage.spec_hooks(), t)
                <==> #[trigger] first_hook_index(hs, t) is Some)
            &&& match first_hook_index(hs, t) {
                Some(k) => forall|j: int|
                    0 <= j < stage.spec_hooks().len() && (#[trigger] stage.spec_hooks()[j])
                        .spec_hook_type() == t ==> stage.spec_hooks()[j].spec_is_stateful()
                        == hs[k].1,
                None => true,
            }
        }
}

/// The sanitized stage name a source directory denotes.
pub open spec fn source_stage_name<H, C>(source: StageSource<H, C>) -> Seq<char> {
    source.dir_name@.map_values(|c: char| crate::text::dash_to_underscore(c))
}

/// No two source directories denote one sanitized stage name.
pub open spec fn source_names_unique<H, C>(sources: Seq<StageSource<H, C>>) -> bool {
    forall|i: int, j: int|
        0 <= i < j < sources.len() ==> source_stage_name(sources[i]) != source_stage_name(
            sources[j],
        )
}

/// Assembles the loaded stages: directory names are sanitized, a directory
/// whose sanitized name was already taken is skipped, each phase keeps its
/// first hook, and the context is installed. When no two directories
/// collide, every source yields its stage, in order, under its sanitized
/// name.
pub fn load_stages<H, C>(sources: Vec<StageSource<H, C>>) -> (r: Vec<Stage<H, C>>)
    ensures
        r@.len() <= sources@.len(),
        forall|i: int| 0 <= i < r@.len() ==> (#[trigger] r@[i]).wf(),
        forall|i: int, j: int|
            0 <= i < j < r@.len() ==> r@[i].spec_name() != r@[j].spec_name(),
        source_names_unique(sources@) ==> r@.len() == sources@.len() && (forall|i: int|
            0 <= i < r@.len() ==> (#[trigger] r@[i]).spec_name() == source_stage_name(
                sources@[i],
            )) && (forall|i: int|
            0 <= i < r@.len() ==> stage_matches_source(#[trigger] r@[i], sources@[i].hooks@)),
{
    let mut stages: Vec<Stage<H, C>> = Vec::new();
    let n = sources.len();
    let ghost all_sources = sources@;
    let mut sources = sources;
    let mut i: usize = 0;
    while i < n
        invariant
            i <= n,
            stages@.len() <= i,
            forall|a: int| 0 <= a < stages@.len() ==> (#[trigger] stages@[a]).wf(),
            forall|a: int, b: int|
                0 <= a < b < stages@.len() ==> stages@[a].spec_name() != stages@[b].spec_name(),
            sources@.len() + i == n,
            all_sources.len() == n,
            sources@ == all_sources.skip(i as int),
            source_names_unique(all_sources) ==> stages@.len() == i && (forall|a: int|
                0 <= a < i ==> (#[trigger] stages@[a]).spec_name() == source_stage_name(
                    all_sources[a],
                )) && (forall|a: int|
                0 <= a < i ==> stage_matches_source(
                    #[trigger] stages@[a],
                    all_sources[a].hooks@,
                )),
        decreases n - i,
    {
        proof {
            assert(sources@[0] == all_sources[i as int]);
            assert(sources@.skip(1) =~= all_sources.skip(i as int + 1));
        }
        let source = sources.remove(0);
        let sanitized = crate::text::sanitize_stage_name(source.dir_name.as_str());
        let mut taken = false;
        let mut a: usize = 0;
        while a < stages.len() && !taken
            invariant
                a <= stages@.len(),
                !taken ==> forall|w: int|
                    0 <= w < a ==> (#[trigger] stages@[w]).spec_name() != sanitized@,
                taken ==> exists|w: int|
                    0 <= w < stages@.len() && (#[trigger] stages@[w]).spec_name() == sanitized@,
            decreases stages@.len() - a,
        {
            if crate::text::str_eq(stages[a].get_name(), sanitized.as_str()) {
                proof {
                    assert(stages@[a as int].spec_name() == sanitized@);
                }
                taken = true;
                a = stages.len();
            } else {
                a = a + 1;
            }
        }
        proof {
            if source_names_unique(all_sources) && taken {
                let w = choose|w: int|
                    0 <= w < stages@.len() && (#[trigger] stages@[w]).spec_name() == sanitized@;
                assert(source_stage_name(all_sources[w]) == source_stage_name(
                    all_sources[i as int],
                ));
                assert(false);
            }
        }
        if !taken {
            let mut stage: Stage<H, C> = Stage::new(sanitized.as_str());
            let ghost hs_full = source.hooks@;
            proof {
                assert(hs_full == all_sources[i as int].hooks@);
                assert(hs_full.take(0) =~= Seq::<(HookType, bool, H)>::empty());
                assert forall|t: HookType| #[trigger]
                    first_hook_index(hs_full.take(0), t) is None by {};
            }
            let mut hooks = source.hooks;
            while hooks.len() > 0
                invariant
                    stage.wf(),
                    stage.spec_name() == sanitized@,
                    hooks@.len() <= hs_full.len(),
                    hooks@ == hs_full.skip(hs_full.len() - hooks@.len()),
                    stage_matches_source(stage, hs_full.take(hs_full.len() - hooks@.len())),
                decreases hooks@.len(),
            {
                let ghost c: int = hs_full.len() - hooks@.len();
                let ghost fb = hs_full.take(c);
                proof {
                    assert(hooks@[0] == hs_full[c]);
                    assert(hooks@.skip(1) =~= hs_full.skip(c + 1));
                }
                let (hook_type, stateful, body) = hooks.remove(0);
                proof {
                    assert(hs_full[c].0 == hook_type && hs_full[c].1 == stateful);
                }
                let hook: Hook<H> = if stateful {
                    Hook::new_stateful(hook_type, body)
                } else {
                    Hook::new_stateless(hook_type, body)
                };
                let ghost hooks_before = stage.spec_hooks();
                let ghost had = crate::stage::has_hook_of_type(hooks_before, hook_type);
                let _ = stage.add_hook(hook);
                proof {
                    let e = hs_full[c];
                    let fa = hs_full.take(c + 1);
                    assert(fa =~= fb.push(e));
                    assert forall|t: HookType|
                        {
                            &&& (crate::stage::has_hook_of_type(stage.spec_hooks(), t)
                                <==> #[trigger] first_hook_index(fa, t) is Some)
                            &&& match first_hook_index(fa, t) {
                                Some(k) => forall|j: int|
                                    0 <= j < stage.spec_hooks().len() && (
                                    #[trigger] stage.spec_hooks()[j]).spec_hook_type() == t
                                        ==> stage.spec_hooks()[j].spec_is_stateful() == fa[k].1,
                                None => true,
                            }
                        } by {
                        lemma_first_hook_push(fb, e, t);
                        if first_hook_index(fa, t) is Some {
                            lemma_first_hook_range(fa, t);
                        }
                        if first_hook_index(fb, t) is Some {
                            lemma_first_hook_range(fb, t);
                        }
                        assert(forall|k: int| 0 <= k < fb.len() ==> fa[k] == fb[k]);
                        // Instantiate the invariant at this phase.
                        assert(crate::stage::has_hook_of_type(hooks_before, t)
                            <==> first_hook_index(fb, t) is Some);
                        if !had {
                            assert(stage.spec_hooks() == hooks_before.push(hook));
                            assert(forall|j: int|
                                0 <= j < hooks_before.len() ==> stage.spec_hooks()[j]
                                    == hooks_before[j]);
                            assert(stage.spec_hooks()[hooks_before.len() as int] == hook);
                            // The appended hook neither hides nor fakes a
                            // phase other than its own.
                            if crate::stage::has_hook_of_type(stage.spec_hooks(), t) && !(
                            crate::stage::has_hook_of_type(hooks_before, t)) {
                                let w = choose|w: int|
                                    0 <= w < stage.spec_hooks().len() && (
                                    #[trigger] stage.spec_hooks()[w]).spec_hook_type() == t;
                                if w < hooks_before.len() {
                                    assert(hooks_before[w].spec_hook_type() == t);
                                }
                                assert(t == hook_type);
                            }
                            if crate::stage::has_hook_of_type(hooks_before, t) {
                                let w = choose|w: int|
                                    0 <= w < hooks_before.len() && (
                                    #[trigger] hooks_before[w]).spec_hook_type() == t;
                                assert(stage.spec_hooks()[w].spec_hook_type() == t);
                                assert(crate::stage::has_hook_of_type(stage.spec_hooks(), t));
                            }
                            if t == hook_type {
                                assert(crate::stage::has_hook_of_type(
                                    stage.spec_hooks(),
                                    t,
                                )) by {
                                    assert(stage.spec_hooks()[hooks_before.len() as int]
                                        .spec_hook_type() == t);
                                }
                                assert(first_hook_index(fb, t) is None);
                                assert(first_hook_index(fa, t) == Some(c));
                                assert(fa[c] == e);
                            }
                        } else {
                            assert(stage.spec_hooks() == hooks_before);
                        }
                        // Discipline of every hook of this phase.
                        match first_hook_index(fa, t) {
                            Some(k) => {
                                assert forall|j: int|
                                    0 <= j < stage.spec_hooks().len() && (
                                    #[trigger] stage.spec_hooks()[j]).spec_hook_type() == t
                                        implies stage.spec_hooks()[j].spec_is_stateful()
                                    == fa[k].1 by {
                                    if j < hooks_before.len() {
                                        assert(hooks_before[j] == stage.spec_hooks()[j]);
                                        assert(crate::stage::has_hook_of_type(
                                            hooks_before,
                                            t,
                                        ));
                                        assert(first_hook_index(fb, t) is Some);
                                        let kb = first_hook_index(fb, t)->Some_0;
                                        assert(k == kb);
                                        assert(hooks_before[j].spec_is_stateful() == fb[kb].1);
                                        assert(fa[k] == fb[kb]);
                                    } else {
                                        assert(stage.spec_hooks()[j] == hook);
                                        assert(t == hook_type);
                                        assert(!had);
                                        assert(first_hook_index(fb, t) is None);
                                        assert(k == c);
                                        assert(fa[c] == e);
                                        assert(hook.spec_is_stateful() == e.1);
                                    }
                                };
                            },
                            None => {},
                        }
                    };
                    assert(stage_matches_source(stage, hs_full.take(c + 1)));
                }
            }
            proof {
                assert(hs_full.take(hs_full.len() as int) =~= hs_full);
            }
            stage.set_context(source.context);
            let ghost stages_before = stages@;
            stages.push(stage);
            proof {
                assert forall|a2: int, b2: int|
                    0 <= a2 < b2 < stages@.len() implies stages@[a2].spec_name()
                    != stages@[b2].spec_name() by {
                    if b2 == stages@.len() - 1 {
                        assert(stages@[a2] == stages_before[a2]);
                        assert(stages@[b2].spec_name() == sanitized@);
                    } else {
                        assert(stages@[a2] == stages_before[a2]);
                        assert(stages@[b2] == stages_before[b2]);
                    }
                };
            }
        }
        i = i + 1;
    }
    stages
}

} // verus!

//! Inference-backed hooks: the session contract, the recognized runtimes,
//! their session parameters, and the hook that hands frames to a session.
//! The sessions themselves — model loading, tensor execution, remote
//! calls — live behind the session contract outside the core.

use vstd::prelude::*;
use vstd::string::StrSliceExecFns;
use crate::frame::Frame;
use crate::hook::HookTrait;
use crate::stage::Context;
use crate::json::json_get;
use crate::json::json_as_string;
use crate::json::json_as_i64;
use crate::json::json_member;
use crate::json::json_text_of;
use crate::json::json_int_of;

verus! {

/// The inference runtimes a process hook can name.
#[derive(Debug, Clone, Copy, PartialEq, Eq, Structural)]
pub enum InferenceRuntime {
    Onnx,
    Openvino,
    Roboflow,
}

/// The runtime a name denotes, if any.
pub open spec fn spec_runtime_of(s: Seq<char>) -> Option<InferenceRuntime> {
    if s == seq!['o', 'n', 'n', 'x'] {
        Some(InferenceRuntime::Onnx)
    } else if s == seq!['o', 'p', 'e', 'n', 'v', 'i', 'n', 'o'] {
        Some(InferenceRuntime::Openvino)
    } else if s == seq!['r', 'o', 'b', 'o', 'f', 'l', 'o', 'w'] {
        Some(InferenceRuntime::Roboflow)
    } else {
        None
    }
}

impl InferenceRuntime {
    /// Parses a runtime name; unknown names are rejected.
    pub fn from_str(runtime_str: &str) -> (r: Option<InferenceRuntime>)
        ensures
            r == spec_runtime_of(runtime_str@),
    {
        proof {
            reveal_strlit("onnx");
            reveal_strlit("openvino");
            reveal_strlit("roboflow");
            assert("onnx"@ =~= seq!['o', 'n', 'n', 'x']);
            assert("openvino"@ =~= seq!['o', 'p', 'e', 'n', 'v', 'i', 'n', 'o']);
            assert("roboflow"@ =~= seq!['r', 'o', 'b', 'o', 'f', 'l', 'o', 'w']);
        }
        if crate::text::str_eq(runtime_str, "onnx") {
            Some(InferenceRuntime::Onnx)
        } else if crate::text::str_eq(runtime_str, "openvino") {
            Some(InferenceRuntime::Openvino)
        } else if crate::text::str_eq(runtime_str, "roboflow") {
            Some(InferenceRuntime::Roboflow)
        } else {
            None
        }
    }
}

/// A task-type string that named no known Roboflow task.
#[derive(Debug, Clone, Copy, PartialEq, Eq, Structural)]
pub struct RoboflowTaskTypeParseError;

/// The tasks a Roboflow inference server offers.
#[derive(Debug, Clone, Copy, PartialEq, Eq, Structural)]
pub enum RoboflowTaskType {
    ObjectDetection,
    InstanceSegmentation,
    Classification,
    KeypointsDetection,
}

/// The task a normalized keyword denotes: task-type strings are matched
/// insensitively to case, underscores and hyphens.
pub open spec fn spec_task_of_keyword(k: Seq<char>) -> Option<RoboflowTaskType> {
    if k == seq![
        'o', 'b', 'j', 'e', 'c', 't', 'd', 'e', 't', 'e', 'c', 't', 'i', 'o', 'n',
    ] {
        Some(RoboflowTaskType::ObjectDetection)
    } else if k == seq![
        'i', 'n', 's', 't', 'a', 'n', 'c', 'e', 's', 'e', 'g', 'm', 'e', 'n', 't', 'a', 't', 'i',
        'o', 'n',
    ] {
        Some(RoboflowTaskType::InstanceSegmentation)
    } else if k == seq![
        'c', 'l', 'a', 's', 's', 'i', 'f', 'i', 'c', 'a', 't', 'i', 'o', 'n',
    ] {
        Some(RoboflowTaskType::Classification)
    } else if k == seq![
        'k', 'e', 'y', 'p', 'o', 'i', 'n', 't', 's', 'd', 'e', 't', 'e', 'c', 't', 'i', 'o', 'n',
    ] {
        Some(RoboflowTaskType::KeypointsDetection)
    } else {
        None
    }
}

/// Normalization for task-type strings: hyphens count as underscores, which
/// are dropped, and case is folded.
pub open spec fn spec_parse_task(s: Seq<char>) -> Option<RoboflowTaskType> {
    spec_task_of_keyword(
        crate::text::normalize_keyword(
            s.map_values(|c: char| crate::text::dash_to_underscore(c)),
        ),
    )
}

impl RoboflowTaskType {
    /// Parses a task-type string, insensitive to case, underscores and
    /// hyphens; any other string is rejected.
    pub fn from_str(s: &str) -> (r: Result<RoboflowTaskType, RoboflowTaskTypeParseError>)
        ensures
            r == match spec_parse_task(s@) {
                Some(t) => Result::<RoboflowTaskType, RoboflowTaskTypeParseError>::Ok(t),
                None => Result::<RoboflowTaskType, RoboflowTaskTypeParseError>::Err(
                    RoboflowTaskTypeParseError,
                ),
            },
    {
        let dashless = crate::text::sanitize_stage_name(s);
        let norm = crate::text::normalize_keyword_chars(dashless.as_str());
        proof {
            reveal_strlit("objectdetection");
            reveal_strlit("instancesegmentation");
            reveal_strlit("classification");
            reveal_strlit("keypointsdetection");
            assert("objectdetection"@ =~= seq![
                'o', 'b', 'j', 'e', 'c', 't', 'd', 'e', 't', 'e', 'c', 't', 'i', 'o', 'n',
            ]);
            assert("instancesegmentation"@ =~= seq![
                'i', 'n', 's', 't', 'a', 'n', 'c', 'e', 's', 'e', 'g', 'm', 'e', 'n', 't', 'a',
                't', 'i', 'o', 'n',
            ]);
            assert("classification"@ =~= seq![
                'c', 'l', 'a', 's', 's', 'i', 'f', 'i', 'c', 'a', 't', 'i', 'o', 'n',
            ]);
            assert("keypointsdetection"@ =~= seq![
                'k', 'e', 'y', 'p', 'o', 'i', 'n', 't', 's', 'd', 'e', 't', 'e', 'c', 't', 'i',
                'o', 'n',
            ]);
        }
        if crate::text::chars_eq_str(&norm, "objectdetection") {
            Ok(RoboflowTaskType::ObjectDetection)
        } else if crate::text::chars_eq_str(&norm, "instancesegmentation") {
            Ok(RoboflowTaskType::InstanceSegmentation)
        } else if crate::text::chars_eq_str(&norm, "classification") {
            Ok(RoboflowTaskType::Classification)
        } else if crate::text::chars_eq_str(&norm, "keypointsdetection") {
            Ok(RoboflowTaskType::KeypointsDetection)
        } else {
            Err(RoboflowTaskTypeParseError)
        }
    }

    /// The inference endpoint each task is served under.
    pub fn to_str_endpoint(&self) -> (r: &'static str)
        ensures
            *self is ObjectDetection ==> r@ == "infer/object_detection"@,
            *self is InstanceSegmentation ==> r@ == "infer/instance_segmentation"@,
            *self is Classification ==> r@ == "infer/classification"@,
            *self is KeypointsDetection ==> r@ == "infer/keypoints_detection"@,
    {
        match self {
            RoboflowTaskType::ObjectDetection => "infer/object_detection",
            RoboflowTaskType::InstanceSegmentation => "infer/instance_segmentation",
            RoboflowTaskType::Classification => "infer/classification",
            RoboflowTaskType::KeypointsDetection => "infer/keypoints_detection",
        }
    }
}

/// Parameters of an ONNX session.
pub struct OnnxSessionParams {
    stage_name: String,
    execution_provider: String,
    execution_mode: Option<String>,
    inter_threads: Option<i16>,
    intra_threads: Option<i16>,
    custom_op_lib_path: Option<String>,
}

impl OnnxSessionParams {
    /// The stage the session belongs to.
    pub closed spec fn spec_stage_name(&self) -> Seq<char> {
        self.stage_name@
    }

    /// The execution provider name.
    pub closed spec fn spec_execution_provider(&self) -> Seq<char> {
        self.execution_provider@
    }

    /// The execution mode, when one was named.
    pub closed spec fn spec_execution_mode(&self) -> Option<Seq<char>> {
        match self.execution_mode {
            Some(m) => Some(m@),
            None => None,
        }
    }

    /// The inter-node thread count, when one was named.
    pub closed spec fn spec_inter_threads(&self) -> Option<i16> {
        self.inter_threads
    }

    /// The intra-node thread count, when one was named.
    pub closed spec fn spec_intra_threads(&self) -> Option<i16> {
        self.intra_threads
    }

    /// The custom-operations library path, when one was named.
    pub closed spec fn spec_custom_op_lib_path(&self) -> Option<Seq<char>> {
        match self.custom_op_lib_path {
            Some(p) => Some(p@),
            None => None,
        }
    }

    /// Packs the parameters of an ONNX session.
    pub fn new(
        stage_name: &str,
        execution_provider: &str,
        execution_mode: Option<&str>,
        inter_threads: Option<i16>,
        intra_threads: Option<i16>,
        custom_op_lib_path: Option<&str>,
    ) -> (r: Self)
        ensures
            r.spec_stage_name() == stage_name@,
            r.spec_execution_provider() == execution_provider@,
            r.spec_execution_mode() == (match execution_mode {
                Some(m) => Some(m@),
                None => None::<Seq<char>>,
            }),
            r.spec_inter_threads() == inter_threads,
            r.spec_intra_threads() == intra_threads,
            r.spec_custom_op_lib_path() == (match custom_op_lib_path {
                Some(p) => Some(p@),
                None => None::<Seq<char>>,
            }),
    {
        OnnxSessionParams {
            stage_name: stage_name.to_owned(),
            execution_provider: execution_provider.to_owned(),
            execution_mode: match execution_mode {
                Some(m) => Some(m.to_owned()),
                None => None,
            },
            inter_threads,
            intra_threads,
            custom_op_lib_path: match custom_op_lib_path {
                Some(p) => Some(p.to_owned()),
                None => None,
            },
        }
    }
}

/// Parameters of a Roboflow session.
pub struct RoboflowSessionParams {
    inference_server_url: String,
    roboflow_model_id: String,
    api_key: String,
    task_type: RoboflowTaskType,
    request_timeout: u64,
}

impl RoboflowSessionParams {
    /// The inference server URL.
    pub closed spec fn spec_server_url(&self) -> Seq<char> {
        self.inference_server_url@
    }

    /// The model identifier.
    pub closed spec fn spec_model_id(&self) -> Seq<char> {
        self.roboflow_model_id@
    }

    /// The request timeout, in milliseconds.
    pub closed spec fn spec_request_timeout(&self) -> u64 {
        self.request_timeout
    }

    /// The API key handed to the inference server.
    pub closed spec fn spec_api_key(&self) -> Seq<char> {
        self.api_key@
    }

    /// The task type.
    pub closed spec fn spec_task_type(&self) -> RoboflowTaskType {
        self.task_type
    }

    /// Packs the parameters of a Roboflow session.
    pub fn new(
        inference_server_url: &str,
        roboflow_model_id: &str,
        api_key: &str,
        task_type: RoboflowTaskType,
        request_timeout: u64,
    ) -> (r: Self)
        ensures
            r.spec_server_url() == inference_server_url@,
            r.spec_model_id() == roboflow_model_id@,
            r.spec_api_key() == api_key@,
            r.spec_task_type() == task_type,
            r.spec_request_timeout() == request_timeout,
    {
        RoboflowSessionParams {
            inference_server_url: inference_server_url.to_owned(),
            roboflow_model_id: roboflow_model_id.to_owned(),
            api_key: api_key.to_owned(),
            task_type,
            request_timeout,
        }
    }
}

impl RoboflowSessionParams {
    /// The inference server URL.
    pub fn get_server_url(&self) -> (r: &str)
        ensures
            r@ == self.spec_server_url(),
    {
        self.inference_server_url.as_str()
    }

    /// The model identifier.
    pub fn get_model_id(&self) -> (r: &str)
        ensures
            r@ == self.spec_model_id(),
    {
        self.roboflow_model_id.as_str()
    }

    /// The API key for the inference server.
    pub fn get_api_key(&self) -> (r: &str)
        ensures
            r@ == self.spec_api_key(),
    {
        self.api_key.as_str()
    }

    /// The request timeout, in milliseconds.
    pub fn get_request_timeout(&self) -> (r: u64)
        ensures
            r == self.spec_request_timeout(),
    {
        self.request_timeout
    }

    /// The task type.
    pub fn get_task_type(&self) -> (r: &RoboflowTaskType)
        ensures
            *r == self.spec_task_type(),
    {
        &self.task_type
    }
}

/// The parameters of one inference session, per runtime.
pub enum SessionParams {
    Onnx(OnnxSessionParams),
    Roboflow(RoboflowSessionParams),
}

/// How often a character occurs in a sequence.
pub open spec fn count_char(s: Seq<char>, c: char) -> nat
    decreases s.len(),
{
    if s.len() == 0 {
        0
    } else {
        (if s[0] == c {
            1nat
        } else {
            0nat
        }) + count_char(s.skip(1), c)
    }
}

/// A Roboflow model identifier has the form `name/version`: exactly one
/// slash.
pub open spec fn spec_model_id_valid(s: Seq<char>) -> bool {
    count_char(s, '/') == 1
}

/// Checks a Roboflow model identifier's form, exact against
/// `spec_model_id_valid`.
pub fn model_id_valid(s: &str) -> (r: bool)
    ensures
        r == spec_model_id_valid(s@),
{
    let len = s.unicode_len();
    let mut slashes: usize = 0;
    proof {
        assert(s@.skip(0) =~= s@);
    }
    let mut i: usize = 0;
    while i < len
        invariant
            i <= len,
            len == s@.len(),
            slashes <= i,
            slashes + count_char(s@.skip(i as int), '/') == count_char(s@, '/'),
        decreases len - i,
    {
        proof {
            assert(s@.skip(i as int)[0] == s@[i as int]);
            assert(s@.skip(i as int).skip(1) =~= s@.skip(i as int + 1));
        }
        if s.get_char(i) == '/' {
            slashes = slashes + 1;
        }
        i = i + 1;
    }
    proof {
        assert(s@.skip(len as int) =~= Seq::<char>::empty());
    }
    slashes == 1
}


/// The text under an object key, when the key holds a JSON string.
pub open spec fn doc_text_member(v: serde_json::Value, key: Seq<char>) -> Option<Seq<char>> {
    match json_member(v, key) {
        Some(m) => json_text_of(m),
        None => None,
    }
}

/// The integer under an object key, when the key holds one.
pub open spec fn doc_int_member(v: serde_json::Value, key: Seq<char>) -> Option<i64> {
    match json_member(v, key) {
        Some(m) => json_int_of(m),
        None => None,
    }
}

/// The execution provider an ONNX parameter object names, with its default.
pub open spec fn spec_onnx_provider(v: serde_json::Value) -> Seq<char> {
    match doc_text_member(v, "execution_provider"@) {
        Some(p) => p,
        None => "cpu"@,
    }
}

/// The packed ONNX parameters equal the extracted or default values of the
/// parameter object; an out-of-range thread count is carried truncated, so
/// only in-range counts are pinned.
pub open spec fn spec_onnx_params_match(
    q: OnnxSessionParams,
    v: serde_json::Value,
    stage_name: Seq<char>,
) -> bool {
    &&& q.spec_stage_name() == stage_name
    &&& q.spec_execution_provider() == spec_onnx_provider(v)
    &&& q.spec_execution_mode() == doc_text_member(v, "execution_mode"@)
    &&& match doc_int_member(v, "inter_threads"@) {
        Some(t) => q.spec_inter_threads() is Some && (i16::MIN <= t <= i16::MAX
            ==> q.spec_inter_threads() == Some(t as i16)),
        None => q.spec_inter_threads() is None,
    }
    &&& match doc_int_member(v, "intra_threads"@) {
        Some(t) => q.spec_intra_threads() is Some && (i16::MIN <= t <= i16::MAX
            ==> q.spec_intra_threads() == Some(t as i16)),
        None => q.spec_intra_threads() is None,
    }
    &&& q.spec_custom_op_lib_path() is None
}

/// The model identifier a Roboflow parameter object names, when it is a
/// string.
pub open spec fn spec_rb_model_id(v: serde_json::Value) -> Option<Seq<char>> {
    doc_text_member(v, "roboflow_model_id"@)
}

/// The inference server a Roboflow parameter object names, with its default.
pub open spec fn spec_rb_server_url(v: serde_json::Value) -> Seq<char> {
    match doc_text_member(v, "roboflow_inference_server_url"@) {
        Some(u) => u,
        None => "https://detect.roboflow.com"@,
    }
}

/// The task-type string a Roboflow parameter object names; empty when none.
pub open spec fn spec_rb_task_str(v: serde_json::Value) -> Seq<char> {
    match doc_text_member(v, "roboflow_task_type"@) {
        Some(t) => t,
        None => Seq::<char>::empty(),
    }
}

/// Why a Roboflow parameter object is rejected: the model identifier is
/// missing or malformed, the task type parses to nothing, or no API key was
/// supplied.
pub open spec fn spec_roboflow_rejected(v: serde_json::Value, api_key: Option<Seq<char>>) -> bool {
    ||| spec_rb_model_id(v) is None
    ||| !spec_model_id_valid(spec_rb_model_id(v)->Some_0)
    ||| spec_parse_task(spec_rb_task_str(v)) is None
    ||| api_key is None
}

/// The packed Roboflow parameters equal the extracted or default values of
/// the parameter object; a negative timeout is carried truncated, so only
/// non-negative timeouts are pinned.
pub open spec fn spec_roboflow_params_match(
    q: RoboflowSessionParams,
    v: serde_json::Value,
    api_key: Option<Seq<char>>,
) -> bool {
    &&& spec_rb_model_id(v) == Some(q.spec_model_id())
    &&& spec_model_id_valid(q.spec_model_id())
    &&& q.spec_server_url() == spec_rb_server_url(v)
    &&& spec_parse_task(spec_rb_task_str(v)) == Some(q.spec_task_type())
    &&& api_key == Some(q.spec_api_key())
    &&& match doc_int_member(v, "roboflow_request_timeout"@) {
        Some(t) => 0 <= t ==> q.spec_request_timeout() == t as u64,
        None => q.spec_request_timeout() == 2000,
    }
}

/// The view of an optional API key string.
pub open spec fn opt_key_view(k: Option<String>) -> Option<Seq<char>> {
    match k {
        Some(s) => Some(s@),
        None => None,
    }
}

/// Builds the session parameters a process-hook specification names. The
/// raw JSON is opaque; every decision is made on the values extracted from
/// it: defaults are filled in, a Roboflow model id must have its two-part
/// form, a task type must parse, and the Roboflow runtime demands an API
/// key, which the caller reads from the environment. The OpenVINO runtime
/// has no session implementation and is rejected.
pub fn session_params_from_raw_data(
    stage_name: &str,
    runtime: &InferenceRuntime,
    data: &serde_json::Value,
    roboflow_api_key: Option<String>,
) -> (r: Result<SessionParams, String>)
    ensures
        *runtime is Onnx ==> (r matches Ok(p) && (p matches SessionParams::Onnx(q)
            && spec_onnx_params_match(q, *data, stage_name@))),
        *runtime is Openvino ==> r is Err,
        *runtime is Roboflow ==> match r {
            Ok(p) => (p matches SessionParams::Roboflow(q) && spec_roboflow_params_match(
                q,
                *data,
                opt_key_view(roboflow_api_key),
            )) && !spec_roboflow_rejected(*data, opt_key_view(roboflow_api_key)),
            Err(_) => spec_roboflow_rejected(*data, opt_key_view(roboflow_api_key)),
        },
{
    match runtime {
        InferenceRuntime::Onnx => {
            let execution_provider = match json_get(data, "execution_provider") {
                Some(v) => match json_as_string(v) {
                    Some(s) => s,
                    None => "cpu".to_owned(),
                },
                None => "cpu".to_owned(),
            };
            let execution_mode = match json_get(data, "execution_mode") {
                Some(v) => json_as_string(v),
                None => None,
            };
            let inter_threads = match json_get(data, "inter_threads") {
                Some(v) => json_as_i64(v),
                None => None,
            };
            let intra_threads = match json_get(data, "intra_threads") {
                Some(v) => json_as_i64(v),
                None => None,
            };
            Ok(
                SessionParams::Onnx(
                    OnnxSessionParams::new(
                        stage_name,
                        execution_provider.as_str(),
                        match &execution_mode {
                            Some(m) => Some(m.as_str()),
                            None => None,
                        },
                        match inter_threads {
                            Some(t) => Some(#[verifier::truncate] (t as i16)),
                            None => None,
                        },
                        match intra_threads {
                            Some(t) => Some(#[verifier::truncate] (t as i16)),
                            None => None,
                        },
                        None,
                    ),
                ),
            )
        },
        InferenceRuntime::Openvino => {
            Err("The OpenVINO runtime has no session implementation".to_owned())
        },
        InferenceRuntime::Roboflow => {
            let model_id = match json_get(data, "roboflow_model_id") {
                Some(v) => match json_as_string(v) {
                    Some(s) => s,
                    None => {
                        return Err(
                            "When using Roboflow inference the 'roboflow_model_id' inference parameter is required".to_owned(),
                        );
                    },
                },
                None => {
                    return Err(
                        "When using Roboflow inference the 'roboflow_model_id' inference parameter is required".to_owned(),
                    );
                },
            };
            if !model_id_valid(model_id.as_str()) {
                return Err(
                    "Wrong Roboflow model ID provided. Ensure it follows the format 'name/version'".to_owned(),
                );
            }
            let server_url = match json_get(data, "roboflow_inference_server_url") {
                Some(v) => match json_as_string(v) {
                    Some(s) => s,
                    None => "https://detect.roboflow.com".to_owned(),
                },
                None => "https://detect.roboflow.com".to_owned(),
            };
            let task_type_str = match json_get(data, "roboflow_task_type") {
                Some(v) => match json_as_string(v) {
                    Some(s) => s,
                    None => String::new(),
                },
                None => String::new(),
            };
            let task_type = match RoboflowTaskType::from_str(task_type_str.as_str()) {
                Ok(t) => t,
                Err(_) => {
                    return Err(
                        "The 'inference_params' field must include 'roboflow_task_type' as one of 'ObjectDetection', 'InstanceSegmentation', 'Classification', 'KeypointsDetection'".to_owned(),
                    );
                },
            };
            let request_timeout: u64 = match json_get(data, "roboflow_request_timeout") {
                Some(v) => match json_as_i64(v) {
                    Some(t) => #[verifier::truncate] (t as u64),
                    None => 2000,
                },
                None => 2000,
            };
            let api_key = match roboflow_api_key {
                Some(k) => k,
                None => {
                    return Err(
                        "To use the Roboflow inference integration you need to export the env var PIPELESS_ROBOFLOW_API_KEY containing your Roboflow API key".to_owned(),
                    );
                },
            };
            Ok(
                SessionParams::Roboflow(
                    RoboflowSessionParams::new(
                        server_url.as_str(),
                        model_id.as_str(),
                        api_key.as_str(),
                        task_type,
                        request_timeout,
                    ),
                ),
            )
        },
    }
}

/// The session contract: take one frame, fill its inference output, return
/// it. Sessions are owned by a stage for its lifetime.
pub trait SessionTrait {
    /// Runs inference for one frame.
    fn infer(&self, frame: Frame) -> Frame;
}

/// A hook backed by an inference session. Stateless bindings share the
/// session across frames; the session lives as long as the stage.
pub struct InferenceHook<S> {
    session: S,
}

impl<S: SessionTrait> InferenceHook<S> {
    /// Wraps a session.
    pub fn new(session: S) -> Self {
        InferenceHook { session }
    }

    /// Hands one frame to the session; a frame whose inference input is
    /// empty is passed through unchanged, and the session is never invoked
    /// for it.
    pub fn infer_frame(&self, frame: Frame) -> (r: Frame)
        ensures
            frame@.inference_input.data.len() == 0 ==> r@ == frame@,
    {
        if frame.get_inference_input().is_empty() {
            frame
        } else {
            self.session.infer(frame)
        }
    }
}

impl<S: SessionTrait, C> HookTrait<C> for InferenceHook<S> {
    fn exec_hook(&self, frame: Frame, _stage_context: &Context<C>) -> Option<Frame> {
        Some(self.infer_frame(frame))
    }
}

} // verus!

use pipeless_ai::frame::Frame;
use pipeless_ai::hook::HookTrait;
use pipeless_ai::hook::HookType;
use pipeless_ai::inference::SessionParams;
use pipeless_ai::parser::load_stages;
use pipeless_ai::parser::parse_process_hook_spec;
use pipeless_ai::parser::StageSource;
use pipeless_ai::stage::Context;

struct Noop;

impl HookTrait<()> for Noop {
    fn exec_hook(&self, frame: Frame, _stage_context: &Context<()>) -> Option<Frame> {
        Some(frame)
    }
}

#[test]
fn process_hook_spec_parses_onnx() {
    let code = "{\"runtime\":\"onnx\",\"model_uri\":\"file:///m.onnx\",\
                \"inference_params\":{\"execution_provider\":\"cpu\"}}";
    let spec = parse_process_hook_spec(code, None, "stage").unwrap();
    assert_eq!(spec.runtime, pipeless_ai::inference::InferenceRuntime::Onnx);
    assert_eq!(spec.model_uri, "file:///m.onnx");
    assert!(!spec.stateful);
    assert!(matches!(spec.params, SessionParams::Onnx(_)));
}

#[test]
fn process_hook_spec_respects_make_stateful() {
    let code = "{\"runtime\":\"onnx\",\"model_uri\":\"file:///m.onnx\",\
                \"make_stateful\":true}";
    let spec = parse_process_hook_spec(code, None, "stage").unwrap();
    assert!(spec.stateful);
}

#[test]
fn process_hook_spec_rejects_bad_shapes() {
    assert!(parse_process_hook_spec("not json", None, "stage").is_err());
    assert!(parse_process_hook_spec("{\"model_uri\":\"x\"}", None, "stage").is_err());
    assert!(
        parse_process_hook_spec("{\"runtime\":\"onnx\"}", None, "stage").is_err()
    );
    assert!(parse_process_hook_spec(
        "{\"runtime\":\"warp-drive\",\"model_uri\":\"x\"}",
        None,
        "stage"
    )
    .is_err());
    assert!(parse_process_hook_spec(
        "{\"runtime\":\"onnx\",\"model_uri\":\"x\",\"make_stateful\":\"yes\"}",
        None,
        "stage"
    )
    .is_err());
}

#[test]
fn roboflow_spec_needs_model_id_and_api_key() {
    let missing_model = "{\"runtime\":\"roboflow\",\"model_uri\":\"x\",\
                         \"inference_params\":{}}";
    assert!(parse_process_hook_spec(missing_model, Some("key".to_owned()), "stage").is_err());

    let good = "{\"runtime\":\"roboflow\",\"model_uri\":\"x\",\"inference_params\":\
                {\"roboflow_model_id\":\"players/1\",\"roboflow_task_type\":\"object_detection\"}}";
    assert!(parse_process_hook_spec(good, None, "stage").is_err());
    let spec = parse_process_hook_spec(good, Some("key".to_owned()), "stage").unwrap();
    assert!(matches!(spec.params, SessionParams::Roboflow(_)));
}

#[test]
fn load_stages_sanitizes_and_deduplicates() {
    let sources: Vec<StageSource<Noop, ()>> = vec![
        StageSource {
            dir_name: "my-stage".to_owned(),
            hooks: vec![(HookType::Process, false, Noop), (HookType::Process, false, Noop)],
            context: Context::EmptyContext,
        },
        StageSource {
            dir_name: "my_stage".to_owned(),
            hooks: vec![(HookType::Process, false, Noop)],
            context: Context::EmptyContext,
        },
        StageSource {
            dir_name: "other".to_owned(),
            hooks: vec![
                (HookType::PreProcess, false, Noop),
                (HookType::Process, true, Noop),
                (HookType::PostProcess, false, Noop),
            ],
            context: Context::EmptyContext,
        },
    ];
    let stages = load_stages(sources);
    assert_eq!(stages.len(), 2);
    assert_eq!(stages[0].get_name(), "my_stage");
    // The duplicated phase was refused: one hook survives.
    assert_eq!(stages[0].get_hooks().len(), 1);
    assert_eq!(stages[1].get_name(), "other");
    assert_eq!(stages[1].get_hooks().len(), 3);
    assert_eq!(stages[1].get_hooks()[0].get_hook_type(), HookType::PreProcess);
}

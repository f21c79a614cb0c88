use pipeless_ai::exporters::end_state_str;
use pipeless_ai::exporters::stream_finished_event_json;
use pipeless_ai::exporters::stream_start_error_event_json;
use pipeless_ai::exporters::EventType;
use pipeless_ai::frame::Frame;
use pipeless_ai::frame::Tensor;
use pipeless_ai::hook::HookType;
use pipeless_ai::inference::model_id_valid;
use pipeless_ai::inference::InferenceHook;
use pipeless_ai::inference::InferenceRuntime;
use pipeless_ai::inference::RoboflowTaskType;
use pipeless_ai::inference::SessionTrait;
use pipeless_ai::language::get_available_languages;
use pipeless_ai::language::Language;
use pipeless_ai::parser::is_stateful_marked;
use pipeless_ai::parser::parse_hook_file_name;
use pipeless_ai::parser::HookFileRole;
use pipeless_ai::streams::StreamEntryState;

#[test]
fn hook_type_names() {
    assert_eq!(HookType::PreProcess.to_str(), "pre_process");
    assert_eq!(HookType::Process.to_str(), "process");
    assert_eq!(HookType::PostProcess.to_str(), "post_process");
}

#[test]
fn hook_file_names_select_role_and_language() {
    assert_eq!(
        parse_hook_file_name("pre-process.py"),
        Some((HookFileRole::Phase(HookType::PreProcess), Language::Python))
    );
    assert_eq!(
        parse_hook_file_name("pre_process.py"),
        Some((HookFileRole::Phase(HookType::PreProcess), Language::Python))
    );
    assert_eq!(
        parse_hook_file_name("process.json"),
        Some((HookFileRole::Phase(HookType::Process), Language::Json))
    );
    assert_eq!(
        parse_hook_file_name("post-process.rs"),
        Some((HookFileRole::Phase(HookType::PostProcess), Language::Rust))
    );
    assert_eq!(parse_hook_file_name("init.py"), Some((HookFileRole::Init, Language::Python)));
    assert_eq!(parse_hook_file_name("process.txt"), None);
    assert_eq!(parse_hook_file_name("helper.py"), None);
    assert_eq!(parse_hook_file_name("process"), None);
}

#[test]
fn stateful_marker_is_the_first_line() {
    assert!(is_stateful_marked("# make stateful\nrest"));
    assert!(is_stateful_marked("# make stateful"));
    // Files with carriage-return line endings mark all the same.
    assert!(is_stateful_marked("# make stateful\r\nrest"));
    assert!(!is_stateful_marked("x\n# make stateful"));
    assert!(!is_stateful_marked("# make it stateful\nrest"));
    assert!(!is_stateful_marked(""));
}

#[test]
fn available_languages_and_extensions() {
    let languages = get_available_languages();
    assert_eq!(languages.len(), 3);
    assert_eq!(*languages[0].get_language(), Language::Python);
    assert_eq!(languages[0].get_extension(), "py");
    assert_eq!(*languages[1].get_language(), Language::Rust);
    assert_eq!(languages[1].get_extension(), "rs");
    assert_eq!(*languages[2].get_language(), Language::Json);
    assert_eq!(languages[2].get_extension(), "json");
}

#[test]
fn inference_runtime_names() {
    assert_eq!(InferenceRuntime::from_str("onnx"), Some(InferenceRuntime::Onnx));
    assert_eq!(InferenceRuntime::from_str("openvino"), Some(InferenceRuntime::Openvino));
    assert_eq!(InferenceRuntime::from_str("roboflow"), Some(InferenceRuntime::Roboflow));
    assert_eq!(InferenceRuntime::from_str("tensorrt"), None);
}

#[test]
fn roboflow_task_type_parsing_and_endpoints() {
    assert_eq!(
        RoboflowTaskType::from_str("object_detection"),
        Ok(RoboflowTaskType::ObjectDetection)
    );
    assert_eq!(
        RoboflowTaskType::from_str("Object-Detection"),
        Ok(RoboflowTaskType::ObjectDetection)
    );
    assert_eq!(
        RoboflowTaskType::from_str("InstanceSegmentation"),
        Ok(RoboflowTaskType::InstanceSegmentation)
    );
    assert_eq!(
        RoboflowTaskType::from_str("classification"),
        Ok(RoboflowTaskType::Classification)
    );
    assert_eq!(
        RoboflowTaskType::from_str("KEYPOINTS_DETECTION"),
        Ok(RoboflowTaskType::KeypointsDetection)
    );
    assert!(RoboflowTaskType::from_str("segmentation").is_err());

    assert_eq!(
        RoboflowTaskType::ObjectDetection.to_str_endpoint(),
        "infer/object_detection"
    );
    assert_eq!(
        RoboflowTaskType::InstanceSegmentation.to_str_endpoint(),
        "infer/instance_segmentation"
    );
    assert_eq!(RoboflowTaskType::Classification.to_str_endpoint(), "infer/classification");
    assert_eq!(
        RoboflowTaskType::KeypointsDetection.to_str_endpoint(),
        "infer/keypoints_detection"
    );
}

#[test]
fn roboflow_model_id_form() {
    assert!(model_id_valid("soccer-players/1"));
    assert!(!model_id_valid("soccer-players"));
    assert!(!model_id_valid("a/b/c"));
}

/// A session that marks every frame it sees by filling the inference
/// output shape.
struct MarkingSession;

impl SessionTrait for MarkingSession {
    fn infer(&self, frame: Frame) -> Frame {
        let mut frame = frame;
        frame.set_inference_output(pipeless_ai::frame::InferenceOutput::Default(
            Tensor::from_parts(vec![1], vec![1.0f32.to_bits()]),
        ));
        frame
    }
}

#[test]
fn empty_inference_input_skips_the_session() {
    let hook = InferenceHook::new(MarkingSession);
    // The fresh frame's inference input is empty: the frame passes through
    // unchanged and the session never runs.
    let frame = Frame::new_rgb(vec![0, 0, 0], 1, 1, 0, 0, 40, 25, 0, 1, 1);
    let out = hook.infer_frame(frame);
    match out.get_inference_output() {
        pipeless_ai::frame::InferenceOutput::Default(t) => assert!(t.get_data().is_empty()),
        _ => panic!("expected the untouched default output"),
    }

    // With a non-empty input the session runs and fills the output.
    let mut frame = Frame::new_rgb(vec![0, 0, 0], 1, 1, 0, 0, 40, 25, 0, 1, 2);
    frame.set_inference_input(Tensor::from_parts(vec![1], vec![2.0f32.to_bits()]));
    let out = hook.infer_frame(frame);
    match out.get_inference_output() {
        pipeless_ai::frame::InferenceOutput::Default(t) => assert_eq!(t.get_data().len(), 1),
        _ => panic!("expected the session's output"),
    }
}

#[test]
fn lifecycle_event_payloads() {
    assert_eq!(EventType::StreamFinished.to_str(), "StreamFinished");
    assert_eq!(EventType::StreamStartError.to_str(), "StreamStartError");
    assert_eq!(end_state_str(StreamEntryState::Completed), "completed");
    assert_eq!(end_state_str(StreamEntryState::Error), "error");
    assert_eq!(end_state_str(StreamEntryState::Running), "running");
    assert_eq!(
        stream_finished_event_json("abc", "completed"),
        "{\"end_state\":\"completed\",\"stream_uuid\":\"abc\",\"type\":\"StreamFinished\"}"
    );
    assert_eq!(
        stream_start_error_event_json("abc"),
        "{\"end_state\":\"error\",\"stream_uuid\":\"abc\",\"type\":\"StreamStartError\"}"
    );
}

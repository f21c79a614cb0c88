use std::cell::RefCell;
use std::rc::Rc;

use pipeless_ai::frame::Frame;
use pipeless_ai::hook::Hook;
use pipeless_ai::hook::HookTrait;
use pipeless_ai::hook::HookType;
use pipeless_ai::path::FramePath;
use pipeless_ai::path::FramePathExecutor;
use pipeless_ai::stage::find_hook;
use pipeless_ai::stage::Context;
use pipeless_ai::stage::Stage;

/// A hook body for the tests: it can pass frames through, record the frame
/// numbers it sees, tamper with the buffers the runtime owns, or drop the
/// frame.
enum TestHook {
    Pass,
    Record(Rc<RefCell<Vec<u64>>>),
    TamperOriginal,
    Drop,
}

impl HookTrait<()> for TestHook {
    fn exec_hook(&self, frame: Frame, _stage_context: &Context<()>) -> Option<Frame> {
        match self {
            TestHook::Pass => Some(frame),
            TestHook::Record(log) => {
                log.borrow_mut().push(frame.get_frame_number());
                Some(frame)
            }
            TestHook::TamperOriginal => {
                let mut frame = frame;
                frame.set_original_pixels(vec![9, 9, 9]);
                Some(frame)
            }
            TestHook::Drop => None,
        }
    }
}

fn test_frame(pipeline_id: u128, frame_number: u64) -> Frame {
    Frame::new_rgb(vec![1, 2, 3], 1, 1, 0, 0, 40, 25, 0, pipeline_id, frame_number)
}

fn executor_with(stages: Vec<Stage<TestHook, ()>>) -> FramePathExecutor<TestHook, ()> {
    FramePathExecutor::new(stages)
}

#[test]
fn path_validation_rejects_unknown_stage() {
    let mut stage: Stage<TestHook, ()> = Stage::new("known");
    assert!(stage.add_hook(Hook::new_stateless(HookType::Process, TestHook::Pass)));
    let executor = executor_with(vec![stage]);
    assert!(FramePath::new("known", &executor).is_ok());
    let err = FramePath::new("known/unknown", &executor);
    assert!(err.is_err());
    assert_eq!(err.unwrap_err(), "unknown stage does not exist");
}

#[test]
fn path_parsing_trims_and_splits() {
    let mut s1: Stage<TestHook, ()> = Stage::new("a");
    assert!(s1.add_hook(Hook::new_stateless(HookType::Process, TestHook::Pass)));
    let mut s2: Stage<TestHook, ()> = Stage::new("b");
    assert!(s2.add_hook(Hook::new_stateless(HookType::Process, TestHook::Pass)));
    let executor = executor_with(vec![s1, s2]);
    let path = FramePath::new("  a/b ", &executor).unwrap();
    assert_eq!(path.get_path(), &vec!["a".to_owned(), "b".to_owned()]);
}

#[test]
fn stage_refuses_duplicate_phase() {
    let mut stage: Stage<TestHook, ()> = Stage::new("s");
    assert!(stage.add_hook(Hook::new_stateless(HookType::PreProcess, TestHook::Pass)));
    assert!(stage.add_hook(Hook::new_stateless(HookType::Process, TestHook::Pass)));
    assert!(stage.add_hook(Hook::new_stateless(HookType::PostProcess, TestHook::Pass)));
    // A second hook for an already taken phase is refused: a stage executes
    // at most three phases for a frame.
    assert!(!stage.add_hook(Hook::new_stateless(HookType::Process, TestHook::Drop)));
    assert_eq!(stage.get_hooks().len(), 3);
}

#[test]
fn original_buffer_survives_tampering_hook() {
    let mut stage: Stage<TestHook, ()> = Stage::new("tamper");
    assert!(stage.add_hook(Hook::new_stateless(HookType::Process, TestHook::TamperOriginal)));
    let mut executor = executor_with(vec![stage]);
    let path = FramePath::new("tamper", &executor).unwrap();
    let frame = test_frame(1, 1);
    let out = executor.execute_path(frame, path).expect("frame should come back");
    assert_eq!(out.get_original_pixels(), &vec![1u8, 2, 3]);
    assert_eq!(out.get_pipeline_id(), 1);
    assert_eq!(out.get_frame_number(), 1);
}

#[test]
fn dropped_frame_ends_the_path_early() {
    let log = Rc::new(RefCell::new(Vec::new()));
    let mut first: Stage<TestHook, ()> = Stage::new("first");
    assert!(first.add_hook(Hook::new_stateless(HookType::Process, TestHook::Drop)));
    let mut second: Stage<TestHook, ()> = Stage::new("second");
    assert!(second.add_hook(Hook::new_stateless(HookType::Process, TestHook::Record(log.clone()))));
    let mut executor = executor_with(vec![first, second]);
    let path = FramePath::new("first/second", &executor).unwrap();
    let out = executor.execute_path(test_frame(1, 1), path);
    assert!(out.is_none());
    assert!(log.borrow().is_empty());
}

#[test]
fn stateful_ordering_is_recorded_per_stream() {
    // A stage with stateless pre- and post-process hooks and one stateful
    // process hook that records the frame numbers it observes.
    let log = Rc::new(RefCell::new(Vec::new()));
    let mut stage: Stage<TestHook, ()> = Stage::new("s");
    assert!(stage.add_hook(Hook::new_stateless(HookType::PreProcess, TestHook::Pass)));
    assert!(stage.add_hook(Hook::new_stateful(HookType::Process, TestHook::Record(log.clone()))));
    assert!(stage.add_hook(Hook::new_stateless(HookType::PostProcess, TestHook::Pass)));
    let mut executor = executor_with(vec![stage]);

    let n = 5u64;
    for frame_number in 1..=n {
        let path = FramePath::new("s", &executor).unwrap();
        let out = executor.execute_path(test_frame(42, frame_number), path);
        assert!(out.is_some());
    }
    let expected: Vec<u64> = (1..=n).collect();
    assert_eq!(*log.borrow(), expected);
}

#[test]
fn stateful_streams_are_independent() {
    let log = Rc::new(RefCell::new(Vec::new()));
    let mut stage: Stage<TestHook, ()> = Stage::new("s");
    assert!(stage.add_hook(Hook::new_stateful(HookType::Process, TestHook::Record(log.clone()))));
    let mut executor = executor_with(vec![stage]);

    // Interleave two streams: each advances through its own gate.
    for frame_number in 1..=3u64 {
        for pid in [1u128, 2u128] {
            let path = FramePath::new("s", &executor).unwrap();
            assert!(executor.execute_path(test_frame(pid, frame_number), path).is_some());
        }
    }
    assert_eq!(*log.borrow(), vec![1, 1, 2, 2, 3, 3]);
}

#[test]
fn unknown_stage_in_path_is_skipped() {
    // The executor skips names it does not know; the frame passes through.
    let mut stage: Stage<TestHook, ()> = Stage::new("known");
    assert!(stage.add_hook(Hook::new_stateless(HookType::Process, TestHook::Pass)));
    let mut executor = executor_with(vec![stage]);
    // Build the path before the stage set changes: a path validated against
    // a different executor would normally never reach this one, so validate
    // against an executor that also knows the extra name.
    let mut extra: Stage<TestHook, ()> = Stage::new("extra");
    assert!(extra.add_hook(Hook::new_stateless(HookType::Process, TestHook::Pass)));
    let mut other: Stage<TestHook, ()> = Stage::new("known");
    assert!(other.add_hook(Hook::new_stateless(HookType::Process, TestHook::Pass)));
    let validating = executor_with(vec![other, extra]);
    let path = FramePath::new("known/extra", &validating).unwrap();
    let out = executor.execute_path(test_frame(1, 1), path);
    assert!(out.is_some());
}

#[test]
fn find_hook_selects_by_phase() {
    let mut stage: Stage<TestHook, ()> = Stage::new("s");
    assert!(stage.add_hook(Hook::new_stateless(HookType::PreProcess, TestHook::Pass)));
    assert!(stage.add_hook(Hook::new_stateful(HookType::Process, TestHook::Drop)));
    let hooks = stage.get_hooks();
    let process = find_hook(hooks, HookType::Process).expect("the phase is defined");
    assert_eq!(process.get_hook_type(), HookType::Process);
    assert!(find_hook(hooks, HookType::PostProcess).is_none());
}

#[test]
fn frame_concurrency_is_at_least_two() {
    assert!(pipeless_ai::pipeline::default_frame_concurrency() >= 2);
}

#[test]
fn hookless_path_passes_the_frame_through() {
    // A path whose stages define no hooks does no work: the frame comes
    // back as it went in.
    let empty: Stage<TestHook, ()> = Stage::new("idle");
    let mut executor = executor_with(vec![empty]);
    let path = FramePath::new("idle", &executor).unwrap();
    let out = executor.execute_path(test_frame(3, 7), path).expect("the frame passes through");
    assert_eq!(out.get_pipeline_id(), 3);
    assert_eq!(out.get_frame_number(), 7);
    assert_eq!(out.get_original_pixels(), &vec![1u8, 2, 3]);
}

#[test]
fn frame_readiness_guards_the_ordering() {
    let mut stage: Stage<TestHook, ()> = Stage::new("s");
    assert!(stage.add_hook(Hook::new_stateful(HookType::Process, TestHook::Pass)));
    let mut executor = executor_with(vec![stage]);
    let path = FramePath::new("s", &executor).unwrap();
    // Frame 2 is out of order before frame 1 was admitted.
    assert!(!executor.frame_ready(&path, 9, 2));
    assert!(executor.frame_ready(&path, 9, 1));
    assert!(executor.execute_path(test_frame(9, 1), path.clone()).is_some());
    assert!(!executor.frame_ready(&path, 9, 1));
    assert!(executor.frame_ready(&path, 9, 2));
    // A stateless-only path is always ready.
    let open_stage: Stage<TestHook, ()> = Stage::new("open");
    let mut open_executor = executor_with(vec![open_stage]);
    let open_path = FramePath::new("open", &open_executor).unwrap();
    assert!(open_executor.frame_ready(&open_path, 9, 42));
    assert!(open_executor.execute_path(test_frame(9, 42), open_path).is_some());
}

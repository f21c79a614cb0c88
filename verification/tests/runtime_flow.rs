use pipeless_ai::dispatcher::handle_pipeline_finished;
use pipeless_ai::dispatcher::next_target_state;
use pipeless_ai::dispatcher::plan_table_change;
use pipeless_ai::events::Event;
use pipeless_ai::frame::Frame;
use pipeless_ai::hook::Hook;
use pipeless_ai::hook::HookTrait;
use pipeless_ai::hook::HookType;
use pipeless_ai::path::FramePath;
use pipeless_ai::path::FramePathExecutor;
use pipeless_ai::pipeline::Manager;
use pipeless_ai::pipeline::ManagerAction;
use pipeless_ai::pipeline::PipelineEndReason;
use pipeless_ai::stage::Context;
use pipeless_ai::stage::Stage;
use pipeless_ai::streams::RestartPolicy;
use pipeless_ai::streams::StreamEntryState;
use pipeless_ai::streams::StreamsTable;
use pipeless_ai::streams::StreamsTableEntry;

struct Passthrough;

impl HookTrait<()> for Passthrough {
    fn exec_hook(&self, frame: Frame, _stage_context: &Context<()>) -> Option<Frame> {
        Some(frame)
    }
}

fn passthrough_executor() -> FramePathExecutor<Passthrough, ()> {
    let mut stage: Stage<Passthrough, ()> = Stage::new("passthrough");
    assert!(stage.add_hook(Hook::new_stateless(HookType::Process, Passthrough)));
    FramePathExecutor::new(vec![stage])
}

fn test_frame(pipeline_id: u128, frame_number: u64) -> Frame {
    Frame::new_rgb(vec![0, 0, 0], 1, 1, 0, 0, 40, 25, 0, pipeline_id, frame_number)
}

#[test]
fn restart_policy_transition_table() {
    let (completed, error, updated) =
        (PipelineEndReason::Completed, PipelineEndReason::Error, PipelineEndReason::Updated);
    let (never, always, on_error, on_eos) = (
        RestartPolicy::Never,
        RestartPolicy::Always,
        RestartPolicy::OnError,
        RestartPolicy::OnEos,
    );
    let running = StreamEntryState::Running;

    assert_eq!(next_target_state(never, completed), StreamEntryState::Completed);
    assert_eq!(next_target_state(never, error), StreamEntryState::Error);
    assert_eq!(next_target_state(never, updated), running);
    assert_eq!(next_target_state(always, completed), running);
    assert_eq!(next_target_state(always, error), running);
    assert_eq!(next_target_state(always, updated), running);
    assert_eq!(next_target_state(on_error, completed), StreamEntryState::Error);
    assert_eq!(next_target_state(on_error, error), running);
    assert_eq!(next_target_state(on_error, updated), running);
    assert_eq!(next_target_state(on_eos, completed), running);
    assert_eq!(next_target_state(on_eos, error), StreamEntryState::Completed);
    assert_eq!(next_target_state(on_eos, updated), running);
}

#[test]
fn add_process_one_frame_and_tear_down() {
    // Add an entry for a file-backed stream: the policy coerces to Never.
    let mut table = StreamsTable::new();
    let entry = StreamsTableEntry::new(
        "file:///a.mp4".to_string(),
        Some("file:///b.mp4".to_string()),
        vec!["passthrough".to_owned()],
        RestartPolicy::Never,
    );
    let entry_id = entry.get_id();
    assert_eq!(entry.get_restart_policy(), RestartPolicy::Never);
    table.add(entry).unwrap();

    // Reconcile: the entry needs a pipeline.
    let plan = plan_table_change(&table, &vec![]);
    assert_eq!(plan.to_start, vec![entry_id]);
    assert!(plan.to_stop_updated.is_empty());
    assert!(plan.orphans.is_empty());

    // Create and bind a manager for it.
    let mut executor = passthrough_executor();
    let path = FramePath::new("passthrough", &executor).unwrap();
    let mut manager =
        Manager::new("file:///a.mp4".to_string(), Some("file:///b.mp4".to_string()), path)
            .unwrap();
    let pid = manager.get_pipeline_id();
    table.set_stream_pipeline(entry_id, pid).unwrap();

    // Input caps arrive first: the output pipeline gets built.
    match manager.handle_event(Event::new_input_caps("video/x-raw".to_owned()), &mut executor) {
        ManagerAction::StartOutput(caps) => assert_eq!(caps, "video/x-raw"),
        _ => panic!("expected the output to be started"),
    }
    manager.confirm_output_built();

    // One frame flows through the path and reaches the output.
    match manager.handle_event(Event::new_frame_change(test_frame(pid, 1)), &mut executor) {
        ManagerAction::ForwardFrame(f) => assert_eq!(f.get_frame_number(), 1),
        _ => panic!("expected the frame to be forwarded"),
    }

    // End of input: with an output built, end-of-stream goes downstream.
    match manager.handle_event(Event::new_end_of_input_stream(), &mut executor) {
        ManagerAction::SendOutputEos => {}
        _ => panic!("expected end-of-stream to be sent to the output"),
    }

    // The output finishes: the pipeline reports completion.
    match manager.handle_event(Event::new_end_of_output_stream(), &mut executor) {
        ManagerAction::Finish(reason) => assert_eq!(reason, PipelineEndReason::Completed),
        _ => panic!("expected the pipeline to finish"),
    }

    // The dispatcher settles the entry: policy Never, reason Completed.
    assert!(handle_pipeline_finished(&mut table, pid, PipelineEndReason::Completed));
    let settled = table.get_entry_by_id(entry_id).unwrap();
    assert_eq!(settled.get_target_state(), StreamEntryState::Completed);
    assert_eq!(settled.get_pipeline(), None);

    // No restart: a completed entry is never started again.
    let plan = plan_table_change(&table, &vec![]);
    assert!(plan.to_start.is_empty());
}

#[test]
fn restart_on_error_with_policy_always() {
    let mut table = StreamsTable::new();
    let entry = StreamsTableEntry::new(
        "rtsp://camera/stream".to_string(),
        None,
        vec!["passthrough".to_owned()],
        RestartPolicy::Always,
    );
    let entry_id = entry.get_id();
    table.add(entry).unwrap();

    let mut executor = passthrough_executor();
    let path = FramePath::new("passthrough", &executor).unwrap();
    let mut manager =
        Manager::new("rtsp://camera/stream".to_string(), None, path.clone()).unwrap();
    let first_pid = manager.get_pipeline_id();
    table.set_stream_pipeline(entry_id, first_pid).unwrap();

    // The input fails mid-stream.
    match manager.handle_event(Event::new_input_stream_error("x"), &mut executor) {
        ManagerAction::Finish(reason) => assert_eq!(reason, PipelineEndReason::Error),
        _ => panic!("expected the pipeline to finish with an error"),
    }
    assert!(handle_pipeline_finished(&mut table, first_pid, PipelineEndReason::Error));

    // Policy Always: the entry is wanted running again.
    let entry_after = table.get_entry_by_id(entry_id).unwrap();
    assert_eq!(entry_after.get_target_state(), StreamEntryState::Running);
    assert_eq!(entry_after.get_pipeline(), None);

    // Reconciliation starts a fresh manager with a new pipeline id for the
    // same entry.
    let plan = plan_table_change(&table, &vec![]);
    assert_eq!(plan.to_start, vec![entry_id]);
    let new_manager = Manager::new("rtsp://camera/stream".to_string(), None, path).unwrap();
    let second_pid = new_manager.get_pipeline_id();
    assert_ne!(first_pid, second_pid);
    table.set_stream_pipeline(entry_id, second_pid).unwrap();
    let rebound = table.get_entry_by_id(entry_id).unwrap();
    assert_eq!(rebound.get_pipeline(), Some(second_pid));
}

#[test]
fn live_update_stops_and_rebuilds() {
    let mut table = StreamsTable::new();
    let entry = StreamsTableEntry::new(
        "rtsp://camera/stream".to_string(),
        None,
        vec!["passthrough".to_owned()],
        RestartPolicy::Always,
    );
    let entry_id = entry.get_id();
    table.add(entry).unwrap();
    let pid = 77u128;
    table.set_stream_pipeline(entry_id, pid).unwrap();

    // A live update rewrites the fields, clears the binding and keeps the
    // stored hash, so the entry reads as needing a start.
    let outcome = table.update_by_entry_id(
        entry_id,
        "rtsp://camera/stream",
        None,
        vec!["passthrough".to_owned(), "passthrough".to_owned()],
        RestartPolicy::Always,
    );
    assert_eq!(outcome, pipeless_ai::streams::UpdateOutcome::Updated);
    let plan = plan_table_change(&table, &vec![pid]);
    assert!(plan.to_stop_updated.is_empty());
    assert_eq!(plan.to_start, vec![entry_id]);
    // The old manager is orphaned: no entry references its pipeline.
    assert_eq!(plan.orphans, vec![pid]);

    // Once the dispatcher rebuilds the entry, its hashes agree again.
    table.refresh_stored_hash(entry_id);
    let rebuilt = table.get_entry_by_id(entry_id).unwrap();
    assert_eq!(rebuilt.hash(), rebuilt.get_stored_hash());
}

#[test]
fn drifted_entry_is_stopped() {
    let mut table = StreamsTable::new();
    let entry = StreamsTableEntry::new(
        "rtsp://camera/stream".to_string(),
        None,
        vec!["passthrough".to_owned()],
        RestartPolicy::Always,
    );
    let entry_id = entry.get_id();
    table.add(entry).unwrap();
    let pid = 5u128;
    table.set_stream_pipeline(entry_id, pid).unwrap();

    // Mutating an entry in place while its pipeline runs makes it read as
    // drifted, and the plan stops that pipeline.
    let e = table.get_entry_by_id(entry_id).unwrap().clone();
    assert_eq!(e.hash(), e.get_stored_hash());
    let outcome = table.update_by_entry_id(
        entry_id,
        "rtsp://camera/changed",
        None,
        vec!["passthrough".to_owned()],
        RestartPolicy::Always,
    );
    assert_eq!(outcome, pipeless_ai::streams::UpdateOutcome::Updated);
    // After the update the binding is gone; rebind to simulate the window
    // in which the manager still runs.
    table.set_stream_pipeline(entry_id, pid).unwrap();
    let plan = plan_table_change(&table, &vec![pid]);
    assert_eq!(plan.to_stop_updated, vec![pid]);
}

#[test]
fn tags_are_stashed_until_output_exists() {
    let mut executor = passthrough_executor();
    let path = FramePath::new("passthrough", &executor).unwrap();
    let mut manager =
        Manager::new("rtsp://a/b".to_string(), Some("rtmp://c/d".to_string()), path).unwrap();

    // Tags before the output exists are stashed.
    match manager.handle_event(Event::new_tags_change("artist=a".to_owned()), &mut executor) {
        ManagerAction::NoAction => {}
        _ => panic!("expected the tags to be stashed"),
    }
    assert_eq!(manager.take_pending_tags(), Some("artist=a".to_owned()));
    assert_eq!(manager.take_pending_tags(), None);

    // Tags after the output was built are delivered.
    manager.confirm_output_built();
    match manager.handle_event(Event::new_tags_change("artist=b".to_owned()), &mut executor) {
        ManagerAction::DeliverTags(t) => assert_eq!(t, "artist=b"),
        _ => panic!("expected the tags to be delivered"),
    }
}

#[test]
fn eos_without_output_finishes_directly() {
    let mut executor = passthrough_executor();
    let path = FramePath::new("passthrough", &executor).unwrap();
    let mut manager = Manager::new("rtsp://a/b".to_string(), None, path).unwrap();
    match manager.handle_event(Event::new_end_of_input_stream(), &mut executor) {
        ManagerAction::Finish(reason) => assert_eq!(reason, PipelineEndReason::Completed),
        _ => panic!("expected the pipeline to finish directly"),
    }
}

#[test]
fn manager_construction_fails_only_on_bad_uris() {
    let executor = passthrough_executor();
    let path = FramePath::new("passthrough", &executor).unwrap();
    // A URI without a scheme separator cannot build a pipeline.
    assert!(Manager::new("not-a-uri".to_string(), None, path.clone()).is_err());
    assert!(
        Manager::new("rtsp://a/b".to_string(), Some("nope".to_string()), path.clone()).is_err()
    );
    assert!(Manager::new("rtsp://a/b".to_string(), Some("screen".to_string()), path).is_ok());
}

use pipeless_ai::rest::add_stream_status;
use pipeless_ai::rest::handle_add_stream;
use pipeless_ai::rest::handle_remove_stream;
use pipeless_ai::rest::handle_update_stream;
use pipeless_ai::rest::update_stream_status;
use pipeless_ai::rest::AddStreamOutcome;
use pipeless_ai::rest::StreamBody;
use pipeless_ai::rest::UpdateStreamOutcome;
use pipeless_ai::streams::RestartPolicy;
use pipeless_ai::streams::StreamsTable;

fn body(
    input: Option<&str>,
    output: Option<&str>,
    path: Option<Vec<&str>>,
    policy: Option<&str>,
) -> StreamBody {
    StreamBody {
        input_uri: input.map(|s| s.to_owned()),
        output_uri: output.map(|s| s.to_owned()),
        frame_path: path.map(|p| p.into_iter().map(|s| s.to_owned()).collect()),
        restart_policy: policy.map(|s| s.to_owned()),
    }
}

#[test]
fn add_stream_validates_the_body() {
    let mut table = StreamsTable::new();
    let missing_input = handle_add_stream(&mut table, body(None, None, Some(vec!["s"]), None));
    assert_eq!(missing_input, AddStreamOutcome::MissingInputUri);
    assert_eq!(add_stream_status(missing_input), 400);

    let missing_path = handle_add_stream(&mut table, body(Some("rtsp://a/b"), None, None, None));
    assert_eq!(missing_path, AddStreamOutcome::MissingFramePath);

    let bad_policy = handle_add_stream(
        &mut table,
        body(Some("rtsp://a/b"), None, Some(vec!["s"]), Some("sometimes")),
    );
    assert_eq!(bad_policy, AddStreamOutcome::InvalidRestartPolicy);
    assert!(table.get_table().is_empty());

    let added = handle_add_stream(
        &mut table,
        body(Some("rtsp://a/b"), None, Some(vec!["s"]), Some("on_error")),
    );
    assert_eq!(added, AddStreamOutcome::Added);
    assert_eq!(add_stream_status(added), 200);
    assert_eq!(table.get_table()[0].get_restart_policy(), RestartPolicy::OnError);
}

#[test]
fn duplicate_input_rejection_over_the_api() {
    // Two entries sharing an input URI: the first answers 200, the second
    // 400 with the duplicate-input outcome.
    let mut table = StreamsTable::new();
    let first = handle_add_stream(
        &mut table,
        body(Some("rtsp://cam/1"), None, Some(vec!["s"]), None),
    );
    assert_eq!(add_stream_status(first), 200);
    let second = handle_add_stream(
        &mut table,
        body(Some("rtsp://cam/1"), None, Some(vec!["s"]), None),
    );
    assert_eq!(second, AddStreamOutcome::DuplicateInput);
    assert_eq!(add_stream_status(second), 400);
    assert_eq!(table.get_table().len(), 1);
}

#[test]
fn duplicate_output_rejection_over_the_api() {
    let mut table = StreamsTable::new();
    let first = handle_add_stream(
        &mut table,
        body(Some("rtsp://cam/1"), Some("rtmp://out/1"), Some(vec!["s"]), None),
    );
    assert_eq!(first, AddStreamOutcome::Added);
    let second = handle_add_stream(
        &mut table,
        body(Some("rtsp://cam/2"), Some("rtmp://out/1"), Some(vec!["s"]), None),
    );
    assert_eq!(second, AddStreamOutcome::DuplicateOutput);
}

#[test]
fn default_policy_is_never() {
    let mut table = StreamsTable::new();
    let added = handle_add_stream(
        &mut table,
        body(Some("rtsp://cam/1"), None, Some(vec!["s"]), None),
    );
    assert_eq!(added, AddStreamOutcome::Added);
    assert_eq!(table.get_table()[0].get_restart_policy(), RestartPolicy::Never);
}

#[test]
fn update_merges_missing_fields() {
    let mut table = StreamsTable::new();
    assert_eq!(
        handle_add_stream(
            &mut table,
            body(Some("rtsp://cam/1"), Some("rtmp://out/1"), Some(vec!["s1"]), Some("always")),
        ),
        AddStreamOutcome::Added
    );
    let id = table.get_table()[0].get_id();

    // Only the frame path changes; the other fields inherit.
    let outcome = handle_update_stream(
        &mut table,
        id,
        body(None, None, Some(vec!["s2", "s3"]), None),
    );
    assert_eq!(outcome, UpdateStreamOutcome::Updated);
    assert_eq!(update_stream_status(outcome), 200);
    let entry = table.get_entry_by_id(id).unwrap();
    assert_eq!(entry.get_input_uri(), "rtsp://cam/1");
    assert_eq!(entry.get_output_uri(), Some("rtmp://out/1"));
    assert_eq!(entry.get_frame_path(), &vec!["s2".to_owned(), "s3".to_owned()]);
    assert_eq!(entry.get_restart_policy(), RestartPolicy::Always);
    // The update cleared the binding and kept the stored hash.
    assert_eq!(entry.get_pipeline(), None);
    assert_ne!(entry.hash(), entry.get_stored_hash());

    // An unknown id answers 404.
    let missing = handle_update_stream(&mut table, 424242, body(None, None, None, None));
    assert_eq!(missing, UpdateStreamOutcome::NotFound);
    assert_eq!(update_stream_status(missing), 404);
}

#[test]
fn remove_stream_answers_with_the_entry() {
    let mut table = StreamsTable::new();
    assert_eq!(
        handle_add_stream(&mut table, body(Some("rtsp://cam/1"), None, Some(vec!["s"]), None)),
        AddStreamOutcome::Added
    );
    let id = table.get_table()[0].get_id();
    let removed = handle_remove_stream(&mut table, id);
    assert!(removed.is_some());
    assert_eq!(removed.unwrap().get_input_uri(), "rtsp://cam/1");
    assert!(handle_remove_stream(&mut table, id).is_none());
    assert!(table.get_table().is_empty());
}

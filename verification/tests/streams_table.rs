use pipeless_ai::streams::RestartPolicy;
use pipeless_ai::streams::StreamEntryState;
use pipeless_ai::streams::StreamsTable;
use pipeless_ai::streams::StreamsTableEntry;
use pipeless_ai::streams::UpdateOutcome;

#[test]
fn test_add_entry_duplicated_input() {
    let mut table = StreamsTable::new();
    let entry1 = StreamsTableEntry::new(
        "input1".to_string(),
        None,
        vec!["s1".to_owned(), "s2".to_owned()],
        RestartPolicy::Never,
    );
    assert!(table.add(entry1).is_ok());
    assert_eq!(table.get_table().len(), 1);

    // Adding an entry with a duplicate input_uri should fail
    let entry2 = StreamsTableEntry::new(
        "input1".to_string(),
        None,
        vec!["s1".to_owned(), "s2".to_owned()],
        RestartPolicy::Never,
    );
    assert!(table.add(entry2).is_err());
}

#[test]
fn test_add_entry_duplicated_output() {
    let mut table = StreamsTable::new();
    let entry1 = StreamsTableEntry::new(
        "input1".to_string(),
        Some("output1".to_string()),
        vec!["s1".to_owned(), "s2".to_owned()],
        RestartPolicy::Never,
    );
    assert!(table.add(entry1).is_ok());
    assert_eq!(table.get_table().len(), 1);

    // Adding an entry with a duplicate output_uri should fail
    let entry2 = StreamsTableEntry::new(
        "input2".to_string(),
        Some("output1".to_string()),
        vec!["s1".to_owned(), "s2".to_owned()],
        RestartPolicy::Never,
    );
    assert!(table.add(entry2).is_err());
}

#[test]
fn test_remove_entry() {
    let mut table = StreamsTable::new();
    let entry1 = StreamsTableEntry::new(
        "input1".to_string(),
        None,
        vec!["s1".to_owned(), "s2".to_owned()],
        RestartPolicy::Never,
    );
    table.add(entry1.clone()).unwrap();

    let removed_entry = table.remove(entry1.get_id()).expect("Could not get entry");
    assert_eq!(removed_entry, entry1);
    assert_eq!(table.get_table().len(), 0);

    // Removing a non-existent entry should return None
    assert_eq!(table.remove(uuid::Uuid::new_v4().as_u128()), None);
}

#[test]
fn test_set_entry_pipeline() {
    let mut table = StreamsTable::new();
    let entry1 = StreamsTableEntry::new(
        "input1".to_string(),
        None,
        vec!["s1".to_owned(), "s2".to_owned()],
        RestartPolicy::Never,
    );
    table.add(entry1.clone()).unwrap();

    let pipeline_id = uuid::Uuid::new_v4().as_u128();
    assert!(table.set_stream_pipeline(entry1.get_id(), pipeline_id).is_ok());
    assert_eq!(table.get_table()[0].get_pipeline(), Some(pipeline_id));

    // Setting a pipeline ID that is already assigned to another entry should fail
    let entry2 = StreamsTableEntry::new(
        "input2".to_string(),
        None,
        vec!["s1".to_owned(), "s2".to_owned()],
        RestartPolicy::Never,
    );
    table.add(entry2.clone()).unwrap();
    assert!(table.set_stream_pipeline(entry2.get_id(), pipeline_id).is_err());
}

#[test]
fn test_find_by_pipeline_id() {
    let mut table = StreamsTable::new();
    let pipeline_id = uuid::Uuid::new_v4().as_u128();
    let mut entry1 = StreamsTableEntry::new(
        "input1".to_string(),
        Some("output1".to_string()),
        vec!["s1".to_owned(), "s2".to_owned()],
        RestartPolicy::Never,
    );
    entry1.assign_pipeline(pipeline_id);
    table.add(entry1.clone()).unwrap();

    // Finding an entry by its pipeline ID
    let found_entry = table.find_by_pipeline_id(pipeline_id);
    assert_eq!(found_entry, Some(&entry1));

    // Finding an entry by a non-existent pipeline ID
    let non_existent_pipeline_id = uuid::Uuid::new_v4().as_u128();
    let not_found_entry = table.find_by_pipeline_id(non_existent_pipeline_id);
    assert_eq!(not_found_entry, None);
}

#[test]
fn screen_output_duplicates_are_permitted() {
    let mut table = StreamsTable::new();
    let entry1 = StreamsTableEntry::new(
        "input1".to_string(),
        Some("screen".to_string()),
        vec!["s1".to_owned()],
        RestartPolicy::Never,
    );
    let entry2 = StreamsTableEntry::new(
        "input2".to_string(),
        Some("screen".to_string()),
        vec!["s1".to_owned()],
        RestartPolicy::Never,
    );
    assert!(table.add(entry1).is_ok());
    assert!(table.add(entry2).is_ok());
    assert_eq!(table.get_table().len(), 2);
}

#[test]
fn file_scheme_forces_never_policy() {
    let entry = StreamsTableEntry::new(
        "file:///videos/a.mp4".to_string(),
        Some("rtmp://example/live".to_string()),
        vec!["s1".to_owned()],
        RestartPolicy::Always,
    );
    assert_eq!(entry.get_restart_policy(), RestartPolicy::Never);

    let entry_out = StreamsTableEntry::new(
        "rtsp://camera/stream".to_string(),
        Some("file:///videos/out.mp4".to_string()),
        vec!["s1".to_owned()],
        RestartPolicy::OnError,
    );
    assert_eq!(entry_out.get_restart_policy(), RestartPolicy::Never);

    let entry_net = StreamsTableEntry::new(
        "rtsp://camera/stream2".to_string(),
        None,
        vec!["s1".to_owned()],
        RestartPolicy::Always,
    );
    assert_eq!(entry_net.get_restart_policy(), RestartPolicy::Always);
}

#[test]
fn entry_construction_state() {
    let entry = StreamsTableEntry::new(
        "rtsp://camera/stream".to_string(),
        None,
        vec!["my-stage".to_owned(), "other".to_owned()],
        RestartPolicy::OnEos,
    );
    assert_eq!(entry.get_target_state(), StreamEntryState::Running);
    assert_eq!(entry.get_pipeline(), None);
    // Hyphens in stage names are normalized to underscores at construction.
    assert_eq!(entry.get_frame_path(), &vec!["my_stage".to_owned(), "other".to_owned()]);
    // A fresh entry is settled: its stored hash equals its live hash.
    assert_eq!(entry.get_stored_hash(), entry.hash());
}

#[test]
fn stored_hash_survives_mutation() {
    let mut entry = StreamsTableEntry::new(
        "rtsp://camera/stream".to_string(),
        None,
        vec!["s1".to_owned()],
        RestartPolicy::Never,
    );
    let stored = entry.get_stored_hash();
    entry.set_input_uri("rtsp://camera/other");
    entry.set_output_uri(Some("screen".to_owned()));
    entry.set_frame_path(vec!["s2".to_owned()]);
    entry.set_restart_policy(RestartPolicy::Always);
    entry.set_target_state(StreamEntryState::Error);
    assert_eq!(entry.get_stored_hash(), stored);
    // The live hash has diverged: that divergence is the change signal.
    assert_ne!(entry.hash(), stored);
}

#[test]
fn update_keeps_hash_and_clears_binding() {
    let mut table = StreamsTable::new();
    let entry = StreamsTableEntry::new(
        "rtsp://camera/one".to_string(),
        None,
        vec!["s1".to_owned()],
        RestartPolicy::Never,
    );
    let id = entry.get_id();
    let stored = entry.get_stored_hash();
    table.add(entry).unwrap();
    table.set_stream_pipeline(id, 7).unwrap();

    let outcome = table.update_by_entry_id(
        id,
        "rtsp://camera/two",
        None,
        vec!["s2".to_owned()],
        RestartPolicy::Never,
    );
    assert_eq!(outcome, UpdateOutcome::Updated);
    let rebuilt = table.get_entry_by_id(id).unwrap();
    assert_eq!(rebuilt.get_pipeline(), None);
    assert_eq!(rebuilt.get_stored_hash(), stored);
    assert_eq!(rebuilt.get_input_uri(), "rtsp://camera/two");
    assert_ne!(rebuilt.hash(), rebuilt.get_stored_hash());

    // The dispatcher's rebuild settles the entry again.
    table.refresh_stored_hash(id);
    let settled = table.get_entry_by_id(id).unwrap();
    assert_eq!(settled.hash(), settled.get_stored_hash());
}

#[test]
fn update_rejects_duplicates() {
    let mut table = StreamsTable::new();
    let entry1 = StreamsTableEntry::new(
        "input1".to_string(),
        Some("output1".to_string()),
        vec!["s1".to_owned()],
        RestartPolicy::Never,
    );
    let entry2 = StreamsTableEntry::new(
        "input2".to_string(),
        Some("output2".to_string()),
        vec!["s1".to_owned()],
        RestartPolicy::Never,
    );
    let id2 = entry2.get_id();
    table.add(entry1).unwrap();
    table.add(entry2).unwrap();

    let dup_in = table.update_by_entry_id(
        id2,
        "input1",
        Some("output2".to_owned()),
        vec!["s1".to_owned()],
        RestartPolicy::Never,
    );
    assert_eq!(dup_in, UpdateOutcome::DuplicateInput);

    let dup_out = table.update_by_entry_id(
        id2,
        "input2",
        Some("output1".to_owned()),
        vec!["s1".to_owned()],
        RestartPolicy::Never,
    );
    assert_eq!(dup_out, UpdateOutcome::DuplicateOutput);

    let missing = table.update_by_entry_id(
        uuid::Uuid::new_v4().as_u128(),
        "input3",
        None,
        vec!["s1".to_owned()],
        RestartPolicy::Never,
    );
    assert_eq!(missing, UpdateOutcome::NotFound);
}

#[test]
fn add_then_remove_restores_prior_state() {
    let mut table = StreamsTable::new();
    let existing = StreamsTableEntry::new(
        "input1".to_string(),
        None,
        vec!["s1".to_owned()],
        RestartPolicy::Never,
    );
    table.add(existing.clone()).unwrap();
    let before = table.get_table();

    let entry = StreamsTableEntry::new(
        "input2".to_string(),
        None,
        vec!["s1".to_owned()],
        RestartPolicy::Never,
    );
    let id = entry.get_id();
    table.add(entry).unwrap();
    let removed = table.remove(id);
    assert!(removed.is_some());
    assert_eq!(table.get_table(), before);
    assert!(table.get_entry_by_id(id).is_none());
}

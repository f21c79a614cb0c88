use pipeless_ai::hash::calculate_hash;
use pipeless_ai::streams::calculate_entry_hash;
use pipeless_ai::streams::RestartPolicy;
use pipeless_ai::streams::RestartPolicyError;
use pipeless_ai::tags::tag_list_to_string;
use pipeless_ai::video::Video;

#[test]
fn restart_policy_parsing_accepts_known_spellings() {
    assert_eq!(RestartPolicy::from_str("never"), Ok(RestartPolicy::Never));
    assert_eq!(RestartPolicy::from_str("Never"), Ok(RestartPolicy::Never));
    assert_eq!(RestartPolicy::from_str("always"), Ok(RestartPolicy::Always));
    assert_eq!(RestartPolicy::from_str("Always"), Ok(RestartPolicy::Always));
    assert_eq!(RestartPolicy::from_str("onerror"), Ok(RestartPolicy::OnError));
    assert_eq!(RestartPolicy::from_str("OnError"), Ok(RestartPolicy::OnError));
    assert_eq!(RestartPolicy::from_str("on_error"), Ok(RestartPolicy::OnError));
    assert_eq!(RestartPolicy::from_str("On_Error"), Ok(RestartPolicy::OnError));
    assert_eq!(RestartPolicy::from_str("oneos"), Ok(RestartPolicy::OnEos));
    assert_eq!(RestartPolicy::from_str("OnEos"), Ok(RestartPolicy::OnEos));
    assert_eq!(RestartPolicy::from_str("on_eos"), Ok(RestartPolicy::OnEos));
    assert_eq!(RestartPolicy::from_str("ON_EOS"), Ok(RestartPolicy::OnEos));
    assert_eq!(RestartPolicy::from_str("sometimes"), Err(RestartPolicyError));
    assert_eq!(RestartPolicy::from_str(""), Err(RestartPolicyError));
}

#[test]
fn restart_policy_round_trips_modulo_normalization() {
    for policy in [
        RestartPolicy::Never,
        RestartPolicy::Always,
        RestartPolicy::OnError,
        RestartPolicy::OnEos,
    ] {
        // Emitting and re-parsing yields the policy back.
        assert_eq!(RestartPolicy::from_str(policy.to_str()), Ok(policy));
    }
    // A spelling that differs only in case and underscores parses to the
    // same policy as the emitted form.
    let parsed = RestartPolicy::from_str("ON_ERROR").unwrap();
    assert_eq!(parsed.to_str(), "on_error");
}

#[test]
fn video_uri_parsing() {
    let screen = Video::new("screen".to_string()).unwrap();
    assert_eq!(screen.get_protocol(), "screen");
    assert_eq!(screen.get_location(), "screen");
    assert_eq!(screen.get_uri(), "screen");

    let webcam = Video::new("v4l2".to_string()).unwrap();
    assert_eq!(webcam.get_protocol(), "v4l2");
    assert_eq!(webcam.get_location(), "v4l2");

    let file = Video::new("file:///videos/a.mp4".to_string()).unwrap();
    assert_eq!(file.get_protocol(), "file");
    assert_eq!(file.get_location(), "/videos/a.mp4");
    assert_eq!(file.get_uri(), "file:///videos/a.mp4");

    let rtsp = Video::new("rtsp://camera.local/stream".to_string()).unwrap();
    assert_eq!(rtsp.get_protocol(), "rtsp");
    assert_eq!(rtsp.get_location(), "camera.local/stream");

    // A general URI without the separator is rejected.
    assert!(Video::new("not-a-uri".to_string()).is_err());
}

#[test]
fn content_hash_is_deterministic_and_sensitive() {
    let path = vec!["s1".to_owned(), "s2".to_owned()];
    let a = calculate_entry_hash("in", Some("out"), &path, &RestartPolicy::Never);
    let b = calculate_entry_hash("in", Some("out"), &path, &RestartPolicy::Never);
    assert_eq!(a, b);
    let c = calculate_entry_hash("other", Some("out"), &path, &RestartPolicy::Never);
    assert_ne!(a, c);
    let d = calculate_entry_hash("in", Some("out"), &path, &RestartPolicy::Always);
    assert_ne!(a, d);
    let e = calculate_entry_hash("in", None, &path, &RestartPolicy::Never);
    assert_ne!(a, e);
}

#[test]
fn string_hash_has_exact_value() {
    // The fold starts at the 64-bit offset basis and mixes one character at
    // a time with the 64-bit prime.
    assert_eq!(calculate_hash(""), 0xcbf29ce484222325);
    let basis: u64 = 0xcbf29ce484222325;
    let prime: u64 = 0x100000001b3;
    let expected = (basis ^ 'a' as u64).wrapping_mul(prime);
    assert_eq!(calculate_hash("a"), expected);
}

#[test]
fn tag_lists_render_to_injector_strings() {
    let tags = vec![
        ("artist".to_owned(), vec!["someone".to_owned()]),
        ("taglist".to_owned(), vec!["nested".to_owned()]),
        ("keywords".to_owned(), vec!["a".to_owned(), "b".to_owned()]),
    ];
    assert_eq!(tag_list_to_string(&tags), "artist=someone, keywords=a,b");
    assert_eq!(tag_list_to_string(&vec![]), "");
}

use pipeless_ai::events::Bus;
use pipeless_ai::events::Event;
use pipeless_ai::events::publish_input_eos_event_sync;
use pipeless_ai::events::publish_new_frame_change_event_sync;
use pipeless_ai::frame::Frame;
use pipeless_ai::frame::InferenceOutput;
use pipeless_ai::frame::Tensor;

fn test_frame(n: u64) -> Frame {
    Frame::new_rgb(vec![1, 2, 3], 1, 1, 10, 20, 40, 25, 9, 123, n)
}

#[test]
fn frame_events_are_lossy_under_backpressure() {
    let mut bus = Bus::new(2);
    assert!(!publish_new_frame_change_event_sync(&mut bus, test_frame(1)));
    assert!(!publish_new_frame_change_event_sync(&mut bus, test_frame(2)));
    // The buffer is full: the third frame is dropped, not queued.
    assert!(publish_new_frame_change_event_sync(&mut bus, test_frame(3)));
    assert_eq!(bus.len(), 2);
}

#[test]
fn control_events_are_delivered_in_order() {
    let mut bus = Bus::new(4);
    assert!(!publish_new_frame_change_event_sync(&mut bus, test_frame(1)));
    publish_input_eos_event_sync(&mut bus);
    match bus.recv() {
        Some(Event::FrameChangeEvent(fc)) => {
            assert_eq!(fc.get_frame().get_frame_number(), 1);
        }
        _ => panic!("expected the frame event first"),
    }
    match bus.recv() {
        Some(Event::EndOfInputStreamEvent(_)) => {}
        _ => panic!("expected the end-of-input event second"),
    }
    assert!(bus.recv().is_none());
}

#[test]
fn event_constructors_carry_their_payloads() {
    match Event::new_tags_change("artist=a".to_owned()) {
        Event::TagsChangeEvent(tc) => assert_eq!(tc.get_tags(), "artist=a"),
        _ => panic!("wrong event kind"),
    }
    match Event::new_input_caps("video/x-raw".to_owned()) {
        Event::NewInputCapsEvent(c) => assert_eq!(c.get_caps(), "video/x-raw"),
        _ => panic!("wrong event kind"),
    }
    match Event::new_input_stream_error("boom") {
        Event::InputStreamErrorEvent(e) => assert_eq!(e.get_msg(), "boom"),
        _ => panic!("wrong event kind"),
    }
    match Event::new_output_stream_error("bang") {
        Event::OutputStreamErrorEvent(e) => assert_eq!(e.get_msg(), "bang"),
        _ => panic!("wrong event kind"),
    }
    match Event::new_frame_change(test_frame(7)) {
        Event::FrameChangeEvent(fc) => assert_eq!(fc.into_frame().get_frame_number(), 7),
        _ => panic!("wrong event kind"),
    }
}

#[test]
fn frame_carries_its_metadata() {
    let mut frame = test_frame(3);
    assert_eq!(frame.get_pipeline_id(), 123);
    assert_eq!(frame.get_frame_number(), 3);
    assert_eq!(frame.get_original_pixels(), &vec![1u8, 2, 3]);
    assert!(frame.get_inference_input().is_empty());

    let tensor = Tensor::from_parts(vec![2], vec![1.0f32.to_bits(), 2.0f32.to_bits()]);
    frame.set_inference_input(tensor);
    assert!(!frame.get_inference_input().is_empty());
    assert_eq!(frame.get_inference_input().get_shape(), &vec![2usize]);

    frame.set_inference_output(InferenceOutput::Default(Tensor::from_parts(
        vec![1],
        vec![7.5f32.to_bits()],
    )));
    match frame.get_inference_output() {
        InferenceOutput::Default(t) => {
            assert_eq!(f32::from_bits(t.get_data()[0]), 7.5);
        }
        _ => panic!("expected a single tensor"),
    }
}

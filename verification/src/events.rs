//! The event bus: the typed channel between the media pipelines and the
//! per-stream manager. Frame events transfer frame ownership and are lossy
//! under backpressure; every other event kind is delivered.

use vstd::prelude::*;
use std::collections::VecDeque;
use crate::frame::Frame;

verus! {

/// A decoded frame changing hands; the event owns the frame, and the type
/// deliberately has no way to be cloned.
pub struct FrameChange {
    frame: Frame,
}

impl View for FrameChange {
    type V = crate::frame::FrameModel;

    closed spec fn view(&self) -> crate::frame::FrameModel {
        self.frame@
    }
}

impl FrameChange {
    /// Wraps a frame.
    pub fn new(frame: Frame) -> (r: Self)
        ensures
            r@ == frame@,
    {
        FrameChange { frame }
    }

    /// Reads the carried frame.
    pub fn get_frame(&self) -> (r: &Frame)
        ensures
            r@ == self@,
    {
        &self.frame
    }

    /// Takes the carried frame out.
    pub fn into_frame(self) -> (r: Frame)
        ensures
            r@ == self@,
    {
        self.frame
    }
}

/// New stream tags were observed on the input.
pub struct TagsChange {
    tags: String,
}

impl View for TagsChange {
    type V = Seq<char>;

    closed spec fn view(&self) -> Seq<char> {
        self.tags@
    }
}

impl TagsChange {
    /// Wraps a tag string.
    pub fn new(tags: String) -> (r: Self)
        ensures
            r@ == tags@,
    {
        TagsChange { tags }
    }

    /// The tag string.
    pub fn get_tags(&self) -> (r: &str)
        ensures
            r@ == self@,
    {
        self.tags.as_str()
    }
}

/// The input stopped producing frames.
pub struct EndOfInputStream {}

impl EndOfInputStream {
    /// Marks the end of the input stream.
    pub fn new() -> Self {
        EndOfInputStream {  }
    }
}

/// The output finished processing the end-of-stream it was sent.
pub struct EndOfOutputStream {}

impl EndOfOutputStream {
    /// Marks the end of the output stream.
    pub fn new() -> Self {
        EndOfOutputStream {  }
    }
}

/// The input capabilities became known.
pub struct NewInputCaps {
    caps: String,
}

impl View for NewInputCaps {
    type V = Seq<char>;

    closed spec fn view(&self) -> Seq<char> {
        self.caps@
    }
}

impl NewInputCaps {
    /// Wraps a capabilities string.
    pub fn new(caps: String) -> (r: Self)
        ensures
            r@ == caps@,
    {
        NewInputCaps { caps }
    }

    /// The capabilities string.
    pub fn get_caps(&self) -> (r: &str)
        ensures
            r@ == self@,
    {
        self.caps.as_str()
    }
}

/// The input pipeline failed mid-stream.
pub struct InputStreamError {
    msg: String,
}

impl View for InputStreamError {
    type V = Seq<char>;

    closed spec fn view(&self) -> Seq<char> {
        self.msg@
    }
}

impl InputStreamError {
    /// Wraps an error message.
    pub fn new(err: &str) -> (r: Self)
        ensures
            r@ == err@,
    {
        InputStreamError { msg: err.to_owned() }
    }

    /// The error message.
    pub fn get_msg(&self) -> (r: &str)
        ensures
            r@ == self@,
    {
        self.msg.as_str()
    }
}

/// The output pipeline failed mid-stream.
pub struct OutputStreamError {
    msg: String,
}

impl View for OutputStreamError {
    type V = Seq<char>;

    closed spec fn view(&self) -> Seq<char> {
        self.msg@
    }
}

impl OutputStreamError {
    /// Wraps an error message.
    pub fn new(err: &str) -> (r: Self)
        ensures
            r@ == err@,
    {
        OutputStreamError { msg: err.to_owned() }
    }

    /// The error message.
    pub fn get_msg(&self) -> (r: &str)
        ensures
            r@ == self@,
    {
        self.msg.as_str()
    }
}

/// Everything that can travel on a stream's event bus. Frame events carry
/// their frame by ownership, so the enum has no `Clone`.
pub enum Event {
    FrameChangeEvent(FrameChange),
    TagsChangeEvent(TagsChange),
    EndOfInputStreamEvent(EndOfInputStream),
    EndOfOutputStreamEvent(EndOfOutputStream),
    NewInputCapsEvent(NewInputCaps),
    InputStreamErrorEvent(InputStreamError),
    OutputStreamErrorEvent(OutputStreamError),
}

impl Event {
    /// A frame-change event owning the given frame.
    pub fn new_frame_change(frame: Frame) -> (r: Self)
        ensures
            r matches Event::FrameChangeEvent(fc) && fc@ == frame@,
    {
        Event::FrameChangeEvent(FrameChange::new(frame))
    }

    /// A tags-change event.
    pub fn new_tags_change(tags: String) -> (r: Self)
        ensures
            r matches Event::TagsChangeEvent(tc) && tc@ == tags@,
    {
        Event::TagsChangeEvent(TagsChange::new(tags))
    }

    /// An end-of-input-stream event.
    pub fn new_end_of_input_stream() -> (r: Self)
        ensures
            r is EndOfInputStreamEvent,
    {
        Event::EndOfInputStreamEvent(EndOfInputStream::new())
    }

    /// An end-of-output-stream event.
    pub fn new_end_of_output_stream() -> (r: Self)
        ensures
            r is EndOfOutputStreamEvent,
    {
        Event::EndOfOutputStreamEvent(EndOfOutputStream::new())
    }

    /// A new-input-capabilities event.
    pub fn new_input_caps(caps: String) -> (r: Self)
        ensures
            r matches Event::NewInputCapsEvent(c) && c@ == caps@,
    {
        Event::NewInputCapsEvent(NewInputCaps::new(caps))
    }

    /// An input-error event.
    pub fn new_input_stream_error(err: &str) -> (r: Self)
        ensures
            r matches Event::InputStreamErrorEvent(e) && e@ == err@,
    {
        Event::InputStreamErrorEvent(InputStreamError::new(err))
    }

    /// An output-error event.
    pub fn new_output_stream_error(err: &str) -> (r: Self)
        ensures
            r matches Event::OutputStreamErrorEvent(e) && e@ == err@,
    {
        Event::OutputStreamErrorEvent(OutputStreamError::new(err))
    }
}

/// A bounded first-in-first-out event channel for one stream. Producers on
/// the media side offer events; the manager's consumer loop drains them.
/// Frame events are dropped when the buffer is full; control events demand
/// room, which the asynchronous shell provides by parking the producer.
pub struct Bus {
    queue: VecDeque<Event>,
    capacity: usize,
}

impl Bus {
    /// The events waiting in the bus, oldest first.
    pub closed spec fn queue(&self) -> Seq<Event> {
        self.queue@
    }

    /// The buffer size the bus was created with.
    pub closed spec fn capacity(&self) -> usize {
        self.capacity
    }

    /// An empty bus with the given buffer size.
    pub fn new(buffer_size: usize) -> (r: Bus)
        ensures
            r.queue() =~= Seq::<Event>::empty(),
            r.capacity() == buffer_size,
    {
        Bus { queue: VecDeque::new(), capacity: buffer_size }
    }

    /// How many events are waiting.
    pub fn len(&self) -> (r: usize)
        ensures
            r == self.queue().len(),
    {
        self.queue.len()
    }

    /// Lossy enqueue, the discipline of frame events: on a full buffer the
    /// event is dropped and the caller is told so.
    pub fn try_send(&mut self, event: Event) -> (dropped: bool)
        ensures
            old(self).queue().len() < old(self).capacity() ==> !dropped && final(self).queue()
                == old(self).queue().push(event) && final(self).capacity() == old(self).capacity(),
            old(self).queue().len() >= old(self).capacity() ==> dropped && final(self).queue()
                == old(self).queue() && final(self).capacity() == old(self).capacity(),
    {
        if self.queue.len() < self.capacity {
            self.queue.push_back(event);
            false
        } else {
            true
        }
    }

    /// Guaranteed enqueue, the discipline of control events: the caller must
    /// have room, which the asynchronous shell ensures by parking the
    /// producer until the consumer has drained.
    pub fn send(&mut self, event: Event)
        requires
            old(self).queue().len() < old(self).capacity(),
        ensures
            final(self).queue() == old(self).queue().push(event),
            final(self).capacity() == old(self).capacity(),
    {
        self.queue.push_back(event);
    }

    /// Takes the oldest waiting event, if any.
    pub fn recv(&mut self) -> (r: Option<Event>)
        ensures
            old(self).queue().len() == 0 ==> r is None && final(self).queue() == old(self).queue(),
            old(self).queue().len() > 0 ==> r == Some(old(self).queue()[0]) && final(self).queue() == old(self).queue().skip(1),
            final(self).capacity() == old(self).capacity(),
    {
        let r = self.queue.pop_front();
        proof {
            if old(self).queue().len() > 0 {
                assert(final(self).queue() =~= old(self).queue().skip(1));
            }
        }
        r
    }
}

/// Publishes a frame event with the lossy discipline: under backpressure the
/// frame is discarded rather than the producer stalled.
pub fn publish_new_frame_change_event_sync(bus: &mut Bus, frame: Frame) -> (dropped: bool)
    ensures
        old(bus).queue().len() < old(bus).capacity() ==> !dropped && final(bus).queue().len()
            == old(bus).queue().len() + 1 && (final(bus).queue().last()
            matches Event::FrameChangeEvent(fc) && fc@ == frame@) && final(bus).queue().take(
            old(bus).queue().len() as int,
        ) == old(bus).queue(),
        old(bus).queue().len() >= old(bus).capacity() ==> dropped && final(bus).queue() == old(bus).queue(),
{
    let r = bus.try_send(Event::new_frame_change(frame));
    proof {
        if old(bus).queue().len() < old(bus).capacity() {
            assert(final(bus).queue().take(old(bus).queue().len() as int) =~= old(bus).queue());
        }
    }
    r
}

/// Publishes the end of the input stream; delivered, never dropped.
pub fn publish_input_eos_event_sync(bus: &mut Bus)
    requires
        old(bus).queue().len() < old(bus).capacity(),
    ensures
        final(bus).queue().len() == old(bus).queue().len() + 1,
        final(bus).queue().last() is EndOfInputStreamEvent,
        final(bus).queue().take(old(bus).queue().len() as int) == old(bus).queue(),
{
    bus.send(Event::new_end_of_input_stream());
    proof {
        assert(final(bus).queue().take(old(bus).queue().len() as int) =~= old(bus).queue());
    }
}

/// Publishes the end of the output stream; delivered, never dropped.
pub fn publish_output_eos_event_sync(bus: &mut Bus)
    requires
        old(bus).queue().len() < old(bus).capacity(),
    ensures
        final(bus).queue().len() == old(bus).queue().len() + 1,
        final(bus).queue().last() is EndOfOutputStreamEvent,
        final(bus).queue().take(old(bus).queue().len() as int) == old(bus).queue(),
{
    bus.send(Event::new_end_of_output_stream());
    proof {
        assert(final(bus).queue().take(old(bus).queue().len() as int) =~= old(bus).queue());
    }
}

/// Publishes a tags change; delivered, never dropped.
pub fn publish_input_tags_changed_event_sync(bus: &mut Bus, tags: String)
    requires
        old(bus).queue().len() < old(bus).capacity(),
    ensures
        final(bus).queue().len() == old(bus).queue().len() + 1,
        (final(bus).queue().last() matches Event::TagsChangeEvent(tc) && tc@ == tags@),
        final(bus).queue().take(old(bus).queue().len() as int) == old(bus).queue(),
{
    bus.send(Event::new_tags_change(tags));
    proof {
        assert(final(bus).queue().take(old(bus).queue().len() as int) =~= old(bus).queue());
    }
}

/// Publishes newly observed input capabilities; delivered, never dropped.
pub fn publish_new_input_caps_event_sync(bus: &mut Bus, caps: String)
    requires
        old(bus).queue().len() < old(bus).capacity(),
    ensures
        final(bus).queue().len() == old(bus).queue().len() + 1,
        (final(bus).queue().last() matches Event::NewInputCapsEvent(c) && c@ == caps@),
        final(bus).queue().take(old(bus).queue().len() as int) == old(bus).queue(),
{
    bus.send(Event::new_input_caps(caps));
    proof {
        assert(final(bus).queue().take(old(bus).queue().len() as int) =~= old(bus).queue());
    }
}

/// Publishes an input-side error; delivered, never dropped.
pub fn publish_input_stream_error_event_sync(bus: &mut Bus, err: &str)
    requires
        old(bus).queue().len() < old(bus).capacity(),
    ensures
        final(bus).queue().len() == old(bus).queue().len() + 1,
        (final(bus).queue().last() matches Event::InputStreamErrorEvent(e) && e@ == err@),
        final(bus).queue().take(old(bus).queue().len() as int) == old(bus).queue(),
{
    bus.send(Event::new_input_stream_error(err));
    proof {
        assert(final(bus).queue().take(old(bus).queue().len() as int) =~= old(bus).queue());
    }
}

/// Publishes an output-side error; delivered, never dropped.
pub fn publish_output_stream_error_event_sync(bus: &mut Bus, err: &str)
    requires
        old(bus).queue().len() < old(bus).capacity(),
    ensures
        final(bus).queue().len() == old(bus).queue().len() + 1,
        (final(bus).queue().last() matches Event::OutputStreamErrorEvent(e) && e@ == err@),
        final(bus).queue().take(old(bus).queue().len() as int) == old(bus).queue(),
{
    bus.send(Event::new_output_stream_error(err));
    proof {
        assert(final(bus).queue().take(old(bus).queue().len() as int) =~= old(bus).queue());
    }
}

} // verus!

//! The per-stream pipeline and its manager: the event loop that couples the
//! input decoder, the frame-path executor and the output encoder. The
//! asynchronous shell drives the bus and performs the actions the manager
//! decides; every decision is here.

use vstd::prelude::*;
use crate::events::Event;
use crate::frame::Frame;
use crate::hook::HookTrait;
use crate::path::FramePath;
use crate::path::FramePathExecutor;
use crate::input;
use crate::output;
use crate::video::spec_parse_video;
use crate::video::file_uri_without_absolute_path;

verus! {

/// Relies on `num_cpus::get`: the number of logical processors available
/// to this process; its documentation promises at least one.
#[verifier::external_body]
fn cpu_count() -> (r: usize)
    ensures
        r >= 1,
{
    num_cpus::get()
}

/// How many frames of one stream may be in flight at once: twice the
/// processor count, a balance between throughput and memory.
pub fn default_frame_concurrency() -> (r: usize)
    ensures
        r >= 2,
{
    let cores = cpu_count();
    if cores > usize::MAX / 2 {
        usize::MAX
    } else {
        cores * 2
    }
}

/// A failure to build or run a stream's pipeline.
#[derive(Debug)]
pub struct PipelineError {
    msg: String,
}

impl View for PipelineError {
    type V = Seq<char>;

    closed spec fn view(&self) -> Seq<char> {
        self.msg@
    }
}

impl PipelineError {
    /// Wraps a message.
    pub fn new(msg: &str) -> (r: Self)
        ensures
            r@ == msg@,
    {
        PipelineError { msg: msg.to_owned() }
    }

    /// The human-readable description of the failure.
    pub fn message(&self) -> (r: &str)
        ensures
            r@ == self@,
    {
        self.msg.as_str()
    }
}

/// Why a pipeline finished: its stream completed, it failed, or its entry
/// was updated and the dispatcher tore it down to rebuild it.
#[derive(Debug, Clone, Copy, PartialEq, Eq, Structural)]
pub enum PipelineEndReason {
    Completed,
    Error,
    Updated,
}

/// One stream's pipeline: the input definition, the optional output
/// definition, whether the output side has been built, and the frame path.
pub struct Pipeline {
    id: u128,
    input_stream_def: input::StreamDef,
    output_stream_def: Option<output::StreamDef>,
    output_built: bool,
    frames_path: FramePath,
}

impl Pipeline {
    /// The pipeline's identifier.
    pub closed spec fn spec_id(&self) -> u128 {
        self.id
    }

    /// An output is configured for the stream.
    pub closed spec fn spec_output_configured(&self) -> bool {
        self.output_stream_def is Some
    }

    /// The output side has been built.
    pub closed spec fn spec_output_built(&self) -> bool {
        self.output_built
    }

    /// The frame path.
    pub closed spec fn spec_frames_path(&self) -> Seq<Seq<char>> {
        self.frames_path@
    }

    /// Builds the core of a pipeline: both URIs are parsed, a fresh
    /// identifier is drawn, and the output side starts unbuilt — it cannot
    /// be built until the input capabilities are known.
    pub fn new(input_uri: String, output_uri: Option<String>, frames_path: FramePath) -> (r:
        Result<Pipeline, PipelineError>)
        requires
            !file_uri_without_absolute_path(input_uri@),
            match output_uri {
                Some(u) => !file_uri_without_absolute_path(u@),
                None => true,
            },
        ensures
            match r {
                Ok(p) => spec_parse_video(input_uri@) is Some && (match output_uri {
                    Some(u) => spec_parse_video(u@) is Some && p.spec_output_configured(),
                    None => !p.spec_output_configured(),
                }) && !p.spec_output_built() && p.spec_frames_path() == frames_path@,
                Err(_) => spec_parse_video(input_uri@) is None || (match output_uri {
                    Some(u) => spec_parse_video(u@) is None,
                    None => false,
                }),
            },
    {
        let input_stream_def = match input::StreamDef::new(input_uri) {
            Ok(d) => d,
            Err(e) => {
                return Err(PipelineError::new(e.message()));
            },
        };
        let output_stream_def = match output_uri {
            Some(u) => match output::StreamDef::new(u) {
                Ok(d) => Some(d),
                Err(e) => {
                    return Err(PipelineError::new(e.message()));
                },
            },
            None => None,
        };
        Ok(
            Pipeline {
                id: crate::ids::fresh_uuid(),
                input_stream_def,
                output_stream_def,
                output_built: false,
                frames_path,
            },
        )
    }

    /// Marks the output side as built; the shell calls this once the
    /// encoder started successfully.
    pub fn confirm_output_built(&mut self)
        requires
            old(self).spec_output_configured(),
        ensures
            final(self).spec_id() == old(self).spec_id(),
            final(self).spec_output_configured(),
            final(self).spec_output_built(),
            final(self).spec_frames_path() == old(self).spec_frames_path(),
    {
        self.output_built = true;
    }

    /// The frame path of the stream.
    pub fn get_frames_path(&self) -> (r: &FramePath)
        ensures
            r@ == self.spec_frames_path(),
    {
        &self.frames_path
    }

    /// The pipeline's identifier.
    pub fn get_pipeline_id(&self) -> (r: u128)
        ensures
            r == self.spec_id(),
    {
        self.id
    }
}

/// What the asynchronous shell has to do after the manager handled one
/// event.
pub enum ManagerAction {
    /// Hand the processed frame to the output encoder.
    ForwardFrame(Frame),
    /// Drop the frame: the path dropped it, or no output exists.
    DiscardFrame,
    /// Build and start the output encoder with these input capabilities,
    /// then confirm with `Manager::confirm_output_built`.
    StartOutput(String),
    /// Deliver these tags to the running output encoder.
    DeliverTags(String),
    /// Send end-of-stream to the output encoder; it will answer with an
    /// end-of-output-stream event later.
    SendOutputEos,
    /// Report the pipeline finished to the dispatcher and end the stream's
    /// consumer loop.
    Finish(PipelineEndReason),
    /// Nothing to do.
    NoAction,
}

/// The per-stream manager: holds the pipeline and decides, event by event,
/// what the shell must do.
pub struct Manager {
    pipeline: Pipeline,
    pending_tags: Option<String>,
}

impl Manager {
    /// The managed pipeline.
    pub closed spec fn spec_pipeline(&self) -> &Pipeline {
        &self.pipeline
    }

    /// Tags that arrived before the output was built.
    pub closed spec fn spec_pending_tags(&self) -> Option<Seq<char>> {
        match self.pending_tags {
            Some(t) => Some(t@),
            None => None,
        }
    }

    /// Builds a manager around a fresh pipeline.
    pub fn new(
        input_video_uri: String,
        output_video_uri: Option<String>,
        frames_path: FramePath,
    ) -> (r: Result<Manager, PipelineError>)
        requires
            !file_uri_without_absolute_path(input_video_uri@),
            match output_video_uri {
                Some(u) => !file_uri_without_absolute_path(u@),
                None => true,
            },
        ensures
            match r {
                Ok(m) => spec_parse_video(input_video_uri@) is Some && (match output_video_uri {
                    Some(u) => spec_parse_video(u@) is Some && m.spec_pipeline()
                        .spec_output_configured(),
                    None => !m.spec_pipeline().spec_output_configured(),
                }) && !m.spec_pipeline().spec_output_built() && m.spec_pipeline()
                    .spec_frames_path() == frames_path@ && m.spec_pending_tags() is None,
                Err(_) => spec_parse_video(input_video_uri@) is None || (match output_video_uri {
                    Some(u) => spec_parse_video(u@) is None,
                    None => false,
                }),
            },
    {
        match Pipeline::new(input_video_uri, output_video_uri, frames_path) {
            Ok(pipeline) => Ok(Manager { pipeline, pending_tags: None }),
            Err(e) => Err(e),
        }
    }

    /// The identifier of the managed pipeline.
    pub fn get_pipeline_id(&self) -> (r: u128)
        ensures
            r == self.spec_pipeline().spec_id(),
    {
        self.pipeline.get_pipeline_id()
    }

    /// The frame path of the managed stream; the shell reads it to test
    /// frame readiness before handing a frame event over.
    pub fn get_frames_path(&self) -> (r: &FramePath)
        ensures
            r@ == self.spec_pipeline().spec_frames_path(),
    {
        self.pipeline.get_frames_path()
    }

    /// Cooperative teardown: the shell halts the input and output machinery;
    /// no end-of-stream events are produced. Returns the pipeline id so the
    /// dispatcher can account for it.
    pub fn stop(&self) -> (r: u128)
        ensures
            r == self.spec_pipeline().spec_id(),
    {
        self.pipeline.get_pipeline_id()
    }

    /// Marks the output side as built.
    pub fn confirm_output_built(&mut self)
        requires
            old(self).spec_pipeline().spec_output_configured(),
        ensures
            final(self).spec_pipeline().spec_id() == old(self).spec_pipeline().spec_id(),
            final(self).spec_pipeline().spec_output_built(),
            final(self).spec_pipeline().spec_frames_path() == old(self).spec_pipeline()
                .spec_frames_path(),
            final(self).spec_pending_tags() == old(self).spec_pending_tags(),
    {
        self.pipeline.confirm_output_built();
    }

    /// Takes the tags stashed before the output was built, if any; the
    /// shell hands them to the freshly built encoder.
    pub fn take_pending_tags(&mut self) -> (r: Option<String>)
        ensures
            final(self).spec_pipeline() == old(self).spec_pipeline(),
            final(self).spec_pending_tags() is None,
            match r {
                Some(t) => old(self).spec_pending_tags() == Some(t@),
                None => old(self).spec_pending_tags() is None,
            },
    {
        self.pending_tags.take()
    }

    /// Handles one bus event: runs frames through the path and decides the
    /// shell's next action exactly as the event table prescribes.
    pub fn handle_event<H: HookTrait<C>, C>(
        &mut self,
        event: Event,
        executor: &mut FramePathExecutor<H, C>,
    ) -> (r: ManagerAction)
        requires
            old(executor).wf(),
            event matches Event::FrameChangeEvent(fc) ==> old(executor).path_ready(
                old(self).spec_pipeline().spec_frames_path(),
                fc@.pipeline_id,
                fc@.frame_number,
            ),
        ensures
            final(executor).wf(),
            final(self).spec_pipeline().spec_id() == old(self).spec_pipeline().spec_id(),
            final(self).spec_pipeline().spec_output_configured() == old(self).spec_pipeline()
                .spec_output_configured(),
            final(self).spec_pipeline().spec_output_built() == old(self).spec_pipeline()
                .spec_output_built(),
            final(self).spec_pipeline().spec_frames_path() == old(self).spec_pipeline()
                .spec_frames_path(),
            match event {
                Event::FrameChangeEvent(fc) => (r matches ManagerAction::ForwardFrame(out)
                    ==> old(self).spec_pipeline().spec_output_built() && out@.original
                    == fc@.original && out@.pipeline_id == fc@.pipeline_id) && (r
                    is ForwardFrame || r is DiscardFrame) && ((old(self).spec_pipeline()
                    .spec_output_built() && crate::path::path_passes_through(
                    old(executor).spec_stages(),
                    old(self).spec_pipeline().spec_frames_path(),
                )) ==> (r matches ManagerAction::ForwardFrame(out) && out@ == fc@))
                    && final(self).spec_pending_tags() == old(self).spec_pending_tags(),
                Event::NewInputCapsEvent(c) => (if !old(self).spec_pipeline().spec_output_built()
                    && old(self).spec_pipeline().spec_output_configured() {
                    r matches ManagerAction::StartOutput(caps) && caps@ == c@
                } else {
                    r is NoAction
                }) && final(self).spec_pending_tags() == old(self).spec_pending_tags(),
                Event::TagsChangeEvent(tc) => if old(self).spec_pipeline().spec_output_built() {
                    (r matches ManagerAction::DeliverTags(t) && t@ == tc@) && final(self).spec_pending_tags() == old(self).spec_pending_tags()
                } else {
                    r is NoAction && final(self).spec_pending_tags() == Some(tc@)
                },
                Event::EndOfInputStreamEvent(_) => (if old(self).spec_pipeline()
                    .spec_output_built() {
                    r is SendOutputEos
                } else {
                    r matches ManagerAction::Finish(reason)
                        && reason == PipelineEndReason::Completed
                }) && final(self).spec_pending_tags() == old(self).spec_pending_tags(),
                Event::EndOfOutputStreamEvent(_) => (r matches ManagerAction::Finish(reason)
                    && reason == PipelineEndReason::Completed) && final(self).spec_pending_tags()
                    == old(self).spec_pending_tags(),
                Event::InputStreamErrorEvent(_) => (r matches ManagerAction::Finish(reason)
                    && reason == PipelineEndReason::Error) && final(self).spec_pending_tags()
                    == old(self).spec_pending_tags(),
                Event::OutputStreamErrorEvent(_) => (r matches ManagerAction::Finish(reason)
                    && reason == PipelineEndReason::Error) && final(self).spec_pending_tags()
                    == old(self).spec_pending_tags(),
            },
    {
        match event {
            Event::FrameChangeEvent(fc) => {
                let frame = fc.into_frame();
                let frame_path = self.pipeline.get_frames_path().clone();
                let out_frame_opt = executor.execute_path(frame, frame_path);
                match out_frame_opt {
                    Some(out_frame) => {
                        if self.pipeline.output_built {
                            ManagerAction::ForwardFrame(out_frame)
                        } else {
                            ManagerAction::DiscardFrame
                        }
                    },
                    None => ManagerAction::DiscardFrame,
                }
            },
            Event::NewInputCapsEvent(c) => {
                if !self.pipeline.output_built && match &self.pipeline.output_stream_def {
                    Some(_) => true,
                    None => false,
                } {
                    ManagerAction::StartOutput(c.get_caps().to_owned())
                } else {
                    ManagerAction::NoAction
                }
            },
            Event::TagsChangeEvent(tc) => {
                if self.pipeline.output_built {
                    ManagerAction::DeliverTags(tc.get_tags().to_owned())
                } else {
                    self.pending_tags = Some(tc.get_tags().to_owned());
                    ManagerAction::NoAction
                }
            },
            Event::EndOfInputStreamEvent(_) => {
                if self.pipeline.output_built {
                    ManagerAction::SendOutputEos
                } else {
                    ManagerAction::Finish(PipelineEndReason::Completed)
                }
            },
            Event::EndOfOutputStreamEvent(_) => ManagerAction::Finish(
                PipelineEndReason::Completed,
            ),
            Event::InputStreamErrorEvent(_) => ManagerAction::Finish(PipelineEndReason::Error),
            Event::OutputStreamErrorEvent(_) => ManagerAction::Finish(PipelineEndReason::Error),
        }
    }
}

} // verus!

//! The output side of a stream: its definition, the tags it may start with,
//! and the error type of the encoding pipeline built from it. The encoding
//! machinery itself is a collaborator fed by the manager.

use vstd::prelude::*;
use crate::video::Video;
use crate::video::VideoModel;
use crate::video::spec_parse_video;
use crate::video::file_uri_without_absolute_path;

verus! {

/// A failure of the output pipeline.
#[derive(Debug)]
pub struct OutputPipelineError {
    msg: String,
}

impl View for OutputPipelineError {
    type V = Seq<char>;

    closed spec fn view(&self) -> Seq<char> {
        self.msg@
    }
}

impl OutputPipelineError {
    /// Wraps a message.
    pub fn new(msg: &str) -> (r: Self)
        ensures
            r@ == msg@,
    {
        OutputPipelineError { msg: msg.to_owned() }
    }

    /// The human-readable description of the failure.
    pub fn message(&self) -> (r: &str)
        ensures
            r@ == self@,
    {
        self.msg.as_str()
    }
}

/// The definition of one output stream: its parsed video sink, and the tags
/// it has to start with, when tags arrived before the sink was built.
pub struct StreamDef {
    video: Video,
    initial_tags: Option<String>,
}

impl StreamDef {
    /// The parsed video definition.
    pub closed spec fn spec_video(&self) -> VideoModel {
        self.video@
    }

    /// The tags the sink has to start with, if any arrived early.
    pub closed spec fn spec_initial_tags(&self) -> Option<Seq<char>> {
        match self.initial_tags {
            Some(t) => Some(t@),
            None => None,
        }
    }

    /// Parses an output URI into a stream definition with no initial tags.
    pub fn new(uri: String) -> (r: Result<StreamDef, OutputPipelineError>)
        requires
            !file_uri_without_absolute_path(uri@),
        ensures
            match spec_parse_video(uri@) {
                Some(parts) => r matches Ok(d) && d.spec_video() == (VideoModel {
                    protocol: parts.0,
                    location: parts.1,
                    uri: uri@,
                }) && d.spec_initial_tags() is None,
                None => r is Err,
            },
    {
        match Video::new(uri) {
            Ok(video) => Ok(StreamDef { video, initial_tags: None }),
            Err(e) => Err(OutputPipelineError::new(e.message())),
        }
    }

    /// Stashes tags that arrived before the sink was built.
    pub fn set_initial_tags(&mut self, tags: String)
        ensures
            final(self).spec_video() == old(self).spec_video(),
            final(self).spec_initial_tags() == Some(tags@),
    {
        self.initial_tags = Some(tags);
    }

    /// The parsed video definition.
    pub fn get_video(&self) -> (r: &Video)
        ensures
            r@ == self.spec_video(),
    {
        &self.video
    }

    /// The tags the sink has to start with, if any.
    pub fn get_initial_tags(&self) -> (r: &Option<String>)
        ensures
            match r {
                Some(t) => self.spec_initial_tags() == Some(t@),
                None => self.spec_initial_tags() is None,
            },
    {
        &self.initial_tags
    }
}

} // verus!

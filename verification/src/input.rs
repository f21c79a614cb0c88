//! The input side of a stream: its definition, and the error type of the
//! decoding pipeline built from it. The decoding machinery itself is a
//! collaborator that feeds the event bus.

use vstd::prelude::*;
use crate::video::Video;
use crate::video::VideoModel;
use crate::video::spec_parse_video;
use crate::video::file_uri_without_absolute_path;

verus! {

/// A failure of the input pipeline.
#[derive(Debug)]
pub struct InputPipelineError {
    msg: String,
}

impl View for InputPipelineError {
    type V = Seq<char>;

    closed spec fn view(&self) -> Seq<char> {
        self.msg@
    }
}

impl InputPipelineError {
    /// Wraps a message.
    pub fn new(msg: &str) -> (r: Self)
        ensures
            r@ == msg@,
    {
        InputPipelineError { msg: msg.to_owned() }
    }

    /// The human-readable description of the failure.
    pub fn message(&self) -> (r: &str)
        ensures
            r@ == self@,
    {
        self.msg.as_str()
    }
}

/// The definition of one input stream: its parsed video source.
pub struct StreamDef {
    video: Video,
}

impl StreamDef {
    /// The parsed video definition.
    pub closed spec fn spec_video(&self) -> VideoModel {
        self.video@
    }

    /// Parses an input URI into a stream definition.
    pub fn new(uri: String) -> (r: Result<StreamDef, InputPipelineError>)
        requires
            !file_uri_without_absolute_path(uri@),
        ensures
            match spec_parse_video(uri@) {
                Some(parts) => r matches Ok(d) && d.spec_video() == (VideoModel {
                    protocol: parts.0,
                    location: parts.1,
                    uri: uri@,
                }),
                None => r is Err,
            },
    {
        match Video::new(uri) {
            Ok(video) => Ok(StreamDef { video }),
            Err(e) => Err(InputPipelineError::new(e.message())),
        }
    }

    /// The parsed video definition.
    pub fn get_video(&self) -> (r: &Video)
        ensures
            r@ == self.spec_video(),
    {
        &self.video
    }
}

} // verus!

//! The frame data model: the carrier of one unit of work between stages. A
//! frame owns an immutable original pixel buffer, a mutable working copy,
//! timing metadata, the inference tensors, and open-ended user data.

use vstd::prelude::*;

verus! {

/// Open-ended data user hooks may attach to a frame to pass information to
/// subsequent stages.
pub enum UserData {
    Empty,
    Integer(i32),
    /// A floating-point number, carried as its IEEE-754 bit pattern; the
    /// embedding layers convert at the boundary.
    Float(u64),
    Text(String),
    Array(Vec<UserData>),
    Dictionary(Vec<(String, UserData)>),
}

/// A dynamically shaped 32-bit float tensor; each element is carried as its
/// IEEE-754 bit pattern, converted at the boundary by the embedding layers.
pub struct Tensor {
    shape: Vec<usize>,
    data: Vec<u32>,
}

/// The mathematical content of a tensor.
pub ghost struct TensorModel {
    pub shape: Seq<usize>,
    pub data: Seq<u32>,
}

impl View for Tensor {
    type V = TensorModel;

    closed spec fn view(&self) -> TensorModel {
        TensorModel { shape: self.shape@, data: self.data@ }
    }
}

impl Tensor {
    /// The empty tensor: one zero-length axis and no elements.
    pub fn empty() -> (r: Tensor)
        ensures
            r@.shape =~= seq![0usize],
            r@.data =~= Seq::<u32>::empty(),
    {
        let mut shape: Vec<usize> = Vec::new();
        shape.push(0);
        Tensor { shape, data: Vec::new() }
    }

    /// Wraps a shape and its elements.
    pub fn from_parts(shape: Vec<usize>, data: Vec<u32>) -> (r: Tensor)
        ensures
            r@.shape == shape@,
            r@.data == data@,
    {
        Tensor { shape, data }
    }

    /// The tensor holds no elements.
    pub fn is_empty(&self) -> (r: bool)
        ensures
            r == (self@.data.len() == 0),
    {
        self.data.len() == 0
    }

    /// The shape of the tensor.
    pub fn get_shape(&self) -> (r: &Vec<usize>)
        ensures
            r@ == self@.shape,
    {
        &self.shape
    }

    /// The elements of the tensor, in row-major order.
    pub fn get_data(&self) -> (r: &Vec<u32>)
        ensures
            r@ == self@.data,
    {
        &self.data
    }
}

/// The result of an inference run: a single tensor, or a mapping from output
/// names to tensors.
pub enum InferenceOutput {
    Default(Tensor),
    Named(Vec<(String, Tensor)>),
}

/// A decoded RGB video frame with its processing metadata.
pub struct RgbFrame {
    uuid: u128,
    original: Vec<u8>,
    modified: Vec<u8>,
    width: usize,
    height: usize,
    pts: u64,
    dts: u64,
    duration: u64,
    fps: u8,
    input_ts_micros: u64,
    inference_input: Tensor,
    inference_output: InferenceOutput,
    pipeline_id: u128,
    frame_number: u64,
    user_data: UserData,
}

/// The mathematical content of a frame.
pub ghost struct FrameModel {
    pub uuid: u128,
    pub original: Seq<u8>,
    pub modified: Seq<u8>,
    pub width: usize,
    pub height: usize,
    pub pts: u64,
    pub dts: u64,
    pub duration: u64,
    pub fps: u8,
    pub input_ts_micros: u64,
    pub inference_input: TensorModel,
    pub inference_output: InferenceOutput,
    pub pipeline_id: u128,
    pub frame_number: u64,
    pub user_data: UserData,
}

impl View for RgbFrame {
    type V = FrameModel;

    closed spec fn view(&self) -> FrameModel {
        FrameModel {
            uuid: self.uuid,
            original: self.original@,
            modified: self.modified@,
            width: self.width,
            height: self.height,
            pts: self.pts,
            dts: self.dts,
            duration: self.duration,
            fps: self.fps,
            input_ts_micros: self.input_ts_micros,
            inference_input: self.inference_input@,
            inference_output: self.inference_output,
            pipeline_id: self.pipeline_id,
            frame_number: self.frame_number,
            user_data: self.user_data,
        }
    }
}

/// The pixel buffers of a frame hold exactly height x width x 3 bytes.
pub open spec fn frame_buffers_wf(f: FrameModel) -> bool {
    f.original.len() == f.height * f.width * 3 && f.modified.len() == f.height * f.width * 3
}

impl RgbFrame {
    /// Builds a frame around a freshly decoded pixel buffer: the working
    /// copy starts as a copy of the original, the inference tensors start
    /// empty, and the user data starts empty.
    pub fn new(
        original: Vec<u8>,
        width: usize,
        height: usize,
        pts: u64,
        dts: u64,
        duration: u64,
        fps: u8,
        input_ts_micros: u64,
        pipeline_id: u128,
        frame_number: u64,
    ) -> (r: RgbFrame)
        requires
            original@.len() == height * width * 3,
        ensures
            frame_buffers_wf(r@),
            r@.original == original@,
            r@.modified == original@,
            r@.width == width,
            r@.height == height,
            r@.pts == pts,
            r@.dts == dts,
            r@.duration == duration,
            r@.fps == fps,
            r@.input_ts_micros == input_ts_micros,
            r@.inference_input.data.len() == 0,
            r@.pipeline_id == pipeline_id,
            r@.frame_number == frame_number,
            r@.user_data is Empty,
    {
        let modified = clone_frame_bytes(&original);
        RgbFrame {
            uuid: crate::ids::fresh_uuid(),
            original,
            modified,
            width,
            height,
            pts,
            dts,
            duration,
            fps,
            input_ts_micros,
            inference_input: Tensor::empty(),
            inference_output: InferenceOutput::Default(Tensor::empty()),
            pipeline_id,
            frame_number,
            user_data: UserData::Empty,
        }
    }

    /// Replaces the original pixel buffer: the frame-path executor uses this
    /// to restore the buffer captured before a hook ran.
    pub fn set_original_pixels(&mut self, original_pixels: Vec<u8>)
        ensures
            final(self)@ == (FrameModel { original: original_pixels@, ..old(self)@ }),
    {
        self.original = original_pixels;
    }

    /// The immutable original pixel buffer.
    pub fn get_original_pixels(&self) -> (r: &Vec<u8>)
        ensures
            r@ == self@.original,
    {
        &self.original
    }

    /// The mutable working pixel buffer.
    pub fn get_modified_pixels(&self) -> (r: &Vec<u8>)
        ensures
            r@ == self@.modified,
    {
        &self.modified
    }

    /// Replaces the working pixel buffer.
    pub fn update_mutable_pixels(&mut self, pixels: Vec<u8>)
        ensures
            final(self)@ == (FrameModel { modified: pixels@, ..old(self)@ }),
    {
        self.modified = pixels;
    }

    /// Stable identifier of the frame.
    pub fn get_uuid(&self) -> (r: u128)
        ensures
            r == self@.uuid,
    {
        self.uuid
    }

    /// Frame rate of the stream the frame belongs to.
    pub fn get_fps(&self) -> (r: u8)
        ensures
            r == self@.fps,
    {
        self.fps
    }

    /// Presentation timestamp, in milliseconds.
    pub fn get_pts(&self) -> (r: u64)
        ensures
            r == self@.pts,
    {
        self.pts
    }

    /// Decode timestamp, in milliseconds.
    pub fn get_dts(&self) -> (r: u64)
        ensures
            r == self@.dts,
    {
        self.dts
    }

    /// Width of the frame in pixels.
    pub fn get_width(&self) -> (r: usize)
        ensures
            r == self@.width,
    {
        self.width
    }

    /// Height of the frame in pixels.
    pub fn get_height(&self) -> (r: usize)
        ensures
            r == self@.height,
    {
        self.height
    }

    /// Duration of the frame, in milliseconds.
    pub fn get_duration(&self) -> (r: u64)
        ensures
            r == self@.duration,
    {
        self.duration
    }

    /// Wall-clock ingest timestamp, in microseconds since the epoch.
    pub fn get_input_ts(&self) -> (r: u64)
        ensures
            r == self@.input_ts_micros,
    {
        self.input_ts_micros
    }

    /// The tensor handed to the inference session.
    pub fn get_inference_input(&self) -> (r: &Tensor)
        ensures
            r@ == self@.inference_input,
    {
        &self.inference_input
    }

    /// The result of the last inference run.
    pub fn get_inference_output(&self) -> (r: &InferenceOutput)
        ensures
            r == self@.inference_output,
    {
        &self.inference_output
    }

    /// Replaces the inference input tensor.
    pub fn set_inference_input(&mut self, input_data: Tensor)
        ensures
            final(self)@ == (FrameModel { inference_input: input_data@, ..old(self)@ }),
    {
        self.inference_input = input_data;
    }

    /// Replaces the inference output.
    pub fn set_inference_output(&mut self, output_data: InferenceOutput)
        ensures
            final(self)@ == (FrameModel { inference_output: output_data, ..old(self)@ }),
    {
        self.inference_output = output_data;
    }

    /// The pipeline this frame belongs to.
    pub fn get_pipeline_id(&self) -> (r: u128)
        ensures
            r == self@.pipeline_id,
    {
        self.pipeline_id
    }

    /// Reassigns the owning pipeline.
    pub fn set_pipeline_id(&mut self, pipeline_id: u128)
        ensures
            final(self)@ == (FrameModel { pipeline_id: pipeline_id, ..old(self)@ }),
    {
        self.pipeline_id = pipeline_id;
    }

    /// Position of the frame in its stream, starting at 1 and increasing by
    /// one per decoded frame.
    pub fn get_frame_number(&self) -> (r: u64)
        ensures
            r == self@.frame_number,
    {
        self.frame_number
    }

    /// Reassigns the frame's position in its stream.
    pub fn set_frame_number(&mut self, frame_number: u64)
        ensures
            final(self)@ == (FrameModel { frame_number: frame_number, ..old(self)@ }),
    {
        self.frame_number = frame_number;
    }

    /// The user data attached to the frame.
    pub fn get_user_data(&self) -> (r: &UserData)
        ensures
            r == self@.user_data,
    {
        &self.user_data
    }

    /// Replaces the user data.
    pub fn set_user_data(&mut self, user_data: UserData)
        ensures
            final(self)@ == (FrameModel { user_data: user_data, ..old(self)@ }),
    {
        self.user_data = user_data;
    }
}

/// Copies a byte buffer.
pub fn clone_frame_bytes(v: &Vec<u8>) -> (r: Vec<u8>)
    ensures
        r@ == v@,
{
    let mut out: Vec<u8> = Vec::new();
    let mut i: usize = 0;
    while i < v.len()
        invariant
            i <= v@.len(),
            out@ =~= v@.take(i as int),
        decreases v@.len() - i,
    {
        out.push(v[i]);
        proof {
            assert(v@.take(i + 1) =~= v@.take(i as int).push(v@[i as int]));
        }
        i = i + 1;
    }
    proof {
        assert(v@.take(v@.len() as int) =~= v@);
    }
    out
}

/// A unit of decoded media; today every frame carries RGB pixels.
pub enum Frame {
    RgbFrame(RgbFrame),
}

impl View for Frame {
    type V = FrameModel;

    open spec fn view(&self) -> FrameModel {
        match self {
            Frame::RgbFrame(f) => f@,
        }
    }
}

impl Frame {
    /// Builds an RGB frame; see [`RgbFrame::new`].
    pub fn new_rgb(
        original: Vec<u8>,
        width: usize,
        height: usize,
        pts: u64,
        dts: u64,
        duration: u64,
        fps: u8,
        input_ts_micros: u64,
        pipeline_id: u128,
        frame_number: u64,
    ) -> (r: Frame)
        requires
            original@.len() == height * width * 3,
        ensures
            frame_buffers_wf(r@),
            r@.original == original@,
            r@.modified == original@,
            r@.width == width,
            r@.height == height,
            r@.pts == pts,
            r@.dts == dts,
            r@.duration == duration,
            r@.fps == fps,
            r@.input_ts_micros == input_ts_micros,
            r@.inference_input.data.len() == 0,
            r@.pipeline_id == pipeline_id,
            r@.frame_number == frame_number,
            r@.user_data is Empty,
    {
        Frame::RgbFrame(
            RgbFrame::new(
                original,
                width,
                height,
                pts,
                dts,
                duration,
                fps,
                input_ts_micros,
                pipeline_id,
                frame_number,
            ),
        )
    }

    /// Replaces the original pixel buffer.
    pub fn set_original_pixels(&mut self, original_pixels: Vec<u8>)
        ensures
            final(self)@ == (FrameModel { original: original_pixels@, ..old(self)@ }),
    {
        match self {
            Frame::RgbFrame(f) => f.set_original_pixels(original_pixels),
        }
    }

    /// The immutable original pixel buffer.
    pub fn get_original_pixels(&self) -> (r: &Vec<u8>)
        ensures
            r@ == self@.original,
    {
        match self {
            Frame::RgbFrame(f) => f.get_original_pixels(),
        }
    }

    /// The tensor handed to the inference session.
    pub fn get_inference_input(&self) -> (r: &Tensor)
        ensures
            r@ == self@.inference_input,
    {
        match self {
            Frame::RgbFrame(f) => f.get_inference_input(),
        }
    }

    /// The result of the last inference run.
    pub fn get_inference_output(&self) -> (r: &InferenceOutput)
        ensures
            r == self@.inference_output,
    {
        match self {
            Frame::RgbFrame(f) => f.get_inference_output(),
        }
    }

    /// Replaces the inference input tensor.
    pub fn set_inference_input(&mut self, input_data: Tensor)
        ensures
            final(self)@ == (FrameModel { inference_input: input_data@, ..old(self)@ }),
    {
        match self {
            Frame::RgbFrame(f) => f.set_inference_input(input_data),
        }
    }

    /// Replaces the inference output.
    pub fn set_inference_output(&mut self, output_data: InferenceOutput)
        ensures
            final(self)@ == (FrameModel { inference_output: output_data, ..old(self)@ }),
    {
        match self {
            Frame::RgbFrame(f) => f.set_inference_output(output_data),
        }
    }

    /// The pipeline this frame belongs to.
    pub fn get_pipeline_id(&self) -> (r: u128)
        ensures
            r == self@.pipeline_id,
    {
        match self {
            Frame::RgbFrame(f) => f.get_pipeline_id(),
        }
    }

    /// Position of the frame in its stream.
    pub fn get_frame_number(&self) -> (r: u64)
        ensures
            r == self@.frame_number,
    {
        match self {
            Frame::RgbFrame(f) => f.get_frame_number(),
        }
    }
}

} // verus!

//! Associates an encoder with a byte stream to allow writing encoded frames.

use crate::bitbuf::pack_bits;
use crate::encoder::{
    encodable, first_frame_rejection, is_encodable, rejected_as, slice_rbsp, sps_rbsp_for,
    LessEncoder,
};
use crate::error::Error;
use crate::nal_unit::{annex_b_bytes, InitialNalUnits, NalRefIdc, NalUnit, NalUnitType};
use crate::pps::pps_bits;
use crate::ycbcr_image::YCbCrImage;
use vstd::prelude::*;

verus! {

/// An encoding session ready to start but which has not yet necessarily encoded
/// its first frame.
///
/// This mainly exists to hold the byte stream but defer writing until we have
/// the first frame (in the `Configured` variant). After the first frame is
/// written, it will be in the `Recording` variant. The `MovedOut` variant
/// stands only while a frame is being written: whether the frame is taken or
/// refused, the session is put back before the call returns.
enum WriteState {
    Configured(Vec<u8>),
    Recording(RecordingState),
    MovedOut,
}

/// Small helper struct holding byte stream and encoder for an ongoing encoding
/// session.
struct RecordingState {
    wtr: Vec<u8>,
    encoder: LessEncoder,
}

/// The bytes that begin the stream of an image: its sequence parameter set,
/// picture parameter set 0 and its slice, each after a start code.
pub open spec fn stream_start(frame: YCbCrImage) -> Seq<u8> {
    annex_b_bytes(NalRefIdc::Three, NalUnitType::SequenceParameterSet, sps_rbsp_for(frame))
        + annex_b_bytes(
        NalRefIdc::Three,
        NalUnitType::PictureParameterSet,
        pack_bits(pps_bits(0)),
    ) + stream_slice(frame)
}

/// The bytes that an image adds to a stream under way: its slice, after a
/// start code.
pub open spec fn stream_slice(frame: YCbCrImage) -> Seq<u8> {
    annex_b_bytes(NalRefIdc::One, NalUnitType::CodedSliceOfAnIDRPicture, slice_rbsp(frame))
}

impl WriteState {
    /// The bytes of the stream; `None` only in the state that stands while
    /// a frame is being written.
    spec fn written(self) -> Option<Seq<u8>> {
        match self {
            WriteState::Configured(wtr) => Some(wtr@),
            WriteState::Recording(state) => Some(state.wtr@),
            WriteState::MovedOut => None,
        }
    }

    /// The encoder, once the first frame has been written.
    spec fn encoder(self) -> Option<LessEncoder> {
        match self {
            WriteState::Recording(state) => Some(state.encoder),
            _ => None,
        }
    }

    /// Whether no frame has been written yet.
    spec fn fresh(self) -> bool {
        self is Configured
    }

    /// Writes a frame: the first one with its parameter sets, a later one
    /// as a slice.
    fn write_frame(&mut self, frame: &YCbCrImage) -> (r: Result<(), Error>)
        requires
            match old(self).encoder() {
                Some(encoder) => encoder.accepts(*frame),
                None => old(self).fresh() ==> encodable(*frame),
            },
        ensures
            written_frame(
                old(self).written(),
                old(self).encoder(),
                *frame,
                r,
                final(self).written(),
                final(self).encoder(),
            ),
    {
        // Temporarily replace ourself with a dummy value.
        let mut orig_state: WriteState = WriteState::MovedOut;
        std::mem::swap(self, &mut orig_state);
        let state: RecordingState = match orig_state {
            WriteState::Configured(fd) => {
                let (initial_nal_data, encoder): (InitialNalUnits, LessEncoder) =
                    match LessEncoder::new(frame) {
                    Ok(started) => started,
                    Err(e) => {
                        // The frame is refused: go on as before.
                        *self = WriteState::Configured(fd);
                        return Err(e);
                    },
                };
                let mut state: RecordingState = RecordingState { wtr: fd, encoder };
                let ghost start: Seq<u8> = state.wtr@;
                let sps: Vec<u8> = initial_nal_data.sps.to_annex_b_data();
                state.wtr.extend_from_slice(sps.as_slice());
                let pps: Vec<u8> = initial_nal_data.pps.to_annex_b_data();
                state.wtr.extend_from_slice(pps.as_slice());
                let slice: Vec<u8> = initial_nal_data.frame.to_annex_b_data();
                state.wtr.extend_from_slice(slice.as_slice());
                assert(state.wtr@ =~= start + stream_start(*frame));
                state
            },
            WriteState::Recording(mut state) => {
                let ghost start: Seq<u8> = state.wtr@;
                let encoded: NalUnit = match state.encoder.encode(frame) {
                    Ok(encoded) => encoded,
                    Err(e) => {
                        // The frame is refused: go on as before.
                        *self = WriteState::Recording(state);
                        return Err(e);
                    },
                };
                let slice: Vec<u8> = encoded.to_annex_b_data();
                state.wtr.extend_from_slice(slice.as_slice());
                assert(state.wtr@ =~= start + stream_slice(*frame));
                state
            },
            WriteState::MovedOut => {
                return Err(Error::InconsistentState {  });
            },
        };

        // Restore ourself to the correct state.
        *self = WriteState::Recording(state);

        Ok(())
    }
}

/// What writing a frame does, by the stream and the encoder before it. The
/// first frame is refused as an encoder refuses it, or begins the stream; a
/// later frame is refused where its planes are too small, or adds its slice.
/// Where the frame is refused nothing is written and the writer is as it
/// was, so that another frame can be tried; where it is taken, the writer
/// goes on with an encoder for frames like it. Only a writer that holds no
/// stream answers with `InconsistentState`.
pub open spec fn written_frame(
    before: Option<Seq<u8>>,
    encoder: Option<LessEncoder>,
    frame: YCbCrImage,
    r: Result<(), Error>,
    after: Option<Seq<u8>>,
    encoder_after: Option<LessEncoder>,
) -> bool {
    match (before, encoder) {
        (None, _) => r matches Err(Error::InconsistentState {  }) && after is None
            && encoder_after is None,
        (Some(stream), None) => match first_frame_rejection(frame) {
            Some(why) => r matches Err(e) && rejected_as(e, why) && after == before
                && encoder_after is None,
            None => {
                &&& r is Ok
                &&& after == Some(stream + stream_start(frame))
                &&& encoder_after matches Some(made) && made.accepts(frame)
            },
        },
        (Some(stream), Some(encoder)) => match frame.size_problem() {
            Some(problem) => r matches Err(Error::DataShapeProblem { msg }) && msg@ == problem@
                && after == before && encoder_after == Some(encoder),
            None => {
                &&& r is Ok
                &&& after == Some(stream + stream_slice(frame))
                &&& encoder_after == Some(encoder)
            },
        },
    }
}

/// Write images to a byte stream in `.h264` file format.
pub struct H264Writer {
    inner: WriteState,
}

impl H264Writer {
    /// The bytes of the stream; `None` only in the state that stands while
    /// a frame is being written.
    pub closed spec fn written(self) -> Option<Seq<u8>> {
        self.inner.written()
    }

    /// The encoder, once the first frame has been written.
    pub closed spec fn encoder(self) -> Option<LessEncoder> {
        self.inner.encoder()
    }

    /// Whether an image can be handed to the writer: the first one is such
    /// as an encoder can be asked for, a later one is like the first.
    pub open spec fn takes(self, frame: YCbCrImage) -> bool {
        match self.encoder() {
            Some(encoder) => encoder.accepts(frame),
            None => self.written() is Some ==> encodable(frame),
        }
    }

    /// Tells whether an image can be handed to the writer.
    pub fn can_take(&self, frame: &YCbCrImage) -> (ok: bool)
        ensures
            ok == self.takes(*frame),
    {
        match &self.inner {
            WriteState::Configured(_) => is_encodable(frame),
            WriteState::Recording(state) => state.encoder.can_encode(frame),
            WriteState::MovedOut => true,
        }
    }

    /// Create a new [H264Writer] that goes on after the bytes given.
    pub fn new(wtr: Vec<u8>) -> (r: Result<Self, Error>)
        ensures
            r matches Ok(writer) && writer.written() == Some(wtr@) && writer.encoder() is None,
    {
        Ok(Self { inner: WriteState::Configured(wtr) })
    }

    /// Tells whether the writer holds its stream, as it does between any
    /// two calls: every call puts the stream back before it returns.
    pub fn holds_stream(&self) -> (held: bool)
        ensures
            held == (self.written() is Some),
    {
        match &self.inner {
            WriteState::MovedOut => false,
            _ => true,
        }
    }

    /// Retrieve the bytes of the stream.
    pub fn into_inner(self) -> (wtr: Vec<u8>)
        requires
            self.written() is Some,
        ensures
            Some(wtr@) == self.written(),
    {
        match self.inner {
            WriteState::Configured(w) => w,
            WriteState::Recording(state) => state.wtr,
            WriteState::MovedOut => vstd::pervasive::unreached(),
        }
    }

    /// Takes the bytes that have been written so far out of the writer, for
    /// them to be stored elsewhere. The writer goes on with an empty stream
    /// and the encoder it had.
    pub fn drain(&mut self) -> (bytes: Vec<u8>)
        requires
            old(self).written() is Some,
        ensures
            Some(bytes@) == old(self).written(),
            final(self).written() == Some(Seq::<u8>::empty()),
            final(self).encoder() == old(self).encoder(),
    {
        let mut bytes: Vec<u8> = Vec::new();
        match &mut self.inner {
            WriteState::Configured(wtr) => {
                std::mem::swap(wtr, &mut bytes);
            },
            WriteState::Recording(state) => {
                std::mem::swap(&mut state.wtr, &mut bytes);
            },
            WriteState::MovedOut => {},
        }
        bytes
    }

    /// Encode and write a frame
    ///
    /// A frame that is refused leaves the writer as it was: nothing is
    /// written, and the next frame is taken as this one would have been.
    pub fn write(&mut self, frame: &YCbCrImage) -> (r: Result<(), Error>)
        requires
            old(self).takes(*frame),
        ensures
            final(self).written() is Some <==> old(self).written() is Some,
            r is Err ==> final(self).written() == old(self).written() && final(self).encoder()
                == old(self).encoder(),
            written_frame(
                old(self).written(),
                old(self).encoder(),
                *frame,
                r,
                final(self).written(),
                final(self).encoder(),
            ),
    {
        self.inner.write_frame(frame)
    }
}

} // verus!

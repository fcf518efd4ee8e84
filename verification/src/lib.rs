//! less Advanced Video Coding (H.264) encoding library
//!
//! This crate contains an H.264 encoder that is simple ("less advanced") and
//! uses a small subset of the encoder features in the H.264 specification.
//! All data is encoded as a lossless PCM frame. Bit depths of 8 and 12 in
//! monochrome and YCbCr colorspaces are supported.
//!
//! What the encoder writes is stated bit by bit and proved: the codes of
//! numbers in [golomb], the parameter sets and the slice header in [sps],
//! [pps] and [slice], the samples in [macroblock] and [samples], the
//! emulation prevention in [ebsp] and [nal_unit], the messages in [sei], the
//! whole of a session in [encoder] and [writer]. [testbench] makes the
//! images on which the encoder is tried.

pub mod bitbuf;
pub mod ebsp;
pub mod encoder;
pub mod error;
pub mod golomb;
pub mod macroblock;
pub mod nal_unit;
pub mod pps;
pub mod rbsp;
pub mod samples;
pub mod sei;
pub mod slice;
pub mod sps;
pub mod testbench;
pub mod util;
pub mod writer;
pub mod ycbcr_image;

pub use encoder::LessEncoder;
pub use error::Error;
pub use rbsp::RbspData;
pub use sps::BitDepth;
pub use writer::H264Writer;

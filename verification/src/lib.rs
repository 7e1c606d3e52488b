//! Mapping of an encoded video stream onto prioritised transport tracks.
//!
//! The crate decodes a self-describing stream of video segments from a
//! growing byte buffer and republishes it as transport tracks. Four
//! interchangeable strategies decide how frames are grouped and which
//! delivery priority each group or object gets.
use vstd::prelude::*;

pub mod buffer;
pub mod endian;
pub mod error;
pub mod framing;
pub mod mappings;
pub mod plan;
pub mod server;
pub mod transport;
pub mod video;

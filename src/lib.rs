//! A driver core for WS2812-class addressable RGB LEDs, whose bit timing is produced by a
//! small program on a programmable I/O co-processor.
//!
//! - [`pattern`] builds color buffers: pixels in green, red, blue order, zero-padded to
//!   whole 32-bit words.
//! - [`encoder`] packs a buffer into transport words, four bytes each, big-endian.
//! - [`timing`] describes the bit-timing program and the pulse train it makes of a frame.
//! - [`pump`] decides, step by step, how the words are fed into the co-processor's queue
//!   and when the frame is latched.
use vstd::prelude::*;

pub mod encoder;
pub mod timing;
pub mod pump;
pub mod pattern;

verus! {

} // verus!

//! Frame synchronization and header decoding for a constant-frame-size,
//! block-structured perceptual audio bitstream (the ATSC A/52 family).
//!
//! The crate validates a frame's sync prefix, recovers frame size, sample
//! rate and bit rate from the coded header, and decodes the full variable
//! length header into a channel configuration and per-frame flags.  All
//! parsing is done through a bounds-checked bit cursor; a read past the
//! supplied buffer is reported as an error, never a crash.

#![allow(non_camel_case_types)]

use vstd::prelude::*;

pub mod bitstream;
pub mod header;
pub mod state;
pub mod sync;

verus! {

/// Channel-mode codes for the negotiated output configuration.
pub const A52_CHANNEL: i32 = 0;

pub const A52_MONO: i32 = 1;

pub const A52_STEREO: i32 = 2;

pub const A52_3F: i32 = 3;

pub const A52_2F1R: i32 = 4;

pub const A52_3F1R: i32 = 5;

pub const A52_2F2R: i32 = 6;

pub const A52_3F2R: i32 = 7;

pub const A52_CHANNEL1: i32 = 8;

pub const A52_CHANNEL2: i32 = 9;

/// Pseudo-mode signalling matrixed surround inside a stereo layout.
pub const A52_DOLBY: i32 = 10;

pub const A52_CHANNEL_MASK: i32 = 15;

/// Flag bit for an independently coded low-frequency-effects channel.
pub const A52_LFE: i32 = 16;

pub const A52_ADJUST_LEVEL: i32 = 32;

/// The distinct failure outcomes of this core.  None of them aborts the
/// process; the caller's frame-acquisition loop decides how to resync.
#[derive(Clone, Copy, Debug, PartialEq, Eq, Structural)]
pub enum A52Error {
    /// The header prefix failed validation: bad sync bytes or a reserved
    /// rate/size code.
    SyncRejected,
    /// A field read would run past the declared frame length; the frame is
    /// too short to be valid.
    OutOfBits,
    /// The downmix negotiation collaborator could not satisfy the requested
    /// output configuration.
    DownmixRejected,
    /// The per-stream sample buffer could not be obtained.
    AllocationFailure,
}

} // verus!

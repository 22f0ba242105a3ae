//! Stateless validation of the fixed-size frame header prefix: sync word,
//! rate/size codes, and the channel/LFE flag word.

use vstd::prelude::*;

use crate::A52Error;

verus! {

/// What a successful sync probe recovers from the header prefix.
#[derive(Clone, Copy, Debug, PartialEq, Eq, Structural)]
pub struct SyncInfo {
    /// Channel-mode word: the coded channel mode (or the Dolby pseudo-mode)
    /// with [`crate::A52_LFE`] or'ed in when the stream carries LFE.
    pub flags: i32,
    /// Sample rate in Hz, with half-rate halving applied.
    pub sample_rate: i32,
    /// Bit rate in bits per second, with half-rate halving applied.
    pub bit_rate: i32,
    /// The frame's total byte length.
    pub frame_length: i32,
}

/// The half-rate exponent coded in the upper bits of the sixth header byte;
/// only codes below `0x60` are defined, so the index is below 12.
pub open spec fn spec_halfrate(c5: u8) -> u8 {
    if c5 >> 3 == 9 {
        1
    } else if c5 >> 3 == 10 {
        2
    } else if c5 >> 3 == 11 {
        3
    } else {
        0
    }
}

/// The divisor that the half-rate exponent applies to rates.
pub open spec fn spec_half_div(c5: u8) -> int {
    if spec_halfrate(c5) == 1 {
        2
    } else if spec_halfrate(c5) == 2 {
        4
    } else if spec_halfrate(c5) == 3 {
        8
    } else {
        1
    }
}

/// The reference table of the nineteen coded bit rates, in kbit/s, indexed
/// by the upper five bits of the frame-size code.
pub open spec fn spec_rate_kbps(i: int) -> int {
    if i == 0 {
        32
    } else if i == 1 {
        40
    } else if i == 2 {
        48
    } else if i == 3 {
        56
    } else if i == 4 {
        64
    } else if i == 5 {
        80
    } else if i == 6 {
        96
    } else if i == 7 {
        112
    } else if i == 8 {
        128
    } else if i == 9 {
        160
    } else if i == 10 {
        192
    } else if i == 11 {
        224
    } else if i == 12 {
        256
    } else if i == 13 {
        320
    } else if i == 14 {
        384
    } else if i == 15 {
        448
    } else if i == 16 {
        512
    } else if i == 17 {
        576
    } else {
        640
    }
}

/// The LFE-bit-position mask for each channel mode: the bit of the seventh
/// header byte that flags an LFE channel depends on how many mix-level
/// fields precede it.
pub open spec fn spec_lfe_mask(acmod: int) -> u8 {
    if acmod == 0 || acmod == 1 {
        0x10
    } else if acmod == 5 || acmod == 7 {
        0x01
    } else {
        0x04
    }
}

/// A header prefix is accepted exactly when the two sync bytes match and
/// neither the rate code, the frame-size code, nor the sample-rate family
/// is a reserved value.
pub open spec fn spec_sync_valid(b: Seq<u8>) -> bool {
    &&& b[0] == 0x0b
    &&& b[1] == 0x77
    &&& b[5] < 0x60
    &&& (b[4] & 63) < 38
    &&& (b[4] & 0xc0) != 0xc0
}

/// The channel/LFE flag word: the channel mode, overridden to the Dolby
/// pseudo-mode when the seventh byte carries the specific surround pattern,
/// with the LFE flag or'ed in when the mode's LFE mask bit is set.
pub open spec fn spec_sync_flags(b: Seq<u8>) -> i32 {
    let acmod = (b[6] >> 5) as i32;
    (if b[6] & 0xf8 == 0x50 {
        crate::A52_DOLBY
    } else {
        acmod
    }) | (if b[6] & spec_lfe_mask((b[6] >> 5) as int) != 0 {
        crate::A52_LFE
    } else {
        0
    })
}

/// Nominal sample rate of the coded family, before half-rate halving.
pub open spec fn spec_family_rate(b: Seq<u8>) -> int {
    if b[4] & 0xc0 == 0 {
        48000
    } else if b[4] & 0xc0 == 0x40 {
        44100
    } else {
        32000
    }
}

/// The recovered sample rate in Hz.
pub open spec fn spec_sync_sample_rate(b: Seq<u8>) -> int {
    spec_family_rate(b) / spec_half_div(b[5])
}

/// The recovered bit rate in bits per second.
pub open spec fn spec_sync_bit_rate(b: Seq<u8>) -> int {
    spec_rate_kbps((b[4] & 63) as int / 2) * 1000 / spec_half_div(b[5])
}

/// The frame byte length.  Each sample-rate family has its own exact
/// integer formula over the table bit rate; at 44.1 kHz the low bit of the
/// frame-size code selects the longer of two lengths.
pub open spec fn spec_sync_frame_length(b: Seq<u8>) -> int {
    let rate = spec_rate_kbps((b[4] & 63) as int / 2);
    if b[4] & 0xc0 == 0 {
        4 * rate
    } else if b[4] & 0xc0 == 0x40 {
        2 * (320 * rate / 147 + (b[4] & 1))
    } else {
        6 * rate
    }
}

/// The half-rate exponent for a rate code below `0x60`.
pub(crate) fn halfrate_of(c5: u8) -> (r: u8)
    ensures
        r == spec_halfrate(c5),
{
    let idx = c5 >> 3;
    if idx == 9 {
        1
    } else if idx == 10 {
        2
    } else if idx == 11 {
        3
    } else {
        0
    }
}

/// The reference bit-rate table.
fn rate_kbps_of(i: u8) -> (r: i32)
    requires
        i < 19,
    ensures
        r == spec_rate_kbps(i as int),
{
    if i == 0 {
        32
    } else if i == 1 {
        40
    } else if i == 2 {
        48
    } else if i == 3 {
        56
    } else if i == 4 {
        64
    } else if i == 5 {
        80
    } else if i == 6 {
        96
    } else if i == 7 {
        112
    } else if i == 8 {
        128
    } else if i == 9 {
        160
    } else if i == 10 {
        192
    } else if i == 11 {
        224
    } else if i == 12 {
        256
    } else if i == 13 {
        320
    } else if i == 14 {
        384
    } else if i == 15 {
        448
    } else if i == 16 {
        512
    } else if i == 17 {
        576
    } else {
        640
    }
}

/// The LFE mask for a channel mode.
fn lfe_mask_of(acmod: u8) -> (r: u8)
    requires
        acmod < 8,
    ensures
        r == spec_lfe_mask(acmod as int),
{
    if acmod == 0 || acmod == 1 {
        0x10
    } else if acmod == 5 || acmod == 7 {
        0x01
    } else {
        0x04
    }
}

/// Probes the first bytes of a candidate frame.  Verifies the two fixed
/// sync bytes and rejects reserved rate/size codes; on success returns the
/// sample rate, bit rate, frame byte length, and the channel/LFE flag word.
pub fn a52_syncinfo(buf: &[u8]) -> (r: Option<SyncInfo>)
    requires
        buf@.len() >= 7,
    ensures
        r is Some <==> spec_sync_valid(buf@),
        r matches Some(si) ==> {
            &&& si.flags == spec_sync_flags(buf@)
            &&& si.sample_rate == spec_sync_sample_rate(buf@)
            &&& si.bit_rate == spec_sync_bit_rate(buf@)
            &&& si.frame_length == spec_sync_frame_length(buf@)
        },
{
    if buf[0] != 0x0b || buf[1] != 0x77 {
        return None;
    }
    if buf[5] >= 0x60 {
        return None;
    }
    let half = halfrate_of(buf[5]);
    let div: i32 = if half == 1 {
        2
    } else if half == 2 {
        4
    } else if half == 3 {
        8
    } else {
        1
    };
    let acmod: u8 = buf[6] >> 5;
    proof {
        let c6 = buf@[6];
        assert(c6 >> 5 < 8) by (bit_vector);
    }
    let dolby = buf[6] & 0xf8 == 0x50;
    let lfe = buf[6] & lfe_mask_of(acmod) != 0;
    let flags: i32 = (if dolby {
        crate::A52_DOLBY
    } else {
        acmod as i32
    }) | (if lfe {
        crate::A52_LFE
    } else {
        0
    });
    let frmsizecod: u8 = buf[4] & 63;
    proof {
        let c4 = buf@[4];
        assert(c4 & 63 < 64) by (bit_vector);
        assert(((c4 & 63) & 1) == (c4 & 1)) by (bit_vector);
        assert((c4 & 63) / 2 == (c4 & 63) >> 1) by (bit_vector);
        assert(c4 & 0xc0 == 0 || c4 & 0xc0 == 0x40 || c4 & 0xc0 == 0x80 || c4 & 0xc0 == 0xc0)
            by (bit_vector);
    }
    if frmsizecod >= 38 {
        return None;
    }
    let bitrate = rate_kbps_of(frmsizecod / 2);
    let bit_rate = bitrate * 1000 / div;
    let family = buf[4] & 0xc0;
    if family == 0 {
        Some(
            SyncInfo {
                flags,
                sample_rate: 48000 / div,
                bit_rate,
                frame_length: 4 * bitrate,
            },
        )
    } else if family == 0x40 {
        Some(
            SyncInfo {
                flags,
                sample_rate: 44100 / div,
                bit_rate,
                frame_length: 2 * (320 * bitrate / 147 + ((frmsizecod & 1) as i32)),
            },
        )
    } else if family == 0x80 {
        Some(
            SyncInfo {
                flags,
                sample_rate: 32000 / div,
                bit_rate,
                frame_length: 6 * bitrate,
            },
        )
    } else {
        None
    }
}

} // verus!

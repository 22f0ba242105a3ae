//! Per-stream decoder state: the integer channel configuration, per-frame
//! flags, and the bit-allocation carry state that persists across frames.
//!
//! The floating-point side of a stream handle — mix levels, output level,
//! bias, the sample buffer and the dynamic-range callback — lives outside
//! the verified core; this state carries the coded selectors those values
//! are derived from.

use vstd::prelude::*;

verus! {

/// Delta-bit-allocation carry mode: adjustments reused from the previous
/// frame.
pub const DELTA_BIT_REUSE: u8 = 0;

/// Delta-bit-allocation carry mode: adjustments newly supplied this frame.
pub const DELTA_BIT_NEW: u8 = 1;

/// Delta-bit-allocation carry mode: no adjustments for this frame.
pub const DELTA_BIT_NONE: u8 = 2;

/// Delta-bit-allocation carry mode: the reserved code.
pub const DELTA_BIT_RESERVED: u8 = 3;

/// Per-channel exponent and bit-allocation-pointer workspace.
#[derive(Clone, Copy)]
pub struct expbap_t {
    pub exp: [u8; 256],
    pub bap: [i8; 256],
}

impl Default for expbap_t {
    /// A zeroed workspace.
    fn default() -> (r: Self)
        ensures
            spec_expbap_zeroed(r),
    {
        expbap_t { exp: [0u8; 256], bap: [0i8; 256] }
    }
}

/// Per-channel bit-allocation carry state: the coded bit-allocation
/// information, the delta-bit-encoding mode, and the delta values.
#[derive(Clone, Copy)]
pub struct ba_t {
    pub bai: u8,
    pub deltbae: u8,
    pub deltba: [i8; 50],
}

impl Default for ba_t {
    /// Cleared carry state.
    fn default() -> (r: Self)
        ensures
            spec_ba_zeroed(r),
    {
        ba_t { bai: 0, deltbae: 0, deltba: [0i8; 50] }
    }
}

/// Whether a carry-state record is fully cleared.
pub open spec fn spec_ba_zeroed(x: ba_t) -> bool {
    &&& x.bai == 0
    &&& x.deltbae == 0
    &&& forall|i: int| 0 <= i < 50 ==> x.deltba@[i] == 0
}

/// Whether an exponent/bit-allocation workspace is fully cleared.
pub open spec fn spec_expbap_zeroed(x: expbap_t) -> bool {
    &&& forall|i: int| 0 <= i < 256 ==> x.exp@[i] == 0
    &&& forall|i: int| 0 <= i < 256 ==> x.bap@[i] == 0
}

/// Whether every field of a stream state is zero, the carry-state records
/// and workspaces included.
pub open spec fn spec_state_zeroed(s: a52_state_s) -> bool {
    &&& s.fscod == 0
    &&& s.halfrate == 0
    &&& s.acmod == 0
    &&& s.lfeon == 0
    &&& s.clev_code == 0
    &&& s.slev_code == 0
    &&& s.output == 0
    &&& s.dynrnge == 0
    &&& s.chincpl == 0
    &&& s.phsflginu == 0
    &&& s.cplstrtmant == 0
    &&& s.cplendmant == 0
    &&& s.cplbndstrc == 0
    &&& s.cplstrtbnd == 0
    &&& s.ncplbnd == 0
    &&& s.rematflg == 0
    &&& forall|i: int| 0 <= i < 5 ==> s.endmant@[i] == 0
    &&& s.bai == 0
    &&& s.lfsr_state == 0
    &&& s.csnroffst == 0
    &&& spec_ba_zeroed(s.cplba)
    &&& forall|i: int| 0 <= i < 5 ==> spec_ba_zeroed(#[trigger] s.ba@[i])
    &&& spec_ba_zeroed(s.lfeba)
    &&& s.cplfleak == 0
    &&& s.cplsleak == 0
    &&& spec_expbap_zeroed(s.cpl_expbap)
    &&& forall|i: int| 0 <= i < 5 ==> spec_expbap_zeroed(#[trigger] s.fbw_expbap@[i])
    &&& spec_expbap_zeroed(s.lfe_expbap)
    &&& s.downmixed == 0
}

/// The integer per-stream decoder state.  One per audio stream; mutated in
/// place by every decoded frame.
pub struct a52_state_s {
    /// Sample-rate code from the header.
    pub fscod: u8,
    /// Half-rate exponent from the header.
    pub halfrate: u8,
    /// Effective channel mode, possibly the Dolby pseudo-mode.
    pub acmod: u8,
    /// Whether the stream carries an LFE channel.
    pub lfeon: u8,
    /// Coded center-mix-level selector last seen in a header.
    pub clev_code: u8,
    /// Coded surround-mix-level selector last seen in a header.
    pub slev_code: u8,
    /// Negotiated output channel configuration.
    pub output: i32,
    /// Whether dynamic-range scaling is applied to decoded samples.
    pub dynrnge: u8,
    pub chincpl: u8,
    pub phsflginu: u8,
    pub cplstrtmant: u8,
    pub cplendmant: u8,
    pub cplbndstrc: u32,
    pub cplstrtbnd: u8,
    pub ncplbnd: u8,
    pub rematflg: u8,
    pub endmant: [u8; 5],
    pub bai: u16,
    /// Pseudo-random dither seed, consumed by later decode stages.
    pub lfsr_state: u16,
    pub csnroffst: u8,
    /// Coupling-channel bit-allocation carry state.
    pub cplba: ba_t,
    /// Main-channel bit-allocation carry state.
    pub ba: [ba_t; 5],
    /// LFE-channel bit-allocation carry state.
    pub lfeba: ba_t,
    pub cplfleak: u8,
    pub cplsleak: u8,
    pub cpl_expbap: expbap_t,
    pub fbw_expbap: [expbap_t; 5],
    pub lfe_expbap: expbap_t,
    /// Whether the sample buffer currently holds downmixed output.
    pub downmixed: i32,
}

pub type a52_state_t = a52_state_s;

impl a52_state_s {
    /// A fully zeroed stream state.
    pub fn new() -> (r: Self)
        ensures
            spec_state_zeroed(r),
    {
        a52_state_s {
            fscod: 0,
            halfrate: 0,
            acmod: 0,
            lfeon: 0,
            clev_code: 0,
            slev_code: 0,
            output: 0,
            dynrnge: 0,
            chincpl: 0,
            phsflginu: 0,
            cplstrtmant: 0,
            cplendmant: 0,
            cplbndstrc: 0,
            cplstrtbnd: 0,
            ncplbnd: 0,
            rematflg: 0,
            endmant: [0u8; 5],
            bai: 0,
            lfsr_state: 0,
            csnroffst: 0,
            cplba: Default::default(),
            ba: [Default::default();5],
            lfeba: Default::default(),
            cplfleak: 0,
            cplsleak: 0,
            cpl_expbap: Default::default(),
            fbw_expbap: [Default::default();5],
            lfe_expbap: Default::default(),
            downmixed: 0,
        }
    }

    /// The per-stream state as handle creation leaves it: fully zeroed
    /// except for the dither seed, set to its fixed non-zero value, and the
    /// downmix flag.
    pub fn init() -> (r: Self)
        ensures
            r.lfsr_state == 1,
            r.downmixed == 1,
            spec_state_zeroed(
                (a52_state_s {
                    lfsr_state: 0,
                    downmixed: 0,
                    ..r
                }),
            ),
    {
        let mut r = Self::new();
        r.lfsr_state = 1;
        r.downmixed = 1;
        r
    }

    /// Switches the dynamic-range scaling path: registering a callback
    /// enables it, passing none disables it for subsequent frames.
    pub fn set_dynrng_enabled(&mut self, enabled: bool)
        ensures
            *final(self) == (a52_state_s {
                dynrnge: if enabled {
                    1u8
                } else {
                    0u8
                },
                ..*old(self)
            }),
    {
        self.dynrnge = if enabled {
            1
        } else {
            0
        };
    }
}

} // verus!

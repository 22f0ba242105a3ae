//! Decoding of the full variable-length frame header.
//!
//! The header grammar is modelled by spec functions over the raw bit
//! positions: a fixed early part (surround override, mix levels, LFE flag),
//! one info block per independent program — two in dual-mono — and a tail
//! of copyright, timecode and additional-information fields, each gated by
//! its own presence flag.
//! The decoder is split around the external downmix negotiation: the first
//! phase recovers everything negotiation needs, the second takes the
//! negotiated outcome and consumes the rest of the header.

use vstd::prelude::*;
use vstd::arithmetic::power2::lemma2_to64;

use crate::bitstream::{bit_at, bit_ok, bits_val, lemma_bits_val_bound, BitCursor, MAX_FRAME_BYTES};
use crate::state::{a52_state_s, ba_t, DELTA_BIT_NONE};
use crate::sync::spec_halfrate;
use crate::A52Error;

verus! {

/// The bit position of the first field after the six prefix bytes and the
/// three channel-mode bits the sync probe already decoded.
pub const HEADER_START_BIT: u32 = 51;

/// The effective channel mode: the coded mode, overridden to the Dolby
/// pseudo-mode when a stereo stream's surround-mode field carries the
/// "full Dolby surround" value.
pub open spec fn spec_acmod_eff(b: Seq<u8>) -> int {
    let a = (b[6] >> 5) as int;
    if a == 2 && bits_val(b, 51, 2) == 2 {
        crate::A52_DOLBY as int
    } else {
        a
    }
}

/// Whether mode `a` has a front-center channel other than mono, and so a
/// coded center-mix level.
pub open spec fn spec_has_cmix(a: int) -> bool {
    a == 3 || a == 5 || a == 7
}

/// Whether mode `a` has surround channels, and so a coded surround-mix
/// level.
pub open spec fn spec_has_surmix(a: int) -> bool {
    4 <= a <= 7
}

/// Bit position of the center-mix-level field (present or not).
pub open spec fn spec_cmix_pos(b: Seq<u8>) -> int {
    if b[6] >> 5 == 2 {
        53
    } else {
        51
    }
}

/// Bit position of the surround-mix-level field (present or not).
pub open spec fn spec_surmix_pos(b: Seq<u8>) -> int {
    spec_cmix_pos(b) + if spec_has_cmix(spec_acmod_eff(b)) {
        2int
    } else {
        0
    }
}

/// Bit position of the LFE-present flag.
pub open spec fn spec_lfeon_pos(b: Seq<u8>) -> int {
    spec_surmix_pos(b) + if spec_has_surmix(spec_acmod_eff(b)) {
        2int
    } else {
        0
    }
}

/// Bit position just past the LFE-present flag.
pub open spec fn spec_prefix_end(b: Seq<u8>) -> int {
    spec_lfeon_pos(b) + 1
}

/// Whether the fixed early part of the header fits inside the buffer.
pub open spec fn spec_prefix_ok(b: Seq<u8>) -> bool {
    b.len() >= 7 && spec_prefix_end(b) <= 8 * b.len()
}

/// The coded center-mix-level selector, when the mode carries one.
pub open spec fn spec_cmixlev(b: Seq<u8>) -> Option<u8> {
    if spec_has_cmix(spec_acmod_eff(b)) {
        Some(bits_val(b, spec_cmix_pos(b), 2) as u8)
    } else {
        None
    }
}

/// The coded surround-mix-level selector, when the mode carries one.
pub open spec fn spec_surmixlev(b: Seq<u8>) -> Option<u8> {
    if spec_has_surmix(spec_acmod_eff(b)) {
        Some(bits_val(b, spec_surmix_pos(b), 2) as u8)
    } else {
        None
    }
}

/// The LFE-present flag.
pub open spec fn spec_lfeon(b: Seq<u8>) -> bool {
    bits_val(b, spec_lfeon_pos(b), 1) == 1
}

/// One presence-flag-gated skip of `w` bits starting at `pos`: the
/// position after it, or `None` when the buffer ends first.
pub open spec fn spec_cond_skip(b: Seq<u8>, pos: int, w: int) -> Option<int> {
    if !bit_ok(b, pos, 1) {
        None
    } else if bits_val(b, pos, 1) == 1 {
        if bit_ok(b, pos + 1, w) {
            Some(pos + 1 + w)
        } else {
            None
        }
    } else {
        Some(pos + 1)
    }
}

/// One per-program info block: a five-bit dialogue-normalization field and
/// three gated skips (compression gain, language code, mix level and room
/// type).
pub open spec fn spec_chan_block(b: Seq<u8>, pos: int) -> Option<int> {
    if !bit_ok(b, pos, 5) {
        None
    } else {
        match spec_cond_skip(b, pos + 5, 8) {
            None => None,
            Some(p1) => match spec_cond_skip(b, p1, 8) {
                None => None,
                Some(p2) => spec_cond_skip(b, p2, 7),
            },
        }
    }
}

/// `k` consecutive per-program info blocks starting at `pos`.
pub open spec fn spec_chan_blocks(b: Seq<u8>, pos: int, k: nat) -> Option<int>
    decreases k,
{
    if k == 0 {
        Some(pos)
    } else {
        match spec_chan_block(b, pos) {
            None => None,
            Some(p) => spec_chan_blocks(b, p, (k - 1) as nat),
        }
    }
}

/// The header tail: the two-bit copyright/original field, two gated
/// fourteen-bit timecodes, and the gated additional-information block — a
/// six-bit byte count followed by that many bytes.
pub open spec fn spec_tail(b: Seq<u8>, pos: int) -> Option<int> {
    if !bit_ok(b, pos, 2) {
        None
    } else {
        match spec_cond_skip(b, pos + 2, 14) {
            None => None,
            Some(p1) => match spec_cond_skip(b, p1, 14) {
                None => None,
                Some(p2) => {
                    if !bit_ok(b, p2, 1) {
                        None
                    } else if bits_val(b, p2, 1) == 1 {
                        if !bit_ok(b, p2 + 1, 6) {
                            None
                        } else {
                            let cnt = bits_val(b, p2 + 1, 6);
                            if bit_ok(b, p2 + 7, 8 * cnt) {
                                Some(p2 + 7 + 8 * cnt)
                            } else {
                                None
                            }
                        }
                    } else {
                        Some(p2 + 1)
                    }
                },
            },
        }
    }
}

/// The number of per-program info blocks: two in the dual-mono mode, which
/// codes two independent programs, and one in every other mode.
pub open spec fn spec_chan_count(b: Seq<u8>) -> nat {
    if spec_acmod_eff(b) == 0 {
        2
    } else {
        1
    }
}

/// Whether everything after the downmix negotiation point — the
/// per-program info blocks and the header tail — fits inside the buffer.
pub open spec fn spec_frame_rest_ok(b: Seq<u8>) -> bool {
    match spec_chan_blocks(b, spec_prefix_end(b), spec_chan_count(b)) {
        None => false,
        Some(p) => spec_tail(b, p) is Some,
    }
}

/// The negotiated output word with the LFE flag or'ed in exactly when the
/// stream carries LFE and the caller asked for it.
pub open spec fn spec_output(neg: i32, lfe: bool, flags: i32) -> i32 {
    if lfe && (flags & crate::A52_LFE) != 0 {
        neg | crate::A52_LFE
    } else {
        neg
    }
}

/// Everything the first decode phase recovers: the fields the downmix
/// negotiation collaborator needs, and the position parsing resumes from.
#[derive(Clone, Copy, Debug)]
pub struct HeaderPrefix {
    /// Sample-rate code.
    pub fscod: u8,
    /// Half-rate exponent.
    pub halfrate: u8,
    /// Effective channel mode, possibly the Dolby pseudo-mode.
    pub acmod: u8,
    /// Center-mix-level selector, for modes that carry one.
    pub cmixlev: Option<u8>,
    /// Surround-mix-level selector, for modes that carry one.
    pub surmixlev: Option<u8>,
    /// Whether the stream carries an LFE channel.
    pub lfeon: bool,
    /// Bit position just past the LFE flag.
    pub pos: usize,
}

/// Whether `p` is exactly what the first phase recovers from `b`.
pub open spec fn prefix_matches(p: HeaderPrefix, b: Seq<u8>) -> bool {
    &&& p.fscod == b[4] >> 6
    &&& p.halfrate == spec_halfrate(b[5])
    &&& p.acmod as int == spec_acmod_eff(b)
    &&& p.cmixlev == spec_cmixlev(b)
    &&& p.surmixlev == spec_surmixlev(b)
    &&& p.lfeon == spec_lfeon(b)
    &&& p.pos as int == spec_prefix_end(b)
}

/// First decode phase: consumes the header up to and including the
/// LFE-present flag and returns the fields the downmix negotiation needs.
/// Fails exactly when the buffer ends inside that early part.  A reserved
/// rate code is ruled out by the caller: the sync probe rejects it.
pub fn a52_frame_begin(buf: &[u8]) -> (r: Result<HeaderPrefix, A52Error>)
    requires
        buf@.len() >= 7,
        buf@.len() <= MAX_FRAME_BYTES,
        buf@[5] < 0x60,
    ensures
        r is Ok <==> spec_prefix_ok(buf@),
        r matches Ok(p) ==> prefix_matches(p, buf@),
        r is Err ==> r == Err::<HeaderPrefix, A52Error>(A52Error::OutOfBits),
{
    let ghost b = buf@;
    proof {
        let c6 = b[6];
        assert(c6 >> 5 < 8) by (bit_vector);
        lemma2_to64();
    }
    let fscod = buf[4] >> 6;
    let halfrate = crate::sync::halfrate_of(buf[5]);
    let acmod_raw: u8 = buf[6] >> 5;
    let mut cur = BitCursor::attach(buf);
    let mut acmod = acmod_raw;
    match cur.skip(HEADER_START_BIT) {
        Ok(_) => {},
        Err(_) => {
            return Err(A52Error::OutOfBits);
        },
    }
    if acmod_raw == 2 {
        match cur.read(2) {
            Ok(v) => {
                proof {
                    lemma_bits_val_bound(b, 51, 2);
                }
                if v == 2 {
                    acmod = 10;
                }
            },
            Err(_) => {
                return Err(A52Error::OutOfBits);
            },
        }
    }
    proof {
        assert(acmod as int == spec_acmod_eff(b));
        assert(cur.position() == spec_cmix_pos(b));
    }
    let mut cmixlev: Option<u8> = None;
    if acmod == 3 || acmod == 5 || acmod == 7 {
        match cur.read(2) {
            Ok(v) => {
                proof {
                    lemma_bits_val_bound(b, spec_cmix_pos(b), 2);
                }
                cmixlev = Some(v as u8);
            },
            Err(_) => {
                return Err(A52Error::OutOfBits);
            },
        }
    }
    let mut surmixlev: Option<u8> = None;
    if acmod >= 4 && acmod <= 7 {
        match cur.read(2) {
            Ok(v) => {
                proof {
                    lemma_bits_val_bound(b, spec_surmix_pos(b), 2);
                }
                surmixlev = Some(v as u8);
            },
            Err(_) => {
                return Err(A52Error::OutOfBits);
            },
        }
    }
    let lfeon = match cur.read_bool() {
        Ok(v) => v,
        Err(_) => {
            return Err(A52Error::OutOfBits);
        },
    };
    Ok(
        HeaderPrefix {
            fscod,
            halfrate,
            acmod,
            cmixlev,
            surmixlev,
            lfeon,
            pos: cur.offset(),
        },
    )
}

/// The fields of a stream state that frame-header decoding does not touch.
pub open spec fn frame_rest_unchanged(s1: a52_state_s, s0: a52_state_s) -> bool {
    &&& s1.chincpl == s0.chincpl
    &&& s1.phsflginu == s0.phsflginu
    &&& s1.cplstrtmant == s0.cplstrtmant
    &&& s1.cplendmant == s0.cplendmant
    &&& s1.cplbndstrc == s0.cplbndstrc
    &&& s1.cplstrtbnd == s0.cplstrtbnd
    &&& s1.ncplbnd == s0.ncplbnd
    &&& s1.rematflg == s0.rematflg
    &&& s1.endmant == s0.endmant
    &&& s1.bai == s0.bai
    &&& s1.lfsr_state == s0.lfsr_state
    &&& s1.csnroffst == s0.csnroffst
    &&& s1.cplba.bai == s0.cplba.bai
    &&& s1.cplba.deltba == s0.cplba.deltba
    &&& forall|i: int|
        0 <= i < 5 ==> (s1.ba@[i].bai == s0.ba@[i].bai && s1.ba@[i].deltba == s0.ba@[i].deltba)
    &&& s1.lfeba == s0.lfeba
    &&& s1.cplfleak == s0.cplfleak
    &&& s1.cplsleak == s0.cplsleak
    &&& s1.cpl_expbap == s0.cpl_expbap
    &&& s1.fbw_expbap == s0.fbw_expbap
    &&& s1.lfe_expbap == s0.lfe_expbap
    &&& s1.downmixed == s0.downmixed
}

/// The header-derived projection of a stream state: every field a frame
/// decode writes.
#[verifier::ext_equal]
pub ghost struct HeaderView {
    pub fscod: u8,
    pub halfrate: u8,
    pub acmod: u8,
    pub lfeon: u8,
    pub output: i32,
    pub clev_code: u8,
    pub slev_code: u8,
    pub dynrnge: u8,
    pub cpl_deltbae: u8,
    pub ch_deltbae: Seq<u8>,
}

/// The header-derived fields of `s`.
pub open spec fn header_view(s: a52_state_s) -> HeaderView {
    HeaderView {
        fscod: s.fscod,
        halfrate: s.halfrate,
        acmod: s.acmod,
        lfeon: s.lfeon,
        output: s.output,
        clev_code: s.clev_code,
        slev_code: s.slev_code,
        dynrnge: s.dynrnge,
        cpl_deltbae: s.cplba.deltbae,
        ch_deltbae: s.ba@.map_values(|x: ba_t| x.deltbae),
    }
}

/// What a successful frame decode leaves in the header-derived fields,
/// given what they held before.  Only the two mix-level selectors carry
/// over when the mode does not re-code them; everything else is a function
/// of the buffer and the negotiated output alone.  The state keeps the raw
/// coded channel mode: the Dolby pseudo-mode override steers only the
/// mix-level gating and the downmix negotiation, and later decode stages
/// index per-mode tables with this field.
pub open spec fn spec_frame_view(hv: HeaderView, b: Seq<u8>, neg: i32, flags: i32) -> HeaderView {
    HeaderView {
        fscod: b[4] >> 6,
        halfrate: spec_halfrate(b[5]),
        acmod: b[6] >> 5,
        lfeon: if spec_lfeon(b) {
            1u8
        } else {
            0u8
        },
        output: spec_output(neg, spec_lfeon(b), flags),
        clev_code: match spec_cmixlev(b) {
            Some(c) => c,
            None => hv.clev_code,
        },
        slev_code: match spec_surmixlev(b) {
            Some(c) => c,
            None => hv.slev_code,
        },
        dynrnge: 1,
        cpl_deltbae: DELTA_BIT_NONE,
        ch_deltbae: Seq::new(5, |i: int| DELTA_BIT_NONE),
    }
}

/// Decoding the same valid frame into a stream state twice is idempotent:
/// every header-derived field — the channel configuration, the output
/// word, the mix-level selectors and the reset delta-bit-allocation carry
/// flags — comes out the same the second time, with no accumulation.
pub proof fn lemma_frame_idempotent(hv: HeaderView, b: Seq<u8>, neg: i32, flags: i32)
    ensures
        spec_frame_view(spec_frame_view(hv, b, neg, flags), b, neg, flags) == spec_frame_view(
            hv,
            b,
            neg,
            flags,
        ),
{
    assert(spec_frame_view(spec_frame_view(hv, b, neg, flags), b, neg, flags) =~= spec_frame_view(
        hv,
        b,
        neg,
        flags,
    ));
}

/// For every channel-mode value the sync probe and the header decoder
/// agree: the mode bits of the probe's flag word are the decoder's
/// effective channel mode — the Dolby override fires for both exactly when
/// a stereo stream's surround-mode field holds the full-surround value —
/// and the flag word carries the LFE bit exactly when the mode's LFE mask
/// bit is set in the seventh header byte.
pub proof fn lemma_sync_flags_match_header(b: Seq<u8>)
    requires
        b.len() >= 7,
    ensures
        crate::sync::spec_sync_flags(b) & crate::A52_CHANNEL_MASK == spec_acmod_eff(b),
        (crate::sync::spec_sync_flags(b) & crate::A52_LFE != 0) <==> b[6] & crate::sync::spec_lfe_mask(
            (b[6] >> 5) as int,
        ) != 0,
{
    let c6 = b[6];
    assert(c6 >> 5 < 8) by (bit_vector);
    assert(bits_val(b, 51, 0) == 0);
    assert(bits_val(b, 51, 1) == bit_at(b, 51));
    assert(bits_val(b, 51, 2) == 2 * bit_at(b, 51) + bit_at(b, 52));
    assert(bit_at(b, 51) == ((c6 as u32) >> 4) & 1);
    assert(bit_at(b, 52) == ((c6 as u32) >> 3) & 1);
    let hi = ((c6 as u32) >> 4) & 1;
    let lo = ((c6 as u32) >> 3) & 1;
    assert((c6 & 0xf8 == 0x50) <==> (c6 >> 5 == 2 && 2 * (((c6 as u32) >> 4) & 1) + (((c6 as u32)
        >> 3) & 1) == 2)) by (bit_vector);
    let m: i32 = if c6 & 0xf8 == 0x50 {
        crate::A52_DOLBY
    } else {
        (c6 >> 5) as i32
    };
    let l: i32 = if c6 & crate::sync::spec_lfe_mask((c6 >> 5) as int) != 0 {
        crate::A52_LFE
    } else {
        0
    };
    assert((m | l) & 15 == m && ((m | l) & 16 != 0 <==> l == 16)) by (bit_vector)
        requires
            0 <= m <= 10 && (l == 0 || l == 16),
    ;
}

/// A channel block that fails to parse fails the whole block sequence.
proof fn lemma_blocks_none(b: Seq<u8>, p: int, k: nat)
    requires
        k > 0,
        spec_chan_block(b, p) is None,
    ensures
        spec_chan_blocks(b, p, k) is None,
{
}

/// Repeated decoding is idempotent over states: when `s1` came out of
/// decoding a frame into `s0`, and `s2` out of decoding the same frame with
/// the same negotiated output into `s1`, the second decode changed nothing
/// — identical output configuration and levels, with no accumulation
/// beyond the per-frame reset of the carry flags.
pub proof fn lemma_repeated_decode_same_view(
    s0: a52_state_s,
    s1: a52_state_s,
    s2: a52_state_s,
    b: Seq<u8>,
    neg: i32,
    flags: i32,
)
    requires
        header_view(s1) == spec_frame_view(header_view(s0), b, neg, flags),
        header_view(s2) == spec_frame_view(header_view(s1), b, neg, flags),
    ensures
        header_view(s2) == header_view(s1),
{
    lemma_frame_idempotent(header_view(s0), b, neg, flags);
}

/// Second decode phase, resuming after the downmix negotiation.  With a
/// non-negative negotiated output it consumes the per-program info blocks
/// and the header tail, and only then commits the frame's header fields to
/// the state; any failure leaves the state untouched.
pub fn a52_frame_finish(
    state: &mut a52_state_s,
    buf: &[u8],
    prefix: &HeaderPrefix,
    neg_output: i32,
    flags: i32,
) -> (r: Result<i32, A52Error>)
    requires
        buf@.len() >= 7,
        buf@.len() <= MAX_FRAME_BYTES,
        spec_prefix_ok(buf@),
        prefix_matches(*prefix, buf@),
    ensures
        r is Ok <==> (neg_output >= 0 && spec_frame_rest_ok(buf@)),
        r is Err ==> *final(state) == *old(state),
        neg_output < 0 ==> r == Err::<i32, A52Error>(A52Error::DownmixRejected),
        neg_output >= 0 && !spec_frame_rest_ok(buf@) ==> r == Err::<i32, A52Error>(
            A52Error::OutOfBits,
        ),
        r matches Ok(out) ==> {
            &&& out == spec_output(neg_output, spec_lfeon(buf@), flags)
            &&& final(state).output == out
            &&& header_view(*final(state)) == spec_frame_view(
                header_view(*old(state)),
                buf@,
                neg_output,
                flags,
            )
            &&& frame_rest_unchanged(*final(state), *old(state))
        },
{
    let ghost b = buf@;
    if neg_output < 0 {
        return Err(A52Error::DownmixRejected);
    }
    let mut cur = BitCursor::attach(buf);
    match cur.skip(prefix.pos as u32) {
        Ok(_) => {},
        Err(_) => {
            return Err(A52Error::OutOfBits);
        },
    }
    let ghost goal = spec_chan_blocks(b, spec_prefix_end(b), spec_chan_count(b));
    let mut chaninfo: u8 = if prefix.acmod == 0 {
        2
    } else {
        1
    };
    proof {
        assert(chaninfo as nat == spec_chan_count(b));
    }
    while chaninfo > 0
        invariant
            cur.wf(),
            cur.bytes() == b,
            b == buf@,
            goal == spec_chan_blocks(b, spec_prefix_end(b), spec_chan_count(b)),
            spec_chan_blocks(b, cur.position(), chaninfo as nat) == goal,
            neg_output >= 0,
        decreases chaninfo,
    {
        let ghost p = cur.position();
        if cur.skip(5).is_err() {
            proof {
                assert(spec_chan_block(b, p) is None);
                lemma_blocks_none(b, p, chaninfo as nat);
            }
            return Err(A52Error::OutOfBits);
        }
        let compre = match cur.read_bool() {
            Ok(v) => v,
            Err(_) => {
                proof {
                    assert(spec_chan_block(b, p) is None);
                    lemma_blocks_none(b, p, chaninfo as nat);
                }
                return Err(A52Error::OutOfBits);
            },
        };
        if compre {
            if cur.skip(8).is_err() {
                proof {
                    assert(spec_chan_block(b, p) is None);
                    lemma_blocks_none(b, p, chaninfo as nat);
                }
                return Err(A52Error::OutOfBits);
            }
        }
        proof {
            assert(spec_cond_skip(b, p + 5, 8) == Some(cur.position()));
        }
        let ghost p1 = cur.position();
        let langcode = match cur.read_bool() {
            Ok(v) => v,
            Err(_) => {
                proof {
                    assert(spec_chan_block(b, p) is None);
                    lemma_blocks_none(b, p, chaninfo as nat);
                }
                return Err(A52Error::OutOfBits);
            },
        };
        if langcode {
            if cur.skip(8).is_err() {
                proof {
                    assert(spec_chan_block(b, p) is None);
                    lemma_blocks_none(b, p, chaninfo as nat);
                }
                return Err(A52Error::OutOfBits);
            }
        }
        proof {
            assert(spec_cond_skip(b, p1, 8) == Some(cur.position()));
        }
        let ghost p2 = cur.position();
        let audprodie = match cur.read_bool() {
            Ok(v) => v,
            Err(_) => {
                proof {
                    assert(spec_chan_block(b, p) is None);
                    lemma_blocks_none(b, p, chaninfo as nat);
                }
                return Err(A52Error::OutOfBits);
            },
        };
        if audprodie {
            if cur.skip(7).is_err() {
                proof {
                    assert(spec_chan_block(b, p) is None);
                    lemma_blocks_none(b, p, chaninfo as nat);
                }
                return Err(A52Error::OutOfBits);
            }
        }
        proof {
            assert(spec_cond_skip(b, p2, 7) == Some(cur.position()));
            assert(spec_chan_block(b, p) == Some(cur.position()));
        }
        chaninfo = chaninfo - 1;
    }
    proof {
        assert(goal == Some(cur.position()));
    }
    let ghost t = cur.position();
    if cur.skip(2).is_err() {
        return Err(A52Error::OutOfBits);
    }
    let timecod1e = match cur.read_bool() {
        Ok(v) => v,
        Err(_) => {
            return Err(A52Error::OutOfBits);
        },
    };
    if timecod1e {
        if cur.skip(14).is_err() {
            return Err(A52Error::OutOfBits);
        }
    }
    proof {
        assert(spec_cond_skip(b, t + 2, 14) == Some(cur.position()));
    }
    let ghost t1 = cur.position();
    let timecod2e = match cur.read_bool() {
        Ok(v) => v,
        Err(_) => {
            return Err(A52Error::OutOfBits);
        },
    };
    if timecod2e {
        if cur.skip(14).is_err() {
            return Err(A52Error::OutOfBits);
        }
    }
    proof {
        assert(spec_cond_skip(b, t1, 14) == Some(cur.position()));
    }
    let ghost t2 = cur.position();
    let addbsie = match cur.read_bool() {
        Ok(v) => v,
        Err(_) => {
            return Err(A52Error::OutOfBits);
        },
    };
    if addbsie {
        let addbsil = match cur.read(6) {
            Ok(v) => v,
            Err(_) => {
                return Err(A52Error::OutOfBits);
            },
        };
        proof {
            lemma_bits_val_bound(b, t2 + 1, 6);
            lemma2_to64();
        }
        if cur.skip(8 * addbsil).is_err() {
            return Err(A52Error::OutOfBits);
        }
    }
    proof {
        assert(spec_tail(b, t) is Some);
        assert(spec_frame_rest_ok(b));
    }
    state.fscod = prefix.fscod;
    state.halfrate = prefix.halfrate;
    state.acmod = buf[6] >> 5;
    state.lfeon = if prefix.lfeon {
        1
    } else {
        0
    };
    match prefix.cmixlev {
        Some(c) => {
            state.clev_code = c;
        },
        None => {},
    }
    match prefix.surmixlev {
        Some(c) => {
            state.slev_code = c;
        },
        None => {},
    }
    let mut output = neg_output;
    if prefix.lfeon && (flags & crate::A52_LFE) != 0 {
        output = output | crate::A52_LFE;
    }
    state.output = output;
    state.dynrnge = 1;
    state.cplba.deltbae = DELTA_BIT_NONE;
    state.ba[0].deltbae = DELTA_BIT_NONE;
    state.ba[1].deltbae = DELTA_BIT_NONE;
    state.ba[2].deltbae = DELTA_BIT_NONE;
    state.ba[3].deltbae = DELTA_BIT_NONE;
    state.ba[4].deltbae = DELTA_BIT_NONE;
    proof {
        assert(header_view(*state) =~= spec_frame_view(header_view(*old(state)), b, neg_output,
        flags));
    }
    Ok(output)
}

} // verus!


//! What the driver takes from the client's H.264 parameter buffers.
//!
//! `VAEncSequenceParameterBufferH264` and `VAEncPictureParameterBufferH264`
//! are C structures, whose fields are read by their offset.

use crate::bytes::{law_fields_are_little_endian, read_u16, read_u32, u16_at, u32_at};
use vstd::prelude::*;

verus! {

/// Fields of `VAEncSequenceParameterBufferH264`. A field that is zero is one
/// that the client left open.
#[derive(Debug, Clone, Copy, PartialEq, Eq, Structural)]
pub struct SequenceParams {
    pub width: u32,
    pub height: u32,
    pub fps: u32,
    pub bits_per_second: u32,
    pub idr_period: u32,
}

/// Fields of `VAEncPictureParameterBufferH264`.
#[derive(Debug, Clone, Copy, PartialEq, Eq, Structural)]
pub struct PictureParams {
    pub force_idr: bool,
    /// ID of the buffer that the coded frame goes to, or zero.
    pub coded_buf: u32,
}

/// A picture without parameters of its own.
pub open spec fn plain_picture() -> PictureParams {
    PictureParams { force_idr: false, coded_buf: 0 }
}

impl Default for PictureParams {
    fn default() -> (params: Self)
        ensures
            params == plain_picture(),
    {
        PictureParams { force_idr: false, coded_buf: 0 }
    }
}

/// Size of `VAEncSequenceParameterBufferH264`.
pub const SEQUENCE_PARAM_SIZE: usize = 1132;

/// Size of `VAEncPictureParameterBufferH264`.
pub const PICTURE_PARAM_SIZE: usize = 648;

/// A length in pixels: macroblocks of 16 less what is cropped on both sides,
/// in units of two pixels; nothing where more is cropped than there is.
pub open spec fn cropped(mbs: int, cropping: bool, low: int, high: int) -> int {
    let full = 16 * mbs;
    let cut = if cropping {
        2 * (low + high)
    } else {
        0
    };
    if cut <= full {
        full - cut
    } else {
        0
    }
}

/// The frame rate of a stream with timing information: two ticks per frame,
/// rounded down.
pub open spec fn frame_rate(has_timing: bool, num_units_in_tick: int, time_scale: int) -> int {
    if has_timing && num_units_in_tick > 0 {
        time_scale / (2 * num_units_in_tick)
    } else {
        0
    }
}

/// The sequence parameters in a buffer.
pub open spec fn sequence_in(b: Seq<u8>) -> Option<SequenceParams> {
    if b.len() < SEQUENCE_PARAM_SIZE {
        None
    } else {
        Some(
            SequenceParams {
                width: cropped(u16_at(b, 24), b[1068] != 0, u32_at(b, 1072), u32_at(b, 1076)) as u32,
                height: cropped(
                    u16_at(b, 26),
                    b[1068] != 0,
                    u32_at(b, 1080),
                    u32_at(b, 1084),
                ) as u32,
                fps: frame_rate(b[1088] != 0, u32_at(b, 1108), u32_at(b, 1112)) as u32,
                bits_per_second: u32_at(b, 16) as u32,
                idr_period: u32_at(b, 8) as u32,
            },
        )
    }
}

/// The picture parameters in a buffer. The lowest bit of `pic_fields` is
/// `idr_pic_flag`.
pub open spec fn picture_in(b: Seq<u8>) -> Option<PictureParams> {
    if b.len() < PICTURE_PARAM_SIZE {
        None
    } else {
        Some(
            PictureParams { force_idr: b[628] % 2 == 1, coded_buf: u32_at(b, 612) as u32 },
        )
    }
}

fn crop(mbs: u32, cropping: bool, low: u32, high: u32) -> (pixels: u32)
    requires
        mbs <= 0xFFFF,
    ensures
        pixels == cropped(mbs as int, cropping, low as int, high as int),
{
    let full: u64 = 16 * (mbs as u64);
    let cut: u64 = if cropping {
        2 * (low as u64 + high as u64)
    } else {
        0
    };
    if cut <= full {
        (full - cut) as u32
    } else {
        0
    }
}

/// Read the sequence parameters, if the buffer is long enough to hold them.
pub fn parse_sps(bytes: &[u8]) -> (params: Option<SequenceParams>)
    ensures
        params == sequence_in(bytes@),
{
    if bytes.len() < SEQUENCE_PARAM_SIZE {
        return None;
    }
    let cropping = bytes[1068] != 0;
    let width: u32 = crop(
        read_u16(bytes, 24),
        cropping,
        read_u32(bytes, 1072),
        read_u32(bytes, 1076),
    );
    let height: u32 = crop(
        read_u16(bytes, 26),
        cropping,
        read_u32(bytes, 1080),
        read_u32(bytes, 1084),
    );
    let units: u32 = read_u32(bytes, 1108);
    let scale: u32 = read_u32(bytes, 1112);
    let fps: u32 = if bytes[1088] != 0 && units > 0 {
        proof {
            let u = units as int;
            let s = scale as int;
            assert(0 <= s / (2 * u) <= s) by (nonlinear_arith)
                requires
                    u > 0,
                    s >= 0,
            ;
        }
        (scale as u64 / (2 * (units as u64))) as u32
    } else {
        0
    };
    Some(
        SequenceParams {
            width,
            height,
            fps,
            bits_per_second: read_u32(bytes, 16),
            idr_period: read_u32(bytes, 8),
        },
    )
}

/// Read the picture parameters, if the buffer is long enough to hold them.
pub fn parse_pps(bytes: &[u8]) -> (params: Option<PictureParams>)
    ensures
        params == picture_in(bytes@),
{
    if bytes.len() < PICTURE_PARAM_SIZE {
        return None;
    }
    Some(PictureParams { force_idr: bytes[628] % 2 == 1, coded_buf: read_u32(bytes, 612) })
}

// ---------------------------------------------------------------------------
// Laws
// ---------------------------------------------------------------------------

/// A side of the picture and what is cropped from it make up whole macroblocks.
/// Where more is cropped than there is, nothing is left.
pub proof fn law_cropping_adds_up(mbs: int, low: int, high: int)
    requires
        0 <= mbs,
        0 <= low,
        0 <= high,
    ensures
        cropped(mbs, false, low, high) == 16 * mbs,
        low + high <= 8 * mbs ==> cropped(mbs, true, low, high) + 2 * low + 2 * high == 16 * mbs,
        low + high > 8 * mbs ==> cropped(mbs, true, low, high) == 0,
{
}

/// The frame rate is the greatest whole number of frames, of two ticks each,
/// that fit in a second. Without timing information there is none.
pub proof fn law_frame_rate_fits_the_clock(num_units_in_tick: int, time_scale: int)
    requires
        0 <= time_scale,
    ensures
        num_units_in_tick > 0 ==> frame_rate(true, num_units_in_tick, time_scale) * (2
            * num_units_in_tick) <= time_scale < (frame_rate(true, num_units_in_tick, time_scale)
            + 1) * (2 * num_units_in_tick),
        num_units_in_tick <= 0 ==> frame_rate(true, num_units_in_tick, time_scale) == 0,
        frame_rate(false, num_units_in_tick, time_scale) == 0,
{
    if num_units_in_tick > 0 {
        let d = 2 * num_units_in_tick;
        let q = time_scale / d;
        assert(q * d <= time_scale < (q + 1) * d) by (nonlinear_arith)
            requires
                d > 0,
                q == time_scale / d,
        ;
    }
}

/// Sequence parameters are read from a whole structure and from nothing less:
/// bitrate and IDR period word for word, the width from the horizontal fields
/// and the height from the vertical ones.
pub proof fn law_sequence_parameters_are_the_clients(b: Seq<u8>)
    ensures
        sequence_in(b) is Some <==> b.len() >= 1132,
        sequence_in(b) matches Some(p) ==> {
            let across = 2 * (u32_at(b, 1072) + u32_at(b, 1076));
            let down = 2 * (u32_at(b, 1080) + u32_at(b, 1084));
            &&& p.idr_period == u32_at(b, 8)
            &&& p.bits_per_second == u32_at(b, 16)
            &&& b[1068] == 0 ==> p.width == 16 * u16_at(b, 24) && p.height == 16 * u16_at(b, 26)
            &&& b[1068] != 0 && across <= 16 * u16_at(b, 24) ==> p.width + across == 16 * u16_at(
                b,
                24,
            )
            &&& b[1068] != 0 && down <= 16 * u16_at(b, 26) ==> p.height + down == 16 * u16_at(b, 26)
            &&& b[1068] != 0 && across > 16 * u16_at(b, 24) ==> p.width == 0
            &&& b[1068] != 0 && down > 16 * u16_at(b, 26) ==> p.height == 0
            &&& b[1088] == 0 || u32_at(b, 1108) == 0 ==> p.fps == 0
            &&& b[1088] != 0 && u32_at(b, 1108) > 0 ==> p.fps * (2 * u32_at(b, 1108)) <= u32_at(
                b,
                1112,
            ) < (p.fps + 1) * (2 * u32_at(b, 1108))
        },
{
    law_fields_are_little_endian(b, 8);
    law_fields_are_little_endian(b, 16);
    law_fields_are_little_endian(b, 24);
    law_fields_are_little_endian(b, 26);
    law_fields_are_little_endian(b, 1072);
    law_fields_are_little_endian(b, 1076);
    law_fields_are_little_endian(b, 1080);
    law_fields_are_little_endian(b, 1084);
    law_fields_are_little_endian(b, 1108);
    law_fields_are_little_endian(b, 1112);
    let units = u32_at(b, 1108);
    let scale = u32_at(b, 1112);
    law_frame_rate_fits_the_clock(units, scale);
    if units > 0 {
        let q = scale / (2 * units);
        assert(0 <= q <= scale) by (nonlinear_arith)
            requires
                units > 0,
                scale >= 0,
                q == scale / (2 * units),
        ;
    }
}

/// Picture parameters are read from a whole structure and from nothing less: the
/// coded buffer word for word, and an IDR exactly where the lowest bit of the
/// picture fields is set.
pub proof fn law_picture_parameters_are_the_clients(b: Seq<u8>)
    ensures
        picture_in(b) is Some <==> b.len() >= 648,
        picture_in(b) matches Some(p) ==> p.coded_buf == u32_at(b, 612) && (p.force_idr
            <==> u32_at(b, 628) % 2 == 1),
        !plain_picture().force_idr,
        plain_picture().coded_buf == 0,
{
    law_fields_are_little_endian(b, 612);
    law_fields_are_little_endian(b, 628);
}

} // verus!

//! What the driver takes from the client's `VAEncMiscParameterBuffer`s.
//!
//! Such a buffer is a type word and the structure of that type. A rate control
//! structure begins with the bits per second, a frame rate structure with a
//! fraction: the numerator in the low half of a word, the denominator in the
//! high half, where zero stands for one. Buffers of other types say nothing
//! here.

use crate::bytes::{law_fields_are_little_endian, read_u16, read_u32, u16_at, u32_at};
use crate::nvenc::h264_config::EncoderConfig;
use crate::va;
use vstd::prelude::*;

verus! {

/// The rates that a client asks for. A field that is zero is one that the
/// client left open.
#[derive(Debug, Clone, Copy, PartialEq, Eq, Structural)]
pub struct RateParams {
    pub bits_per_second: u32,
    pub fps_num: u32,
    pub fps_den: u32,
}

/// Size of the type word and the one field that is read of any structure.
pub const MISC_PARAM_SIZE: usize = 8;

/// Rates that leave everything open.
pub open spec fn open_rates() -> RateParams {
    RateParams { bits_per_second: 0, fps_num: 0, fps_den: 0 }
}

impl Default for RateParams {
    fn default() -> (rates: Self)
        ensures
            rates == open_rates(),
    {
        RateParams { bits_per_second: 0, fps_num: 0, fps_den: 0 }
    }
}

/// Rates after one more buffer. What the buffer leaves open stays.
pub open spec fn rates_after(rates: RateParams, b: Seq<u8>) -> RateParams {
    if b.len() < MISC_PARAM_SIZE {
        rates
    } else if u32_at(b, 0) == va::VA_ENC_MISC_PARAMETER_TYPE_RATE_CONTROL && u32_at(b, 4) > 0 {
        RateParams { bits_per_second: u32_at(b, 4) as u32, ..rates }
    } else if u32_at(b, 0) == va::VA_ENC_MISC_PARAMETER_TYPE_FRAME_RATE && u16_at(b, 4) > 0 {
        RateParams {
            fps_num: u16_at(b, 4) as u32,
            fps_den: if u16_at(b, 6) > 0 {
                u16_at(b, 6) as u32
            } else {
                1
            },
            ..rates
        }
    } else {
        rates
    }
}

/// The rates in the buffers of a frame, of which later ones win.
pub open spec fn rates_in(buffers: Seq<Seq<u8>>) -> RateParams
    decreases buffers.len(),
{
    if buffers.len() == 0 {
        open_rates()
    } else {
        rates_after(rates_in(buffers.drop_last()), buffers.last())
    }
}

/// The bytes of several buffers.
pub open spec fn all_bytes(buffers: Seq<Vec<u8>>) -> Seq<Seq<u8>> {
    buffers.map_values(|b: Vec<u8>| b@)
}

/// Take the rates of one buffer in.
pub fn parse_misc(rates: RateParams, bytes: &[u8]) -> (after: RateParams)
    ensures
        after == rates_after(rates, bytes@),
{
    if bytes.len() < MISC_PARAM_SIZE {
        return rates;
    }
    let mut after = rates;
    let misc_type: u32 = read_u32(bytes, 0);
    if misc_type == va::VA_ENC_MISC_PARAMETER_TYPE_RATE_CONTROL {
        let bits_per_second: u32 = read_u32(bytes, 4);
        if bits_per_second > 0 {
            after.bits_per_second = bits_per_second;
        }
    } else if misc_type == va::VA_ENC_MISC_PARAMETER_TYPE_FRAME_RATE {
        let num: u32 = read_u16(bytes, 4);
        let den: u32 = read_u16(bytes, 6);
        if num > 0 {
            after.fps_num = num;
            after.fps_den = if den > 0 {
                den
            } else {
                1
            };
        }
    }
    after
}

/// Take the rates of all buffers of a frame in, in order.
pub fn parse_all_misc(buffers: &Vec<Vec<u8>>) -> (rates: RateParams)
    ensures
        rates == rates_in(all_bytes(buffers@)),
{
    let ghost all = all_bytes(buffers@);
    let mut rates = RateParams::default();
    let mut i: usize = 0;
    while i < buffers.len()
        invariant
            i <= buffers.len(),
            all == all_bytes(buffers@),
            rates == rates_in(all.take(i as int)),
        decreases buffers.len() - i,
    {
        proof {
            assert(all.take(i + 1).drop_last() =~= all.take(i as int));
            assert(all.take(i + 1).last() == buffers@[i as int]@);
        }
        rates = parse_misc(rates, buffers[i].as_slice());
        i += 1;
    }
    proof {
        assert(all.take(i as int) =~= all);
    }
    rates
}

/// A configuration with a client's rates merged in.
pub open spec fn rated_config(rates: RateParams, current: EncoderConfig) -> EncoderConfig {
    EncoderConfig {
        bitrate_bps: if rates.bits_per_second > 0 {
            rates.bits_per_second
        } else {
            current.bitrate_bps
        },
        fps_num: if rates.fps_num > 0 {
            rates.fps_num
        } else {
            current.fps_num
        },
        fps_den: if rates.fps_num > 0 {
            rates.fps_den
        } else {
            current.fps_den
        },
        ..current
    }
}

/// Merge a client's rates into a configuration.
pub fn build_cfg_from_rates(rates: &RateParams, current: &EncoderConfig) -> (cfg: EncoderConfig)
    ensures
        cfg == rated_config(*rates, *current),
{
    let mut out = *current;
    if rates.bits_per_second > 0 {
        out.bitrate_bps = rates.bits_per_second;
    }
    if rates.fps_num > 0 {
        out.fps_num = rates.fps_num;
        out.fps_den = rates.fps_den;
    }
    out
}

/// Every frame rate that a client can ask for has a denominator.
pub proof fn law_frame_rate_is_a_fraction(buffers: Seq<Seq<u8>>)
    ensures
        rates_in(buffers).fps_num > 0 ==> rates_in(buffers).fps_den > 0,
    decreases buffers.len(),
{
    if buffers.len() > 0 {
        law_frame_rate_is_a_fraction(buffers.drop_last());
    }
}

/// Rates touch the bitrate and the frame rate alone, and without any the
/// configuration stays as it is.
pub proof fn law_rates_touch_nothing_else(rates: RateParams, current: EncoderConfig)
    ensures
        rated_config(open_rates(), current) == current,
        rated_config(rates, current) == (EncoderConfig {
            bitrate_bps: rated_config(rates, current).bitrate_bps,
            fps_num: rated_config(rates, current).fps_num,
            fps_den: rated_config(rates, current).fps_den,
            ..current
        }),
{
}

/// A rate control buffer sets the bitrate to the one it names and leaves the
/// frame rate; a frame rate buffer sets the frame rate to its fraction and
/// leaves the bitrate; every other buffer leaves both.
pub proof fn law_misc_buffers_set_their_rate(rates: RateParams, b: Seq<u8>)
    ensures
        ({
            let after = rates_after(rates, b);
            let of_type = |t: int| b.len() >= 8 && u32_at(b, 0) == t;
            &&& of_type(1) && u32_at(b, 4) > 0 ==> after.bits_per_second == u32_at(b, 4)
            &&& !of_type(1) || u32_at(b, 4) == 0 ==> after.bits_per_second == rates.bits_per_second
            &&& of_type(0) && u16_at(b, 4) > 0 ==> after.fps_num == u16_at(b, 4)
            &&& of_type(0) && u16_at(b, 4) > 0 && u16_at(b, 6) > 0 ==> after.fps_den == u16_at(b, 6)
            &&& of_type(0) && u16_at(b, 4) > 0 && u16_at(b, 6) == 0 ==> after.fps_den == 1
            &&& !of_type(0) || u16_at(b, 4) == 0 ==> after.fps_num == rates.fps_num && after.fps_den
                == rates.fps_den
        }),
{
    law_fields_are_little_endian(b, 4);
    law_fields_are_little_endian(b, 6);
}

/// Buffers are taken in one after the other, from rates that leave everything
/// open: the last one that names a rate wins.
pub proof fn law_later_buffers_win(buffers: Seq<Seq<u8>>, b: Seq<u8>)
    ensures
        rates_in(buffers.push(b)) == rates_after(rates_in(buffers), b),
        rates_in(Seq::empty()).bits_per_second == 0,
        rates_in(Seq::empty()).fps_num == 0,
{
    assert(buffers.push(b).drop_last() =~= buffers);
}

/// What the client asks for is what is configured: a given bitrate and a given
/// frame rate are taken as they are, higher or lower than those in force.
pub proof fn law_given_rates_are_configured(rates: RateParams, current: EncoderConfig)
    ensures
        ({
            let cfg = rated_config(rates, current);
            &&& rates.bits_per_second > 0 ==> cfg.bitrate_bps == rates.bits_per_second
            &&& rates.bits_per_second == 0 ==> cfg.bitrate_bps == current.bitrate_bps
            &&& rates.fps_num > 0 ==> cfg.fps_num == rates.fps_num && cfg.fps_den == rates.fps_den
            &&& rates.fps_num == 0 ==> cfg.fps_num == current.fps_num && cfg.fps_den
                == current.fps_den
            &&& cfg.width == current.width && cfg.height == current.height
            &&& cfg.gop_length == current.gop_length
            &&& cfg.profile == current.profile
            &&& cfg.rc_mode == current.rc_mode
            &&& cfg.repeat_sps_pps == current.repeat_sps_pps
        }),
{
}

} // verus!

//! `vaQueryConfigProfiles`, `vaQueryConfigEntrypoints`,
//! `vaGetConfigAttributes`, `vaCreateConfig`, `vaDestroyConfig`,
//! `vaQueryConfigAttributes`.
//!
//! Profiles: H.264 Constrained Baseline, Main and High. Entrypoint:
//! `VAEntrypointEncSlice`. Format: `VA_RT_FORMAT_YUV420`. Rate control: CBR,
//! VBR and CQP.

use crate::driver::state::{ConfigRec, Pools};
use crate::error::{DriverError, DriverResult};
use crate::ids::{find_id, gained, lost, ConfigKey, ContainsKey};
use crate::nvenc::params::profile_of_va;
use crate::va;
use crate::va::{VAConfigAttribType, VAEntrypoint, VAProfile};
use vstd::prelude::*;

verus! {

/// `VAConfigAttrib`.
#[derive(Debug, Clone, Copy, PartialEq, Eq, Structural)]
pub struct ConfigAttrib {
    pub type_: VAConfigAttribType,
    pub value: u32,
}

/// The profiles of the driver.
pub open spec fn supported_profiles() -> Seq<VAProfile> {
    seq![
        va::VA_PROFILE_H264_CONSTRAINED_BASELINE,
        va::VA_PROFILE_H264_MAIN,
        va::VA_PROFILE_H264_HIGH,
    ]
}

/// The entrypoints of the driver.
pub open spec fn supported_entrypoints() -> Seq<VAEntrypoint> {
    seq![va::VA_ENTRYPOINT_ENC_SLICE]
}

fn is_supported_profile(profile: VAProfile) -> (yes: bool)
    ensures
        yes == supported_profiles().contains(profile),
{
    proof {
        let s = supported_profiles();
        assert(s[0] == va::VA_PROFILE_H264_CONSTRAINED_BASELINE);
        assert(s[1] == va::VA_PROFILE_H264_MAIN);
        assert(s[2] == va::VA_PROFILE_H264_HIGH);
    }
    profile == va::VA_PROFILE_H264_CONSTRAINED_BASELINE || profile == va::VA_PROFILE_H264_MAIN
        || profile == va::VA_PROFILE_H264_HIGH
}

fn is_supported_entrypoint(entrypoint: VAEntrypoint) -> (yes: bool)
    ensures
        yes == supported_entrypoints().contains(entrypoint),
{
    proof {
        assert(supported_entrypoints()[0] == va::VA_ENTRYPOINT_ENC_SLICE);
    }
    entrypoint == va::VA_ENTRYPOINT_ENC_SLICE
}

/// Report the profiles, where there is a place for the list and its length.
pub fn query_config_profiles(has_list: bool, has_count: bool) -> (r: DriverResult<Vec<VAProfile>>)
    ensures
        if has_list && has_count {
            r matches Ok(profiles) && profiles@ == supported_profiles()
        } else {
            r matches Err(e) && e == DriverError::InvalidParameter
        },
{
    if !has_list || !has_count {
        return Err(DriverError::InvalidParameter);
    }
    let profiles: Vec<VAProfile> = vec![
        va::VA_PROFILE_H264_CONSTRAINED_BASELINE,
        va::VA_PROFILE_H264_MAIN,
        va::VA_PROFILE_H264_HIGH,
    ];
    proof {
        assert(profiles@ =~= supported_profiles());
    }
    Ok(profiles)
}

/// Report the entrypoints of a profile.
pub fn query_config_entrypoints(profile: VAProfile, has_list: bool, has_count: bool) -> (r:
    DriverResult<Vec<VAEntrypoint>>)
    ensures
        if !has_list || !has_count {
            r matches Err(e) && e == DriverError::InvalidParameter
        } else if !supported_profiles().contains(profile) {
            r matches Err(e) && e == DriverError::UnsupportedProfile
        } else {
            r matches Ok(entrypoints) && entrypoints@ == supported_entrypoints()
        },
{
    if !has_list || !has_count {
        return Err(DriverError::InvalidParameter);
    }
    if !is_supported_profile(profile) {
        return Err(DriverError::UnsupportedProfile);
    }
    let entrypoints: Vec<VAEntrypoint> = vec![va::VA_ENTRYPOINT_ENC_SLICE];
    proof {
        assert(entrypoints@ =~= supported_entrypoints());
    }
    Ok(entrypoints)
}

/// The value of a config attribute, for every profile and entrypoint.
pub open spec fn attrib_value(type_: VAConfigAttribType) -> u32 {
    if type_ == va::VA_CONFIG_ATTRIB_RT_FORMAT {
        va::VA_RT_FORMAT_YUV420
    } else if type_ == va::VA_CONFIG_ATTRIB_RATE_CONTROL {
        va::VA_RC_CBR | va::VA_RC_VBR | va::VA_RC_CQP
    } else if type_ == va::VA_CONFIG_ATTRIB_ENC_PACKED_HEADERS {
        va::VA_ENC_PACKED_HEADER_SEQUENCE | va::VA_ENC_PACKED_HEADER_PICTURE
            | va::VA_ENC_PACKED_HEADER_SLICE
    } else if type_ == va::VA_CONFIG_ATTRIB_ENC_MAX_REF_FRAMES {
        1
    } else if type_ == va::VA_CONFIG_ATTRIB_ENC_INTERLACED {
        va::VA_ENC_INTERLACED_NONE
    } else if type_ == va::VA_CONFIG_ATTRIB_ENC_MAX_SLICES {
        1
    } else if type_ == va::VA_CONFIG_ATTRIB_ENC_SLICE_STRUCTURE {
        va::VA_ENC_SLICE_STRUCTURE_POWER_OF_TWO_ROWS
    } else {
        va::VA_ATTRIB_NOT_SUPPORTED
    }
}

fn value_of_attrib(type_: VAConfigAttribType) -> (value: u32)
    ensures
        value == attrib_value(type_),
{
    if type_ == va::VA_CONFIG_ATTRIB_RT_FORMAT {
        va::VA_RT_FORMAT_YUV420
    } else if type_ == va::VA_CONFIG_ATTRIB_RATE_CONTROL {
        va::VA_RC_CBR | va::VA_RC_VBR | va::VA_RC_CQP
    } else if type_ == va::VA_CONFIG_ATTRIB_ENC_PACKED_HEADERS {
        va::VA_ENC_PACKED_HEADER_SEQUENCE | va::VA_ENC_PACKED_HEADER_PICTURE
            | va::VA_ENC_PACKED_HEADER_SLICE
    } else if type_ == va::VA_CONFIG_ATTRIB_ENC_MAX_REF_FRAMES {
        1
    } else if type_ == va::VA_CONFIG_ATTRIB_ENC_INTERLACED {
        va::VA_ENC_INTERLACED_NONE
    } else if type_ == va::VA_CONFIG_ATTRIB_ENC_MAX_SLICES {
        1
    } else if type_ == va::VA_CONFIG_ATTRIB_ENC_SLICE_STRUCTURE {
        va::VA_ENC_SLICE_STRUCTURE_POWER_OF_TWO_ROWS
    } else {
        va::VA_ATTRIB_NOT_SUPPORTED
    }
}

/// Why a profile and an entrypoint cannot be used together.
pub open spec fn unsupported(profile: VAProfile, entrypoint: VAEntrypoint) -> Option<DriverError> {
    if !supported_profiles().contains(profile) {
        Some(DriverError::UnsupportedProfile)
    } else if !supported_entrypoints().contains(entrypoint) {
        Some(DriverError::UnsupportedEntrypoint)
    } else {
        None
    }
}

/// Fill in the values of attributes. The list is empty where the client passed
/// none.
pub fn get_config_attributes(
    profile: VAProfile,
    entrypoint: VAEntrypoint,
    attribs: &mut Vec<ConfigAttrib>,
) -> (r: DriverResult<()>)
    ensures
        if old(attribs)@.len() == 0 {
            final(attribs)@ == old(attribs)@ && r == Err::<(), DriverError>(
                DriverError::InvalidParameter,
            )
        } else {
            match unsupported(profile, entrypoint) {
                Some(e) => final(attribs)@ == old(attribs)@ && r == Err::<(), DriverError>(e),
                None => r is Ok && final(attribs)@ == old(attribs)@.map_values(
                    |a: ConfigAttrib|
                        ConfigAttrib { type_: a.type_, value: attrib_value(a.type_) },
                ),
            }
        },
{
    if attribs.len() == 0 {
        return Err(DriverError::InvalidParameter);
    }
    if !is_supported_profile(profile) {
        return Err(DriverError::UnsupportedProfile);
    }
    if !is_supported_entrypoint(entrypoint) {
        return Err(DriverError::UnsupportedEntrypoint);
    }
    let ghost asked = attribs@;
    let mut i: usize = 0;
    while i < attribs.len()
        invariant
            i <= attribs.len(),
            attribs@.len() == asked.len(),
            forall|j: int|
                0 <= j < i ==> #[trigger] attribs@[j] == (ConfigAttrib {
                    type_: asked[j].type_,
                    value: attrib_value(asked[j].type_),
                }),
            forall|j: int| i <= j < asked.len() ==> #[trigger] attribs@[j] == asked[j],
        decreases attribs.len() - i,
    {
        let type_: u32 = attribs[i].type_;
        let value: u32 = value_of_attrib(type_);
        attribs.set(i, ConfigAttrib { type_, value });
        i += 1;
    }
    proof {
        assert(attribs@ =~= asked.map_values(
            |a: ConfigAttrib| ConfigAttrib { type_: a.type_, value: attrib_value(a.type_) },
        ));
    }
    Ok(())
}

/// The value of the last attribute of a type in a list, or a default.
pub open spec fn last_value(
    attribs: Seq<ConfigAttrib>,
    type_: VAConfigAttribType,
    default: u32,
) -> u32
    decreases attribs.len(),
{
    if attribs.len() == 0 {
        default
    } else if attribs.last().type_ == type_ {
        attribs.last().value
    } else {
        last_value(attribs.drop_last(), type_, default)
    }
}

/// Whether an attribute asks for a format other than YUV 4:2:0.
pub open spec fn refuses_yuv420(a: ConfigAttrib) -> bool {
    a.type_ == va::VA_CONFIG_ATTRIB_RT_FORMAT && a.value & va::VA_RT_FORMAT_YUV420 == 0
}

/// Whether any attribute of a list does.
pub open spec fn any_refuses_yuv420(attribs: Seq<ConfigAttrib>) -> bool {
    exists|i: int| 0 <= i < attribs.len() && refuses_yuv420(#[trigger] attribs[i])
}

/// The record of a new config. What the client does not say is YUV 4:2:0, CBR,
/// and no packed headers.
pub open spec fn new_config(
    profile: VAProfile,
    entrypoint: VAEntrypoint,
    attribs: Seq<ConfigAttrib>,
) -> ConfigRec {
    ConfigRec {
        profile,
        entrypoint,
        rt_format: last_value(attribs, va::VA_CONFIG_ATTRIB_RT_FORMAT, va::VA_RT_FORMAT_YUV420),
        rc_mode: last_value(attribs, va::VA_CONFIG_ATTRIB_RATE_CONTROL, va::VA_RC_CBR),
        packed_headers: last_value(attribs, va::VA_CONFIG_ATTRIB_ENC_PACKED_HEADERS, 0),
    }
}

/// Why a config cannot be created.
pub open spec fn config_error(
    profile: VAProfile,
    entrypoint: VAEntrypoint,
    attribs: Seq<ConfigAttrib>,
    has_out: bool,
) -> Option<DriverError> {
    if !has_out {
        Some(DriverError::InvalidParameter)
    } else if unsupported(profile, entrypoint) is Some {
        unsupported(profile, entrypoint)
    } else if any_refuses_yuv420(attribs) {
        Some(DriverError::UnsupportedRtFormat)
    } else {
        None
    }
}

/// Nothing but the configs changed.
pub open spec fn only_configs(before: Pools, after: Pools) -> bool {
    &&& after.surfaces == before.surfaces
    &&& after.contexts == before.contexts
    &&& after.buffers == before.buffers
    &&& after.images == before.images
}

/// Create a config. The list is empty where the client passed none.
pub fn create_config(
    pools: &mut Pools,
    profile: VAProfile,
    entrypoint: VAEntrypoint,
    attribs: &[ConfigAttrib],
    has_out: bool,
) -> (r: DriverResult<u32>)
    requires
        old(pools).wf(),
        old(pools).configs.has_room(),
    ensures
        final(pools).wf(),
        only_configs(*old(pools), *final(pools)),
        match config_error(profile, entrypoint, attribs@, has_out) {
            Some(e) => *final(pools) == *old(pools) && r == Err::<u32, DriverError>(e),
            None => r matches Ok(id) && gained(
                old(pools).configs,
                final(pools).configs,
                id,
                new_config(profile, entrypoint, attribs@),
            ),
        },
{
    if !has_out {
        return Err(DriverError::InvalidParameter);
    }
    if !is_supported_profile(profile) {
        return Err(DriverError::UnsupportedProfile);
    }
    if !is_supported_entrypoint(entrypoint) {
        return Err(DriverError::UnsupportedEntrypoint);
    }
    let mut rt_format: u32 = va::VA_RT_FORMAT_YUV420;
    let mut rc_mode: u32 = va::VA_RC_CBR;
    let mut packed: u32 = 0;
    let mut i: usize = 0;
    while i < attribs.len()
        invariant
            i <= attribs.len(),
            has_out,
            unsupported(profile, entrypoint) is None,
            pools.wf(),
            *pools == *old(pools),
            forall|j: int| 0 <= j < i ==> !refuses_yuv420(#[trigger] attribs@[j]),
            rt_format == last_value(
                attribs@.take(i as int),
                va::VA_CONFIG_ATTRIB_RT_FORMAT,
                va::VA_RT_FORMAT_YUV420,
            ),
            rc_mode == last_value(
                attribs@.take(i as int),
                va::VA_CONFIG_ATTRIB_RATE_CONTROL,
                va::VA_RC_CBR,
            ),
            packed == last_value(
                attribs@.take(i as int),
                va::VA_CONFIG_ATTRIB_ENC_PACKED_HEADERS,
                0,
            ),
        decreases attribs.len() - i,
    {
        let a = attribs[i];
        proof {
            assert(attribs@.take(i + 1).drop_last() =~= attribs@.take(i as int));
            assert(attribs@.take(i + 1).last() == a);
        }
        if a.type_ == va::VA_CONFIG_ATTRIB_RT_FORMAT {
            if a.value & va::VA_RT_FORMAT_YUV420 == 0 {
                proof {
                    assert(refuses_yuv420(attribs@[i as int]));
                }
                return Err(DriverError::UnsupportedRtFormat);
            }
            rt_format = a.value;
        } else if a.type_ == va::VA_CONFIG_ATTRIB_RATE_CONTROL {
            rc_mode = a.value;
        } else if a.type_ == va::VA_CONFIG_ATTRIB_ENC_PACKED_HEADERS {
            packed = a.value;
        }
        i += 1;
    }
    proof {
        assert(attribs@.take(i as int) =~= attribs@);
    }
    let rec = ConfigRec { profile, entrypoint, rt_format, rc_mode, packed_headers: packed };
    Ok(pools.configs.insert_id(rec))
}

/// Destroy a config.
pub fn destroy_config(pools: &mut Pools, config_id: u32) -> (r: DriverResult<()>)
    requires
        old(pools).wf(),
    ensures
        final(pools).wf(),
        only_configs(*old(pools), *final(pools)),
        match find_id(old(pools).configs@, config_id) {
            None => *final(pools) == *old(pools) && r == Err::<(), DriverError>(
                DriverError::InvalidConfig,
            ),
            Some(k) => r is Ok && lost(old(pools).configs, final(pools).configs, k),
        },
{
    match pools.configs.remove_id(config_id) {
        Some(_) => Ok(()),
        None => Err(DriverError::InvalidConfig),
    }
}

/// What `vaQueryConfigAttributes` reports of every config. Clients drop a
/// profile whose configs report no format.
pub open spec fn reported_attribs() -> Seq<ConfigAttrib> {
    seq![
        ConfigAttrib {
            type_: va::VA_CONFIG_ATTRIB_RT_FORMAT,
            value: va::VA_RT_FORMAT_YUV420,
        },
        ConfigAttrib {
            type_: va::VA_CONFIG_ATTRIB_RATE_CONTROL,
            value: va::VA_RC_CBR | va::VA_RC_VBR | va::VA_RC_CQP,
        },
        ConfigAttrib { type_: va::VA_CONFIG_ATTRIB_ENC_PACKED_HEADERS, value: 0x7 },
        ConfigAttrib { type_: va::VA_CONFIG_ATTRIB_ENC_MAX_REF_FRAMES, value: 1 },
        ConfigAttrib { type_: va::VA_CONFIG_ATTRIB_ENC_MAX_SLICES, value: 1 },
        ConfigAttrib {
            type_: va::VA_CONFIG_ATTRIB_ENC_SLICE_STRUCTURE,
            value: va::VA_ENC_SLICE_STRUCTURE_POWER_OF_TWO_ROWS,
        },
    ]
}

/// The attributes reported of every config: packed sequence, picture and slice
/// headers, one reference frame, one slice.
pub fn config_attribs() -> (attribs: Vec<ConfigAttrib>)
    ensures
        attribs@ == reported_attribs(),
{
    let attribs: Vec<ConfigAttrib> = vec![
        ConfigAttrib { type_: va::VA_CONFIG_ATTRIB_RT_FORMAT, value: va::VA_RT_FORMAT_YUV420 },
        ConfigAttrib {
            type_: va::VA_CONFIG_ATTRIB_RATE_CONTROL,
            value: va::VA_RC_CBR | va::VA_RC_VBR | va::VA_RC_CQP,
        },
        ConfigAttrib { type_: va::VA_CONFIG_ATTRIB_ENC_PACKED_HEADERS, value: 0x7 },
        ConfigAttrib { type_: va::VA_CONFIG_ATTRIB_ENC_MAX_REF_FRAMES, value: 1 },
        ConfigAttrib { type_: va::VA_CONFIG_ATTRIB_ENC_MAX_SLICES, value: 1 },
        ConfigAttrib {
            type_: va::VA_CONFIG_ATTRIB_ENC_SLICE_STRUCTURE,
            value: va::VA_ENC_SLICE_STRUCTURE_POWER_OF_TWO_ROWS,
        },
    ];
    proof {
        assert(attribs@ =~= reported_attribs());
    }
    attribs
}

/// What `vaQueryConfigAttributes` writes, each part where there is a place for
/// it.
#[derive(Debug)]
pub struct ConfigReport {
    pub profile: VAProfile,
    pub entrypoint: VAEntrypoint,
    pub attribs: Vec<ConfigAttrib>,
}

/// Report a config.
pub fn query_config_attributes(pools: &Pools, config_id: u32) -> (r: DriverResult<ConfigReport>)
    requires
        pools.wf(),
    ensures
        match find_id(pools.configs@, config_id) {
            None => r matches Err(e) && e == DriverError::InvalidConfig,
            Some(k) => r matches Ok(report) && report.profile == pools.configs@[k].profile
                && report.entrypoint == pools.configs@[k].entrypoint && report.attribs@
                == reported_attribs(),
        },
{
    match pools.configs.get_id(config_id) {
        None => Err(DriverError::InvalidConfig),
        Some(rec) => Ok(
            ConfigReport {
                profile: rec.profile,
                entrypoint: rec.entrypoint,
                attribs: config_attribs(),
            },
        ),
    }
}

/// The key of the config that an ID names.
pub fn find_config(pools: &Pools, id: u32) -> (key: Option<ConfigKey>)
    requires
        pools.wf(),
    ensures
        key == find_id(pools.configs@, id),
{
    pools.configs.find_by_low_bits(id)
}

// ---------------------------------------------------------------------------
// Laws
// ---------------------------------------------------------------------------

/// What is advertised can be created: a config of any reported profile and
/// entrypoint, without attributes, is refused only for want of a place for its
/// ID; and no other profile or entrypoint can be created.
pub proof fn law_advertised_configs_can_be_created(profile: VAProfile, entrypoint: VAEntrypoint)
    ensures
        config_error(profile, entrypoint, Seq::empty(), true) is None
            <==> supported_profiles().contains(profile) && supported_entrypoints().contains(
            entrypoint,
        ),
{
}

/// The session of a context can be opened for every profile that a config can
/// have.
pub proof fn law_every_profile_has_an_encoder(profile: VAProfile)
    ensures
        supported_profiles().contains(profile) <==> profile_of_va(profile) is Some,
{
    let s = supported_profiles();
    assert(s[0] == va::VA_PROFILE_H264_CONSTRAINED_BASELINE);
    assert(s[1] == va::VA_PROFILE_H264_MAIN);
    assert(s[2] == va::VA_PROFILE_H264_HIGH);
}

/// Both attribute queries agree.
pub proof fn law_attribute_queries_agree(i: int)
    requires
        0 <= i < reported_attribs().len(),
    ensures
        attrib_value(reported_attribs()[i].type_) == reported_attribs()[i].value,
{
    assert(0x1u32 | 0x2u32 | 0x4u32 == 0x7u32) by (bit_vector);
}

/// Every config reports YUV 4:2:0 as its format.
pub proof fn law_configs_report_a_format()
    ensures
        reported_attribs().contains(
            ConfigAttrib {
                type_: va::VA_CONFIG_ATTRIB_RT_FORMAT,
                value: va::VA_RT_FORMAT_YUV420,
            },
        ),
{
    assert(reported_attribs()[0].type_ == va::VA_CONFIG_ATTRIB_RT_FORMAT);
}

/// The last attribute of a type decides, and without one the default does.
pub proof fn law_last_attribute_wins(
    attribs: Seq<ConfigAttrib>,
    a: ConfigAttrib,
    type_: VAConfigAttribType,
    default: u32,
)
    ensures
        last_value(Seq::empty(), type_, default) == default,
        a.type_ == type_ ==> last_value(attribs.push(a), type_, default) == a.value,
        a.type_ != type_ ==> last_value(attribs.push(a), type_, default) == last_value(
            attribs,
            type_,
            default,
        ),
{
    assert(attribs.push(a).drop_last() =~= attribs);
}

/// A config is what was asked for: its profile and entrypoint, and of its
/// attributes format, rate control and packed headers, each from the attribute of
/// that type; what was not said is YUV 4:2:0, constant bitrate, no packed
/// headers.
pub proof fn law_config_is_what_was_asked_for(
    profile: VAProfile,
    entrypoint: VAEntrypoint,
    attribs: Seq<ConfigAttrib>,
)
    ensures
        ({
            let c = new_config(profile, entrypoint, attribs);
            &&& c.profile == profile
            &&& c.entrypoint == entrypoint
            &&& c.rt_format == last_value(attribs, 0, 1)
            &&& c.rc_mode == last_value(attribs, 5, 2)
            &&& c.packed_headers == last_value(attribs, 10, 0)
        }),
{
}

/// A config is refused for one of four reasons, in this order: no place for its
/// ID, a profile that is not H.264 Constrained Baseline, Main or High, an
/// entrypoint that is not slice encoding, an attribute that asks for a format
/// without YUV 4:2:0.
pub proof fn law_config_arguments_are_checked_in_order(
    profile: VAProfile,
    entrypoint: VAEntrypoint,
    attribs: Seq<ConfigAttrib>,
    has_out: bool,
)
    ensures
        ({
            let e = config_error(profile, entrypoint, attribs, has_out);
            let h264 = profile == 6 || profile == 7 || profile == 13;
            let all_420 = forall|i: int|
                0 <= i < attribs.len() && (#[trigger] attribs[i]).type_ == 0 ==> attribs[i].value
                    & 1u32 != 0;
            &&& !has_out ==> e == Some(DriverError::InvalidParameter)
            &&& has_out && !h264 ==> e == Some(DriverError::UnsupportedProfile)
            &&& has_out && h264 && entrypoint != 6 ==> e == Some(DriverError::UnsupportedEntrypoint)
            &&& has_out && h264 && entrypoint == 6 && !all_420 ==> e == Some(
                DriverError::UnsupportedRtFormat,
            )
            &&& has_out && h264 && entrypoint == 6 && all_420 ==> e is None
        }),
{
    let s = supported_profiles();
    assert(s[0] == va::VA_PROFILE_H264_CONSTRAINED_BASELINE);
    assert(s[1] == va::VA_PROFILE_H264_MAIN);
    assert(s[2] == va::VA_PROFILE_H264_HIGH);
    assert(supported_entrypoints()[0] == va::VA_ENTRYPOINT_ENC_SLICE);
}

/// What the driver says of its attributes: YUV 4:2:0; constant bitrate, variable
/// bitrate and constant QP; packed sequence, picture and slice headers; one
/// reference frame, one slice of whole rows, no interlacing. It says of every
/// other attribute that there is none.
pub proof fn law_attribute_values(type_: VAConfigAttribType)
    ensures
        type_ == 0 ==> attrib_value(type_) == 1,
        type_ == 5 ==> attrib_value(type_) == 0x16,
        type_ == 10 ==> attrib_value(type_) == 7,
        type_ == 11 ==> attrib_value(type_) == 0,
        type_ == 13 || type_ == 14 || type_ == 15 ==> attrib_value(type_) == 1,
        type_ != 0 && type_ != 5 && type_ != 10 && type_ != 11 && type_ != 13 && type_ != 14 && type_
            != 15 ==> attrib_value(type_) == 0x8000_0000,
{
    assert(2u32 | 4u32 | 0x10u32 == 0x16u32) by (bit_vector);
    assert(1u32 | 2u32 | 4u32 == 7u32) by (bit_vector);
}

/// The lists that the driver reports name each thing once: three profiles, one
/// entrypoint, and of every config six attributes.
pub proof fn law_reported_lists_are_complete(type_: VAConfigAttribType)
    ensures
        supported_profiles().no_duplicates(),
        supported_profiles().len() == 3,
        supported_profiles().contains(6) && supported_profiles().contains(7)
            && supported_profiles().contains(13),
        supported_entrypoints().len() == 1 && supported_entrypoints()[0] == 6,
        reported_attribs().len() == 6,
        (exists|i: int|
            0 <= i < reported_attribs().len() && (#[trigger] reported_attribs()[i]).type_ == type_)
            <==> type_ == 0 || type_ == 5 || type_ == 10 || type_ == 13 || type_ == 14 || type_
            == 15,
{
    let s = supported_profiles();
    assert(s[0] == 13 && s[1] == 6 && s[2] == 7);
    let r = reported_attribs();
    assert(r[0].type_ == 0 && r[1].type_ == 5 && r[2].type_ == 10 && r[3].type_ == 13 && r[4].type_
        == 14 && r[5].type_ == 15);
}

} // verus!

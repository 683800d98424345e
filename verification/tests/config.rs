use nvenc_vaapi_driver::driver::config::{
    config_attribs, create_config, destroy_config, find_config, get_config_attributes,
    query_config_attributes, query_config_entrypoints, query_config_profiles, ConfigAttrib,
};
use nvenc_vaapi_driver::driver::lifecycle::{capabilities, driver_init_status};
use nvenc_vaapi_driver::driver::state::Pools;
use nvenc_vaapi_driver::error::{to_va_status, DriverError};
use nvenc_vaapi_driver::va;

#[test]
fn query_config_profiles_with_null_out_ptrs_returns_error_without_crashing() {
    let status = to_va_status(&query_config_profiles(false, false));
    assert_ne!(status, 0, "null out-pointers must produce an error, not success");
}

#[test]
fn destroy_config_with_bogus_id_returns_error() {
    let mut pools = Pools::new();
    let status = to_va_status(&destroy_config(&mut pools, 0xDEAD_BEEF));
    assert_ne!(status, 0, "bogus VAConfigID must produce InvalidConfig error");
}

#[test]
fn create_config_with_null_output_ptr_is_invalid_parameter() {
    let mut pools = Pools::new();
    let r = create_config(
        &mut pools,
        va::VA_PROFILE_H264_MAIN,
        va::VA_ENTRYPOINT_ENC_SLICE,
        &[],
        false,
    );
    assert_ne!(to_va_status(&r), 0);
    assert!(matches!(r, Err(DriverError::InvalidParameter)));
}

#[test]
fn get_config_attributes_with_zero_count_and_null_list_is_rejected() {
    let mut none = Vec::new();
    let status = to_va_status(&get_config_attributes(
        va::VA_PROFILE_H264_MAIN,
        va::VA_ENTRYPOINT_ENC_SLICE,
        &mut none,
    ));
    assert_ne!(status, 0, "null attrib list must be rejected");
}

#[test]
fn query_entrypoints_for_unknown_profile_does_not_crash() {
    assert_ne!(to_va_status(&query_config_entrypoints(-1, true, true)), 0);
}

#[test]
fn query_config_profiles_returns_h264_baseline_and_main() {
    let set = query_config_profiles(true, true).unwrap();
    assert_eq!(set.len(), 3, "driver advertises three H.264 profiles");
    assert!(
        set.contains(&va::VA_PROFILE_H264_CONSTRAINED_BASELINE),
        "must include H264ConstrainedBaseline, got {:?}",
        set
    );
    assert!(set.contains(&va::VA_PROFILE_H264_HIGH), "must include H264High, got {:?}", set);
    assert!(set.contains(&va::VA_PROFILE_H264_MAIN), "must include H264Main, got {:?}", set);
}

#[test]
fn query_config_entrypoints_h264_main_returns_encslice() {
    let eps = query_config_entrypoints(va::VA_PROFILE_H264_MAIN, true, true).unwrap();
    assert_eq!(eps.len(), 1, "exactly one entrypoint is advertised");
    assert_eq!(eps[0], va::VA_ENTRYPOINT_ENC_SLICE);
}

#[test]
fn query_entrypoints_for_unsupported_profile_fails_cleanly() {
    let status = to_va_status(&query_config_entrypoints(9999, true, true));
    assert_ne!(status, 0, "unsupported profile must produce an error status");
}

#[test]
fn create_then_destroy_config_roundtrips() {
    let mut pools = Pools::new();
    let attribs = [ConfigAttrib {
        type_: va::VA_CONFIG_ATTRIB_RT_FORMAT,
        value: va::VA_RT_FORMAT_YUV420,
    }];
    let r = create_config(
        &mut pools,
        va::VA_PROFILE_H264_MAIN,
        va::VA_ENTRYPOINT_ENC_SLICE,
        &attribs,
        true,
    );
    assert_eq!(to_va_status(&r), 0, "vaCreateConfig should succeed");
    let config_id = r.unwrap();
    assert_ne!(config_id, 0, "a valid VAConfigID must be non-zero");

    let s = to_va_status(&destroy_config(&mut pools, config_id));
    assert_eq!(s, 0, "vaDestroyConfig should succeed");

    let s = to_va_status(&destroy_config(&mut pools, config_id));
    assert_ne!(s, 0, "second destroy should fail");
}

#[test]
fn create_config_rejects_bogus_profile() {
    let mut pools = Pools::new();
    let r = create_config(&mut pools, 99999, va::VA_ENTRYPOINT_ENC_SLICE, &[], true);
    assert_ne!(to_va_status(&r), 0, "bogus profile must be rejected");
}

#[test]
fn driver_init_rejects_null_ctx() {
    assert_ne!(
        driver_init_status(false, Ok(()), true),
        0,
        "driver_init(NULL) must not return success — should be a VA error"
    );
}

#[test]
fn driver_init_statuses() {
    assert_eq!(driver_init_status(true, Ok(()), true), 0);
    assert_eq!(driver_init_status(true, Ok(()), false), -1);
    assert_eq!(driver_init_status(true, Err(DriverError::AllocFailed), true), 2);
    assert_eq!(driver_init_status(false, Err(DriverError::AllocFailed), true), 0x12);
    let caps = capabilities();
    assert_eq!((caps.max_profiles, caps.max_entrypoints, caps.max_attributes), (8, 4, 32));
    assert_eq!(
        (caps.max_image_formats, caps.max_subpic_formats, caps.max_display_attributes),
        (4, 1, 1)
    );
}

#[test]
fn entrypoints_and_formats_are_checked_in_order() {
    let mut pools = Pools::new();
    let mut create = |profile, entrypoint, attribs: &[ConfigAttrib]| {
        create_config(&mut pools, profile, entrypoint, attribs, true)
    };
    assert!(matches!(create(1, 1, &[]), Err(DriverError::UnsupportedProfile)));
    assert!(matches!(create(6, 1, &[]), Err(DriverError::UnsupportedEntrypoint)));
    let yuv422 = [ConfigAttrib { type_: va::VA_CONFIG_ATTRIB_RT_FORMAT, value: 2 }];
    assert!(matches!(create(6, 6, &yuv422), Err(DriverError::UnsupportedRtFormat)));
    let both = [ConfigAttrib { type_: va::VA_CONFIG_ATTRIB_RT_FORMAT, value: 3 }];
    assert!(create(6, 6, &both).is_ok());
}

#[test]
fn the_last_attribute_of_a_type_counts() {
    let mut pools = Pools::new();
    let attribs = [
        ConfigAttrib { type_: va::VA_CONFIG_ATTRIB_RATE_CONTROL, value: va::VA_RC_VBR },
        ConfigAttrib { type_: va::VA_CONFIG_ATTRIB_ENC_PACKED_HEADERS, value: 5 },
        ConfigAttrib { type_: va::VA_CONFIG_ATTRIB_RATE_CONTROL, value: va::VA_RC_CQP },
        ConfigAttrib { type_: 99, value: 1 },
    ];
    let id = create_config(&mut pools, 7, 6, &attribs, true).unwrap();
    let rec = *pools.configs.get_id(id).unwrap();
    assert_eq!((rec.profile, rec.entrypoint), (7, 6));
    assert_eq!(rec.rt_format, va::VA_RT_FORMAT_YUV420);
    assert_eq!(rec.rc_mode, va::VA_RC_CQP);
    assert_eq!(rec.packed_headers, 5);

    let id = create_config(&mut pools, 7, 6, &[], true).unwrap();
    let rec = *pools.configs.get_id(id).unwrap();
    assert_eq!((rec.rc_mode, rec.packed_headers), (va::VA_RC_CBR, 0));
}

#[test]
fn attribute_values_are_filled_in() {
    let mut attribs: Vec<ConfigAttrib> = [0u32, 5, 10, 11, 13, 14, 15, 3]
        .iter()
        .map(|t| ConfigAttrib { type_: *t, value: 0xAAAA })
        .collect();
    get_config_attributes(6, 6, &mut attribs).unwrap();
    let values: Vec<u32> = attribs.iter().map(|a| a.value).collect();
    assert_eq!(values, vec![1, 0x16, 7, 0, 1, 1, 1, 0x8000_0000]);
    assert!(matches!(
        get_config_attributes(1, 6, &mut attribs),
        Err(DriverError::UnsupportedProfile)
    ));
    assert!(matches!(
        get_config_attributes(6, 1, &mut attribs),
        Err(DriverError::UnsupportedEntrypoint)
    ));
}

#[test]
fn a_config_reports_itself() {
    let mut pools = Pools::new();
    assert!(matches!(query_config_attributes(&pools, 1), Err(DriverError::InvalidConfig)));
    let id = create_config(&mut pools, 13, 6, &[], true).unwrap();
    let report = query_config_attributes(&pools, id).unwrap();
    assert_eq!((report.profile, report.entrypoint), (13, 6));
    assert_eq!(report.attribs, config_attribs());
    let listed: Vec<(u32, u32)> = report.attribs.iter().map(|a| (a.type_, a.value)).collect();
    assert_eq!(listed, vec![(0, 1), (5, 0x16), (10, 7), (13, 1), (14, 1), (15, 1)]);
    assert!(find_config(&pools, id).is_some());
    destroy_config(&mut pools, id).unwrap();
    assert!(find_config(&pools, id).is_none());
}

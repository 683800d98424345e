use nvenc_vaapi_driver::error::{
    to_va_status, DriverError, DriverResult, VA_STATUS_SUCCESS, VA_STATUS_UNKNOWN,
};
use nvenc_vaapi_driver::va;
use nvenc_vaapi_driver::va::VAStatus;

#[test]
fn every_variant_maps_to_its_libva_status() {
    let cases: &[(DriverError, u32)] = &[
        (DriverError::Unimplemented, va::VA_STATUS_ERROR_UNIMPLEMENTED),
        (DriverError::InvalidConfig, va::VA_STATUS_ERROR_INVALID_CONFIG),
        (DriverError::InvalidContext, va::VA_STATUS_ERROR_INVALID_CONTEXT),
        (DriverError::InvalidSurface, va::VA_STATUS_ERROR_INVALID_SURFACE),
        (DriverError::InvalidBuffer, va::VA_STATUS_ERROR_INVALID_BUFFER),
        (DriverError::InvalidImage, va::VA_STATUS_ERROR_INVALID_IMAGE),
        (DriverError::InvalidParameter, va::VA_STATUS_ERROR_INVALID_PARAMETER),
        (DriverError::UnsupportedProfile, va::VA_STATUS_ERROR_UNSUPPORTED_PROFILE),
        (DriverError::UnsupportedEntrypoint, va::VA_STATUS_ERROR_UNSUPPORTED_ENTRYPOINT),
        (DriverError::UnsupportedRtFormat, va::VA_STATUS_ERROR_UNSUPPORTED_RT_FORMAT),
        (DriverError::UnsupportedBufferType, va::VA_STATUS_ERROR_UNSUPPORTED_BUFFERTYPE),
        (DriverError::UnsupportedMemory, va::VA_STATUS_ERROR_UNSUPPORTED_MEMORY_TYPE),
        (DriverError::AttrNotSupported, va::VA_STATUS_ERROR_ATTR_NOT_SUPPORTED),
        (DriverError::AllocFailed, va::VA_STATUS_ERROR_ALLOCATION_FAILED),
        (DriverError::Encoding("x"), va::VA_STATUS_ERROR_ENCODING_ERROR),
        (DriverError::OperationFailed("x"), va::VA_STATUS_ERROR_OPERATION_FAILED),
    ];
    for (err, expected) in cases {
        assert_eq!(
            err.to_status(),
            *expected as VAStatus,
            "variant {:?} maps to unexpected VAStatus",
            err
        );
    }
}

#[test]
fn every_error_status_is_nonzero_and_distinct_from_success() {
    let variants = [
        DriverError::Unimplemented,
        DriverError::InvalidConfig,
        DriverError::InvalidContext,
        DriverError::InvalidSurface,
        DriverError::InvalidBuffer,
        DriverError::InvalidImage,
        DriverError::InvalidParameter,
        DriverError::UnsupportedProfile,
        DriverError::UnsupportedEntrypoint,
        DriverError::UnsupportedRtFormat,
        DriverError::UnsupportedBufferType,
        DriverError::UnsupportedMemory,
        DriverError::AttrNotSupported,
        DriverError::AllocFailed,
        DriverError::Encoding("x"),
        DriverError::OperationFailed("x"),
    ];
    for v in &variants {
        assert_ne!(v.to_status(), VA_STATUS_SUCCESS, "variant {:?}", v);
    }
}

#[test]
fn driver_result_ok_is_success() {
    let r: DriverResult<()> = Ok(());
    let status = match r {
        Ok(()) => VA_STATUS_SUCCESS,
        Err(e) => e.to_status(),
    };
    assert_eq!(status, 0);
}

#[test]
fn va_status_unknown_is_libva_unknown() {
    assert_eq!(VA_STATUS_UNKNOWN, va::VA_STATUS_ERROR_UNKNOWN as VAStatus);
}

#[test]
fn status_of_a_result() {
    let ok: DriverResult<u32> = Ok(7);
    assert_eq!(to_va_status(&ok), 0);
    let err: DriverResult<u32> = Err(DriverError::InvalidSurface);
    assert_eq!(to_va_status(&err), 6);
    let err: DriverResult<u32> = Err(DriverError::UnsupportedMemory);
    assert_eq!(to_va_status(&err), 0x24);
}

#[test]
fn messages_carry_their_description() {
    assert_eq!(DriverError::InvalidConfig.message(), "invalid config id");
    assert_eq!(DriverError::AllocFailed.message(), "resource allocation failed");
    assert_eq!(DriverError::Unimplemented.message(), "unimplemented vtable entry");
    assert_eq!(
        DriverError::Encoding("NvEncEncodePicture").message(),
        "encoding error: NvEncEncodePicture"
    );
    assert_eq!(
        DriverError::OperationFailed("cuInit").message(),
        "operation failed: cuInit"
    );
}

//! Error translation between internal [`DriverError`] and libva [`VAStatus`].
//!
//! Every entry of the driver's function table answers with a `VAStatus`
//! integer of `<va/va.h>`. The library works with typed [`DriverError`] values
//! and converts at the ABI boundary with [`DriverError::to_status`].

use crate::va;
use crate::va::VAStatus;
use vstd::prelude::*;
use vstd::string::StringExecFns;

verus! {

/// Typed driver error. Each variant has a `VA_STATUS_ERROR_*` code of its own.
#[derive(Debug, Clone, Copy)]
pub enum DriverError {
    /// A function-table entry that has no implementation.
    Unimplemented,
    /// The `VAConfigID` does not exist in the config pool.
    InvalidConfig,
    /// The `VAContextID` does not exist in the context pool.
    InvalidContext,
    /// The `VASurfaceID` does not exist in the surface pool.
    InvalidSurface,
    /// The `VABufferID` does not exist in the buffer pool.
    InvalidBuffer,
    /// The `VAImageID` does not exist in the image pool.
    InvalidImage,
    /// A required pointer argument was null, a size was zero, or a numeric
    /// argument was out of range.
    InvalidParameter,
    /// The requested `VAProfile` is not in the advertised set.
    UnsupportedProfile,
    /// The requested `VAEntrypoint` is not `VAEntrypointEncSlice`.
    UnsupportedEntrypoint,
    /// The requested runtime format is not `VA_RT_FORMAT_YUV420`.
    UnsupportedRtFormat,
    /// The buffer type is not handled by this driver.
    UnsupportedBufferType,
    /// The surface memory type is not supported.
    UnsupportedMemory,
    /// A `VAConfigAttrib` type was requested but is not exposed.
    AttrNotSupported,
    /// A heap or device allocation failed.
    AllocFailed,
    /// An NVENC encode call returned an error.
    Encoding(&'static str),
    /// A driver-internal operation failed for another reason.
    OperationFailed(&'static str),
}

pub type DriverResult<T> = Result<T, DriverError>;

/// `VA_STATUS_SUCCESS`.
pub const VA_STATUS_SUCCESS: VAStatus = 0;

/// `VA_STATUS_ERROR_UNKNOWN`, as the signed status type holds it.
pub const VA_STATUS_UNKNOWN: VAStatus = -1;

/// The libva code of an error.
pub open spec fn status_of(e: DriverError) -> u32 {
    match e {
        DriverError::Unimplemented => va::VA_STATUS_ERROR_UNIMPLEMENTED,
        DriverError::InvalidConfig => va::VA_STATUS_ERROR_INVALID_CONFIG,
        DriverError::InvalidContext => va::VA_STATUS_ERROR_INVALID_CONTEXT,
        DriverError::InvalidSurface => va::VA_STATUS_ERROR_INVALID_SURFACE,
        DriverError::InvalidBuffer => va::VA_STATUS_ERROR_INVALID_BUFFER,
        DriverError::InvalidImage => va::VA_STATUS_ERROR_INVALID_IMAGE,
        DriverError::InvalidParameter => va::VA_STATUS_ERROR_INVALID_PARAMETER,
        DriverError::UnsupportedProfile => va::VA_STATUS_ERROR_UNSUPPORTED_PROFILE,
        DriverError::UnsupportedEntrypoint => va::VA_STATUS_ERROR_UNSUPPORTED_ENTRYPOINT,
        DriverError::UnsupportedRtFormat => va::VA_STATUS_ERROR_UNSUPPORTED_RT_FORMAT,
        DriverError::UnsupportedBufferType => va::VA_STATUS_ERROR_UNSUPPORTED_BUFFERTYPE,
        DriverError::UnsupportedMemory => va::VA_STATUS_ERROR_UNSUPPORTED_MEMORY_TYPE,
        DriverError::AttrNotSupported => va::VA_STATUS_ERROR_ATTR_NOT_SUPPORTED,
        DriverError::AllocFailed => va::VA_STATUS_ERROR_ALLOCATION_FAILED,
        DriverError::Encoding(_) => va::VA_STATUS_ERROR_ENCODING_ERROR,
        DriverError::OperationFailed(_) => va::VA_STATUS_ERROR_OPERATION_FAILED,
    }
}

/// Two errors of one kind: equal but for the description that the last two
/// variants carry.
pub open spec fn same_variant(a: DriverError, b: DriverError) -> bool {
    ||| a == b
    ||| a is Encoding && b is Encoding
    ||| a is OperationFailed && b is OperationFailed
}

/// The status that the ABI boundary answers with.
pub open spec fn result_status<T>(r: DriverResult<T>) -> int {
    match r {
        Ok(_) => VA_STATUS_SUCCESS as int,
        Err(e) => status_of(e) as int,
    }
}

/// The fixed part of an error's description.
pub open spec fn fixed_text(e: DriverError) -> Seq<char> {
    match e {
        DriverError::Unimplemented => "unimplemented vtable entry"@,
        DriverError::InvalidConfig => "invalid config id"@,
        DriverError::InvalidContext => "invalid context id"@,
        DriverError::InvalidSurface => "invalid surface id"@,
        DriverError::InvalidBuffer => "invalid buffer id"@,
        DriverError::InvalidImage => "invalid image id"@,
        DriverError::InvalidParameter => "invalid parameter"@,
        DriverError::UnsupportedProfile => "unsupported profile"@,
        DriverError::UnsupportedEntrypoint => "unsupported entrypoint"@,
        DriverError::UnsupportedRtFormat => "unsupported rt format"@,
        DriverError::UnsupportedBufferType => "unsupported buffer type"@,
        DriverError::UnsupportedMemory => "unsupported memory type"@,
        DriverError::AttrNotSupported => "attribute not supported"@,
        DriverError::AllocFailed => "resource allocation failed"@,
        DriverError::Encoding(_) => "encoding error: "@,
        DriverError::OperationFailed(_) => "operation failed: "@,
    }
}

/// The part of an error's description that the error carries.
pub open spec fn carried_text(e: DriverError) -> Seq<char> {
    match e {
        DriverError::Encoding(what) => what@,
        DriverError::OperationFailed(what) => what@,
        _ => Seq::empty(),
    }
}

impl DriverError {
    /// The libva status of this error.
    pub fn to_status(&self) -> (status: VAStatus)
        ensures
            status == status_of(*self),
            status != VA_STATUS_SUCCESS,
    {
        match self {
            DriverError::Unimplemented => 0x14,
            DriverError::InvalidConfig => 0x4,
            DriverError::InvalidContext => 0x5,
            DriverError::InvalidSurface => 0x6,
            DriverError::InvalidBuffer => 0x7,
            DriverError::InvalidImage => 0x8,
            DriverError::InvalidParameter => 0x12,
            DriverError::UnsupportedProfile => 0xc,
            DriverError::UnsupportedEntrypoint => 0xd,
            DriverError::UnsupportedRtFormat => 0xe,
            DriverError::UnsupportedBufferType => 0xf,
            DriverError::UnsupportedMemory => 0x24,
            DriverError::AttrNotSupported => 0xa,
            DriverError::AllocFailed => 0x2,
            DriverError::Encoding(_) => 0x18,
            DriverError::OperationFailed(_) => 0x1,
        }
    }

    /// A one-line description for the log.
    pub fn message(&self) -> (text: String)
        ensures
            text@ == fixed_text(*self) + carried_text(*self),
    {
        let (fixed, carried): (&'static str, &'static str) = match self {
            DriverError::Unimplemented => ("unimplemented vtable entry", ""),
            DriverError::InvalidConfig => ("invalid config id", ""),
            DriverError::InvalidContext => ("invalid context id", ""),
            DriverError::InvalidSurface => ("invalid surface id", ""),
            DriverError::InvalidBuffer => ("invalid buffer id", ""),
            DriverError::InvalidImage => ("invalid image id", ""),
            DriverError::InvalidParameter => ("invalid parameter", ""),
            DriverError::UnsupportedProfile => ("unsupported profile", ""),
            DriverError::UnsupportedEntrypoint => ("unsupported entrypoint", ""),
            DriverError::UnsupportedRtFormat => ("unsupported rt format", ""),
            DriverError::UnsupportedBufferType => ("unsupported buffer type", ""),
            DriverError::UnsupportedMemory => ("unsupported memory type", ""),
            DriverError::AttrNotSupported => ("attribute not supported", ""),
            DriverError::AllocFailed => ("resource allocation failed", ""),
            DriverError::Encoding(what) => ("encoding error: ", what),
            DriverError::OperationFailed(what) => ("operation failed: ", what),
        };
        proof {
            reveal_strlit("");
            assert(carried@ == carried_text(*self));
        }
        let mut text = String::from_str(fixed);
        text.append(carried);
        text
    }
}

/// The status that the ABI boundary answers with: success for `Ok`, the
/// error's own code otherwise.
pub fn to_va_status<T>(r: &DriverResult<T>) -> (status: VAStatus)
    ensures
        status == result_status(*r),
        status == VA_STATUS_SUCCESS <==> *r is Ok,
{
    match r {
        Ok(_) => VA_STATUS_SUCCESS,
        Err(e) => e.to_status(),
    }
}

/// Errors and `VA_STATUS_ERROR_*` codes correspond one to one: an error's code
/// is never success, and two errors share a code exactly when they are of one
/// kind.
pub proof fn law_status_is_one_to_one(a: DriverError, b: DriverError)
    ensures
        status_of(a) != VA_STATUS_SUCCESS,
        status_of(a) != va::VA_STATUS_ERROR_UNKNOWN,
        status_of(a) == status_of(b) <==> same_variant(a, b),
{
}

/// Every error has the code that `<va/va.h>` gives it, and only success is
/// answered with zero.
pub proof fn law_statuses_are_those_of_libva(e: DriverError, r: DriverResult<()>)
    ensures
        e is OperationFailed <==> status_of(e) == 0x01,
        e is AllocFailed <==> status_of(e) == 0x02,
        e is InvalidConfig <==> status_of(e) == 0x04,
        e is InvalidContext <==> status_of(e) == 0x05,
        e is InvalidSurface <==> status_of(e) == 0x06,
        e is InvalidBuffer <==> status_of(e) == 0x07,
        e is InvalidImage <==> status_of(e) == 0x08,
        e is AttrNotSupported <==> status_of(e) == 0x0a,
        e is UnsupportedProfile <==> status_of(e) == 0x0c,
        e is UnsupportedEntrypoint <==> status_of(e) == 0x0d,
        e is UnsupportedRtFormat <==> status_of(e) == 0x0e,
        e is UnsupportedBufferType <==> status_of(e) == 0x0f,
        e is InvalidParameter <==> status_of(e) == 0x12,
        e is Unimplemented <==> status_of(e) == 0x14,
        e is Encoding <==> status_of(e) == 0x18,
        e is UnsupportedMemory <==> status_of(e) == 0x24,
        r is Ok <==> result_status(r) == 0,
        r matches Err(e) ==> result_status(r) == status_of(e),
{
}

/// An error that carries a description says it, and one of encoding does not
/// read like one of another operation.
pub proof fn law_messages_carry_the_description(what: &'static str)
    ensures
        carried_text(DriverError::Encoding(what)) == what@,
        carried_text(DriverError::OperationFailed(what)) == what@,
        carried_text(DriverError::AllocFailed).len() == 0,
        fixed_text(DriverError::Encoding(what)) != fixed_text(DriverError::OperationFailed(what)),
{
    reveal_strlit("encoding error: ");
    reveal_strlit("operation failed: ");
    assert("encoding error: "@[0] == 'e');
    assert("operation failed: "@[0] == 'o');
}

} // verus!

//! The part of the libva ABI that the driver's decisions speak of: scalar
//! types and the constants of `<va/va.h>`, `<va/va_backend.h>` and
//! `<va/va_drmcommon.h>`.

use vstd::prelude::*;

verus! {

pub type VAStatus = i32;

pub type VAProfile = i32;

pub type VAEntrypoint = u32;

pub type VAConfigAttribType = u32;

pub type VABufferType = u32;

pub type VASurfaceAttribType = u32;

pub type VASurfaceStatus = u32;

// Status codes.
pub const VA_STATUS_ERROR_OPERATION_FAILED: u32 = 0x0000_0001;

pub const VA_STATUS_ERROR_ALLOCATION_FAILED: u32 = 0x0000_0002;

pub const VA_STATUS_ERROR_INVALID_CONFIG: u32 = 0x0000_0004;

pub const VA_STATUS_ERROR_INVALID_CONTEXT: u32 = 0x0000_0005;

pub const VA_STATUS_ERROR_INVALID_SURFACE: u32 = 0x0000_0006;

pub const VA_STATUS_ERROR_INVALID_BUFFER: u32 = 0x0000_0007;

pub const VA_STATUS_ERROR_INVALID_IMAGE: u32 = 0x0000_0008;

pub const VA_STATUS_ERROR_ATTR_NOT_SUPPORTED: u32 = 0x0000_000a;

pub const VA_STATUS_ERROR_UNSUPPORTED_PROFILE: u32 = 0x0000_000c;

pub const VA_STATUS_ERROR_UNSUPPORTED_ENTRYPOINT: u32 = 0x0000_000d;

pub const VA_STATUS_ERROR_UNSUPPORTED_RT_FORMAT: u32 = 0x0000_000e;

pub const VA_STATUS_ERROR_UNSUPPORTED_BUFFERTYPE: u32 = 0x0000_000f;

pub const VA_STATUS_ERROR_INVALID_PARAMETER: u32 = 0x0000_0012;

pub const VA_STATUS_ERROR_UNIMPLEMENTED: u32 = 0x0000_0014;

pub const VA_STATUS_ERROR_ENCODING_ERROR: u32 = 0x0000_0018;

pub const VA_STATUS_ERROR_UNSUPPORTED_MEMORY_TYPE: u32 = 0x0000_0024;

pub const VA_STATUS_ERROR_UNKNOWN: u32 = 0xFFFF_FFFF;

// Profiles and entrypoints.
pub const VA_PROFILE_H264_MAIN: VAProfile = 6;

pub const VA_PROFILE_H264_HIGH: VAProfile = 7;

pub const VA_PROFILE_H264_CONSTRAINED_BASELINE: VAProfile = 13;

pub const VA_ENTRYPOINT_ENC_SLICE: VAEntrypoint = 6;

// Config attributes and their values.
pub const VA_CONFIG_ATTRIB_RT_FORMAT: VAConfigAttribType = 0;

pub const VA_CONFIG_ATTRIB_RATE_CONTROL: VAConfigAttribType = 5;

pub const VA_CONFIG_ATTRIB_ENC_PACKED_HEADERS: VAConfigAttribType = 10;

pub const VA_CONFIG_ATTRIB_ENC_INTERLACED: VAConfigAttribType = 11;

pub const VA_CONFIG_ATTRIB_ENC_MAX_REF_FRAMES: VAConfigAttribType = 13;

pub const VA_CONFIG_ATTRIB_ENC_MAX_SLICES: VAConfigAttribType = 14;

pub const VA_CONFIG_ATTRIB_ENC_SLICE_STRUCTURE: VAConfigAttribType = 15;

pub const VA_RT_FORMAT_YUV420: u32 = 0x0000_0001;

pub const VA_RC_CBR: u32 = 0x0000_0002;

pub const VA_RC_VBR: u32 = 0x0000_0004;

pub const VA_RC_CQP: u32 = 0x0000_0010;

pub const VA_ENC_PACKED_HEADER_SEQUENCE: u32 = 0x0000_0001;

pub const VA_ENC_PACKED_HEADER_PICTURE: u32 = 0x0000_0002;

pub const VA_ENC_PACKED_HEADER_SLICE: u32 = 0x0000_0004;

pub const VA_ENC_INTERLACED_NONE: u32 = 0x0000_0000;

pub const VA_ENC_SLICE_STRUCTURE_POWER_OF_TWO_ROWS: u32 = 0x0000_0001;

pub const VA_ATTRIB_NOT_SUPPORTED: u32 = 0x8000_0000;

// Buffer types.
pub const VA_IMAGE_BUFFER_TYPE: VABufferType = 9;

pub const VA_ENC_CODED_BUFFER_TYPE: VABufferType = 21;

pub const VA_ENC_SEQUENCE_PARAMETER_BUFFER_TYPE: VABufferType = 22;

pub const VA_ENC_PICTURE_PARAMETER_BUFFER_TYPE: VABufferType = 23;

pub const VA_ENC_SLICE_PARAMETER_BUFFER_TYPE: VABufferType = 24;

pub const VA_ENC_PACKED_HEADER_PARAMETER_BUFFER_TYPE: VABufferType = 25;

pub const VA_ENC_PACKED_HEADER_DATA_BUFFER_TYPE: VABufferType = 26;

pub const VA_ENC_MISC_PARAMETER_BUFFER_TYPE: VABufferType = 27;

// Packed header kinds, as `VAEncPackedHeaderParameterBuffer.type` has them.
pub const VA_ENC_PACKED_HEADER_TYPE_SEQUENCE: u32 = 1;

pub const VA_ENC_PACKED_HEADER_TYPE_PICTURE: u32 = 2;

pub const VA_ENC_PACKED_HEADER_TYPE_SLICE: u32 = 3;

// Surface attributes.
pub const VA_SURFACE_ATTRIB_PIXEL_FORMAT: VASurfaceAttribType = 1;

pub const VA_SURFACE_ATTRIB_MIN_WIDTH: VASurfaceAttribType = 2;

pub const VA_SURFACE_ATTRIB_MAX_WIDTH: VASurfaceAttribType = 3;

pub const VA_SURFACE_ATTRIB_MIN_HEIGHT: VASurfaceAttribType = 4;

pub const VA_SURFACE_ATTRIB_MAX_HEIGHT: VASurfaceAttribType = 5;

pub const VA_SURFACE_ATTRIB_MEMORY_TYPE: VASurfaceAttribType = 6;

pub const VA_SURFACE_ATTRIB_EXTERNAL_BUFFER_DESCRIPTOR: VASurfaceAttribType = 7;

pub const VA_SURFACE_ATTRIB_DRM_FORMAT_MODIFIERS: VASurfaceAttribType = 9;

pub const VA_SURFACE_ATTRIB_GETTABLE: u32 = 0x0000_0001;

pub const VA_SURFACE_ATTRIB_SETTABLE: u32 = 0x0000_0002;

pub const VA_SURFACE_ATTRIB_MEM_TYPE_VA: u32 = 0x0000_0001;

pub const VA_SURFACE_ATTRIB_MEM_TYPE_DRM_PRIME_2: u32 = 0x4000_0000;

pub const DRM_FORMAT_MOD_INVALID: u64 = 0x00FF_FFFF_FFFF_FFFF;

// Surfaces and images.
pub const VA_SURFACE_READY: VASurfaceStatus = 4;

pub const VA_FOURCC_NV12: u32 = 0x3231_564E;

pub const VA_LSB_FIRST: u32 = 1;

// Displays.
pub const VA_DISPLAY_DRM: u32 = 0x30;

pub const VA_DISPLAY_DRM_RENDERNODES: u32 = 0x31;

/// `VAEncMiscParameterTypeFrameRate`.
pub const VA_ENC_MISC_PARAMETER_TYPE_FRAME_RATE: u32 = 0;

/// `VAEncMiscParameterTypeRateControl`.
pub const VA_ENC_MISC_PARAMETER_TYPE_RATE_CONTROL: u32 = 1;

} // verus!

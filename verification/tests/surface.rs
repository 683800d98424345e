use nvenc_vaapi_driver::cuda::external_mem::{CudaRelease, ExternalDmaBufImage};
use nvenc_vaapi_driver::driver::state::{Pools, SurfaceKind, SurfaceRec};
use nvenc_vaapi_driver::driver::surface::{
    allocate_resume, allocate_surfaces, create_surfaces, create_surfaces2,
    create_surfaces2_dma_buf, destroy_surfaces, parse_drm_prime_attribs, query_surface_attributes,
    query_surface_status, supported_attribs, AllocCall, AllocReply, Release, SurfaceAttrib,
    SurfaceNext, SurfacePlan,
};
use nvenc_vaapi_driver::error::DriverError;
use nvenc_vaapi_driver::va;

fn mk_mem_type_attr(bits: u32) -> SurfaceAttrib {
    SurfaceAttrib {
        type_: va::VA_SURFACE_ATTRIB_MEMORY_TYPE,
        flags: va::VA_SURFACE_ATTRIB_SETTABLE,
        value: bits as u64,
    }
}

fn mk_ext_buf_attr(p: u64) -> SurfaceAttrib {
    SurfaceAttrib {
        type_: va::VA_SURFACE_ATTRIB_EXTERNAL_BUFFER_DESCRIPTOR,
        flags: va::VA_SURFACE_ATTRIB_SETTABLE,
        value: p,
    }
}

#[test]
fn parse_detects_drm_prime_2_bit() {
    let attribs = [mk_mem_type_attr(va::VA_SURFACE_ATTRIB_MEM_TYPE_DRM_PRIME_2)];
    let (want, desc) = parse_drm_prime_attribs(&attribs);
    assert!(want);
    assert!(desc.is_none());
}

#[test]
fn parse_ignores_va_only_memtype() {
    let attribs = [mk_mem_type_attr(va::VA_SURFACE_ATTRIB_MEM_TYPE_VA)];
    let (want, _) = parse_drm_prime_attribs(&attribs);
    assert!(!want);
}

#[test]
fn parse_extracts_external_buffer_descriptor_pointer() {
    let raw: u64 = 0x7f3a_5c00_1040;
    let attribs = [
        mk_mem_type_attr(va::VA_SURFACE_ATTRIB_MEM_TYPE_DRM_PRIME_2),
        mk_ext_buf_attr(raw),
    ];
    let (want, parsed) = parse_drm_prime_attribs(&attribs);
    assert!(want);
    assert_eq!(parsed, Some(raw));
}

#[test]
fn parse_empty_attribs_returns_false() {
    let (want, desc) = parse_drm_prime_attribs(&[]);
    assert!(!want);
    assert!(desc.is_none());
}

#[test]
fn supported_attribs_advertises_drm_prime_2_and_modifiers() {
    let attribs = supported_attribs();
    let mem_type = attribs
        .iter()
        .find(|a| a.type_ == va::VA_SURFACE_ATTRIB_MEMORY_TYPE)
        .expect("MemoryType advertised");
    let bits = mem_type.value as u32;
    assert_eq!(
        bits & va::VA_SURFACE_ATTRIB_MEM_TYPE_DRM_PRIME_2,
        va::VA_SURFACE_ATTRIB_MEM_TYPE_DRM_PRIME_2,
        "DRM_PRIME_2 bit missing"
    );
    assert_eq!(
        bits & va::VA_SURFACE_ATTRIB_MEM_TYPE_VA,
        va::VA_SURFACE_ATTRIB_MEM_TYPE_VA,
        "VA bit missing"
    );
    let modifiers = attribs
        .iter()
        .find(|a| a.type_ == va::VA_SURFACE_ATTRIB_DRM_FORMAT_MODIFIERS)
        .expect("DRMFormatModifiers advertised");
    assert_eq!(modifiers.value, va::DRM_FORMAT_MOD_INVALID);
    assert_eq!(modifiers.value, (1u64 << 56) - 1);
}

#[test]
fn memory_type_is_the_low_half_of_its_value() {
    let high = SurfaceAttrib {
        type_: va::VA_SURFACE_ATTRIB_MEMORY_TYPE,
        flags: 0,
        value: 0x4000_0000_0000_0001,
    };
    assert_eq!(parse_drm_prime_attribs(&[high]), (false, None));
}

#[test]
fn the_last_descriptor_counts_and_null_is_none() {
    let attribs = [mk_ext_buf_attr(1), mk_ext_buf_attr(2), mk_ext_buf_attr(0)];
    assert_eq!(parse_drm_prime_attribs(&attribs), (false, Some(2)));
}

#[test]
fn attribute_query_follows_the_two_call_pattern() {
    assert!(matches!(query_surface_attributes(true, None), Err(DriverError::InvalidParameter)));

    let first = query_surface_attributes(false, Some(0)).unwrap();
    assert_eq!(first.total, 7);
    assert!(first.attribs.is_none() && first.result.is_ok());

    let short = query_surface_attributes(true, Some(6)).unwrap();
    assert_eq!(short.total, 7);
    assert!(short.attribs.is_none());
    assert!(matches!(short.result, Err(DriverError::InvalidParameter)));

    let second = query_surface_attributes(true, Some(first.total)).unwrap();
    assert!(second.result.is_ok());
    let list = second.attribs.unwrap();
    assert_eq!(list, supported_attribs());
    let values: Vec<(u32, u32, u64)> = list.iter().map(|a| (a.type_, a.flags, a.value)).collect();
    assert_eq!(
        values,
        vec![
            (1, 3, 0x3231_564E),
            (2, 1, 16),
            (4, 1, 16),
            (3, 1, 4096),
            (5, 1, 4096),
            (6, 3, 0x4000_0001),
            (9, 1, 0x00FF_FFFF_FFFF_FFFF),
        ]
    );
}

#[test]
fn surfaces_are_always_ready() {
    assert_eq!(query_surface_status(true).unwrap(), 4);
    assert!(matches!(query_surface_status(false), Err(DriverError::InvalidParameter)));
}

#[test]
fn creation_plans() {
    assert!(matches!(create_surfaces2(1, 8, 8, false, 1, &[]), Err(DriverError::InvalidParameter)));
    assert!(matches!(create_surfaces2(1, 8, 8, true, 0, &[]), Err(DriverError::InvalidParameter)));
    assert!(matches!(create_surfaces2(2, 8, 8, true, 1, &[]), Err(DriverError::UnsupportedRtFormat)));
    assert_eq!(
        create_surfaces2(1, 640, 480, true, 3, &[mk_ext_buf_attr(9)]).unwrap(),
        SurfacePlan::Allocate { format: 1, width: 640, height: 480, count: 3 }
    );
    let prime = mk_mem_type_attr(va::VA_SURFACE_ATTRIB_MEM_TYPE_DRM_PRIME_2);
    assert!(matches!(
        create_surfaces2(1, 8, 8, true, 1, &[prime]),
        Err(DriverError::InvalidParameter)
    ));
    assert!(matches!(
        create_surfaces2(1, 8, 8, true, 2, &[prime, mk_ext_buf_attr(9)]),
        Err(DriverError::AllocFailed)
    ));
    assert_eq!(
        create_surfaces2(1, 8, 8, true, 1, &[prime, mk_ext_buf_attr(9)]).unwrap(),
        SurfacePlan::Import { format: 1, descriptor: 9 }
    );
    assert_eq!(
        create_surfaces(640, 480, 1, 2, true).unwrap(),
        SurfacePlan::Allocate { format: 1, width: 640, height: 480, count: 2 }
    );
    assert_eq!(
        create_surfaces(-1, 480, 1, 2, true).unwrap(),
        SurfacePlan::Allocate { format: 1, width: u32::MAX, height: 480, count: 2 }
    );
}

#[test]
fn without_cuda_surfaces_are_stubs() {
    let mut pools = Pools::new();
    match allocate_surfaces(&mut pools, 1, 640, 480, 3, false) {
        SurfaceNext::Done { ids, result } => {
            result.unwrap();
            assert_eq!(ids.len(), 3);
            for id in &ids {
                let rec = pools.surfaces.get_id(*id).unwrap();
                assert_eq!(rec.kind, SurfaceKind::Stub);
                assert_eq!((rec.width, rec.height, rec.has_cuda_ctx), (640, 480, false));
            }
            assert!(destroy_surfaces(&mut pools, Some(&ids), true).unwrap().is_empty());
            assert_eq!(pools.surfaces.len(), 0);
        }
        other => panic!("unexpected {:?}", other),
    }
}

/// Allocates surfaces, with one answer per call.
fn allocate(
    pools: &mut Pools,
    count: u32,
    replies: &[AllocReply],
) -> (Vec<AllocCall>, Vec<u32>, Result<(), DriverError>) {
    let mut calls = Vec::new();
    let mut replies = replies.iter();
    let mut next = allocate_surfaces(pools, 1, 1280, 721, count, true);
    loop {
        match next {
            SurfaceNext::Done { ids, result } => return (calls, ids, result),
            SurfaceNext::Call { call, run } => {
                calls.push(call);
                next = allocate_resume(pools, run, *replies.next().unwrap());
            }
        }
    }
}

#[test]
fn device_surfaces_hold_both_planes() {
    let mut pools = Pools::new();
    let (calls, ids, result) = allocate(
        &mut pools,
        2,
        &[
            AllocReply::Done,
            AllocReply::Memory { ptr: 0xA000, pitch: 1536 },
            AllocReply::Done,
            AllocReply::Memory { ptr: 0xB000, pitch: 2048 },
        ],
    );
    result.unwrap();
    assert_eq!(calls[0], AllocCall::BindContext);
    assert_eq!(
        calls[1],
        AllocCall::AllocPitch { width_bytes: 1280, rows: 1081, element_size: 16 }
    );
    assert_eq!(calls.len(), 4);
    assert_eq!(
        pools.surfaces.get_id(ids[1]).unwrap().kind,
        SurfaceKind::Internal { cu_ptr: 0xB000, pitch: 2048, width: 1280, height: 721 }
    );
    let releases = destroy_surfaces(&mut pools, Some(&[ids[1], 999, ids[0]]), false).unwrap();
    assert_eq!(
        releases,
        vec![
            Release::Cuda(CudaRelease::FreeDevice(0xB000)),
            Release::Cuda(CudaRelease::FreeDevice(0xA000)),
        ]
    );
}

#[test]
fn a_failed_allocation_keeps_the_surfaces_before_it() {
    let mut pools = Pools::new();
    let first = [AllocReply::Done, AllocReply::Memory { ptr: 0xA000, pitch: 1536 }];
    let cases: [(&[AllocReply], i32); 3] = [
        (&[AllocReply::Failed], 1),
        (&[AllocReply::Done, AllocReply::Failed], 2),
        (&[AllocReply::Done, AllocReply::Memory { ptr: 1, pitch: 0x1_0000_0000 }], 0x12),
    ];
    for (tail, status) in cases {
        let mut replies = first.to_vec();
        replies.extend_from_slice(tail);
        let (_, ids, result) = allocate(&mut pools, 5, &replies);
        assert_eq!(ids.len(), 1);
        assert!(pools.surfaces.get_id(ids[0]).is_some());
        assert_eq!(result.unwrap_err().to_status(), status);
    }
    assert_eq!(pools.surfaces.len(), 3);
}

fn image() -> ExternalDmaBufImage {
    ExternalDmaBufImage {
        ext_mem: 0x10,
        mip: 0x20,
        plane0: 0x30,
        plane1: None,
        width: 640,
        height: 480,
        fourcc: va::VA_FOURCC_NV12,
        dup_fd: 7,
    }
}

#[test]
fn an_imported_surface_has_the_size_of_its_image() {
    let mut pools = Pools::new();
    let id = create_surfaces2_dma_buf(&mut pools, 1, Ok(image())).unwrap();
    let rec: SurfaceRec = *pools.surfaces.get_id(id).unwrap();
    assert_eq!((rec.width, rec.height, rec.has_cuda_ctx), (640, 480, false));
    assert_eq!(
        rec.kind,
        SurfaceKind::ExternalDmaBuf { image: image(), registered_nvenc: None }
    );
    assert_eq!(
        destroy_surfaces(&mut pools, Some(&[id]), true).unwrap(),
        vec![
            Release::Cuda(CudaRelease::DestroyMipmap(0x20)),
            Release::Cuda(CudaRelease::DestroyExternalMemory(0x10)),
            Release::Cuda(CudaRelease::CloseFd(7)),
        ]
    );
}

#[test]
fn import_failures_are_allocation_failures_but_for_three() {
    let mut pools = Pools::new();
    let mut fail = |e| create_surfaces2_dma_buf(&mut pools, 1, Err(e)).unwrap_err().to_status();
    assert_eq!(fail(DriverError::InvalidParameter), 0x12);
    assert_eq!(fail(DriverError::UnsupportedRtFormat), 0xe);
    assert_eq!(fail(DriverError::UnsupportedMemory), 0x24);
    assert_eq!(fail(DriverError::AllocFailed), 2);
    assert_eq!(fail(DriverError::OperationFailed("fcntl(F_DUPFD_CLOEXEC)")), 2);
}

#[test]
fn destroying_needs_a_list() {
    let mut pools = Pools::new();
    assert!(matches!(
        destroy_surfaces(&mut pools, None, true),
        Err(DriverError::InvalidParameter)
    ));
    assert!(destroy_surfaces(&mut pools, Some(&[]), true).unwrap().is_empty());
}

#[test]
fn other_surface_kinds_release_what_they_own() {
    let rec = |kind, has_cuda_ctx| SurfaceRec {
        width: 1,
        height: 1,
        format: 1,
        kind,
        registered: None,
        has_cuda_ctx,
    };
    assert_eq!(
        rec(SurfaceKind::DmaBuf { fd: 4 }, false).releases(),
        vec![CudaRelease::CloseFd(4)]
    );
    let internal = SurfaceKind::Internal { cu_ptr: 5, pitch: 1, width: 1, height: 1 };
    assert!(rec(internal, false).releases().is_empty());
    assert_eq!(rec(internal, true).releases(), vec![CudaRelease::FreeDevice(5)]);
    assert!(rec(SurfaceKind::CudaDevice { device_ptr: 5, pitch: 1 }, true).releases().is_empty());
}

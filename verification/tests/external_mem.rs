use nvenc_vaapi_driver::cuda::external_mem::{
    validate_descriptor, CudaRelease, ExternalDmaBufImage, ImportCall, ImportNext, ImportReply,
    PrimeDescriptor, PrimeLayer, PrimeObject,
};
use nvenc_vaapi_driver::error::DriverError;
use nvenc_vaapi_driver::va;

fn fresh_desc() -> PrimeDescriptor {
    let object = PrimeObject { fd: 0, size: 0, drm_format_modifier: 0 };
    let layer = PrimeLayer {
        drm_format: 0,
        num_planes: 0,
        object_index: [0; 4],
        offset: [0; 4],
        pitch: [0; 4],
    };
    let mut d = PrimeDescriptor {
        fourcc: va::VA_FOURCC_NV12,
        width: 1280,
        height: 720,
        num_objects: 1,
        objects: [object; 4],
        num_layers: 1,
        layers: [layer; 4],
    };
    d.objects[0].fd = 100;
    d.objects[0].size = 1280 * 720 * 3 / 2;
    d.objects[0].drm_format_modifier = 0;
    d
}

#[test]
fn accepts_valid_single_plane_nv12() {
    assert!(validate_descriptor(&fresh_desc()).is_ok());
}

#[test]
fn rejects_non_nv12() {
    let mut d = fresh_desc();
    d.fourcc = u32::from_le_bytes(*b"RGBA");
    assert!(matches!(validate_descriptor(&d), Err(DriverError::UnsupportedRtFormat)));
}

#[test]
fn rejects_zero_objects() {
    let mut d = fresh_desc();
    d.num_objects = 0;
    assert!(matches!(validate_descriptor(&d), Err(DriverError::InvalidParameter)));
}

#[test]
fn rejects_zero_layers() {
    let mut d = fresh_desc();
    d.num_layers = 0;
    assert!(matches!(validate_descriptor(&d), Err(DriverError::InvalidParameter)));
}

#[test]
fn rejects_zero_dimensions() {
    let mut d = fresh_desc();
    d.width = 0;
    assert!(matches!(validate_descriptor(&d), Err(DriverError::InvalidParameter)));
}

#[test]
fn rejects_zero_size_object() {
    let mut d = fresh_desc();
    d.objects[0].size = 0;
    assert!(matches!(validate_descriptor(&d), Err(DriverError::InvalidParameter)));
}

#[test]
fn rejects_negative_fd() {
    let mut d = fresh_desc();
    d.objects[0].fd = -1;
    assert!(matches!(validate_descriptor(&d), Err(DriverError::InvalidParameter)));
}

#[test]
fn rejects_multi_object_for_now() {
    let mut d = fresh_desc();
    d.num_objects = 2;
    assert!(matches!(validate_descriptor(&d), Err(DriverError::UnsupportedMemory)));
}

/// Imports a descriptor with one answer per call, and gives the calls made,
/// the releases of the last step, and the result.
fn import_with(
    desc: &PrimeDescriptor,
    replies: &[ImportReply],
) -> (Vec<ImportCall>, Vec<CudaRelease>, Result<ExternalDmaBufImage, DriverError>) {
    let mut calls = Vec::new();
    let mut releases = Vec::new();
    let mut next = ExternalDmaBufImage::import(desc);
    let mut replies = replies.iter();
    loop {
        match next {
            ImportNext::Done(result) => return (calls, releases, result),
            ImportNext::Call { call, run } => {
                calls.push(call);
                let step = ExternalDmaBufImage::import_resume(run, *replies.next().unwrap());
                releases = step.releases;
                next = step.next;
            }
        }
    }
}

#[test]
fn import_walks_from_descriptor_to_array() {
    let mut d = fresh_desc();
    d.layers[0].offset[0] = 4096;
    d.height = 721;
    let (calls, releases, result) = import_with(
        &d,
        &[
            ImportReply::Done,
            ImportReply::Done,
            ImportReply::Fd(7),
            ImportReply::Handle(0x10),
            ImportReply::Handle(0x20),
            ImportReply::Handle(0x30),
        ],
    );
    let image = result.unwrap();
    assert_eq!((image.ext_mem, image.mip, image.plane0, image.plane1), (0x10, 0x20, 0x30, None));
    assert_eq!((image.width, image.height, image.dup_fd), (1280, 721, 7));
    assert_eq!(image.fourcc, va::VA_FOURCC_NV12);
    assert!(releases.is_empty());
    assert_eq!(calls[0], ImportCall::EnsureContext);
    assert_eq!(calls[1], ImportCall::BindContext);
    assert_eq!(calls[2], ImportCall::DupFd { fd: 100 });
    assert_eq!(calls[3], ImportCall::ImportMemory { fd: 7, size: 1280 * 720 * 3 / 2 });
    match calls[4] {
        ImportCall::MapMipmap { ext_mem, desc } => {
            assert_eq!(ext_mem, 0x10);
            assert_eq!((desc.offset, desc.width, desc.height), (4096, 1280, 721 + 360));
            assert_eq!((desc.num_channels, desc.num_levels), (1, 1));
        }
        _ => panic!("expected the mipmap call"),
    }
    assert_eq!(calls[5], ImportCall::GetLevel { mip: 0x20 });
    assert_eq!(
        image.releases(),
        vec![
            CudaRelease::DestroyMipmap(0x20),
            CudaRelease::DestroyExternalMemory(0x10),
            CudaRelease::CloseFd(7),
        ]
    );
}

#[test]
fn failed_import_gives_back_in_reverse_order() {
    let d = fresh_desc();
    let ok = [
        ImportReply::Done,
        ImportReply::Done,
        ImportReply::Fd(7),
        ImportReply::Handle(0x10),
        ImportReply::Handle(0x20),
    ];
    let expected: [&[CudaRelease]; 6] = [
        &[],
        &[],
        &[],
        &[CudaRelease::CloseFd(7)],
        &[CudaRelease::DestroyExternalMemory(0x10), CudaRelease::CloseFd(7)],
        &[
            CudaRelease::DestroyMipmap(0x20),
            CudaRelease::DestroyExternalMemory(0x10),
            CudaRelease::CloseFd(7),
        ],
    ];
    for fails_at in 0..6 {
        let mut replies = ok[..fails_at].to_vec();
        replies.push(ImportReply::Failed);
        let (_, releases, result) = import_with(&d, &replies);
        assert_eq!(releases, expected[fails_at]);
        match result {
            Err(DriverError::OperationFailed(what)) => {
                assert_eq!(fails_at, 2);
                assert_eq!(what, "fcntl(F_DUPFD_CLOEXEC)");
            }
            Err(DriverError::AllocFailed) => assert_ne!(fails_at, 2),
            other => panic!("unexpected {:?}", other),
        }
    }
}

#[test]
fn null_handles_and_negative_descriptors_are_failures() {
    let d = fresh_desc();
    let (_, _, result) =
        import_with(&d, &[ImportReply::Done, ImportReply::Done, ImportReply::Fd(-1)]);
    assert!(matches!(result, Err(DriverError::OperationFailed(_))));
    let (_, releases, result) = import_with(
        &d,
        &[ImportReply::Done, ImportReply::Done, ImportReply::Fd(5), ImportReply::Handle(0)],
    );
    assert!(matches!(result, Err(DriverError::AllocFailed)));
    assert_eq!(releases, vec![CudaRelease::CloseFd(5)]);
}

#[test]
fn an_invalid_descriptor_makes_no_call() {
    let mut d = fresh_desc();
    d.height = 0;
    let (calls, _, result) = import_with(&d, &[]);
    assert!(calls.is_empty());
    assert!(matches!(result, Err(DriverError::InvalidParameter)));
}

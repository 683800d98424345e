use nvenc_vaapi_driver::driver::buffer::{
    buffer_info, buffer_set_num_elements, create_buffer, create_buffer_in, destroy_buffer,
    map_buffer, map_buffer2, unmap_buffer, Mapping,
};
use nvenc_vaapi_driver::driver::display_attr::{
    get_display_attributes, query_display_attributes, set_display_attributes,
};
use nvenc_vaapi_driver::driver::export::export_surface_handle;
use nvenc_vaapi_driver::driver::image::{
    alloc_host_image_in, associate_subpicture, chroma_plane_offset, create_image,
    create_subpicture, deassociate_subpicture, derive_image, destroy_image, destroy_subpicture,
    get_image, lock_surface, nv12_layout, put_image, put_surface, query_image_formats,
    query_subpicture_formats, query_surface_error, set_image_palette, set_subpicture_chromakey,
    set_subpicture_global_alpha, set_subpicture_image, unlock_surface, upload_resume, CopyPlan,
    Rect, UploadCall, UploadNext,
};
use nvenc_vaapi_driver::driver::state::{BufferStorage, Pools, SurfaceKind, SurfaceRec};
use nvenc_vaapi_driver::driver::sync::{sync_buffer, sync_surface, sync_surface2};
use nvenc_vaapi_driver::error::{DriverError, DriverResult};
use nvenc_vaapi_driver::va;

#[test]
fn nv12_pitch_math_matches_layout() {
    let w: u32 = 1280;
    let h: u32 = 720;
    let pitch: u32 = w;
    let layout = nv12_layout(pitch, h).unwrap();
    assert_eq!(layout.y_size, 921_600);
    assert_eq!(layout.uv_size, 460_800);
    assert_eq!(layout.y_size + layout.uv_size, (w as usize) * (h as usize) * 3 / 2);
    assert_eq!(layout.y_size, 1_382_400 - 460_800);
    assert_eq!(layout.total, 1_382_400);
}

#[test]
fn nv12_uv_offset_follows_pitched_y_plane() {
    let surf_pitch: u32 = 1536;
    let h: u32 = 720;
    let uv_offset = chroma_plane_offset(surf_pitch, h);
    assert_eq!(uv_offset, 1_105_920);
}

#[test]
fn odd_heights_round_the_chroma_plane_down() {
    let layout = nv12_layout(10, 5).unwrap();
    assert_eq!((layout.y_size, layout.uv_size, layout.total), (50, 20, 70));
    assert!(nv12_layout(u32::MAX, u32::MAX).is_none());
}

fn surface(pools: &mut Pools, kind: SurfaceKind, width: u32, height: u32) -> u32 {
    pools.surfaces.insert_id(SurfaceRec {
        width,
        height,
        format: va::VA_RT_FORMAT_YUV420,
        kind,
        registered: None,
        has_cuda_ctx: true,
    })
}

fn device(cu_ptr: u64, pitch: u32, width: u32, height: u32) -> SurfaceKind {
    SurfaceKind::Internal { cu_ptr, pitch, width, height }
}

/// Runs an upload with one answer per call, and gives the copies made.
fn upload(next: UploadNext, answers: &[bool]) -> (Vec<CopyPlan>, Result<(), DriverError>) {
    let mut copies = Vec::new();
    let mut answers = answers.iter();
    let mut next = next;
    loop {
        match next {
            UploadNext::Done(result) => return (copies, result),
            UploadNext::Call { call, run } => {
                if let UploadCall::Copy { plan, .. } = call {
                    copies.push(plan);
                }
                next = upload_resume(run, *answers.next().unwrap());
            }
        }
    }
}

#[test]
fn nv12_is_the_one_image_format() {
    let formats = query_image_formats(true).unwrap();
    assert_eq!(formats.len(), 1);
    assert_eq!(formats[0].fourcc, u32::from_le_bytes(*b"NV12"));
    assert_eq!((formats[0].byte_order, formats[0].bits_per_pixel), (1, 12));
    assert!(matches!(query_image_formats(false), Err(DriverError::InvalidParameter)));
}

#[test]
fn a_new_image_is_zeros_in_a_buffer() {
    let mut pools = Pools::new();
    let image = create_image(&mut pools, Some(va::VA_FOURCC_NV12), 16, 9, true).unwrap();
    assert_eq!((image.width, image.height, image.num_planes), (16, 9, 2));
    assert_eq!((image.fourcc, image.byte_order, image.bits_per_pixel), (0x3231_564E, 1, 12));
    assert_eq!(image.pitches, [16, 16, 0]);
    assert_eq!(image.offsets, [0, 144, 0]);
    assert_eq!(image.data_size, 144 + 64);
    let buffer = pools.buffers.get_id(image.buf).unwrap();
    assert_eq!(buffer.buf_type, va::VA_IMAGE_BUFFER_TYPE);
    assert_eq!(*buffer.storage.bytes(), vec![0u8; 208]);
    assert_eq!((buffer.element_size, buffer.num_elements), (208, 1));

    destroy_image(&mut pools, image.image_id).unwrap();
    assert!(pools.buffers.get_id(image.buf).is_none());
    assert!(matches!(
        destroy_image(&mut pools, image.image_id),
        Err(DriverError::InvalidImage)
    ));
}

#[test]
fn destroying_an_image_tolerates_a_destroyed_buffer() {
    let mut pools = Pools::new();
    let image = create_image(&mut pools, Some(va::VA_FOURCC_NV12), 16, 16, true).unwrap();
    destroy_buffer(&mut pools, image.buf).unwrap();
    destroy_image(&mut pools, image.image_id).unwrap();
}

#[test]
fn image_arguments_are_checked() {
    let mut pools = Pools::new();
    let nv12 = Some(va::VA_FOURCC_NV12);
    let mut create =
        |fourcc, w, h, out| create_image(&mut pools, fourcc, w, h, out).unwrap_err().to_status();
    assert_eq!(create(nv12, 0, 16, true), 0x12);
    assert_eq!(create(nv12, 16, -1, true), 0x12);
    assert_eq!(create(nv12, 16, 16, false), 0x12);
    assert_eq!(create(None, 16, 16, true), 0x12);
    assert_eq!(create(Some(1), 16, 16, true), 0xf);
}

#[test]
fn too_wide_a_picture_is_reported_after_the_image_was_stored() {
    let mut pools = Pools::new();
    let r = alloc_host_image_in(&mut pools, None, 70_000, 2, 70_000, Some(Vec::new()));
    assert!(matches!(r, Err(DriverError::InvalidParameter)));
    assert_eq!((pools.images.len(), pools.buffers.len()), (1, 1));
    let r = alloc_host_image_in(&mut pools, None, 16, 16, 16, None);
    assert!(matches!(r, Err(DriverError::AllocFailed)));
    let r = alloc_host_image_in(&mut pools, None, 16, u32::MAX, u32::MAX, None);
    assert!(matches!(r, Err(DriverError::InvalidParameter)));
    assert_eq!((pools.images.len(), pools.buffers.len()), (1, 1));
}

#[test]
fn unmapping_a_derived_image_uploads_both_planes() {
    let mut pools = Pools::new();
    let sid = surface(&mut pools, device(0xD000, 512, 320, 241), 320, 241);
    let image = derive_image(&mut pools, sid, true).unwrap();
    assert_eq!(image.pitches, [512, 512, 0]);
    assert_eq!(image.offsets[1], 512 * 241);

    assert!(matches!(map_buffer(&mut pools, image.buf, true), Ok(Mapping::Bytes(_))));
    assert!(pools.buffers.get_id(image.buf).unwrap().mapped);
    let next = unmap_buffer(&mut pools, image.buf);
    assert!(!pools.buffers.get_id(image.buf).unwrap().mapped);
    let (copies, result) = upload(next, &[true, true, true]);
    result.unwrap();
    assert_eq!(
        copies,
        vec![
            CopyPlan {
                src_offset: 0,
                src_pitch: 512,
                dst_device: 0xD000,
                dst_pitch: 512,
                width_in_bytes: 320,
                height: 241,
            },
            CopyPlan {
                src_offset: 512 * 241,
                src_pitch: 512,
                dst_device: 0xD000 + 512 * 241,
                dst_pitch: 512,
                width_in_bytes: 320,
                height: 120,
            },
        ]
    );
}

#[test]
fn upload_failures_name_their_call() {
    let mut pools = Pools::new();
    let sid = surface(&mut pools, device(0xD000, 512, 320, 240), 320, 240);
    let image = derive_image(&mut pools, sid, true).unwrap();
    let whole = Rect { x: 0, y: 0, width: 320, height: 240 };
    let put = |pools: &Pools| put_image(pools, sid, image.image_id, whole, whole);
    let failure = |answers: &[bool]| upload(put(&pools), answers).1.unwrap_err().message();
    assert_eq!(failure(&[false]), "operation failed: cuda bind_to_thread");
    assert_eq!(failure(&[true, false]), "operation failed: cuMemcpy2D_v2 Y plane");
    assert_eq!(failure(&[true, true, false]), "operation failed: cuMemcpy2D_v2 UV plane");
}

#[test]
fn a_chroma_plane_beyond_the_address_space_is_refused_after_the_luma_copy() {
    let mut pools = Pools::new();
    let sid = surface(&mut pools, device(u64::MAX - 10, 512, 320, 240), 320, 240);
    let image = derive_image(&mut pools, sid, true).unwrap();
    map_buffer(&mut pools, image.buf, true).unwrap();
    let (copies, result) = upload(unmap_buffer(&mut pools, image.buf), &[true, true]);
    assert_eq!(copies.len(), 1);
    assert!(matches!(result, Err(DriverError::InvalidParameter)));
}

#[test]
fn uploads_are_checked() {
    let mut pools = Pools::new();
    let image = create_image(&mut pools, Some(va::VA_FOURCC_NV12), 320, 240, true).unwrap();
    let whole = Rect { x: 0, y: 0, width: 320, height: 240 };
    let other = surface(&mut pools, device(1, 512, 640, 480), 640, 480);
    let stub = surface(&mut pools, SurfaceKind::Stub, 320, 240);
    let good = surface(&mut pools, device(1, 512, 320, 240), 320, 240);
    let lost = surface(&mut pools, device(1, 512, 320, 240), 320, 240);
    let gone = pools.surfaces.get_id(lost).copied().unwrap();
    pools.surfaces.remove_id(lost);
    let lost = pools.surfaces.insert_id(SurfaceRec { has_cuda_ctx: false, ..gone });

    let status = |pools: &Pools, sid, iid, src, dst| match put_image(pools, sid, iid, src, dst) {
        UploadNext::Done(Ok(())) => 0,
        UploadNext::Done(Err(e)) => e.to_status(),
        UploadNext::Call { .. } => -1,
    };
    let iid = image.image_id;
    assert_eq!(status(&pools, good, iid, whole, whole), -1);
    assert_eq!(status(&pools, good, 999, whole, whole), 8);
    assert_eq!(status(&pools, 999, iid, whole, whole), 6);
    assert_eq!(status(&pools, other, iid, whole, whole), 0x12);
    assert_eq!(status(&pools, stub, iid, whole, whole), 0);
    assert_eq!(status(&pools, lost, iid, whole, whole), 1);
    let part = Rect { x: 1, ..whole };
    assert_eq!(status(&pools, good, iid, part, whole), 0x14);
    assert_eq!(status(&pools, good, iid, whole, Rect { height: 239, ..whole }), 0x14);
    destroy_buffer(&mut pools, image.buf).unwrap();
    assert_eq!(status(&pools, good, iid, whole, whole), 7);
}

#[test]
fn deriving_is_checked() {
    let mut pools = Pools::new();
    assert_eq!(derive_image(&mut pools, 1, true).unwrap_err().to_status(), 6);
    let sid = surface(&mut pools, SurfaceKind::Stub, 64, 48);
    assert_eq!(derive_image(&mut pools, sid, false).unwrap_err().to_status(), 0x12);
    // Without device memory the pitch is the width, and nothing is uploaded.
    let image = derive_image(&mut pools, sid, true).unwrap();
    assert_eq!(image.pitches, [64, 64, 0]);
    map_buffer(&mut pools, image.buf, true).unwrap();
    assert!(matches!(unmap_buffer(&mut pools, image.buf), UploadNext::Done(Ok(()))));

    let rec = *pools.surfaces.get_id(sid).unwrap();
    let odd = pools.surfaces.insert_id(SurfaceRec { format: 2, ..rec });
    assert_eq!(derive_image(&mut pools, odd, true).unwrap_err().to_status(), 0xe);
}

#[test]
fn an_image_of_no_surface_uploads_nothing_on_unmap() {
    let mut pools = Pools::new();
    let image = create_image(&mut pools, Some(va::VA_FOURCC_NV12), 16, 16, true).unwrap();
    map_buffer(&mut pools, image.buf, true).unwrap();
    assert!(matches!(unmap_buffer(&mut pools, image.buf), UploadNext::Done(Ok(()))));
}

#[test]
fn unmapping_an_image_of_a_destroyed_surface_fails() {
    let mut pools = Pools::new();
    let sid = surface(&mut pools, device(1, 512, 320, 240), 320, 240);
    let image = derive_image(&mut pools, sid, true).unwrap();
    pools.surfaces.remove_id(sid);
    map_buffer(&mut pools, image.buf, true).unwrap();
    assert!(matches!(
        unmap_buffer(&mut pools, image.buf),
        UploadNext::Done(Err(DriverError::InvalidSurface))
    ));
}

#[test]
fn buffers_hold_the_clients_data_or_zeros() {
    let mut pools = Pools::new();
    let ty = va::VA_ENC_SLICE_PARAMETER_BUFFER_TYPE;
    let id = create_buffer(&mut pools, ty, 2, 3, Some(&[1, 2, 3, 4, 5, 6]), true).unwrap();
    assert_eq!(*pools.buffers.get_id(id).unwrap().storage.bytes(), vec![1, 2, 3, 4, 5, 6]);
    let zeros = create_buffer(&mut pools, ty, 4, 2, None, true).unwrap();
    assert_eq!(*pools.buffers.get_id(zeros).unwrap().storage.bytes(), vec![0; 8]);
    let info = buffer_info(&pools, zeros).unwrap();
    assert_eq!((info.buf_type, info.size, info.num_elements), (ty, 4, 2));
    let empty = create_buffer(&mut pools, ty, 0, 7, None, true).unwrap();
    assert!(pools.buffers.get_id(empty).unwrap().storage.bytes().is_empty());

    assert!(matches!(
        create_buffer(&mut pools, ty, 4, 2, None, false),
        Err(DriverError::InvalidParameter)
    ));
    assert!(matches!(
        create_buffer_in(&mut pools, ty, 4, 2, None, true, None),
        Err(DriverError::AllocFailed)
    ));
    // More than any allocator gives.
    assert!(matches!(
        create_buffer(&mut pools, ty, u32::MAX, u32::MAX, None, true),
        Err(DriverError::AllocFailed)
    ));
    buffer_set_num_elements(id, 9).unwrap();
    destroy_buffer(&mut pools, id).unwrap();
    assert!(matches!(destroy_buffer(&mut pools, id), Err(DriverError::InvalidBuffer)));
    assert!(matches!(buffer_info(&pools, id), Err(DriverError::InvalidBuffer)));
}

#[test]
fn a_coded_buffer_is_mapped_once_a_frame_is_in_it() {
    let mut pools = Pools::new();
    let ty = va::VA_ENC_CODED_BUFFER_TYPE;
    let id = create_buffer(&mut pools, ty, 1024, 1, None, true).unwrap();
    match map_buffer2(&mut pools, id, true, 3) {
        Err(DriverError::OperationFailed(what)) => {
            assert_eq!(what, "coded buffer not ready — did you call vaEndPicture?")
        }
        _ => panic!("must fail"),
    }
    assert!(matches!(
        pools.buffers.get_id(id).unwrap().storage,
        BufferStorage::Coded(ref slot) if slot.backing.len() == 1024 && slot.segment.is_none()
    ));
    assert!(matches!(unmap_buffer(&mut pools, id), UploadNext::Done(Ok(()))));
    assert!(matches!(map_buffer(&mut pools, id, false), Err(DriverError::InvalidParameter)));
    assert!(matches!(map_buffer(&mut pools, 99, true), Err(DriverError::InvalidBuffer)));
    assert!(matches!(
        unmap_buffer(&mut pools, 99),
        UploadNext::Done(Err(DriverError::InvalidBuffer))
    ));
}

#[test]
fn entries_without_an_implementation_say_so() {
    let r = Rect { x: 0, y: 0, width: 1, height: 1 };
    let unimplemented: Vec<DriverResult<()>> = vec![
        set_image_palette(1),
        get_image(1, r, 1),
        create_subpicture(1).map(|_| ()),
        destroy_subpicture(1),
        set_subpicture_image(1, 1),
        set_subpicture_chromakey(1, 0, 0, 0),
        set_subpicture_global_alpha(1),
        associate_subpicture(1, &[1], 0),
        deassociate_subpicture(1, &[1]),
        put_surface(1, 0),
        lock_surface(1),
        unlock_surface(1),
        query_surface_error(1),
        export_surface_handle(1, 0, 0),
    ];
    for r in unimplemented {
        assert!(matches!(r, Err(DriverError::Unimplemented)));
    }
    assert_eq!(query_subpicture_formats().unwrap(), 0);
    assert_eq!(query_display_attributes().unwrap(), 0);
    get_display_attributes(1).unwrap();
    set_display_attributes(1).unwrap();
    sync_surface(1).unwrap();
    sync_surface2(1, 0).unwrap();
    sync_buffer(1, 0).unwrap();
}

use nvenc_vaapi_driver::cuda::external_mem::{CudaRelease, ExternalDmaBufImage};
use nvenc_vaapi_driver::driver::buffer::{create_buffer, map_buffer, Mapping};
use nvenc_vaapi_driver::driver::config::create_config;
use nvenc_vaapi_driver::driver::context::{
    create_context, create_context_resume, create_context_with, destroy_context, ContextNext,
    ContextPlan,
};
use nvenc_vaapi_driver::driver::end_picture::{
    build_cfg_from_sps, end_picture, end_picture_encode, end_picture_frame, end_picture_resume,
    EndCall, EndNext, EndReply,
};
use nvenc_vaapi_driver::driver::lifecycle::terminate;
use nvenc_vaapi_driver::driver::picture::{begin_picture, render_picture};
use nvenc_vaapi_driver::driver::state::{
    BufferStorage, PackedHeaderKind, Pools, SurfaceKind, SurfaceRec,
};
use nvenc_vaapi_driver::driver::surface::{destroy_surfaces, Release};
use nvenc_vaapi_driver::error::DriverError;
use nvenc_vaapi_driver::h264::{
    PictureParams, SequenceParams, PICTURE_PARAM_SIZE, SEQUENCE_PARAM_SIZE,
};
use nvenc_vaapi_driver::nvenc::encode::{EncodeCall, EncodeReply};
use nvenc_vaapi_driver::nvenc::h264_config::{
    EncoderConfig, EntropyCodingMode, H264Profile, NvEncConfig, NvH264Config, NvQp, NvRcMode,
    NvRcParams, NvVui, ProfileGuid,
};
use nvenc_vaapi_driver::nvenc::open::{OpenCall, OpenNext, OpenReply};
use nvenc_vaapi_driver::nvenc::reconfigure::{ReconfigureCall, ReconfigureReply};
use nvenc_vaapi_driver::nvenc::register::{RegisterParams, ResourceType};
use nvenc_vaapi_driver::nvenc::session::{NvencRelease, NvencSession};
use nvenc_vaapi_driver::rates::RateParams;
use nvenc_vaapi_driver::va;

const ENCODER: u64 = 0xE0;

fn preset_config() -> NvEncConfig {
    NvEncConfig {
        version: 12,
        profile_guid: ProfileGuid::AutoSelect,
        gop_length: 0,
        frame_interval_p: 0,
        mono_chrome_encoding: 0,
        mv_precision: 0,
        rc_params: NvRcParams {
            rate_control_mode: NvRcMode::ConstQp,
            const_qp: NvQp { qp_inter_p: 0, qp_inter_b: 0, qp_intra: 0 },
            average_bit_rate: 0,
            max_bit_rate: 0,
            vbv_buffer_size: 0,
            vbv_initial_delay: 0,
            zero_reorder_delay: false,
            enable_lookahead: false,
            target_quality: 0,
            lookahead_depth: 0,
        },
        h264: NvH264Config {
            idr_period: 0,
            slice_mode: 0,
            slice_mode_data: 0,
            chroma_format_idc: 0,
            entropy_coding_mode: EntropyCodingMode::AutoSelect,
            repeat_sps_pps: false,
            output_aud: false,
            vui: NvVui {
                video_signal_type_present_flag: 0,
                video_format: 0,
                video_full_range_flag: 0,
                colour_description_present_flag: 0,
                colour_primaries: 0,
                transfer_characteristics: 0,
                colour_matrix: 0,
            },
            separate_colour_plane_flag: 0,
            max_num_ref_frames: 0,
            level: 0,
        },
    }
}

fn open(cfg: EncoderConfig) -> NvencSession {
    let mut step = NvencSession::new(cfg);
    let mut buffers = 0;
    loop {
        match step.next {
            OpenNext::Done(result) => return result.ok().unwrap(),
            OpenNext::Call { call, run } => {
                let reply = match call {
                    OpenCall::OpenSession => OpenReply::Opened(ENCODER),
                    OpenCall::PresetConfig { .. } => OpenReply::Preset(preset_config()),
                    OpenCall::CreateBitstream { .. } => {
                        buffers += 1;
                        OpenReply::Bitstream(100 + buffers)
                    }
                    _ => OpenReply::Done,
                };
                step = NvencSession::open_resume(run, reply);
            }
        }
    }
}

fn surface(pools: &mut Pools, kind: SurfaceKind) -> u32 {
    pools.surfaces.insert_id(SurfaceRec {
        width: 320,
        height: 240,
        format: va::VA_RT_FORMAT_YUV420,
        kind,
        registered: None,
        has_cuda_ctx: true,
    })
}

fn device(cu_ptr: u64) -> SurfaceKind {
    SurfaceKind::Internal { cu_ptr, pitch: 512, width: 320, height: 240 }
}

fn plan(pools: &Pools, config: u32, targets: &[u32]) -> ContextPlan {
    create_context(pools, config, 320, 240, 1, targets, true).unwrap()
}

/// Creates a context with an open session; every registration succeeds with
/// the resource 0x500 plus its number.
fn context(pools: &mut Pools, targets: &[u32]) -> (u32, Vec<RegisterParams>) {
    let config = create_config(pools, va::VA_PROFILE_H264_HIGH, 6, &[], true).unwrap();
    let plan = plan(pools, config, targets);
    let session = open(plan.session_config);
    let mut asked = Vec::new();
    let mut step = create_context_with(pools, plan, Some(session), true);
    loop {
        assert!(step.releases.is_empty());
        match step.next {
            ContextNext::Done(r) => return (r.unwrap(), asked),
            ContextNext::Call { call, run } => {
                asked.push(call);
                step = create_context_resume(pools, run, Some(0x500 + asked.len() as u64));
            }
        }
    }
}

/// Encodes the frame of a context with one answer per call.
fn end(
    pools: &mut Pools,
    context: u32,
    pps: Option<PictureParams>,
    sps: Option<SequenceParams>,
    replies: Vec<EndReply>,
) -> (Vec<EndCall>, Vec<NvencRelease>, Result<(), DriverError>) {
    let frame = match end_picture(pools, context) {
        Ok(frame) => frame,
        Err(e) => return (Vec::new(), Vec::new(), Err(e)),
    };
    let mut calls = Vec::new();
    let mut releases = Vec::new();
    let mut replies = replies.into_iter();
    let mut step = end_picture_encode(pools, frame, pps, sps, RateParams::default(), true);
    loop {
        releases.extend(step.releases);
        match step.next {
            EndNext::Done(result) => {
                assert!(replies.next().is_none(), "answers left over");
                return (calls, releases, result);
            }
            EndNext::Call { call, job, stage } => {
                calls.push(call);
                step = end_picture_resume(pools, job, stage, replies.next().unwrap());
            }
        }
    }
}

fn encoded(data: &[u8]) -> Vec<EndReply> {
    vec![
        EndReply::Encode(EncodeReply::Mapped(0x900)),
        EndReply::Encode(EncodeReply::Encoded),
        EndReply::Encode(EncodeReply::Ready { data: data.to_vec(), is_idr: true }),
    ]
}

fn coded(pools: &Pools, id: u32) -> (Vec<u8>, Option<u32>, bool) {
    let rec = pools.buffers.get_id(id).unwrap();
    match &rec.storage {
        BufferStorage::Coded(slot) => {
            (slot.backing.clone(), slot.segment.map(|s| s.size), rec.coded_ready)
        }
        BufferStorage::Generic(_) => panic!("not a coded buffer"),
    }
}

#[test]
fn context_arguments_are_checked_in_order() {
    let mut pools = Pools::new();
    let config = create_config(&mut pools, 6, 6, &[], true).unwrap();
    let sid = surface(&mut pools, device(1));
    let status = |c, w, h, t: &[u32], out| {
        create_context(&pools, c, w, h, 0, t, out).unwrap_err().to_status()
    };
    assert_eq!(status(99, -1, 1, &[99], false), 0x12);
    assert_eq!(status(99, -1, 1, &[99], true), 4);
    assert_eq!(status(config, -1, 1, &[sid, 99], true), 6);
    assert_eq!(status(config, -1, 1, &[sid], true), 0x12);
    assert_eq!(status(config, 1, -1, &[], true), 0x12);
    let plan = create_context(&pools, config, 640, 480, 7, &[sid, sid], true).unwrap();
    assert_eq!((plan.width, plan.height, plan.flag, plan.targets.len()), (640, 480, 7, 2));
    assert_eq!(plan.session_config, EncoderConfig::default_for(640, 480, H264Profile::Main));
}

#[test]
fn device_targets_are_registered_once_each() {
    let mut pools = Pools::new();
    let a = surface(&mut pools, device(0xA));
    let stub = surface(&mut pools, SurfaceKind::Stub);
    let b = surface(&mut pools, device(0xB));
    let (id, asked) = context(&mut pools, &[a, stub, b, a]);
    let resources: Vec<u64> = asked.iter().map(|p| p.resource).collect();
    assert_eq!(resources, vec![0xA, 0xB]);
    assert_eq!(asked[0].resource_type, ResourceType::CudaDevicePtr);
    let rec = pools.contexts.get_id(id).unwrap();
    assert_eq!(rec.render_targets.len(), 4);
    assert!(rec.session.is_some() && rec.current_target.is_none() && rec.last_coded.is_none());
}

#[test]
fn a_refused_target_takes_the_session_down() {
    let mut pools = Pools::new();
    let a = surface(&mut pools, device(0xA));
    let config = create_config(&mut pools, 6, 6, &[], true).unwrap();
    let plan = plan(&pools, config, &[a]);
    let session = open(plan.session_config);
    let run = match create_context_with(&mut pools, plan, Some(session), true).next {
        ContextNext::Call { run, .. } => run,
        ContextNext::Done(_) => panic!("a registration is due"),
    };
    let step = create_context_resume(&mut pools, run, None);
    assert!(matches!(
        step.next,
        ContextNext::Done(Err(DriverError::OperationFailed("NvEncRegisterResource")))
    ));
    assert_eq!(step.releases.len(), 7);
    assert_eq!(step.releases[6], NvencRelease::DestroyEncoder { encoder: ENCODER });
    assert_eq!(pools.contexts.len(), 0);
}

#[test]
fn a_context_without_a_session_cannot_encode() {
    let mut pools = Pools::new();
    let config = create_config(&mut pools, 6, 6, &[], true).unwrap();
    let plan = plan(&pools, config, &[]);
    let step = create_context_with(&mut pools, plan, None, false);
    let id = match step.next {
        ContextNext::Done(Ok(id)) => id,
        _ => panic!("must be stored"),
    };
    let sid = surface(&mut pools, device(1));
    begin_picture(&mut pools, id, sid).unwrap();
    let (_, _, result) = end(&mut pools, id, None, None, vec![]);
    match result {
        Err(DriverError::OperationFailed(what)) => {
            assert_eq!(what, "no NVENC session — GPU init failed")
        }
        _ => panic!("must fail"),
    }
    assert!(destroy_context(&mut pools, id, true).unwrap().is_empty());
    assert!(matches!(destroy_context(&mut pools, id, true), Err(DriverError::InvalidContext)));
}

#[test]
fn destroying_a_context_takes_its_session_down() {
    let mut pools = Pools::new();
    let a = surface(&mut pools, device(0xA));
    let (id, _) = context(&mut pools, &[a]);
    let releases = destroy_context(&mut pools, id, true).unwrap();
    assert_eq!(releases.len(), 8);
    assert_eq!(releases[6], NvencRelease::Unregister { encoder: ENCODER, resource: 0x501 });
    assert_eq!(releases[7], NvencRelease::DestroyEncoder { encoder: ENCODER });
}

#[test]
fn picture_calls_name_what_is_missing() {
    let mut pools = Pools::new();
    let sid = surface(&mut pools, device(1));
    assert!(matches!(begin_picture(&mut pools, 9, sid), Err(DriverError::InvalidContext)));
    assert!(matches!(render_picture(&mut pools, 9, &[1]), Err(DriverError::InvalidContext)));
    assert!(matches!(end_picture(&mut pools, 9), Err(DriverError::InvalidContext)));
    let (id, _) = context(&mut pools, &[]);
    assert!(matches!(begin_picture(&mut pools, id, 99), Err(DriverError::InvalidSurface)));
    assert!(matches!(render_picture(&mut pools, id, &[]), Err(DriverError::InvalidParameter)));
    assert!(matches!(end_picture(&mut pools, id), Err(DriverError::InvalidSurface)));
}

#[test]
fn buffers_are_sorted_into_the_frame() {
    let mut pools = Pools::new();
    let (id, _) = context(&mut pools, &[]);
    let sid = surface(&mut pools, device(1));
    let mut make = |ty, data: &[u8]| {
        create_buffer(&mut pools, ty, data.len() as u32, 1, Some(data), true).unwrap()
    };
    let seq = make(va::VA_ENC_SEQUENCE_PARAMETER_BUFFER_TYPE, &[1]);
    let pic = make(va::VA_ENC_PICTURE_PARAMETER_BUFFER_TYPE, &[2]);
    let slice = make(va::VA_ENC_SLICE_PARAMETER_BUFFER_TYPE, &[3]);
    let param = make(va::VA_ENC_PACKED_HEADER_PARAMETER_BUFFER_TYPE, &[1, 0, 0, 0, 9]);
    let odd = make(va::VA_ENC_PACKED_HEADER_PARAMETER_BUFFER_TYPE, &[1, 1, 0, 0]);
    let short = make(va::VA_ENC_PACKED_HEADER_PARAMETER_BUFFER_TYPE, &[2]);
    let data = make(va::VA_ENC_PACKED_HEADER_DATA_BUFFER_TYPE, &[7, 8]);
    let misc = make(va::VA_ENC_MISC_PARAMETER_BUFFER_TYPE, &[5]);
    let out = make(va::VA_ENC_CODED_BUFFER_TYPE, &[0; 4]);

    begin_picture(&mut pools, id, sid).unwrap();
    render_picture(&mut pools, id, &[seq, pic, slice, misc, out, param, data, data]).unwrap();
    let pending = &pools.contexts.get_id(id).unwrap().pending;
    assert_eq!(pending.seq_param, Some(vec![1]));
    assert_eq!(pending.pic_param, Some(vec![2]));
    assert_eq!(pending.slice_param, Some(vec![3]));
    assert_eq!(pending.misc_params, vec![vec![5]]);
    assert!(pending.coded_buf.is_some());
    // A header announces the data that follows it, once.
    assert_eq!(pending.packed_headers_typed.len(), 1);
    assert_eq!(pending.packed_headers_typed[0].kind, PackedHeaderKind::Sequence);
    assert_eq!(pending.packed_headers_typed[0].bytes, vec![7, 8]);
    assert_eq!(pending.packed_headers.len(), 3);
    assert_eq!(pending.packed_headers[0], (25, vec![1, 0, 0, 0, 9]));

    // An unknown kind announces nothing; a header that is too short keeps what
    // was announced before it.
    render_picture(&mut pools, id, &[odd, data]).unwrap();
    assert_eq!(pools.contexts.get_id(id).unwrap().pending.packed_headers_typed.len(), 1);
    render_picture(&mut pools, id, &[param, short, data]).unwrap();
    assert_eq!(pools.contexts.get_id(id).unwrap().pending.packed_headers_typed.len(), 2);

    // Beginning a picture starts over.
    begin_picture(&mut pools, id, sid).unwrap();
    let pending = &pools.contexts.get_id(id).unwrap().pending;
    assert!(pending.seq_param.is_none() && pending.coded_buf.is_none());
    assert!(pending.misc_params.is_empty());
    assert!(pending.packed_headers.is_empty() && pending.packed_headers_typed.is_empty());
}

#[test]
fn an_unknown_buffer_stops_rendering_where_it_stands() {
    let mut pools = Pools::new();
    let (id, _) = context(&mut pools, &[]);
    let ty = va::VA_ENC_SEQUENCE_PARAMETER_BUFFER_TYPE;
    let a = create_buffer(&mut pools, ty, 1, 1, Some(&[1]), true).unwrap();
    let b = create_buffer(&mut pools, ty, 1, 1, Some(&[2]), true).unwrap();
    assert!(matches!(
        render_picture(&mut pools, id, &[a, 999, b]),
        Err(DriverError::InvalidBuffer)
    ));
    assert_eq!(pools.contexts.get_id(id).unwrap().pending.seq_param, Some(vec![1]));
}

#[test]
fn packed_header_kinds() {
    assert_eq!(PackedHeaderKind::from_va_type(1), Some(PackedHeaderKind::Sequence));
    assert_eq!(PackedHeaderKind::from_va_type(2), Some(PackedHeaderKind::Picture));
    assert_eq!(PackedHeaderKind::from_va_type(3), Some(PackedHeaderKind::Slice));
    assert_eq!(PackedHeaderKind::from_va_type(0), None);
    assert_eq!(PackedHeaderKind::from_va_type(0x8000_0000), None);
}

#[test]
fn the_coded_buffer_is_the_bitstream_and_nothing_else() {
    let mut pools = Pools::new();
    let sid = surface(&mut pools, device(0xA));
    let (id, _) = context(&mut pools, &[sid]);
    let out =
        create_buffer(&mut pools, va::VA_ENC_CODED_BUFFER_TYPE, 64, 1, None, true).unwrap();
    let param = create_buffer(
        &mut pools,
        va::VA_ENC_PACKED_HEADER_PARAMETER_BUFFER_TYPE,
        4,
        1,
        Some(&[1, 0, 0, 0]),
        true,
    )
    .unwrap();
    let sps_nal = create_buffer(
        &mut pools,
        va::VA_ENC_PACKED_HEADER_DATA_BUFFER_TYPE,
        3,
        1,
        Some(&[0x67, 0x64, 0x00]),
        true,
    )
    .unwrap();
    begin_picture(&mut pools, id, sid).unwrap();
    render_picture(&mut pools, id, &[param, sps_nal, out]).unwrap();
    let (calls, releases, result) = end(&mut pools, id, None, None, encoded(&[0, 0, 0, 1, 0x65]));
    result.unwrap();
    assert_eq!(calls.len(), 3);
    assert!(matches!(
        calls[0],
        EndCall::Encode(EncodeCall::MapInput { registered: 0x501, .. })
    ));
    assert_eq!(releases.len(), 2);
    assert_eq!(coded(&pools, out), (vec![0, 0, 0, 1, 0x65], Some(5), true));
    let rec = pools.contexts.get_id(id).unwrap();
    assert!(rec.last_coded.is_some());
    assert!(rec.pending.coded_buf.is_none() && rec.pending.packed_headers_typed.is_empty());
}

#[test]
fn a_late_bound_target_is_registered_at_its_first_frame() {
    let mut pools = Pools::new();
    let (id, _) = context(&mut pools, &[]);
    let sid = surface(&mut pools, device(0xC));
    begin_picture(&mut pools, id, sid).unwrap();
    let mut replies = vec![EndReply::Register(Some(0x777))];
    replies.extend(encoded(&[1]));
    let (calls, _, result) = end(&mut pools, id, None, None, replies);
    result.unwrap();
    match calls[0] {
        EndCall::Register(p) => assert_eq!((p.resource, p.pitch), (0xC, 512)),
        other => panic!("unexpected {:?}", other),
    }
    // The second frame needs no registration.
    begin_picture(&mut pools, id, sid).unwrap();
    let (calls, _, result) = end(&mut pools, id, None, None, encoded(&[2]));
    result.unwrap();
    assert_eq!(calls.len(), 3);

    let other = surface(&mut pools, device(0xD));
    begin_picture(&mut pools, id, other).unwrap();
    let (_, _, result) = end(&mut pools, id, None, None, vec![EndReply::Register(None)]);
    assert!(matches!(result, Err(DriverError::OperationFailed("NvEncRegisterResource"))));
}

fn image() -> ExternalDmaBufImage {
    ExternalDmaBufImage {
        ext_mem: 0x10,
        mip: 0x20,
        plane0: 0x30,
        plane1: None,
        width: 320,
        height: 240,
        fourcc: va::VA_FOURCC_NV12,
        dup_fd: 7,
    }
}

#[test]
fn a_dma_buf_target_is_registered_once_and_unregistered_before_teardown() {
    let mut pools = Pools::new();
    let (id, _) = context(&mut pools, &[]);
    let (other, _) = context(&mut pools, &[]);
    let kind = SurfaceKind::ExternalDmaBuf { image: image(), registered_nvenc: None };
    let sid = surface(&mut pools, kind);
    begin_picture(&mut pools, id, sid).unwrap();
    let mut replies = vec![EndReply::Register(Some(0x888))];
    replies.extend(encoded(&[1]));
    let (calls, _, result) = end(&mut pools, id, None, None, replies);
    result.unwrap();
    match calls[0] {
        EndCall::Register(p) => {
            assert_eq!((p.resource, p.pitch), (0x30, 0));
            assert_eq!(p.resource_type, ResourceType::CudaArray);
        }
        ref other => panic!("unexpected {:?}", other),
    }
    assert_eq!(
        pools.surfaces.get_id(sid).unwrap().kind,
        SurfaceKind::ExternalDmaBuf { image: image(), registered_nvenc: Some(0x888) }
    );
    // The surface remembers that it was registered, so another session does
    // not register it and does not know it.
    begin_picture(&mut pools, other, sid).unwrap();
    let (calls, _, result) = end(&mut pools, other, None, None, vec![]);
    assert!(calls.is_empty());
    assert!(matches!(result, Err(DriverError::InvalidSurface)));

    let releases = destroy_surfaces(&mut pools, Some(&[sid]), true).unwrap();
    assert_eq!(
        releases,
        vec![
            Release::Nvenc(NvencRelease::Unregister { encoder: ENCODER, resource: 0x888 }),
            Release::Cuda(CudaRelease::DestroyMipmap(0x20)),
            Release::Cuda(CudaRelease::DestroyExternalMemory(0x10)),
            Release::Cuda(CudaRelease::CloseFd(7)),
        ]
    );
    let (_, _, result) = end(&mut pools, id, None, None, vec![]);
    assert!(matches!(result, Err(DriverError::InvalidSurface)));
}

fn sps(bits_per_second: u32, fps: u32) -> SequenceParams {
    SequenceParams { width: 0, height: 0, fps, bits_per_second, idr_period: 0 }
}

#[test]
fn sequence_parameters_reconfigure_the_session() {
    let mut pools = Pools::new();
    let sid = surface(&mut pools, device(0xA));
    let (id, _) = context(&mut pools, &[sid]);
    begin_picture(&mut pools, id, sid).unwrap();
    let mut replies = vec![
        EndReply::Reconfigure(ReconfigureReply::Preset(preset_config())),
        EndReply::Reconfigure(ReconfigureReply::Done),
    ];
    replies.extend(encoded(&[1]));
    let (calls, _, result) = end(&mut pools, id, None, Some(sps(900_000, 30)), replies);
    result.unwrap();
    match calls[1] {
        EndCall::Reconfigure(ReconfigureCall::Reconfigure { params, force_idr, .. }) => {
            assert!(force_idr);
            assert_eq!(params.encode_config.rc_params.average_bit_rate, 900_000);
            assert_eq!(params.encode_config.profile_guid, ProfileGuid::H264High);
            assert_eq!((params.frame_rate_num, params.encode_width), (30, 320));
        }
        ref other => panic!("unexpected {:?}", other),
    }
    // The same parameters again change nothing.
    begin_picture(&mut pools, id, sid).unwrap();
    let (calls, _, result) = end(&mut pools, id, None, Some(sps(900_000, 30)), encoded(&[2]));
    result.unwrap();
    assert_eq!(calls.len(), 3);
    // A failure is passed over, and the configuration stays.
    begin_picture(&mut pools, id, sid).unwrap();
    let mut replies = vec![EndReply::Reconfigure(ReconfigureReply::Failed)];
    replies.extend(encoded(&[3]));
    let (_, _, result) = end(&mut pools, id, None, Some(sps(100_000, 30)), replies);
    result.unwrap();
    let session = pools.contexts.get_id(id).unwrap().session.as_ref().unwrap();
    assert_eq!(session.config().bitrate_bps, 900_000);
    assert!(session.config().repeat_sps_pps);
}

fn misc(words: &[u32]) -> Vec<u8> {
    words.iter().flat_map(|w| w.to_le_bytes()).collect()
}

/// Renders misc parameter buffers and ends the picture. Gives the calls made.
fn end_with_misc(pools: &mut Pools, id: u32, sid: u32, buffers: &[Vec<u8>]) -> Vec<EndCall> {
    let mut ids = Vec::new();
    for b in buffers {
        let ty = va::VA_ENC_MISC_PARAMETER_BUFFER_TYPE;
        let size = b.len() as u32;
        ids.push(create_buffer(pools, ty, size, 1, Some(&b[..]), true).unwrap());
    }
    begin_picture(pools, id, sid).unwrap();
    render_picture(pools, id, &ids).unwrap();
    let frame = end_picture(pools, id).unwrap();
    let mut calls = Vec::new();
    let mut step = end_picture_frame(pools, frame, true);
    loop {
        match step.next {
            EndNext::Done(result) => {
                result.unwrap();
                return calls;
            }
            EndNext::Call { call, job, stage } => {
                calls.push(call);
                let reply = match call {
                    EndCall::Reconfigure(ReconfigureCall::PresetConfig { .. }) => {
                        EndReply::Reconfigure(ReconfigureReply::Preset(preset_config()))
                    }
                    EndCall::Reconfigure(_) => EndReply::Reconfigure(ReconfigureReply::Done),
                    EndCall::Register(_) => EndReply::Register(Some(0x700)),
                    EndCall::Encode(EncodeCall::MapInput { .. }) => {
                        EndReply::Encode(EncodeReply::Mapped(1))
                    }
                    EndCall::Encode(EncodeCall::EncodePicture { .. }) => {
                        EndReply::Encode(EncodeReply::Encoded)
                    }
                    EndCall::Encode(_) => {
                        EndReply::Encode(EncodeReply::Ready { data: vec![1], is_idr: false })
                    }
                };
                step = end_picture_resume(pools, job, stage, reply);
            }
        }
    }
}

#[test]
fn misc_parameters_reconfigure_the_session() {
    let mut pools = Pools::new();
    let sid = surface(&mut pools, device(0xA));
    let (id, _) = context(&mut pools, &[sid]);
    let config = |pools: &Pools| {
        *pools.contexts.get_id(id).unwrap().session.as_ref().unwrap().config()
    };
    let before = config(&pools);
    assert_eq!(before.bitrate_bps, 5_000_000);

    // Rate control: type word 1, then the bits per second.
    let calls = end_with_misc(&mut pools, id, sid, &[misc(&[1, 1_000_000, 100, 500])]);
    assert!(matches!(calls[0], EndCall::Reconfigure(_)));
    assert_eq!(config(&pools), EncoderConfig { bitrate_bps: 1_000_000, ..before });

    // Frame rate: type word 0, then a fraction. Later buffers win.
    let rates = [misc(&[0, 24]), misc(&[1, 700_000]), misc(&[0, 1001 << 16 | 30_000])];
    end_with_misc(&mut pools, id, sid, &rates);
    let after = config(&pools);
    assert_eq!((after.fps_num, after.fps_den, after.bitrate_bps), (30_000, 1001, 700_000));
    end_with_misc(&mut pools, id, sid, &[misc(&[0, 24])]);
    assert_eq!((config(&pools).fps_num, config(&pools).fps_den), (24, 1));

    // Zero rates, other types and short buffers leave everything open.
    let open = [misc(&[1, 0]), misc(&[0, 0]), misc(&[5, 9]), misc(&[1])];
    let calls = end_with_misc(&mut pools, id, sid, &open);
    assert!(!matches!(calls[0], EndCall::Reconfigure(_)));
    assert_eq!(config(&pools).bitrate_bps, 700_000);
}

#[test]
fn rendered_parameter_buffers_drive_the_frame() {
    let mut pools = Pools::new();
    let sid = surface(&mut pools, device(0xA));
    let (id, _) = context(&mut pools, &[sid]);
    let coded_id =
        create_buffer(&mut pools, va::VA_ENC_CODED_BUFFER_TYPE, 8, 1, None, true).unwrap();
    let mut seq = vec![0u8; SEQUENCE_PARAM_SIZE];
    seq[16..20].copy_from_slice(&750_000u32.to_le_bytes());
    let mut pic = vec![0u8; PICTURE_PARAM_SIZE];
    pic[612..616].copy_from_slice(&coded_id.to_le_bytes());
    pic[628] = 1;
    let mut ids = Vec::new();
    for (ty, bytes) in [
        (va::VA_ENC_SEQUENCE_PARAMETER_BUFFER_TYPE, &seq),
        (va::VA_ENC_PICTURE_PARAMETER_BUFFER_TYPE, &pic),
    ] {
        let size = bytes.len() as u32;
        ids.push(create_buffer(&mut pools, ty, size, 1, Some(&bytes[..]), true).unwrap());
    }

    begin_picture(&mut pools, id, sid).unwrap();
    render_picture(&mut pools, id, &ids).unwrap();
    let frame = end_picture(&mut pools, id).unwrap();
    let mut replies = vec![
        EndReply::Reconfigure(ReconfigureReply::Preset(preset_config())),
        EndReply::Reconfigure(ReconfigureReply::Done),
    ];
    replies.extend(encoded(&[7, 8]));
    let mut flags = None;
    let mut step = end_picture_frame(&mut pools, frame, true);
    for reply in replies {
        match step.next {
            EndNext::Call { call, job, stage } => {
                if let EndCall::Encode(EncodeCall::EncodePicture { params, .. }) = call {
                    flags = Some(params.encode_pic_flags);
                }
                step = end_picture_resume(&mut pools, job, stage, reply);
            }
            EndNext::Done(_) => panic!("ended early"),
        }
    }
    assert!(matches!(step.next, EndNext::Done(Ok(()))));
    assert_eq!(flags, Some(2));
    assert_eq!(coded(&pools, coded_id), (vec![7, 8], Some(2), true));
    let session = pools.contexts.get_id(id).unwrap().session.as_ref().unwrap();
    assert_eq!(session.config().bitrate_bps, 750_000);
}

#[test]
fn open_fields_of_sequence_parameters_keep_their_value() {
    let current = EncoderConfig::default_for(640, 480, H264Profile::Main);
    let kept = build_cfg_from_sps(&sps(0, 0), H264Profile::Main, &current);
    assert_eq!(kept, current);
    let half = SequenceParams { width: 1920, height: 0, ..sps(0, 0) };
    assert_eq!(build_cfg_from_sps(&half, H264Profile::Main, &current), current);
    let full =
        SequenceParams { width: 1920, height: 1080, fps: 24, bits_per_second: 7, idr_period: 9 };
    let cfg = build_cfg_from_sps(&full, H264Profile::High, &current);
    assert_eq!((cfg.width, cfg.height, cfg.fps_num, cfg.fps_den), (1920, 1080, 24, 1));
    assert_eq!((cfg.bitrate_bps, cfg.gop_length, cfg.profile), (7, 9, H264Profile::High));
}

#[test]
fn picture_parameters_name_the_coded_buffer_first() {
    let mut pools = Pools::new();
    let sid = surface(&mut pools, device(0xA));
    let (id, _) = context(&mut pools, &[sid]);
    let ty = va::VA_ENC_CODED_BUFFER_TYPE;
    let rendered = create_buffer(&mut pools, ty, 8, 1, None, true).unwrap();
    let named = create_buffer(&mut pools, ty, 8, 1, None, true).unwrap();
    let pps = |coded_buf| Some(PictureParams { force_idr: true, coded_buf });

    begin_picture(&mut pools, id, sid).unwrap();
    render_picture(&mut pools, id, &[rendered]).unwrap();
    let (calls, _, result) = end(&mut pools, id, pps(named), None, encoded(&[1]));
    result.unwrap();
    assert!(matches!(
        calls[1],
        EndCall::Encode(EncodeCall::EncodePicture { params, .. }) if params.encode_pic_flags == 2
    ));
    assert_eq!(coded(&pools, named), (vec![1], Some(1), true));
    assert_eq!(coded(&pools, rendered), (vec![0; 8], None, false));

    // A name that names nothing falls back to the buffer that was rendered.
    begin_picture(&mut pools, id, sid).unwrap();
    render_picture(&mut pools, id, &[rendered]).unwrap();
    let (_, _, result) = end(&mut pools, id, pps(999), None, encoded(&[2]));
    result.unwrap();
    assert_eq!(coded(&pools, rendered), (vec![2], Some(1), true));
}

#[test]
fn a_deferred_frame_gives_an_empty_buffer_that_is_not_ready() {
    let mut pools = Pools::new();
    let sid = surface(&mut pools, device(0xA));
    let (id, _) = context(&mut pools, &[sid]);
    let out =
        create_buffer(&mut pools, va::VA_ENC_CODED_BUFFER_TYPE, 4, 1, None, true).unwrap();
    begin_picture(&mut pools, id, sid).unwrap();
    render_picture(&mut pools, id, &[out]).unwrap();
    end(&mut pools, id, None, None, encoded(&[5])).2.unwrap();
    assert_eq!(coded(&pools, out), (vec![5], Some(1), true));

    begin_picture(&mut pools, id, sid).unwrap();
    render_picture(&mut pools, id, &[out]).unwrap();
    let replies = vec![
        EndReply::Encode(EncodeReply::Mapped(1)),
        EndReply::Encode(EncodeReply::NeedMoreInput),
        EndReply::Encode(EncodeReply::Busy),
    ];
    end(&mut pools, id, None, None, replies).2.unwrap();
    assert_eq!(coded(&pools, out), (vec![], Some(0), false));
    assert!(matches!(map_buffer(&mut pools, out, true), Ok(Mapping::Segment(_))));
}

#[test]
fn an_encode_error_is_reported_and_writes_nothing() {
    let mut pools = Pools::new();
    let sid = surface(&mut pools, device(0xA));
    let (id, _) = context(&mut pools, &[sid]);
    let out =
        create_buffer(&mut pools, va::VA_ENC_CODED_BUFFER_TYPE, 4, 1, None, true).unwrap();
    begin_picture(&mut pools, id, sid).unwrap();
    render_picture(&mut pools, id, &[out]).unwrap();
    let replies = vec![
        EndReply::Encode(EncodeReply::Mapped(1)),
        EndReply::Encode(EncodeReply::Failed),
    ];
    let (_, releases, result) = end(&mut pools, id, None, None, replies);
    assert!(matches!(result, Err(DriverError::Encoding("NvEncEncodePicture"))));
    assert_eq!(releases, vec![NvencRelease::Unmap { encoder: ENCODER, input: 1 }]);
    assert_eq!(coded(&pools, out), (vec![0; 4], None, false));
    assert!(pools.contexts.get_id(id).unwrap().last_coded.is_none());
}

#[test]
fn an_answer_to_another_call_counts_as_a_failure() {
    let mut pools = Pools::new();
    let sid = surface(&mut pools, device(0xA));
    let (id, _) = context(&mut pools, &[sid]);
    begin_picture(&mut pools, id, sid).unwrap();
    let (_, _, result) = end(&mut pools, id, None, None, vec![EndReply::Register(Some(1))]);
    assert!(matches!(result, Err(DriverError::OperationFailed("NvEncMapInputResource"))));
}

#[test]
fn unloading_takes_sessions_down_before_surfaces() {
    let mut pools = Pools::new();
    let a = surface(&mut pools, device(0xA));
    surface(&mut pools, SurfaceKind::ExternalDmaBuf { image: image(), registered_nvenc: None });
    context(&mut pools, &[a]);
    context(&mut pools, &[]);
    let down = terminate(pools, true);
    assert_eq!(down.nvenc.len(), 8 + 7);
    assert_eq!(down.nvenc[6], NvencRelease::Unregister { encoder: ENCODER, resource: 0x501 });
    assert_eq!(down.nvenc[14], NvencRelease::DestroyEncoder { encoder: ENCODER });
    assert_eq!(
        down.cuda,
        vec![
            CudaRelease::FreeDevice(0xA),
            CudaRelease::DestroyMipmap(0x20),
            CudaRelease::DestroyExternalMemory(0x10),
            CudaRelease::CloseFd(7),
        ]
    );
    let down = terminate(Pools::new(), true);
    assert!(down.nvenc.is_empty() && down.cuda.is_empty());
}

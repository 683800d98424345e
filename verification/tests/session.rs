use nvenc_vaapi_driver::error::DriverError;
use nvenc_vaapi_driver::ids::SurfaceKey;
use nvenc_vaapi_driver::nvenc::encode::{
    EncodeCall, EncodeNext, EncodeReply, EncodeStep,
};
use nvenc_vaapi_driver::nvenc::h264_config::{
    EncoderConfig, EntropyCodingMode, H264Profile, NvEncConfig, NvH264Config, NvQp, NvRcMode,
    NvRcParams, NvVui, ProfileGuid,
};
use nvenc_vaapi_driver::nvenc::open::{OpenCall, OpenNext, OpenReply};
use nvenc_vaapi_driver::nvenc::params::{
    h264_profile_from_va, init_params, map_preset_choice, pic_params,
};
use nvenc_vaapi_driver::nvenc::preset::{NvencPreset, RcMode, Tuning};
use nvenc_vaapi_driver::nvenc::reconfigure::{
    ReconfigureCall, ReconfigureNext, ReconfigureReply,
};
use nvenc_vaapi_driver::nvenc::register::{RegisterNext, ResourceType};
use nvenc_vaapi_driver::nvenc::session::{
    CodedBitstream, NvencRelease, NvencSession, RegisteredSurface, POOL_SIZE,
};
use nvenc_vaapi_driver::va;

const ENCODER: u64 = 0xE0;

fn key(n: u64) -> SurfaceKey {
    SurfaceKey { raw: 0x1_0000_0000 | n }
}

fn preset_config() -> NvEncConfig {
    NvEncConfig {
        version: 12,
        profile_guid: ProfileGuid::AutoSelect,
        gop_length: 0,
        frame_interval_p: 0,
        mono_chrome_encoding: 0,
        mv_precision: 0,
        rc_params: NvRcParams {
            rate_control_mode: NvRcMode::ConstQp,
            const_qp: NvQp { qp_inter_p: 0, qp_inter_b: 0, qp_intra: 0 },
            average_bit_rate: 0,
            max_bit_rate: 0,
            vbv_buffer_size: 0,
            vbv_initial_delay: 0,
            zero_reorder_delay: false,
            enable_lookahead: false,
            target_quality: 0,
            lookahead_depth: 0,
        },
        h264: NvH264Config {
            idr_period: 0,
            slice_mode: 0,
            slice_mode_data: 0,
            chroma_format_idc: 0,
            entropy_coding_mode: EntropyCodingMode::AutoSelect,
            repeat_sps_pps: false,
            output_aud: false,
            vui: NvVui {
                video_signal_type_present_flag: 0,
                video_format: 0,
                video_full_range_flag: 0,
                colour_description_present_flag: 0,
                colour_primaries: 0,
                transfer_characteristics: 0,
                colour_matrix: 0,
            },
            separate_colour_plane_flag: 0,
            max_num_ref_frames: 0,
            level: 0,
        },
    }
}

/// Opens a session. Fails at the call with index `fails_at`.
fn open(
    cfg: EncoderConfig,
    fails_at: usize,
) -> (Vec<OpenCall>, Vec<NvencRelease>, Result<NvencSession, DriverError>) {
    let mut calls = Vec::new();
    let mut step = NvencSession::new(cfg);
    let mut buffers = 0;
    loop {
        match step.next {
            OpenNext::Done(result) => return (calls, step.releases, result),
            OpenNext::Call { call, run } => {
                assert!(step.releases.is_empty());
                let reply = if calls.len() == fails_at {
                    OpenReply::Failed
                } else {
                    match call {
                        OpenCall::OpenSession => OpenReply::Opened(ENCODER),
                        OpenCall::PresetConfig { .. } => OpenReply::Preset(preset_config()),
                        OpenCall::CreateBitstream { .. } => {
                            buffers += 1;
                            OpenReply::Bitstream(100 + buffers)
                        }
                        _ => OpenReply::Done,
                    }
                };
                calls.push(call);
                step = NvencSession::open_resume(run, reply);
            }
        }
    }
}

fn config() -> EncoderConfig {
    EncoderConfig::default_for(1280, 720, H264Profile::Main)
}

fn session() -> NvencSession {
    open(config(), usize::MAX).2.ok().unwrap()
}

/// A session with the surface `key(1)` registered as resource 0x500.
fn session_with_surface() -> NvencSession {
    let mut s = session();
    match s.register_internal_surface(key(1), 0xD000, 1536, 1280, 720, true) {
        RegisterNext::Call(run) => {
            s.register_resume(run, Some(0x500)).unwrap();
        }
        RegisterNext::Done(_) => panic!("not registered yet"),
    }
    s
}

/// Encodes a frame with one answer per call, and gives the calls and releases
/// made, in order, and the result.
fn encode(
    s: &mut NvencSession,
    key: SurfaceKey,
    force_idr: bool,
    replies: Vec<EncodeReply>,
) -> (Vec<EncodeCall>, Vec<NvencRelease>, Result<CodedBitstream, DriverError>) {
    let mut calls = Vec::new();
    let mut releases = Vec::new();
    let mut replies = replies.into_iter();
    let mut step: EncodeStep = s.encode_frame(key, force_idr, true);
    loop {
        releases.extend(step.releases);
        match step.next {
            EncodeNext::Done(result) => {
                assert!(replies.next().is_none(), "answers left over");
                return (calls, releases, result);
            }
            EncodeNext::Call { call, run } => {
                calls.push(call);
                step = s.encode_resume(run, replies.next().unwrap());
            }
        }
    }
}

fn ready(data: &[u8], is_idr: bool) -> EncodeReply {
    EncodeReply::Ready { data: data.to_vec(), is_idr }
}

#[test]
fn map_preset_choice_p4_for_5mbps_60fps() {
    let cfg = EncoderConfig::default_for(1920, 1080, H264Profile::Main);
    let (_guid, tuning) = map_preset_choice(cfg);
    assert_eq!(tuning, Tuning::LowLatency);
}

#[test]
fn h264_profile_mapping_from_va() {
    assert_eq!(h264_profile_from_va(va::VA_PROFILE_H264_MAIN), Some(H264Profile::Main));
    assert_eq!(
        h264_profile_from_va(va::VA_PROFILE_H264_CONSTRAINED_BASELINE),
        Some(H264Profile::ConstrainedBaseline)
    );
    assert_eq!(h264_profile_from_va(va::VA_PROFILE_H264_HIGH), Some(H264Profile::High));
}

#[test]
fn slot_state_round_robin_math() {
    let pool_size = POOL_SIZE;
    assert_eq!(pool_size, 6);
    let mut next = 0usize;
    for step in 0..20 {
        let picked = next;
        next = (picked + 1) % pool_size;
        assert_eq!(picked, step % pool_size);
    }
    assert_eq!(next, 20 % pool_size);
}

#[test]
fn other_va_profiles_have_no_h264_profile() {
    assert_eq!(h264_profile_from_va(0), None);
    assert_eq!(h264_profile_from_va(-1), None);
    assert_eq!(h264_profile_from_va(5), None);
}

#[test]
fn preset_follows_rate_and_rc_mode() {
    let mut cfg = config();
    assert_eq!(map_preset_choice(cfg), (NvencPreset::P4, Tuning::LowLatency));
    cfg.bitrate_bps = 2_000_000;
    cfg.fps_num = 30_000;
    cfg.fps_den = 1001;
    assert_eq!(map_preset_choice(cfg), (NvencPreset::P3, Tuning::UltraLowLatency));
    // Without a denominator the rate counts as 30 fps.
    cfg.fps_num = 240;
    cfg.fps_den = 0;
    assert_eq!(map_preset_choice(cfg), (NvencPreset::P3, Tuning::UltraLowLatency));
    cfg.rc_mode = RcMode::ConstQp;
    assert_eq!(map_preset_choice(cfg), (NvencPreset::P4, Tuning::LowLatency));
}

#[test]
fn init_params_follow_the_configuration() {
    let p = init_params(&config(), NvencPreset::P4, Tuning::LowLatency, preset_config());
    assert_eq!((p.encode_width, p.encode_height), (1280, 720));
    assert_eq!((p.dar_width, p.dar_height), (1280, 720));
    assert_eq!((p.frame_rate_num, p.frame_rate_den), (60, 1));
    assert!(p.enable_ptd && !p.enable_encode_async);
    assert_eq!(p.buffer_format, 1);
    assert_eq!(p.encode_config, preset_config());
}

#[test]
fn pic_params_force_an_idr_by_flag() {
    let reg = RegisteredSurface { registered_ptr: 1, width: 640, height: 480, pitch: 1024 };
    let p = pic_params(reg, 7, 8, true);
    assert_eq!((p.input_width, p.input_height, p.input_pitch), (640, 480, 1024));
    assert_eq!((p.input_buffer, p.output_bitstream), (7, 8));
    assert_eq!((p.buffer_fmt, p.picture_struct, p.encode_pic_flags), (1, 1, 2));
    assert_eq!(pic_params(reg, 7, 8, false).encode_pic_flags, 0);
}

#[test]
fn opening_makes_a_pool_of_buffers() {
    let (calls, releases, result) = open(config(), usize::MAX);
    assert!(releases.is_empty());
    let s = result.ok().unwrap();
    assert_eq!(s.encoder(), ENCODER);
    assert_eq!(*s.config(), config());
    assert_eq!(calls.len(), 5 + POOL_SIZE);
    assert_eq!(calls[0], OpenCall::BindContext);
    assert_eq!(calls[1], OpenCall::ProbeApi);
    assert_eq!(calls[2], OpenCall::OpenSession);
    assert_eq!(
        calls[3],
        OpenCall::PresetConfig {
            encoder: ENCODER,
            preset: NvencPreset::P4,
            tuning: Tuning::LowLatency
        }
    );
    match calls[4] {
        OpenCall::Initialize { encoder, params } => {
            assert_eq!(encoder, ENCODER);
            assert_eq!(params.encode_config.version, 12);
            assert_eq!(params.encode_config.profile_guid, ProfileGuid::H264Main);
            assert_eq!(params.encode_config.rc_params.vbv_buffer_size, 5_000_000);
        }
        other => panic!("unexpected {:?}", other),
    }
}

#[test]
fn failed_opening_destroys_what_it_made() {
    let messages = [
        "cuda bind_to_thread",
        "ENCODE_API unavailable",
        "NvEncOpenEncodeSessionEx",
        "NvEncGetEncodePresetConfigEx",
        "NvEncInitializeEncoder",
    ];
    for fails_at in 0..5 + POOL_SIZE {
        let (_, releases, result) = open(config(), fails_at);
        let expected = if fails_at < 5 { messages[fails_at] } else { "NvEncCreateBitstreamBuffer" };
        match result {
            Err(DriverError::OperationFailed(what)) => assert_eq!(what, expected),
            _ => panic!("opening must fail"),
        }
        if fails_at < 3 {
            assert!(releases.is_empty());
        } else {
            let made = fails_at.saturating_sub(5);
            assert_eq!(releases.len(), made + 1);
            for (i, r) in releases[..made].iter().enumerate() {
                assert_eq!(
                    *r,
                    NvencRelease::DestroyBitstream { encoder: ENCODER, output: 101 + i as u64 }
                );
            }
            assert_eq!(releases[made], NvencRelease::DestroyEncoder { encoder: ENCODER });
        }
    }
}

#[test]
fn registration_is_asked_once_per_surface() {
    let mut s = session();
    let run = match s.register_internal_surface(key(1), 0xD000, 1536, 1280, 720, true) {
        RegisterNext::Call(run) => run,
        RegisterNext::Done(_) => panic!("not registered yet"),
    };
    assert_eq!(run.params.resource_type, ResourceType::CudaDevicePtr);
    assert_eq!((run.params.width, run.params.height, run.params.pitch), (1280, 720, 1536));
    assert_eq!((run.params.resource, run.params.encoder), (0xD000, ENCODER));
    assert_eq!(s.register_resume(run, Some(0x500)).unwrap(), 0x500);
    match s.register_external_surface(key(1), 0xA, 2, 2, true) {
        RegisterNext::Done(r) => assert_eq!(r.unwrap(), 0x500),
        RegisterNext::Call(_) => panic!("registered already"),
    }
}

#[test]
fn external_surfaces_take_their_pitch_from_the_array() {
    let s = session();
    match s.register_external_surface(key(2), 0xA, 640, 480, true) {
        RegisterNext::Call(run) => {
            assert_eq!(run.params.resource_type, ResourceType::CudaArray);
            assert_eq!((run.params.pitch, run.params.resource), (0, 0xA));
        }
        RegisterNext::Done(_) => panic!("not registered yet"),
    }
}

#[test]
fn refused_registrations_name_their_call() {
    let mut s = session();
    if let RegisterNext::Call(run) = s.register_internal_surface(key(1), 1, 1, 1, 1, true) {
        match s.register_resume(run, None) {
            Err(DriverError::OperationFailed(what)) => assert_eq!(what, "NvEncRegisterResource"),
            _ => panic!("must fail"),
        }
    }
    if let RegisterNext::Call(run) = s.register_external_surface(key(1), 1, 1, 1, true) {
        match s.register_resume(run, None) {
            Err(DriverError::OperationFailed(what)) => {
                assert_eq!(what, "NvEncRegisterResource(CUDAARRAY)")
            }
            _ => panic!("must fail"),
        }
    } else {
        panic!("a refused surface is not registered");
    }
    assert!(matches!(
        s.register_internal_surface(key(1), 1, 1, 1, 1, false),
        RegisterNext::Done(Err(DriverError::OperationFailed("ENCODE_API unavailable")))
    ));
}

#[test]
fn unregistering_tells_nvenc_once() {
    let mut s = session_with_surface();
    assert_eq!(
        s.unregister_surface(key(1), true),
        Some(NvencRelease::Unregister { encoder: ENCODER, resource: 0x500 })
    );
    assert_eq!(s.unregister_surface(key(1), true), None);
    let (_, _, result) = encode(&mut s, key(1), false, vec![]);
    assert!(matches!(result, Err(DriverError::InvalidSurface)));

    let mut s = session_with_surface();
    assert_eq!(s.unregister_surface(key(1), false), None);
    let (_, _, result) = encode(&mut s, key(1), false, vec![]);
    assert!(matches!(result, Err(DriverError::InvalidSurface)));
}

#[test]
fn a_frame_that_is_done_at_once() {
    let mut s = session_with_surface();
    let (calls, releases, result) = encode(
        &mut s,
        key(1),
        true,
        vec![EncodeReply::Mapped(0x900), EncodeReply::Encoded, ready(&[1, 2, 3], true)],
    );
    assert_eq!(calls[0], EncodeCall::MapInput { encoder: ENCODER, registered: 0x500 });
    match calls[1] {
        EncodeCall::EncodePicture { encoder, params } => {
            assert_eq!(encoder, ENCODER);
            assert_eq!((params.input_buffer, params.output_bitstream), (0x900, 101));
            assert_eq!((params.input_pitch, params.encode_pic_flags), (1536, 2));
        }
        other => panic!("unexpected {:?}", other),
    }
    assert_eq!(calls[2], EncodeCall::Lock { encoder: ENCODER, output: 101 });
    assert_eq!(
        releases,
        vec![
            NvencRelease::Unlock { encoder: ENCODER, output: 101 },
            NvencRelease::Unmap { encoder: ENCODER, input: 0x900 },
        ]
    );
    let coded = result.unwrap();
    assert_eq!(coded.data, vec![1, 2, 3]);
    assert!(coded.is_idr && !coded.is_pending);
}

#[test]
fn slots_are_used_round_robin() {
    let mut s = session_with_surface();
    for step in 0..20u64 {
        let (calls, _, result) = encode(
            &mut s,
            key(1),
            false,
            vec![EncodeReply::Mapped(step), EncodeReply::Encoded, ready(&[step as u8], false)],
        );
        assert_eq!(
            calls[2],
            EncodeCall::Lock { encoder: ENCODER, output: 101 + step % POOL_SIZE as u64 }
        );
        assert_eq!(result.unwrap().data, vec![step as u8]);
    }
}

#[test]
fn deferred_output_comes_with_a_later_frame_in_order() {
    let mut s = session_with_surface();
    // The first frame is deferred, and the probe finds nothing.
    let (calls, releases, result) = encode(
        &mut s,
        key(1),
        true,
        vec![EncodeReply::Mapped(1), EncodeReply::NeedMoreInput, EncodeReply::Busy],
    );
    assert_eq!(calls[2], EncodeCall::TryLock { encoder: ENCODER, output: 101 });
    assert!(releases.is_empty());
    let coded = result.unwrap();
    assert!(coded.is_pending && coded.data.is_empty() && !coded.is_idr);

    // The second frame drains the first one and is done itself: the first one
    // is handed out, the second one stays queued.
    let (calls, releases, result) = encode(
        &mut s,
        key(1),
        false,
        vec![
            ready(&[1], true),
            EncodeReply::Mapped(2),
            EncodeReply::Encoded,
            ready(&[2], false),
        ],
    );
    assert_eq!(calls[0], EncodeCall::TryLock { encoder: ENCODER, output: 101 });
    assert_eq!(calls[3], EncodeCall::Lock { encoder: ENCODER, output: 102 });
    assert_eq!(
        releases,
        vec![
            NvencRelease::Unlock { encoder: ENCODER, output: 101 },
            NvencRelease::Unmap { encoder: ENCODER, input: 1 },
            NvencRelease::Unlock { encoder: ENCODER, output: 102 },
            NvencRelease::Unmap { encoder: ENCODER, input: 2 },
        ]
    );
    let coded = result.unwrap();
    assert_eq!((coded.data, coded.is_idr), (vec![1], true));

    // The third frame is deferred; the queued second one is handed out, and no
    // slot is probed for it.
    let (calls, _, result) =
        encode(&mut s, key(1), false, vec![EncodeReply::Mapped(3), EncodeReply::NeedMoreInput]);
    assert_eq!(calls.len(), 2);
    assert_eq!(result.unwrap().data, vec![2]);
}

/// A session whose slots 5 and 0 are pending, slot 5 with the older frame.
fn session_pending_in_5_and_0() -> NvencSession {
    let mut s = session_with_surface();
    for n in 0..5 {
        let replies = vec![EncodeReply::Mapped(n), EncodeReply::Encoded, ready(&[0], false)];
        encode(&mut s, key(1), false, replies).2.unwrap();
    }
    let replies = vec![EncodeReply::Mapped(50), EncodeReply::NeedMoreInput, EncodeReply::Busy];
    let (calls, _, _) = encode(&mut s, key(1), false, replies);
    assert_eq!(calls[2], EncodeCall::TryLock { encoder: ENCODER, output: 106 });
    let replies = vec![
        EncodeReply::Busy,
        EncodeReply::Mapped(51),
        EncodeReply::NeedMoreInput,
        EncodeReply::Busy,
    ];
    let (calls, _, result) = encode(&mut s, key(1), false, replies);
    // The probe asks the older frame, not the one just submitted.
    assert_eq!(calls[3], EncodeCall::TryLock { encoder: ENCODER, output: 106 });
    assert!(result.unwrap().is_pending);
    s
}

#[test]
fn the_drain_goes_by_submission_and_not_by_slot() {
    let mut s = session_pending_in_5_and_0();
    let (calls, releases, result) = encode(
        &mut s,
        key(1),
        false,
        vec![
            ready(&[5], false),
            ready(&[0], false),
            EncodeReply::Mapped(52),
            EncodeReply::NeedMoreInput,
        ],
    );
    assert_eq!(calls[0], EncodeCall::TryLock { encoder: ENCODER, output: 106 });
    assert_eq!(calls[1], EncodeCall::TryLock { encoder: ENCODER, output: 101 });
    assert_eq!(releases[1], NvencRelease::Unmap { encoder: ENCODER, input: 50 });
    assert_eq!(releases[3], NvencRelease::Unmap { encoder: ENCODER, input: 51 });
    assert_eq!(result.unwrap().data, vec![5]);
    let replies = vec![EncodeReply::Busy, EncodeReply::Mapped(53), EncodeReply::NeedMoreInput];
    assert_eq!(encode(&mut s, key(1), false, replies).2.unwrap().data, vec![0]);
}

#[test]
fn late_output_goes_before_newer_output_that_is_still_queued() {
    let mut s = session_pending_in_5_and_0();
    // The newer of the two is ready first, and so is the new frame. The older one
    // is asked again and is still busy.
    let replies = vec![
        EncodeReply::Busy,
        ready(&[0], false),
        EncodeReply::Mapped(52),
        EncodeReply::Encoded,
        ready(&[1], false),
        EncodeReply::Busy,
    ];
    let (calls, _, result) = encode(&mut s, key(1), false, replies);
    assert_eq!(calls[5], EncodeCall::TryLock { encoder: ENCODER, output: 106 });
    assert_eq!(result.unwrap().data, vec![0]);
    // The older one arrives while the new frame is still queued.
    let replies = vec![ready(&[5], false), EncodeReply::Mapped(53), EncodeReply::NeedMoreInput];
    assert_eq!(encode(&mut s, key(1), false, replies).2.unwrap().data, vec![5]);
}

#[test]
fn older_frames_are_asked_again_before_a_new_one_goes_out() {
    // Both older frames were busy at the drain. The new frame is done at once,
    // and by then the older ones are done too: the oldest goes out first.
    let mut s = session_pending_in_5_and_0();
    let replies = vec![
        EncodeReply::Busy,
        EncodeReply::Busy,
        EncodeReply::Mapped(52),
        EncodeReply::Encoded,
        ready(&[1], false),
        ready(&[0], false),
        ready(&[5], true),
    ];
    let (calls, releases, result) = encode(&mut s, key(1), false, replies);
    assert_eq!(calls[5], EncodeCall::TryLock { encoder: ENCODER, output: 101 });
    assert_eq!(calls[6], EncodeCall::TryLock { encoder: ENCODER, output: 106 });
    assert_eq!(releases.len(), 6);
    let coded = result.unwrap();
    assert_eq!((coded.data, coded.is_idr), (vec![5], true));
    for data in [vec![0], vec![1]] {
        let replies = vec![EncodeReply::Mapped(60), EncodeReply::NeedMoreInput];
        let drain = if data == vec![0] { vec![] } else { vec![EncodeReply::Busy] };
        let replies = drain.into_iter().chain(replies).collect();
        assert_eq!(encode(&mut s, key(1), false, replies).2.unwrap().data, data);
    }
}

#[test]
fn a_frame_overtakes_only_what_is_busy_or_broken() {
    // The older frame stays busy: the newer one of the two goes out.
    let mut s = session_pending_in_5_and_0();
    let replies = |last: EncodeReply| {
        vec![
            EncodeReply::Busy,
            EncodeReply::Busy,
            EncodeReply::Mapped(52),
            EncodeReply::Encoded,
            ready(&[1], false),
            ready(&[0], false),
            last,
        ]
    };
    let (_, _, result) = encode(&mut s, key(1), false, replies(EncodeReply::Busy));
    assert_eq!(result.unwrap().data, vec![0]);
    // A slot that fails when it is asked again is freed, and its input unmapped.
    let mut s = session_pending_in_5_and_0();
    let (_, releases, result) = encode(&mut s, key(1), false, replies(EncodeReply::Failed));
    assert_eq!(releases[4], NvencRelease::Unmap { encoder: ENCODER, input: 50 });
    assert_eq!(releases.len(), 5);
    assert_eq!(result.unwrap().data, vec![0]);
}

#[test]
fn a_probe_can_deliver_the_deferred_frame_itself() {
    let mut s = session_with_surface();
    let (_, releases, result) = encode(
        &mut s,
        key(1),
        false,
        vec![EncodeReply::Mapped(4), EncodeReply::NeedMoreInput, ready(&[9, 9], false)],
    );
    assert_eq!(result.unwrap().data, vec![9, 9]);
    assert_eq!(
        releases,
        vec![
            NvencRelease::Unlock { encoder: ENCODER, output: 101 },
            NvencRelease::Unmap { encoder: ENCODER, input: 4 },
        ]
    );
}

#[test]
fn a_pool_full_of_deferred_frames_is_exhausted() {
    let mut s = session_with_surface();
    for n in 0..POOL_SIZE as u64 {
        let mut replies: Vec<EncodeReply> = (0..n).map(|_| EncodeReply::Busy).collect();
        replies.push(EncodeReply::Mapped(n));
        replies.push(EncodeReply::NeedMoreInput);
        replies.push(EncodeReply::Busy);
        let (calls, _, result) = encode(&mut s, key(1), false, replies);
        assert!(result.unwrap().is_pending);
        // The probe asks the slot that was filled first.
        assert_eq!(
            calls[calls.len() - 1],
            EncodeCall::TryLock { encoder: ENCODER, output: 101 }
        );
    }
    let busy = || (0..POOL_SIZE).map(|_| EncodeReply::Busy).collect::<Vec<_>>();
    let (_, _, result) = encode(&mut s, key(1), false, busy());
    match result {
        Err(DriverError::OperationFailed(what)) => {
            assert_eq!(what, "NVENC bitstream pool exhausted")
        }
        _ => panic!("must fail"),
    }
    // A slot that fails is freed, and its input unmapped.
    let mut replies = busy();
    replies[2] = EncodeReply::Failed;
    replies.push(EncodeReply::Mapped(50));
    replies.push(EncodeReply::Encoded);
    replies.push(ready(&[5], false));
    replies.extend((1..POOL_SIZE).map(|_| EncodeReply::Busy));
    let (calls, releases, result) = encode(&mut s, key(1), false, replies);
    assert_eq!(releases[0], NvencRelease::Unmap { encoder: ENCODER, input: 2 });
    assert_eq!(calls[POOL_SIZE + 2], EncodeCall::Lock { encoder: ENCODER, output: 103 });
    // The five older frames are asked again, the latest first.
    let asked: Vec<u64> = calls[POOL_SIZE + 3..]
        .iter()
        .map(|c| match c {
            EncodeCall::TryLock { output, .. } => *output,
            _ => panic!("unexpected {:?}", c),
        })
        .collect();
    assert_eq!(asked, vec![106, 105, 104, 102, 101]);
    assert_eq!(result.unwrap().data, vec![5]);
}

#[test]
fn encode_errors() {
    let mut s = session_with_surface();
    let (_, releases, result) = encode(&mut s, key(1), false, vec![EncodeReply::Failed]);
    assert!(releases.is_empty());
    assert!(matches!(result, Err(DriverError::OperationFailed("NvEncMapInputResource"))));

    let (_, releases, result) =
        encode(&mut s, key(1), false, vec![EncodeReply::Mapped(7), EncodeReply::Failed]);
    assert_eq!(releases, vec![NvencRelease::Unmap { encoder: ENCODER, input: 7 }]);
    assert!(matches!(result, Err(DriverError::Encoding("NvEncEncodePicture"))));

    let (_, releases, result) = encode(
        &mut s,
        key(1),
        false,
        vec![EncodeReply::Mapped(8), EncodeReply::Encoded, EncodeReply::Failed],
    );
    assert!(releases.is_empty());
    assert!(matches!(result, Err(DriverError::Encoding("NvEncLockBitstream"))));

    let step = s.encode_frame(key(1), false, false);
    assert!(matches!(
        step.next,
        EncodeNext::Done(Err(DriverError::OperationFailed("ENCODE_API unavailable")))
    ));
    let (_, _, result) = encode(&mut s, key(2), false, vec![]);
    assert!(matches!(result, Err(DriverError::InvalidSurface)));
}

#[test]
fn reconfiguring_to_the_same_configuration_asks_nothing() {
    let s = session();
    assert!(matches!(s.reconfigure(config(), false), ReconfigureNext::Done(Ok(()))));
}

#[test]
fn reconfiguration_keeps_preset_and_forces_an_idr() {
    let mut s = session();
    let mut new = config();
    new.bitrate_bps = 12_000_000;
    let run = match s.reconfigure(new, true) {
        ReconfigureNext::Call { call, run } => {
            assert_eq!(
                call,
                ReconfigureCall::PresetConfig {
                    encoder: ENCODER,
                    preset: NvencPreset::P4,
                    tuning: Tuning::LowLatency
                }
            );
            run
        }
        ReconfigureNext::Done(_) => panic!("a change must be made"),
    };
    let run = match s.reconfigure_resume(run, ReconfigureReply::Preset(preset_config())) {
        ReconfigureNext::Call { call: ReconfigureCall::Reconfigure { params, force_idr, .. }, run } => {
            assert!(force_idr);
            assert_eq!(params.encode_config.rc_params.average_bit_rate, 12_000_000);
            assert_eq!(params.preset, NvencPreset::P4);
            run
        }
        other => panic!("unexpected {:?}", other),
    };
    assert_eq!(*s.config(), config());
    assert!(matches!(
        s.reconfigure_resume(run, ReconfigureReply::Done),
        ReconfigureNext::Done(Ok(()))
    ));
    assert_eq!(*s.config(), new);
}

#[test]
fn failed_reconfiguration_keeps_the_configuration() {
    let mut s = session();
    let mut new = config();
    new.gop_length = 30;
    let run = match s.reconfigure(new, true) {
        ReconfigureNext::Call { run, .. } => run,
        ReconfigureNext::Done(_) => panic!("a change must be made"),
    };
    assert!(matches!(
        s.reconfigure_resume(run, ReconfigureReply::Failed),
        ReconfigureNext::Done(Err(DriverError::OperationFailed("NvEncGetEncodePresetConfigEx")))
    ));
    let run = match s.reconfigure_resume(run, ReconfigureReply::Preset(preset_config())) {
        ReconfigureNext::Call { run, .. } => run,
        ReconfigureNext::Done(_) => panic!("a change must be made"),
    };
    assert!(matches!(
        s.reconfigure_resume(run, ReconfigureReply::Failed),
        ReconfigureNext::Done(Err(DriverError::OperationFailed("NvEncReconfigureEncoder")))
    ));
    assert_eq!(*s.config(), config());
    assert!(matches!(
        s.reconfigure(new, false),
        ReconfigureNext::Done(Err(DriverError::OperationFailed("ENCODE_API unavailable")))
    ));
}

#[test]
fn teardown_unmaps_destroys_unregisters_and_ends_with_the_encoder() {
    let mut s = session_with_surface();
    let _ = encode(
        &mut s,
        key(1),
        false,
        vec![EncodeReply::Mapped(0x77), EncodeReply::NeedMoreInput, EncodeReply::Busy],
    );
    let releases = s.teardown(true);
    let mut expected = vec![NvencRelease::Unmap { encoder: ENCODER, input: 0x77 }];
    for output in 101..=106 {
        expected.push(NvencRelease::DestroyBitstream { encoder: ENCODER, output });
    }
    expected.push(NvencRelease::Unregister { encoder: ENCODER, resource: 0x500 });
    expected.push(NvencRelease::DestroyEncoder { encoder: ENCODER });
    assert_eq!(releases, expected);
    assert!(session_with_surface().teardown(false).is_empty());
}

#[test]
fn a_default_bitstream_is_empty() {
    let coded = CodedBitstream::default();
    assert!(coded.data.is_empty() && !coded.is_pending && !coded.is_idr);
}

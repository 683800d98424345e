use nvenc_vaapi_driver::cuda::{
    sysfs_device_link, CudaCtx, DrmNext, InitCall, InitNext, InitReply,
};
use nvenc_vaapi_driver::error::DriverError;

const DRM: u64 = 0x30;
const RENDERNODES: u64 = 0x31;
const X11: u64 = 0x10;

fn ctx(drm_fd: Option<i32>) -> CudaCtx {
    CudaCtx { drm_fd, ctx: None }
}

#[test]
fn drm_state_is_read_on_drm_displays_only() {
    assert!(matches!(CudaCtx::from_va_context(true, DRM, true), DrmNext::ReadFd));
    assert!(matches!(CudaCtx::from_va_context(true, RENDERNODES, true), DrmNext::ReadFd));
    for next in [
        CudaCtx::from_va_context(true, X11, true),
        CudaCtx::from_va_context(true, DRM, false),
        CudaCtx::from_va_context(true, 0x1_0000_0030, true),
    ] {
        match next {
            DrmNext::Done(Ok(c)) => assert_eq!(c, ctx(None)),
            other => panic!("unexpected {:?}", other),
        }
    }
    assert!(matches!(
        CudaCtx::from_va_context(false, DRM, true),
        DrmNext::Done(Err(DriverError::InvalidParameter))
    ));
}

#[test]
fn the_drm_descriptor_is_duplicated() {
    assert!(matches!(CudaCtx::drm_fd_read(9), DrmNext::DupFd(9)));
    assert!(matches!(CudaCtx::drm_fd_read(-1), DrmNext::Done(Ok(CudaCtx { drm_fd: None, .. }))));
    match CudaCtx::drm_fd_duplicated(12) {
        DrmNext::Done(Ok(mut c)) => {
            assert_eq!(c, ctx(Some(12)));
            assert_eq!(c.take_drm_fd(), Some(12));
            assert_eq!(c.take_drm_fd(), None);
        }
        other => panic!("unexpected {:?}", other),
    }
    assert!(matches!(
        CudaCtx::drm_fd_duplicated(-1),
        DrmNext::Done(Ok(CudaCtx { drm_fd: None, .. }))
    ));
}

#[test]
fn device_numbers_name_their_sysfs_link() {
    // Major 226, minor 128: the first DRM render node.
    assert_eq!(sysfs_device_link(0xe280), "/sys/dev/char/226:128/device");
    assert_eq!(sysfs_device_link(0), "/sys/dev/char/0:0/device");
    assert_eq!(
        sysfs_device_link(0xffff_ffff_ffff_ffff),
        "/sys/dev/char/4294967295:4294967295/device"
    );
}

/// Runs initialisation with one answer per call, and gives the last ordinal
/// that a context was asked for on.
fn init_with(c: &mut CudaCtx, replies: Vec<InitReply>) -> (Option<usize>, Result<u64, DriverError>) {
    let mut ordinal = None;
    let mut next = c.get_or_init();
    let mut replies = replies.into_iter();
    loop {
        match next {
            InitNext::Done(result) => return (ordinal, result),
            InitNext::Call { call, run } => {
                if let InitCall::CreateContext { ordinal: n } = call {
                    ordinal = Some(n);
                }
                next = c.init_resume(run, replies.next().unwrap());
            }
        }
    }
}

#[test]
fn the_device_is_found_by_its_bus() {
    let mut c = ctx(Some(3));
    let (ordinal, result) = init_with(
        &mut c,
        vec![
            InitReply::Rdev(0xe280),
            InitReply::Name("0000:01:00.0".to_string()),
            InitReply::Done,
            InitReply::Ordinal(2),
            InitReply::Context(77),
        ],
    );
    assert_eq!(ordinal, Some(2));
    assert_eq!(result.unwrap(), 77);
    // The context is created once.
    let (ordinal, result) = init_with(&mut c, vec![]);
    assert_eq!(ordinal, None);
    assert_eq!(result.unwrap(), 77);
}

#[test]
fn every_lookup_failure_means_device_zero() {
    let lookups = || {
        vec![
            InitReply::Rdev(0xe280),
            InitReply::Name("0000:01:00.0".to_string()),
            InitReply::Done,
        ]
    };
    for fails_at in 0..4 {
        let mut replies: Vec<InitReply> = lookups().into_iter().take(fails_at).collect();
        replies.push(InitReply::Failed);
        replies.push(InitReply::Context(5));
        let (ordinal, result) = init_with(&mut ctx(Some(3)), replies);
        assert_eq!(ordinal, Some(0));
        assert_eq!(result.unwrap(), 5);
    }
    let (ordinal, _) = init_with(&mut ctx(None), vec![InitReply::Context(5)]);
    assert_eq!(ordinal, Some(0));
}

#[test]
fn a_bus_id_with_nul_means_device_zero() {
    let (ordinal, _) = init_with(
        &mut ctx(Some(3)),
        vec![
            InitReply::Rdev(0xe280),
            InitReply::Name("0000\0".to_string()),
            InitReply::Done,
            InitReply::Context(5),
        ],
    );
    assert_eq!(ordinal, Some(0));
}

#[test]
fn a_failed_context_is_not_kept() {
    let mut c = ctx(None);
    let (_, result) = init_with(&mut c, vec![InitReply::Failed]);
    assert!(matches!(result, Err(DriverError::OperationFailed("cuCtxCreate failed"))));
    let (_, result) = init_with(&mut c, vec![InitReply::Context(8)]);
    assert_eq!(result.unwrap(), 8);
}

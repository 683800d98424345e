//! CUDA side of the driver: the lazily created context and DMA-BUF import.
//!
//! The CUDA device is picked by the PCI bus ID of the DRM device that libva
//! was opened on. Where anything on that way fails, device 0 is used. The
//! context itself is created on first use, so that the driver loads on
//! machines without a GPU.

pub mod external_mem;

use crate::error::DriverError;
use crate::va;
use vstd::prelude::*;
use vstd::string::{StrSliceExecFns, StringExecFns};

verus! {

/// The driver's CUDA state.
#[derive(Debug, Clone, Copy, PartialEq, Eq, Structural)]
pub struct CudaCtx {
    /// A duplicate of the DRM file descriptor that libva was opened on.
    pub drm_fd: Option<i32>,
    /// The CUDA context, once it was created.
    pub ctx: Option<u64>,
}

// ---------------------------------------------------------------------------
// The DRM file descriptor
// ---------------------------------------------------------------------------

/// How building the CUDA state goes on.
#[derive(Debug, Clone, Copy)]
pub enum DrmNext {
    /// Read `drm_state->fd`.
    ReadFd,
    /// `fcntl(fd, F_DUPFD_CLOEXEC, 3)`.
    DupFd(i32),
    Done(Result<CudaCtx, DriverError>),
}

/// Whether `drm_state` of a libva context points at a `struct drm_state`. On
/// other displays it is null or of another layout.
pub open spec fn is_drm_display(display_type: u64) -> bool {
    display_type == va::VA_DISPLAY_DRM || display_type == va::VA_DISPLAY_DRM_RENDERNODES
}

/// CUDA state with a DRM descriptor and no context yet.
pub open spec fn unopened(drm_fd: Option<i32>) -> CudaCtx {
    CudaCtx { drm_fd, ctx: None }
}

/// The first step of building the CUDA state.
pub open spec fn drm_begin(has_ctx: bool, display_type: u64, has_drm_state: bool) -> DrmNext {
    if !has_ctx {
        DrmNext::Done(Err(DriverError::InvalidParameter))
    } else if is_drm_display(display_type) && has_drm_state {
        DrmNext::ReadFd
    } else {
        DrmNext::Done(Ok(unopened(None)))
    }
}

/// The step after `drm_state->fd` was read.
pub open spec fn drm_after_read(fd: i32) -> DrmNext {
    if fd < 0 {
        DrmNext::Done(Ok(unopened(None)))
    } else {
        DrmNext::DupFd(fd)
    }
}

/// The step after the descriptor was duplicated.
pub open spec fn drm_after_dup(dup: i32) -> DrmNext {
    DrmNext::Done(
        Ok(
            unopened(
                if dup < 0 {
                    None
                } else {
                    Some(dup)
                },
            ),
        ),
    )
}

/// `drm_state` is read only where the display type says that it is a
/// `struct drm_state`, and is not null.
pub proof fn law_drm_state_is_read_only_on_drm(
    has_ctx: bool,
    display_type: u64,
    has_drm_state: bool,
)
    ensures
        drm_begin(has_ctx, display_type, has_drm_state) is ReadFd ==> has_ctx && is_drm_display(
            display_type,
        ) && has_drm_state,
{
}

// ---------------------------------------------------------------------------
// The context
// ---------------------------------------------------------------------------

/// A call that creating the context needs.
#[derive(Debug)]
pub enum InitCall {
    /// `fstat`, for the device number.
    Stat { fd: i32 },
    /// Read a symbolic link, for the last component of its target.
    ReadLink { path: String },
    /// `cuInit`.
    InitCuda,
    /// `cuDeviceGetByPCIBusId`.
    DeviceByPci { bus_id: String },
    /// Create a context on a device.
    CreateContext { ordinal: usize },
}

/// The contents of an [`InitCall`].
#[verifier::ext_equal]
pub enum InitCallView {
    Stat { fd: i32 },
    ReadLink { path: Seq<char> },
    InitCuda,
    DeviceByPci { bus_id: Seq<char> },
    CreateContext { ordinal: usize },
}

impl View for InitCall {
    type V = InitCallView;

    open spec fn view(&self) -> InitCallView {
        match *self {
            InitCall::Stat { fd } => InitCallView::Stat { fd },
            InitCall::ReadLink { path } => InitCallView::ReadLink { path: path@ },
            InitCall::InitCuda => InitCallView::InitCuda,
            InitCall::DeviceByPci { bus_id } => InitCallView::DeviceByPci { bus_id: bus_id@ },
            InitCall::CreateContext { ordinal } => InitCallView::CreateContext { ordinal },
        }
    }
}

/// The answer to an [`InitCall`].
#[derive(Debug)]
pub enum InitReply {
    /// The device number of a file.
    Rdev(u64),
    /// A file name.
    Name(String),
    /// The call succeeded and gives nothing back.
    Done,
    /// A device ordinal.
    Ordinal(usize),
    /// A context.
    Context(u64),
    /// The call failed.
    Failed,
}

/// The contents of an [`InitReply`].
#[verifier::ext_equal]
pub enum InitReplyView {
    Rdev(u64),
    Name(Seq<char>),
    Done,
    Ordinal(usize),
    Context(u64),
    Failed,
}

impl View for InitReply {
    type V = InitReplyView;

    open spec fn view(&self) -> InitReplyView {
        match *self {
            InitReply::Rdev(dev) => InitReplyView::Rdev(dev),
            InitReply::Name(name) => InitReplyView::Name(name@),
            InitReply::Done => InitReplyView::Done,
            InitReply::Ordinal(n) => InitReplyView::Ordinal(n),
            InitReply::Context(c) => InitReplyView::Context(c),
            InitReply::Failed => InitReplyView::Failed,
        }
    }
}

/// Where creating the context stands while a call is out.
#[derive(Debug)]
pub enum InitRun {
    Statting,
    Linking,
    Starting { bus_id: String },
    Finding,
    Creating,
}

/// The contents of an [`InitRun`].
#[verifier::ext_equal]
pub enum InitRunView {
    Statting,
    Linking,
    Starting { bus_id: Seq<char> },
    Finding,
    Creating,
}

impl View for InitRun {
    type V = InitRunView;

    open spec fn view(&self) -> InitRunView {
        match *self {
            InitRun::Statting => InitRunView::Statting,
            InitRun::Linking => InitRunView::Linking,
            InitRun::Starting { bus_id } => InitRunView::Starting { bus_id: bus_id@ },
            InitRun::Finding => InitRunView::Finding,
            InitRun::Creating => InitRunView::Creating,
        }
    }
}

/// How creating the context goes on.
pub enum InitNext {
    Call { call: InitCall, run: InitRun },
    Done(Result<u64, DriverError>),
}

/// The contents of an [`InitNext`].
#[verifier::ext_equal]
pub enum InitNextView {
    Call { call: InitCallView, run: InitRunView },
    Done(Result<u64, DriverError>),
}

impl View for InitNext {
    type V = InitNextView;

    open spec fn view(&self) -> InitNextView {
        match *self {
            InitNext::Call { call, run } => InitNextView::Call { call: call@, run: run@ },
            InitNext::Done(r) => InitNextView::Done(r),
        }
    }
}

/// A decimal digit.
pub open spec fn digit_char(d: int) -> char {
    if d == 0 {
        '0'
    } else if d == 1 {
        '1'
    } else if d == 2 {
        '2'
    } else if d == 3 {
        '3'
    } else if d == 4 {
        '4'
    } else if d == 5 {
        '5'
    } else if d == 6 {
        '6'
    } else if d == 7 {
        '7'
    } else if d == 8 {
        '8'
    } else {
        '9'
    }
}

/// A number in decimal, without leading zeros.
pub open spec fn decimal(n: nat) -> Seq<char>
    decreases n,
{
    if n < 10 {
        seq![digit_char(n as int)]
    } else {
        decimal(n / 10).push(digit_char((n % 10) as int))
    }
}

/// The major number of a device.
pub open spec fn major_of(dev: u64) -> u32 {
    (((dev & 0x0000_0000_000f_ff00) >> 8) | ((dev & 0xffff_f000_0000_0000) >> 32)) as u32
}

/// The minor number of a device.
pub open spec fn minor_of(dev: u64) -> u32 {
    ((dev & 0x0000_0000_0000_00ff) | ((dev & 0x0000_0fff_fff0_0000) >> 12)) as u32
}

/// The link from a character device to its bus device in sysfs.
pub open spec fn sysfs_link(dev: u64) -> Seq<char> {
    "/sys/dev/char/"@ + decimal(major_of(dev) as nat) + ":"@ + decimal(minor_of(dev) as nat)
        + "/device"@
}

/// Whether a name cannot be passed to C.
pub open spec fn has_nul(name: Seq<char>) -> bool {
    exists|i: int| 0 <= i < name.len() && #[trigger] name[i] == '\0'
}

/// Creating a context on a device.
pub open spec fn create_on(ordinal: usize) -> InitNextView {
    InitNextView::Call {
        call: InitCallView::CreateContext { ordinal },
        run: InitRunView::Creating,
    }
}

/// The first step towards the context: the one at hand, the device of the DRM
/// descriptor, or device 0.
pub open spec fn init_begin(c: CudaCtx) -> InitNextView {
    match c.ctx {
        Some(handle) => InitNextView::Done(Ok(handle)),
        None => match c.drm_fd {
            None => create_on(0),
            Some(fd) => InitNextView::Call {
                call: InitCallView::Stat { fd },
                run: InitRunView::Statting,
            },
        },
    }
}

/// The step after a call was answered. Only the creation of the context can
/// fail; every failure before it means device 0.
pub open spec fn init_next(run: InitRunView, reply: InitReplyView) -> InitNextView {
    match run {
        InitRunView::Statting => match reply {
            InitReplyView::Rdev(dev) => InitNextView::Call {
                call: InitCallView::ReadLink { path: sysfs_link(dev) },
                run: InitRunView::Linking,
            },
            _ => create_on(0),
        },
        InitRunView::Linking => match reply {
            InitReplyView::Name(bus_id) => InitNextView::Call {
                call: InitCallView::InitCuda,
                run: InitRunView::Starting { bus_id },
            },
            _ => create_on(0),
        },
        InitRunView::Starting { bus_id } => match reply {
            InitReplyView::Done if !has_nul(bus_id) => InitNextView::Call {
                call: InitCallView::DeviceByPci { bus_id },
                run: InitRunView::Finding,
            },
            _ => create_on(0),
        },
        InitRunView::Finding => match reply {
            InitReplyView::Ordinal(n) => create_on(n),
            _ => create_on(0),
        },
        InitRunView::Creating => match reply {
            InitReplyView::Context(handle) => InitNextView::Done(Ok(handle)),
            _ => InitNextView::Done(Err(DriverError::OperationFailed("cuCtxCreate failed"))),
        },
    }
}

/// The state after a call was answered.
pub open spec fn init_state(c: CudaCtx, run: InitRunView, reply: InitReplyView) -> CudaCtx {
    match (run, reply) {
        (InitRunView::Creating, InitReplyView::Context(handle)) => CudaCtx {
            ctx: Some(handle),
            ..c
        },
        _ => c,
    }
}

/// Outside call: `libc::major`. On Linux the major number is spread over two
/// fields of a device number: bits 8 to 19, and bits 44 to 63.
#[verifier::external_body]
fn device_major(dev: u64) -> (major: u32)
    ensures
        major == major_of(dev),
{
    libc::major(dev)
}

/// Outside call: `libc::minor`. On Linux the minor number is spread over two
/// fields of a device number: bits 0 to 7, and bits 20 to 43.
#[verifier::external_body]
fn device_minor(dev: u64) -> (minor: u32)
    ensures
        minor == minor_of(dev),
{
    libc::minor(dev)
}

fn digit_str(d: u32) -> (s: &'static str)
    requires
        d < 10,
    ensures
        s@ == seq![digit_char(d as int)],
{
    proof {
        reveal_strlit("0");
        reveal_strlit("1");
        reveal_strlit("2");
        reveal_strlit("3");
        reveal_strlit("4");
        reveal_strlit("5");
        reveal_strlit("6");
        reveal_strlit("7");
        reveal_strlit("8");
        reveal_strlit("9");
    }
    match d {
        0 => "0",
        1 => "1",
        2 => "2",
        3 => "3",
        4 => "4",
        5 => "5",
        6 => "6",
        7 => "7",
        8 => "8",
        _ => "9",
    }
}

fn push_decimal(out: &mut String, n: u32)
    ensures
        final(out)@ == old(out)@ + decimal(n as nat),
    decreases n,
{
    if n >= 10 {
        push_decimal(out, n / 10);
    }
    let ghost so_far = out@;
    out.append(digit_str(n % 10));
    proof {
        if n >= 10 {
            assert(decimal(n as nat) == decimal((n / 10) as nat).push(digit_char((n % 10) as int)));
        }
        assert(out@ =~= old(out)@ + decimal(n as nat));
    }
}

/// The link from a character device to its bus device in sysfs.
pub fn sysfs_device_link(rdev: u64) -> (path: String)
    ensures
        path@ == sysfs_link(rdev),
{
    let mut path = String::from_str("/sys/dev/char/");
    push_decimal(&mut path, device_major(rdev));
    path.append(":");
    push_decimal(&mut path, device_minor(rdev));
    path.append("/device");
    path
}

fn contains_nul(name: &str) -> (found: bool)
    ensures
        found == has_nul(name@),
{
    let n: usize = name.unicode_len();
    let mut i: usize = 0;
    while i < n
        invariant
            i <= n,
            n == name@.len(),
            forall|j: int| 0 <= j < i ==> name@[j] != '\0',
        decreases n - i,
    {
        if name.get_char(i) == '\0' {
            return true;
        }
        i += 1;
    }
    false
}

fn create_context_on(ordinal: usize) -> (next: InitNext)
    ensures
        next@ == create_on(ordinal),
{
    InitNext::Call { call: InitCall::CreateContext { ordinal }, run: InitRun::Creating }
}

impl CudaCtx {
    /// Build the CUDA state from a libva context. `drm_state` may be read only
    /// where this says so.
    pub fn from_va_context(has_ctx: bool, display_type: u64, has_drm_state: bool) -> (next: DrmNext)
        ensures
            next == drm_begin(has_ctx, display_type, has_drm_state),
    {
        if !has_ctx {
            return DrmNext::Done(Err(DriverError::InvalidParameter));
        }
        let is_drm = display_type == va::VA_DISPLAY_DRM as u64 || display_type
            == va::VA_DISPLAY_DRM_RENDERNODES as u64;
        if !is_drm || !has_drm_state {
            return DrmNext::Done(Ok(CudaCtx { drm_fd: None, ctx: None }));
        }
        DrmNext::ReadFd
    }

    /// Go on with the descriptor that `drm_state` holds.
    pub fn drm_fd_read(fd: i32) -> (next: DrmNext)
        ensures
            next == drm_after_read(fd),
    {
        if fd < 0 {
            DrmNext::Done(Ok(CudaCtx { drm_fd: None, ctx: None }))
        } else {
            DrmNext::DupFd(fd)
        }
    }

    /// Go on with the duplicate.
    pub fn drm_fd_duplicated(dup: i32) -> (next: DrmNext)
        ensures
            next == drm_after_dup(dup),
    {
        let drm_fd: Option<i32> = if dup < 0 {
            None
        } else {
            Some(dup)
        };
        DrmNext::Done(Ok(CudaCtx { drm_fd, ctx: None }))
    }

    /// The CUDA context, which is created on first use. Goes on with
    /// [`CudaCtx::init_resume`].
    pub fn get_or_init(&self) -> (next: InitNext)
        ensures
            next@ == init_begin(*self),
    {
        match self.ctx {
            Some(handle) => InitNext::Done(Ok(handle)),
            None => match self.drm_fd {
                None => create_context_on(0),
                Some(fd) => InitNext::Call { call: InitCall::Stat { fd }, run: InitRun::Statting },
            },
        }
    }

    /// Go on with the context after a call was answered.
    pub fn init_resume(&mut self, run: InitRun, reply: InitReply) -> (next: InitNext)
        ensures
            next@ == init_next(run@, reply@),
            *final(self) == init_state(*old(self), run@, reply@),
    {
        match run {
            InitRun::Statting => match reply {
                InitReply::Rdev(dev) => {
                    let path = sysfs_device_link(dev);
                    InitNext::Call { call: InitCall::ReadLink { path }, run: InitRun::Linking }
                },
                _ => create_context_on(0),
            },
            InitRun::Linking => match reply {
                InitReply::Name(bus_id) => InitNext::Call {
                    call: InitCall::InitCuda,
                    run: InitRun::Starting { bus_id },
                },
                _ => create_context_on(0),
            },
            InitRun::Starting { bus_id } => match reply {
                InitReply::Done => {
                    if contains_nul(bus_id.as_str()) {
                        return create_context_on(0);
                    }
                    InitNext::Call {
                        call: InitCall::DeviceByPci { bus_id },
                        run: InitRun::Finding,
                    }
                },
                _ => create_context_on(0),
            },
            InitRun::Finding => match reply {
                InitReply::Ordinal(n) => create_context_on(n),
                _ => create_context_on(0),
            },
            InitRun::Creating => match reply {
                InitReply::Context(handle) => {
                    self.ctx = Some(handle);
                    InitNext::Done(Ok(handle))
                },
                _ => InitNext::Done(Err(DriverError::OperationFailed("cuCtxCreate failed"))),
            },
        }
    }

    /// Give up the DRM descriptor, for closing.
    pub fn take_drm_fd(&mut self) -> (fd: Option<i32>)
        ensures
            fd == old(self).drm_fd,
            *final(self) == (CudaCtx { drm_fd: None, ..*old(self) }),
    {
        let fd = self.drm_fd;
        self.drm_fd = None;
        fd
    }
}

/// There is one context: once it was created, asking for it makes no call and
/// gives the same one.
pub proof fn law_context_is_created_once(c: CudaCtx, run: InitRunView, reply: InitReplyView)
    ensures
        init_next(run, reply) matches InitNextView::Done(Ok(handle)) ==> init_begin(
            init_state(c, run, reply),
        ) == InitNextView::Done(Ok(handle)),
        init_next(run, reply) matches InitNextView::Done(Err(_)) ==> init_state(c, run, reply) == c,
{
}

/// Nothing on the way to a device is fatal: a step that fails before the
/// context is created goes on to device 0.
pub proof fn law_device_lookup_falls_back(run: InitRunView)
    ensures
        !(run is Creating) ==> init_next(run, InitReplyView::Failed) == create_on(0),
{
}

/// The number that decimal digits stand for.
pub open spec fn digits_value(digits: Seq<char>) -> int
    decreases digits.len(),
{
    if digits.len() == 0 {
        0
    } else {
        10 * digits_value(digits.drop_last()) + (digits.last() as int - '0' as int)
    }
}

/// Decimal digits read back as the number they were made from, are digits, and
/// have no zero in front but for zero itself.
pub proof fn law_decimal_reads_back(n: nat)
    ensures
        digits_value(decimal(n)) == n,
        decimal(n).len() > 0,
        forall|i: int|
            0 <= i < decimal(n).len() ==> '0' as int <= (#[trigger] decimal(n)[i]) as int <= '9' as int,
        n > 0 ==> decimal(n)[0] != '0',
    decreases n,
{
    if n < 10 {
        let s = decimal(n);
        assert(s.drop_last() =~= Seq::<char>::empty());
        assert(digits_value(s.drop_last()) == 0);
        assert(s.last() == digit_char(n as int));
    } else {
        law_decimal_reads_back(n / 10);
        let s = decimal(n);
        assert(s.drop_last() =~= decimal(n / 10));
        assert(s.last() == digit_char((n % 10) as int));
        assert forall|i: int| 0 <= i < s.len() implies '0' as int <= (#[trigger] s[i]) as int <= '9' as int by {
            if i < s.len() - 1 {
                assert(s[i] == decimal(n / 10)[i]);
            }
        }
        assert(s[0] == decimal(n / 10)[0]);
    }
}

/// The link of a device names it by its major and minor number, in that order.
pub proof fn law_link_names_the_device(dev: u64)
    ensures
        exists|major: Seq<char>, minor: Seq<char>|
            #[trigger] digits_value(major) == major_of(dev) && #[trigger] digits_value(minor)
                == minor_of(dev) && sysfs_link(dev) == "/sys/dev/char/"@ + major + ":"@ + minor
                + "/device"@,
{
    law_decimal_reads_back(major_of(dev) as nat);
    law_decimal_reads_back(minor_of(dev) as nat);
    let major = decimal(major_of(dev) as nat);
    let minor = decimal(minor_of(dev) as nat);
    assert(digits_value(major) == major_of(dev) && digits_value(minor) == minor_of(dev));
}

/// The descriptor that the driver keeps is the duplicate of the one that libva
/// was opened on; where there is none, or none could be made, it keeps none. Only
/// a missing context is an error, and no context is created yet.
pub proof fn law_drm_descriptor_is_duplicated(
    has_ctx: bool,
    display_type: u64,
    has_drm_state: bool,
    fd: i32,
)
    ensures
        !has_ctx <==> (drm_begin(has_ctx, display_type, has_drm_state) matches DrmNext::Done(Err(_))),
        has_ctx && has_drm_state && (display_type == 0x30 || display_type == 0x31) <==> drm_begin(
            has_ctx,
            display_type,
            has_drm_state,
        ) is ReadFd,
        drm_begin(has_ctx, display_type, has_drm_state) matches DrmNext::Done(Ok(c))
            ==> c.drm_fd is None && c.ctx is None,
        fd >= 0 ==> drm_after_read(fd) == DrmNext::DupFd(fd),
        fd < 0 ==> (drm_after_read(fd) matches DrmNext::Done(Ok(c)) && c.drm_fd is None && c.ctx is None),
        drm_after_dup(fd) matches DrmNext::Done(Ok(c)) && c.ctx is None && (fd >= 0 ==> c.drm_fd
            == Some(fd)) && (fd < 0 ==> c.drm_fd is None),
{
}

/// The device is found by way of the kernel: the device number of the kept
/// descriptor, the bus device that sysfs links it to, and the ordinal that CUDA
/// has for that bus device; the context is then created on that ordinal, and
/// kept.
pub proof fn law_context_is_on_the_device_of_the_display(
    c: CudaCtx,
    dev: u64,
    bus_id: Seq<char>,
    ordinal: usize,
    handle: u64,
)
    requires
        c.ctx is None,
        !has_nul(bus_id),
    ensures
        c.drm_fd is None ==> init_begin(c) == (InitNextView::Call {
            call: InitCallView::CreateContext { ordinal: 0 },
            run: InitRunView::Creating,
        }),
        c.drm_fd matches Some(fd) ==> (init_begin(c) matches InitNextView::Call {
            call: InitCallView::Stat { fd: asked },
            run: r1,
        } && asked == fd && (init_next(r1, InitReplyView::Rdev(dev)) matches InitNextView::Call {
            call: InitCallView::ReadLink { path },
            run: r2,
        } && path == sysfs_link(dev) && (init_next(r2, InitReplyView::Name(bus_id)) matches
            InitNextView::Call { call: InitCallView::InitCuda, run: r3 } && (init_next(
            r3,
            InitReplyView::Done,
        ) matches InitNextView::Call { call: InitCallView::DeviceByPci { bus_id: found }, run: r4 }
            && found == bus_id && (init_next(r4, InitReplyView::Ordinal(ordinal)) matches
            InitNextView::Call { call: InitCallView::CreateContext { ordinal: on }, run: r5 } && on
            == ordinal && init_next(r5, InitReplyView::Context(handle)) == InitNextView::Done(
            Ok::<u64, DriverError>(handle),
        ) && init_state(c, r5, InitReplyView::Context(handle)).ctx == Some(handle) && init_state(
            c,
            r5,
            InitReplyView::Context(handle),
        ).drm_fd == c.drm_fd))))),
{
}

/// A context that exists is given out as it is, and no step but its creation
/// changes the state.
pub proof fn law_only_creation_changes_the_state(
    c: CudaCtx,
    handle: u64,
    run: InitRunView,
    reply: InitReplyView,
)
    ensures
        init_begin(CudaCtx { ctx: Some(handle), ..c }) == InitNextView::Done(
            Ok::<u64, DriverError>(handle),
        ),
        !(run is Creating) || !(reply is Context) ==> init_state(c, run, reply) == c,
        run is Creating && !(reply is Context) ==> (init_next(run, reply) matches
            InitNextView::Done(Err(DriverError::OperationFailed(_)))),
        create_on(0) == (InitNextView::Call {
            call: InitCallView::CreateContext { ordinal: 0 },
            run: InitRunView::Creating,
        }),
{
}

} // verus!

//! Registering surfaces with an encode session.

use crate::error::DriverError;
use crate::ids::{PoolKey, SurfaceKey};
use crate::nvenc::encode::{
    map_outcome, resume_outcome, EncodeCall, EncodeRun, NextView, ReplyView,
};
use crate::nvenc::params::BUFFER_FORMAT_NV12;
use crate::nvenc::session::{
    law_free_slot_is_found, session_wf, NvencRelease, NvencSession, RegisteredSurface, SessionView,
};
use vstd::prelude::*;

verus! {

broadcast use vstd::std_specs::hash::group_hash_axioms;

/// What kind of memory a surface is registered from.
#[derive(Debug, Clone, Copy, PartialEq, Eq, Structural)]
pub enum ResourceType {
    CudaDevicePtr,
    CudaArray,
}

/// The parameters of `NvEncRegisterResource`.
#[derive(Debug, Clone, Copy, PartialEq, Eq, Structural)]
pub struct RegisterParams {
    pub encoder: u64,
    pub resource_type: ResourceType,
    pub width: u32,
    pub height: u32,
    pub pitch: u32,
    pub resource: u64,
    pub buffer_format: u32,
}

/// A registration that waits for NVENC's answer.
#[derive(Debug, Clone, Copy, PartialEq, Eq, Structural)]
pub struct RegisterRun {
    pub key: SurfaceKey,
    pub params: RegisterParams,
}

/// How registration goes on: it is done, with the registered resource, or
/// NVENC is asked.
#[derive(Debug, Clone, Copy)]
pub enum RegisterNext {
    Call(RegisterRun),
    Done(Result<u64, DriverError>),
}

/// The first step of a registration: the cached one, if there is any.
pub open spec fn register_begin(
    s: SessionView,
    key: SurfaceKey,
    params: RegisterParams,
    api_ready: bool,
) -> RegisterNext {
    if s.registered.contains_key(key.raw()) {
        RegisterNext::Done(Ok(s.registered[key.raw()].registered_ptr))
    } else if !api_ready {
        RegisterNext::Done(Err(DriverError::OperationFailed("ENCODE_API unavailable")))
    } else {
        RegisterNext::Call(RegisterRun { key, params })
    }
}

/// A session after NVENC answered a registration.
pub open spec fn registered_session(
    s: SessionView,
    run: RegisterRun,
    resource: Option<u64>,
) -> SessionView {
    match resource {
        Some(registered_ptr) => SessionView {
            registered: s.registered.insert(
                run.key.raw(),
                RegisteredSurface {
                    registered_ptr,
                    width: run.params.width,
                    height: run.params.height,
                    pitch: run.params.pitch,
                },
            ),
            ..s
        },
        None => s,
    }
}

/// The result of a registration after NVENC answered.
pub open spec fn register_result(run: RegisterRun, resource: Option<u64>) -> Result<
    u64,
    DriverError,
> {
    match resource {
        Some(registered_ptr) => Ok(registered_ptr),
        None => Err(
            DriverError::OperationFailed(
                match run.params.resource_type {
                    ResourceType::CudaDevicePtr => "NvEncRegisterResource",
                    ResourceType::CudaArray => "NvEncRegisterResource(CUDAARRAY)",
                },
            ),
        ),
    }
}

/// The registration of pitched device memory.
pub open spec fn internal_params(
    s: SessionView,
    cu_ptr: u64,
    pitch: u32,
    width: u32,
    height: u32,
) -> RegisterParams {
    RegisterParams {
        encoder: s.encoder,
        resource_type: ResourceType::CudaDevicePtr,
        width,
        height,
        pitch,
        resource: cu_ptr,
        buffer_format: BUFFER_FORMAT_NV12,
    }
}

/// The registration of a CUDA array, whose pitch NVENC takes from the array.
pub open spec fn external_params(
    s: SessionView,
    cuda_array: u64,
    width: u32,
    height: u32,
) -> RegisterParams {
    RegisterParams {
        encoder: s.encoder,
        resource_type: ResourceType::CudaArray,
        width,
        height,
        pitch: 0,
        resource: cuda_array,
        buffer_format: BUFFER_FORMAT_NV12,
    }
}

impl NvencSession {
    fn begin_registration(&self, key: SurfaceKey, params: RegisterParams, api_ready: bool) -> (next:
        RegisterNext)
        ensures
            next == register_begin(self@, key, params, api_ready),
    {
        if let Some(existing) = self.registered.get(&key.raw) {
            return RegisterNext::Done(Ok(existing.registered_ptr));
        }
        if !api_ready {
            return RegisterNext::Done(Err(DriverError::OperationFailed("ENCODE_API unavailable")));
        }
        RegisterNext::Call(RegisterRun { key, params })
    }

    /// Register a CUDA-resident NV12 surface. A surface that is registered
    /// already is answered from the table.
    pub fn register_internal_surface(
        &self,
        key: SurfaceKey,
        cu_ptr: u64,
        pitch: u32,
        width: u32,
        height: u32,
        api_ready: bool,
    ) -> (next: RegisterNext)
        ensures
            next == register_begin(
                self@,
                key,
                internal_params(self@, cu_ptr, pitch, width, height),
                api_ready,
            ),
    {
        let params = RegisterParams {
            encoder: self.encoder,
            resource_type: ResourceType::CudaDevicePtr,
            width,
            height,
            pitch,
            resource: cu_ptr,
            buffer_format: BUFFER_FORMAT_NV12,
        };
        self.begin_registration(key, params, api_ready)
    }

    /// Register a CUDA array imported from a DMA-BUF. A surface that is
    /// registered already is answered from the table.
    pub fn register_external_surface(
        &self,
        key: SurfaceKey,
        cuda_array: u64,
        width: u32,
        height: u32,
        api_ready: bool,
    ) -> (next: RegisterNext)
        ensures
            next == register_begin(
                self@,
                key,
                external_params(self@, cuda_array, width, height),
                api_ready,
            ),
    {
        let params = RegisterParams {
            encoder: self.encoder,
            resource_type: ResourceType::CudaArray,
            width,
            height,
            pitch: 0,
            resource: cuda_array,
            buffer_format: BUFFER_FORMAT_NV12,
        };
        self.begin_registration(key, params, api_ready)
    }

    /// Finish a registration with NVENC's answer: the registered resource, or
    /// nothing.
    pub fn register_resume(&mut self, run: RegisterRun, resource: Option<u64>) -> (result: Result<
        u64,
        DriverError,
    >)
        ensures
            final(self)@ == registered_session(old(self)@, run, resource),
            result == register_result(run, resource),
    {
        match resource {
            Some(registered_ptr) => {
                self.registered.insert(
                    run.key.raw,
                    RegisteredSurface {
                        registered_ptr,
                        width: run.params.width,
                        height: run.params.height,
                        pitch: run.params.pitch,
                    },
                );
                Ok(registered_ptr)
            },
            None => Err(
                DriverError::OperationFailed(
                    match run.params.resource_type {
                        ResourceType::CudaDevicePtr => "NvEncRegisterResource",
                        ResourceType::CudaArray => "NvEncRegisterResource(CUDAARRAY)",
                    },
                ),
            ),
        }
    }

    /// Forget the registration of a surface, and tell NVENC if it can be told.
    pub fn unregister_surface(&mut self, key: SurfaceKey, api_ready: bool) -> (release: Option<
        NvencRelease,
    >)
        ensures
            final(self)@ == unregistered(old(self)@, key),
            release == unregister_release(old(self)@, key, api_ready),
    {
        match self.registered.remove(&key.raw) {
            Some(reg) => {
                if api_ready {
                    Some(
                        NvencRelease::Unregister {
                            encoder: self.encoder,
                            resource: reg.registered_ptr,
                        },
                    )
                } else {
                    None
                }
            },
            None => {
                proof {
                    assert(self@ =~= unregistered(old(self)@, key));
                }
                None
            },
        }
    }
}

/// A session without the registration of a surface.
pub open spec fn unregistered(s: SessionView, key: SurfaceKey) -> SessionView {
    SessionView { registered: s.registered.remove(key.raw()), ..s }
}

/// What NVENC is told when a registration is forgotten.
pub open spec fn unregister_release(s: SessionView, key: SurfaceKey, api_ready: bool) -> Option<
    NvencRelease,
> {
    if s.registered.contains_key(key.raw()) && api_ready {
        Some(
            NvencRelease::Unregister {
                encoder: s.encoder,
                resource: s.registered[key.raw()].registered_ptr,
            },
        )
    } else {
        None
    }
}

/// Registration is idempotent per surface: once NVENC accepted it, a second
/// registration of that surface, of either kind and with any parameters, asks
/// nothing and gives the same resource.
pub proof fn law_registration_is_idempotent(
    s: SessionView,
    run: RegisterRun,
    resource: u64,
    params: RegisterParams,
    api_ready: bool,
)
    ensures
        register_begin(registered_session(s, run, Some(resource)), run.key, params, api_ready)
            == RegisterNext::Done(register_result(run, Some(resource))),
{
}

/// A registration that NVENC refused leaves the session as it was.
pub proof fn law_refused_registration_changes_nothing(s: SessionView, run: RegisterRun)
    ensures
        registered_session(s, run, None) == s,
        register_result(run, None) is Err,
{
}

/// A surface that was unregistered can no longer be encoded, until it is
/// registered again.
pub proof fn law_unregistered_surface_is_invalid(
    s: SessionView,
    key: SurfaceKey,
    releases: Seq<NvencRelease>,
    force_idr: bool,
)
    ensures
        map_outcome(unregistered(s, key), releases, key, force_idr).next == NextView::Done(
            Err(DriverError::InvalidSurface),
        ),
{
}

/// NVENC is asked to register the surface as it is: device memory by its
/// address, with its sides and its pitch, for the encoder of the session.
pub proof fn law_device_memory_is_registered_as_it_is(
    s: SessionView,
    key: SurfaceKey,
    cu_ptr: u64,
    pitch: u32,
    width: u32,
    height: u32,
)
    requires
        !s.registered.contains_key(key.raw()),
    ensures
        register_begin(s, key, internal_params(s, cu_ptr, pitch, width, height), true) matches
            RegisterNext::Call(run) && {
            &&& run.key == key
            &&& run.params.width == width
            &&& run.params.height == height
            &&& run.params.pitch == pitch
            &&& run.params.resource == cu_ptr
            &&& run.params.encoder == s.encoder
            &&& run.params.resource_type == ResourceType::CudaDevicePtr
            &&& run.params.buffer_format == 1
        },
        register_begin(s, key, internal_params(s, cu_ptr, pitch, width, height), false) matches
            RegisterNext::Done(Err(_)),
{
}

/// A CUDA array is registered by its handle, with the sides of the picture; its
/// pitch is left to NVENC.
pub proof fn law_array_is_registered_as_it_is(
    s: SessionView,
    key: SurfaceKey,
    cuda_array: u64,
    width: u32,
    height: u32,
)
    requires
        !s.registered.contains_key(key.raw()),
    ensures
        register_begin(s, key, external_params(s, cuda_array, width, height), true) matches
            RegisterNext::Call(run) && {
            &&& run.key == key
            &&& run.params.width == width
            &&& run.params.height == height
            &&& run.params.pitch == 0
            &&& run.params.resource == cuda_array
            &&& run.params.encoder == s.encoder
            &&& run.params.resource_type == ResourceType::CudaArray
            &&& run.params.buffer_format == 1
        },
        register_begin(s, key, external_params(s, cuda_array, width, height), false) matches
            RegisterNext::Done(Err(_)),
{
}

/// What is registered is what is encoded: once NVENC has accepted a surface, a
/// frame of it maps the resource that NVENC gave, and the picture that is then
/// submitted has the sides and the pitch that were registered. Only a pool
/// without a free slot stands in the way.
pub proof fn law_registered_surface_is_encoded_as_it_is(
    s: SessionView,
    run: RegisterRun,
    resource: u64,
    releases: Seq<NvencRelease>,
    force_idr: bool,
    input: u64,
)
    requires
        session_wf(s),
    ensures
        register_result(run, Some(resource)) == Ok::<u64, DriverError>(resource),
        ({
            let t = registered_session(s, run, Some(resource));
            match map_outcome(t, releases, run.key, force_idr).next {
                NextView::Call { call, run: mapping } => {
                    &&& call == EncodeCall::MapInput { encoder: s.encoder, registered: resource }
                    &&& resume_outcome(t, mapping, ReplyView::Mapped(input)).next matches
                        NextView::Call { call: EncodeCall::EncodePicture { encoder, params }, .. } && {
                        &&& encoder == s.encoder
                        &&& params.input_width == run.params.width
                        &&& params.input_height == run.params.height
                        &&& params.input_pitch == run.params.pitch
                        &&& params.input_buffer == input
                        &&& params.encode_pic_flags == (if force_idr {
                            2u32
                        } else {
                            0
                        })
                        &&& exists|k: int|
                            0 <= k < s.pool.len() && (#[trigger] s.pool[k]).state is Free
                                && params.output_bitstream == s.pool[k].handle
                    }
                },
                NextView::Done(_) => forall|k: int|
                    0 <= k < s.pool.len() ==> (#[trigger] s.pool[k]).state is Pending,
            }
        }),
{
    law_free_slot_is_found(s.pool, s.next_slot);
    let t = registered_session(s, run, Some(resource));
    if let NextView::Call { run: EncodeRun::MapSurface { slot, .. }, .. } = map_outcome(
        t,
        releases,
        run.key,
        force_idr,
    ).next {
        assert(s.pool[slot as int].state is Free);
    }
}

/// A registration adds that one surface, and forgetting it takes that one away:
/// every other surface, and everything else of the session, stays. NVENC is told
/// to forget the resource that it gave.
pub proof fn law_registration_concerns_one_surface(
    s: SessionView,
    run: RegisterRun,
    resource: u64,
    other: u64,
)
    requires
        other != run.key.raw(),
    ensures
        ({
            let t = registered_session(s, run, Some(resource));
            let u = unregistered(t, run.key);
            &&& t == SessionView { registered: t.registered, ..s }
            &&& u == SessionView { registered: u.registered, ..s }
            &&& t.registered.contains_key(other) == s.registered.contains_key(other)
            &&& t.registered[other] == s.registered[other]
            &&& u.registered.contains_key(other) == s.registered.contains_key(other)
            &&& u.registered[other] == s.registered[other]
            &&& t.registered.contains_key(run.key.raw())
            &&& !u.registered.contains_key(run.key.raw())
            &&& unregister_release(t, run.key, true) == Some(
                NvencRelease::Unregister { encoder: s.encoder, resource },
            )
            &&& unregister_release(t, run.key, false) is None
            &&& unregister_release(u, run.key, true) is None
        }),
{
}

} // verus!

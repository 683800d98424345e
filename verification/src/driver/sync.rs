//! `vaSyncSurface`, `vaSyncSurface2`, `vaSyncBuffer`.
//!
//! Encoding is over when `vaEndPicture` returns, so there is nothing to wait
//! for.

use crate::error::{DriverError, DriverResult};
use vstd::prelude::*;

verus! {

/// `vaSyncSurface`.
pub fn sync_surface(render_target: u32) -> (r: DriverResult<()>)
    ensures
        r == Ok::<(), DriverError>(()),
{
    Ok(())
}

/// `vaSyncSurface2`.
pub fn sync_surface2(render_target: u32, timeout_ns: u64) -> (r: DriverResult<()>)
    ensures
        r == Ok::<(), DriverError>(()),
{
    Ok(())
}

/// `vaSyncBuffer`.
pub fn sync_buffer(buf_id: u32, timeout_ns: u64) -> (r: DriverResult<()>)
    ensures
        r == Ok::<(), DriverError>(()),
{
    Ok(())
}

} // verus!

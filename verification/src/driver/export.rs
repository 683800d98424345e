//! `vaExportSurfaceHandle`.

use crate::error::{DriverError, DriverResult};
use vstd::prelude::*;

verus! {

/// Exporting a surface as a DMA-BUF is not implemented.
pub fn export_surface_handle(surface_id: u32, mem_type: u32, flags: u32) -> (r: DriverResult<()>)
    ensures
        r == Err::<(), DriverError>(DriverError::Unimplemented),
{
    Err(DriverError::Unimplemented)
}

} // verus!

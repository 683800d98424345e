//! `vaQueryDisplayAttributes`, `vaGetDisplayAttributes`,
//! `vaSetDisplayAttributes`: an encoder has no display attributes.

use crate::error::{DriverError, DriverResult};
use vstd::prelude::*;

verus! {

/// The number of display attributes.
pub fn query_display_attributes() -> (r: DriverResult<u32>)
    ensures
        r == Ok::<u32, DriverError>(0),
{
    Ok(0)
}

/// Succeeds without touching the list.
pub fn get_display_attributes(num: i32) -> (r: DriverResult<()>)
    ensures
        r == Ok::<(), DriverError>(()),
{
    Ok(())
}

/// Succeeds without touching the list.
pub fn set_display_attributes(num: i32) -> (r: DriverResult<()>)
    ensures
        r == Ok::<(), DriverError>(()),
{
    Ok(())
}

} // verus!

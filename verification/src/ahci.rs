//! The status logic of the AHCI block driver.
//!
//! The AHCI controller itself is driven through the `simple-ahci` crate by
//! the caller; what the driver decides from the controller's answers stands
//! here.
use vstd::prelude::*;

use crate::dev::{DevError, DevResult};

verus! {

/// Turns the success flag that the AHCI controller reports for a block read
/// or write into the driver's result: `Ok(())` on success, an I/O error
/// otherwise.
pub fn io_status(succeeded: bool) -> (r: DevResult)
    ensures
        succeeded ==> r == Ok::<(), DevError>(()),
        !succeeded ==> r == Err::<(), DevError>(DevError::Io),
{
    if succeeded {
        Ok(())
    } else {
        Err(DevError::Io)
    }
}

} // verus!

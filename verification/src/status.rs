//! How LSA's status codes become errors.

use vstd::prelude::*;
use crate::error::{Error, Result};

verus! {

/// The error for an LSA API that returned `status`, or none for
/// `STATUS_SUCCESS`.
pub open spec fn status_error(status: i32, api: &'static str) -> Option<Error> {
    if status == 0 {
        None
    } else {
        Some(Error::Lsa { api, status: status as u32 })
    }
}

/// Maps the NTSTATUS that the LSA API `api` returned to a result: success
/// for `STATUS_SUCCESS` (LSA returns exactly zero for the transport calls
/// made here), else [`Error::Lsa`] with the status's bits.
pub fn check(status: i32, api: &'static str) -> (r: Result<()>)
    ensures
        status == 0 ==> r is Ok,
        status != 0 ==> r == Err::<(), Error>(Error::Lsa { api, status: status as u32 }),
{
    if status == 0 {
        Ok(())
    } else {
        Err(Error::Lsa { api, status: status as u32 })
    }
}

/// The error of a `LsaCallAuthenticationPackage` call that returned
/// `status` and set `protocol_status`, or none when both are zero.
pub open spec fn call_error(status: i32, protocol_status: i32) -> Option<Error> {
    if status != 0 {
        status_error(status, "LsaCallAuthenticationPackage")
    } else if protocol_status != 0 {
        Some(Error::Protocol(protocol_status as u32))
    } else {
        None
    }
}

/// Maps the outcome of `LsaCallAuthenticationPackage` to a result: the
/// transport status first ([`Error::Lsa`]), then the package's own
/// protocol status ([`Error::Protocol`]).
pub fn check_call(status: i32, protocol_status: i32) -> (r: Result<()>)
    ensures
        match call_error(status, protocol_status) {
            None => r is Ok,
            Some(e) => r == Err::<(), Error>(e),
        },
{
    check(status, "LsaCallAuthenticationPackage")?;
    if protocol_status != 0 {
        return Err(Error::Protocol(protocol_status as u32));
    }
    Ok(())
}

} // verus!

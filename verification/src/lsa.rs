//! The LSA entry points of this build.
//!
//! Only a Windows process can reach LSA, and it does so through system
//! calls this crate does not make: such a process drives a
//! [`crate::session::Session`] and performs its actions itself. What this
//! crate offers directly is the portable back-end, on which every entry
//! point reports [`Error::Unsupported`], so that callers can gate on the
//! platform at their own convenience while sharing the signatures.

use vstd::prelude::*;
use crate::error::{Error, Result};
use crate::types::{AuthPackageId, KrbCred, Luid, TicketCacheInfo};

verus! {

/// Namespace for the LSA constructors.
#[derive(Debug)]
pub struct Lsa;

/// A handle to LSA. None can be obtained on this back-end.
#[derive(Debug)]
pub struct LsaHandle {
    _private: (),
}

/// The result of every entry point on this back-end.
pub open spec fn unsupported<T>(r: Result<T>) -> bool {
    r matches Err(e) && e == Error::Unsupported
}

impl Lsa {
    /// `LsaConnectUntrusted`: not available here.
    pub fn connect_untrusted() -> (r: Result<LsaHandle>)
        ensures
            unsupported(r),
    {
        Err(Error::Unsupported)
    }
}

impl LsaHandle {
    /// Look up the `"Kerberos"` package: not available here.
    pub fn kerberos_package(&self) -> (r: Result<AuthPackageId>)
        ensures
            unsupported(r),
    {
        Err(Error::Unsupported)
    }

    /// `KerbRetrieveTicketMessage`: not available here.
    pub fn retrieve_tgt(&self, pkg: AuthPackageId, luid: Option<Luid>) -> (r: Result<KrbCred>)
        ensures
            unsupported(r),
    {
        Err(Error::Unsupported)
    }

    /// `KerbQueryTicketCacheMessage`: not available here.
    pub fn query_ticket_cache(&self, pkg: AuthPackageId, luid: Option<Luid>) -> (r: Result<
        Vec<TicketCacheInfo>,
    >)
        ensures
            unsupported(r),
    {
        Err(Error::Unsupported)
    }

    /// `KerbSubmitTicketMessage`: not available here.
    pub fn submit_ticket(&self, pkg: AuthPackageId, cred: &KrbCred, luid: Option<Luid>) -> (r:
        Result<()>)
        ensures
            unsupported(r),
    {
        Err(Error::Unsupported)
    }

    /// `KerbPurgeTicketCacheMessage`: not available here.
    pub fn purge_ticket_cache(
        &self,
        pkg: AuthPackageId,
        luid: Option<Luid>,
        target_spn: Option<&str>,
    ) -> (r: Result<()>)
        ensures
            unsupported(r),
    {
        Err(Error::Unsupported)
    }
}

} // verus!

//! Verified core of a client for the Windows Local Security Authority (LSA)
//! Kerberos authentication package: retrieve the current TGT, enumerate the
//! ticket cache, submit a KRB-CRED, purge cache entries.
//!
//! The crate holds everything that can be computed without talking to LSA:
//! the identifier and credential types ([`types`]), the byte layout of the
//! four Kerberos package requests ([`request`], [`layout`]), the validation
//! and decoding of the package replies ([`response`]), the mapping of
//! NTSTATUS codes to errors ([`status`]), and the dialogue that sequences
//! connect, package lookup, package call and reply decoding
//! ([`session`]). A Windows process performs the LSA calls a session asks
//! for; the entry points below are those of the portable back-end
//! ([`lsa`]), which report [`Error::Unsupported`].

use vstd::prelude::*;

pub mod error;
pub mod layout;
pub mod lsa;
pub mod request;
pub mod response;
pub mod session;
pub mod status;
pub mod text;
pub mod types;
pub mod wire;

pub use error::{Error, Result};
pub use lsa::{Lsa, LsaHandle};
pub use types::{AuthPackageId, KrbCred, Luid, TicketCacheInfo};

verus! {

use crate::lsa::unsupported;

/// Connect, look up Kerberos, and retrieve the TGT of the current logon
/// session (or of `luid`, which needs `SeTcbPrivilege`).
pub fn retrieve_tgt(luid: Option<Luid>) -> (r: Result<KrbCred>)
    ensures
        unsupported(r),
{
    let h = match Lsa::connect_untrusted() {
        Ok(h) => h,
        Err(e) => return Err(e),
    };
    let pkg = match h.kerberos_package() {
        Ok(p) => p,
        Err(e) => return Err(e),
    };
    h.retrieve_tgt(pkg, luid)
}

/// Connect, look up Kerberos, and enumerate the ticket cache.
pub fn query_ticket_cache(luid: Option<Luid>) -> (r: Result<Vec<TicketCacheInfo>>)
    ensures
        unsupported(r),
{
    let h = match Lsa::connect_untrusted() {
        Ok(h) => h,
        Err(e) => return Err(e),
    };
    let pkg = match h.kerberos_package() {
        Ok(p) => p,
        Err(e) => return Err(e),
    };
    h.query_ticket_cache(pkg, luid)
}

/// Connect, look up Kerberos, and submit `cred` (passed through verbatim:
/// it must already be an ASN.1-DER KRB-CRED).
pub fn submit_ticket(cred: &KrbCred, luid: Option<Luid>) -> (r: Result<()>)
    ensures
        unsupported(r),
{
    let h = match Lsa::connect_untrusted() {
        Ok(h) => h,
        Err(e) => return Err(e),
    };
    let pkg = match h.kerberos_package() {
        Ok(p) => p,
        Err(e) => return Err(e),
    };
    h.submit_ticket(pkg, cred, luid)
}

/// Connect, look up Kerberos, and purge the tickets of `target_spn`, or
/// every ticket of the cache when `target_spn` is `None`.
pub fn purge_ticket_cache(luid: Option<Luid>, target_spn: Option<&str>) -> (r: Result<()>)
    ensures
        unsupported(r),
{
    let h = match Lsa::connect_untrusted() {
        Ok(h) => h,
        Err(e) => return Err(e),
    };
    let pkg = match h.kerberos_package() {
        Ok(p) => p,
        Err(e) => return Err(e),
    };
    h.purge_ticket_cache(pkg, luid, target_spn)
}

} // verus!

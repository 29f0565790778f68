use windows_lsa::{Error, KrbCred, Luid};

#[test]
fn luid_text_pads_to_sixteen_digits() {
    assert_eq!(Luid::new(0x3e7, 0).to_string(), "0x00000000000003e7");
    assert_eq!(Luid::new(1, -1).to_string(), "0xffffffff00000001");
    assert_eq!(Luid::new(1, -1).as_u64(), 0xffff_ffff_0000_0001);
    assert_eq!(Luid::zero().to_string(), "0x0000000000000000");
}

#[test]
fn krbcred_debug_names_only_the_length() {
    assert_eq!(KrbCred::new(vec![]).to_debug_string(), "KrbCred { len: 0, .. }");
    assert_eq!(KrbCred::new(vec![7u8; 1234]).to_debug_string(), "KrbCred { len: 1234, .. }");
    let a = KrbCred::new(vec![1, 2, 3]);
    let b = KrbCred::new(vec![0xde, 0xad, 0xbe]);
    assert_eq!(a.to_debug_string(), b.to_debug_string());
}

#[test]
fn krbcred_zeroize_empties_the_payload() {
    let mut c = KrbCred::new(vec![0xde, 0xad]);
    c.zeroize();
    assert!(c.is_empty());
    assert_eq!(c.len(), 0);
    assert_eq!(c.as_bytes(), &[] as &[u8]);
}

#[test]
fn error_messages() {
    let e = Error::Lsa { api: "LsaConnectUntrusted", status: 0xC0000022 };
    assert_eq!(e.to_string(), "LSA API LsaConnectUntrusted failed: NTSTATUS 0xc0000022");
    assert_eq!(
        Error::Protocol(0x12).to_string(),
        "Kerberos package returned protocol error: NTSTATUS 0x00000012"
    );
    assert_eq!(
        Error::Malformed("retrieve response short").to_string(),
        "response buffer malformed: retrieve response short"
    );
    assert_eq!(Error::StringTooLong.to_string(), "string too long for UNICODE_STRING");
    assert_eq!(Error::Overflow.to_string(), "buffer arithmetic overflow");
    assert_eq!(Error::Unsupported.to_string(), "windows-lsa is only functional on Windows");
}

#[test]
fn every_entry_point_is_unsupported_here() {
    let cred = KrbCred::new(vec![1]);
    assert!(matches!(windows_lsa::submit_ticket(&cred, None), Err(Error::Unsupported)));
    assert!(matches!(windows_lsa::purge_ticket_cache(None, Some("krbtgt/X")), Err(Error::Unsupported)));
    assert!(matches!(windows_lsa::purge_ticket_cache(None, None), Err(Error::Unsupported)));
}

#[test]
fn luid_default_is_zero() {
    let d = Luid::default();
    assert_eq!((d.low_part, d.high_part), (0, 0));
    assert_eq!(d.as_u64(), Luid::zero().as_u64());
}

use windows_lsa::layout::PointerWidth;
use windows_lsa::session::{Action, Event, Operation, Reply, Session, Utf16Region};
use windows_lsa::{Error, KrbCred, Luid};

fn advance(session: Session, event: Event) -> (Session, Action) {
    assert!(session.expects(&event));
    session.step(event)
}

fn open(op: Operation) -> (Session, u32) {
    let (s, a) = Session::start(op, PointerWidth::Bits64);
    assert!(matches!(a, Action::Connect));
    let (s, a) = advance(s, Event::Connected { status: 0, handle: 0x40 });
    match a {
        Action::LookupPackage { handle, name } => {
            assert_eq!(handle, 0x40);
            assert_eq!(name, b"Kerberos".to_vec());
        }
        _ => panic!("expected a package lookup"),
    }
    (s, 2)
}

fn finished(a: Action) -> Result<Reply, Error> {
    match a {
        Action::Finish(r) => r,
        _ => panic!("expected the session to finish"),
    }
}

#[test]
fn retrieve_tgt_reads_the_encoded_ticket() {
    let (s, pkg) = open(Operation::RetrieveTgt { luid: None });
    let (s, a) = advance(s, Event::PackageFound { status: 0, package: pkg });
    match &a {
        Action::CallPackage { handle, package, request } => {
            assert_eq!(*handle, 0x40);
            assert_eq!(package.0, 2);
            assert_eq!(request.bytes.len(), 64);
            assert_eq!(&request.bytes[..4], &[4, 0, 0, 0]);
        }
        _ => panic!("expected a package call"),
    }
    let mut reply = vec![0u8; 152];
    reply[136..140].copy_from_slice(&3u32.to_le_bytes());
    reply[144..152].copy_from_slice(&0x9000u64.to_le_bytes());
    let (s, a) = advance(s, Event::PackageCalled { status: 0, protocol_status: 0, response: reply });
    match a {
        Action::ReadTicket { address, len } => assert_eq!((address, len), (0x9000, 3)),
        _ => panic!("expected a ticket read"),
    }
    assert!(!s.expects(&Event::TicketRead { bytes: vec![1, 2] }));
    let (s, a) = advance(s, Event::TicketRead { bytes: vec![0x61, 0x82, 0x01] });
    assert!(s.is_finished());
    match finished(a) {
        Ok(Reply::Tgt(cred)) => assert_eq!(cred.as_bytes(), &[0x61, 0x82, 0x01]),
        _ => panic!("expected a TGT"),
    }
}

#[test]
fn failed_connect_names_the_api() {
    let (s, _) = Session::start(Operation::QueryTicketCache { luid: None }, PointerWidth::Bits64);
    assert!(!s.expects(&Event::PackageFound { status: 0, package: 2 }));
    let (s, a) = advance(s, Event::Connected { status: -1073741790, handle: 0 });
    assert!(s.is_finished());
    assert!(matches!(
        finished(a),
        Err(Error::Lsa { api: "LsaConnectUntrusted", status: 0xC0000022 })
    ));
}

#[test]
fn failed_lookup_names_the_api() {
    let (s, _) = open(Operation::RetrieveTgt { luid: None });
    let (_, a) = advance(s, Event::PackageFound { status: -1073741275, package: 0 });
    assert!(matches!(
        finished(a),
        Err(Error::Lsa { api: "LsaLookupAuthenticationPackage", status: 0xC0000225 })
    ));
}

#[test]
fn failed_call_and_protocol_errors() {
    let (s, pkg) = open(Operation::QueryTicketCache { luid: None });
    let (s, _) = advance(s, Event::PackageFound { status: 0, package: pkg });
    let (_, a) = advance(s, Event::PackageCalled { status: 5, protocol_status: 0, response: vec![] });
    assert!(matches!(
        finished(a),
        Err(Error::Lsa { api: "LsaCallAuthenticationPackage", status: 5 })
    ));

    let (s, pkg) = open(Operation::QueryTicketCache { luid: None });
    let (s, _) = advance(s, Event::PackageFound { status: 0, package: pkg });
    let (_, a) = advance(
        s,
        Event::PackageCalled { status: 0, protocol_status: -1073741275, response: vec![] },
    );
    assert!(matches!(finished(a), Err(Error::Protocol(0xC0000225))));
}

#[test]
fn malformed_reply_ends_the_session() {
    let (s, pkg) = open(Operation::RetrieveTgt { luid: None });
    let (s, _) = advance(s, Event::PackageFound { status: 0, package: pkg });
    let (s, a) = advance(s, Event::PackageCalled { status: 0, protocol_status: 0, response: vec![0; 10] });
    assert!(s.is_finished());
    assert!(matches!(finished(a), Err(Error::Malformed("retrieve response short"))));
}

#[test]
fn query_reads_both_names_of_every_entry() {
    let (s, pkg) = open(Operation::QueryTicketCache { luid: Some(Luid::new(0x3e7, 0)) });
    let (s, a) = advance(s, Event::PackageFound { status: 0, package: pkg });
    match &a {
        Action::CallPackage { request, .. } => {
            assert_eq!(request.bytes, vec![1u8, 0, 0, 0, 0xe7, 3, 0, 0, 0, 0, 0, 0]);
        }
        _ => panic!("expected a package call"),
    }
    let mut reply = vec![0u8; 8 + 64];
    reply[4..8].copy_from_slice(&1u32.to_le_bytes());
    reply[8..10].copy_from_slice(&6u16.to_le_bytes());
    reply[16..24].copy_from_slice(&0x5000u64.to_le_bytes());
    reply[24..26].copy_from_slice(&4u16.to_le_bytes());
    reply[32..40].copy_from_slice(&0x6000u64.to_le_bytes());
    reply[64..68].copy_from_slice(&18i32.to_le_bytes());
    let (s, a) = advance(s, Event::PackageCalled { status: 0, protocol_status: 0, response: reply });
    match &a {
        Action::ReadNames { regions } => assert_eq!(
            regions,
            &vec![
                Utf16Region { address: 0x5000, units: 3 },
                Utf16Region { address: 0x6000, units: 2 },
            ]
        ),
        _ => panic!("expected the names to be read"),
    }
    assert!(!s.expects(&Event::NamesRead { names: vec![vec![1, 2, 3]] }));
    let names = vec![vec![0x6b, 0x64, 0x63], vec![0x4f, 0x4b]];
    let (_, a) = advance(s, Event::NamesRead { names });
    match finished(a) {
        Ok(Reply::TicketCache(entries)) => {
            assert_eq!(entries.len(), 1);
            assert_eq!(entries[0].server_name, "kdc");
            assert_eq!(entries[0].realm_name, "OK");
            assert_eq!(entries[0].encryption_type, 18);
        }
        _ => panic!("expected a ticket cache"),
    }
}

#[test]
fn submit_sends_the_cred_and_ignores_the_reply() {
    let cred = KrbCred::new(vec![0x76, 0x01]);
    let (s, pkg) = open(Operation::SubmitTicket { cred, luid: None });
    let (s, a) = advance(s, Event::PackageFound { status: 0, package: pkg });
    match &a {
        Action::CallPackage { request, .. } => {
            assert_eq!(request.bytes.len(), 38);
            assert_eq!(&request.bytes[36..], &[0x76, 0x01]);
        }
        _ => panic!("expected a package call"),
    }
    let (_, a) = advance(s, Event::PackageCalled { status: 0, protocol_status: 0, response: vec![] });
    assert!(matches!(finished(a), Ok(Reply::Submitted)));
}

#[test]
fn purge_with_a_too_long_spn_never_calls_the_package() {
    let spn = "x".repeat(40000);
    let (s, pkg) = open(Operation::PurgeTicketCache { luid: None, target_spn: Some(spn) });
    let (s, a) = advance(s, Event::PackageFound { status: 0, package: pkg });
    assert!(s.is_finished());
    assert!(matches!(finished(a), Err(Error::StringTooLong)));
}

#[test]
fn purge_binds_the_server_name_to_the_request() {
    let spn = "krbtgt/EXAMPLE".to_string();
    let (s, pkg) = open(Operation::PurgeTicketCache { luid: None, target_spn: Some(spn) });
    let (s, a) = advance(s, Event::PackageFound { status: 0, package: pkg });
    match a {
        Action::CallPackage { mut request, .. } => {
            request.bind(0x10_0000);
            assert_eq!(&request.bytes[16..20], &[28, 0, 28, 0]);
            assert_eq!(&request.bytes[24..32], &(0x10_0000u64 + 48).to_le_bytes());
            assert_eq!(&request.bytes[48..50], &[0x6b, 0]);
        }
        _ => panic!("expected a package call"),
    }
    let (_, a) = advance(s, Event::PackageCalled { status: 0, protocol_status: 0, response: vec![] });
    assert!(matches!(finished(a), Ok(Reply::Purged)));
}

#[test]
fn start_on_an_existing_handle_begins_at_the_package_call() {
    let (s, a) = Session::start_on(
        Operation::QueryTicketCache { luid: None },
        0x77,
        windows_lsa::AuthPackageId(5),
        PointerWidth::Bits64,
    );
    match &a {
        Action::CallPackage { handle, package, request } => {
            assert_eq!((*handle, package.0), (0x77, 5));
            assert_eq!(request.bytes, vec![1u8, 0, 0, 0, 0, 0, 0, 0, 0, 0, 0, 0]);
        }
        _ => panic!("expected a package call"),
    }
    let (s, a) = advance(
        s,
        Event::PackageCalled { status: 0, protocol_status: 0, response: vec![1, 0, 0, 0, 0, 0, 0, 0] },
    );
    match a {
        Action::ReadNames { regions } => assert!(regions.is_empty()),
        _ => panic!("expected the names to be read"),
    }
    let (_, a) = advance(s, Event::NamesRead { names: vec![] });
    assert!(matches!(finished(a), Ok(Reply::TicketCache(entries)) if entries.is_empty()));
}

#[test]
fn start_on_with_a_too_long_spn_finishes_at_once() {
    let spn = "x".repeat(32768);
    let (s, a) = Session::start_on(
        Operation::PurgeTicketCache { luid: None, target_spn: Some(spn) },
        0x77,
        windows_lsa::AuthPackageId(5),
        PointerWidth::Bits64,
    );
    assert!(s.is_finished());
    assert!(matches!(finished(a), Err(Error::StringTooLong)));
}

#[test]
fn kerberos_package_name_is_ansi() {
    assert_eq!(windows_lsa::session::kerberos_name(), b"Kerberos".to_vec());
}

use windows_lsa::layout::PointerWidth;
use windows_lsa::response::{
    parse_query_response, parse_retrieve_response, unicode_string_to_string, EncodedTicketRef,
    RawTicketCacheEntry, UnicodeStringRef,
};
use windows_lsa::status::{check, check_call};
use windows_lsa::{Error, TicketCacheInfo};

fn put(buf: &mut [u8], off: usize, bytes: &[u8]) {
    buf[off..off + bytes.len()].copy_from_slice(bytes);
}

#[test]
fn retrieve_response_locates_the_ticket() {
    let mut resp = vec![0u8; 152];
    put(&mut resp, 136, &5u32.to_le_bytes());
    put(&mut resp, 144, &0x7000u64.to_le_bytes());
    let t = parse_retrieve_response(&resp, PointerWidth::Bits64).unwrap();
    assert_eq!(t, EncodedTicketRef { address: 0x7000, size: 5 });

    let mut resp32 = vec![0u8; 104];
    put(&mut resp32, 96, &9u32.to_le_bytes());
    put(&mut resp32, 100, &0x1234u32.to_le_bytes());
    let t = parse_retrieve_response(&resp32, PointerWidth::Bits32).unwrap();
    assert_eq!(t, EncodedTicketRef { address: 0x1234, size: 9 });
}

#[test]
fn retrieve_response_short() {
    let resp = vec![0u8; 151];
    assert!(matches!(
        parse_retrieve_response(&resp, PointerWidth::Bits64),
        Err(Error::Malformed("retrieve response short"))
    ));
}

#[test]
fn retrieve_response_without_ticket() {
    let mut resp = vec![0u8; 152];
    put(&mut resp, 144, &0x7000u64.to_le_bytes());
    assert!(matches!(
        parse_retrieve_response(&resp, PointerWidth::Bits64),
        Err(Error::Malformed("retrieve response has no ticket"))
    ));
    let mut resp = vec![0u8; 152];
    put(&mut resp, 136, &5u32.to_le_bytes());
    assert!(matches!(
        parse_retrieve_response(&resp, PointerWidth::Bits64),
        Err(Error::Malformed("retrieve response has no ticket"))
    ));
}

fn query_reply_with_one_entry() -> Vec<u8> {
    let mut resp = vec![0u8; 8 + 64];
    put(&mut resp, 0, &1u32.to_le_bytes());
    put(&mut resp, 4, &1u32.to_le_bytes());
    let e = 8;
    put(&mut resp, e, &6u16.to_le_bytes());
    put(&mut resp, e + 2, &8u16.to_le_bytes());
    put(&mut resp, e + 8, &0x5000u64.to_le_bytes());
    put(&mut resp, e + 16, &4u16.to_le_bytes());
    put(&mut resp, e + 18, &4u16.to_le_bytes());
    put(&mut resp, e + 24, &0x6000u64.to_le_bytes());
    put(&mut resp, e + 32, &(-5i64).to_le_bytes());
    put(&mut resp, e + 40, &1000i64.to_le_bytes());
    put(&mut resp, e + 48, &2000i64.to_le_bytes());
    put(&mut resp, e + 56, &18i32.to_le_bytes());
    put(&mut resp, e + 60, &0x40e10000u32.to_le_bytes());
    resp
}

#[test]
fn query_response_decodes_entries() {
    let entries = parse_query_response(&query_reply_with_one_entry(), PointerWidth::Bits64).unwrap();
    assert_eq!(
        entries,
        vec![RawTicketCacheEntry {
            server_name: UnicodeStringRef { length: 6, maximum_length: 8, buffer: 0x5000 },
            realm_name: UnicodeStringRef { length: 4, maximum_length: 4, buffer: 0x6000 },
            start_time: -5,
            end_time: 1000,
            renew_time: 2000,
            encryption_type: 18,
            ticket_flags: 0x40e10000,
        }]
    );
    assert_eq!(entries[0].server_name.unit_count(), 3);
    assert_eq!(entries[0].realm_name.unit_count(), 2);
}

#[test]
fn query_response_empty_cache() {
    let resp = vec![1u8, 0, 0, 0, 0, 0, 0, 0];
    assert_eq!(parse_query_response(&resp, PointerWidth::Bits64).unwrap(), vec![]);
}

#[test]
fn query_response_header_short() {
    assert!(matches!(
        parse_query_response(&[1, 0, 0, 0, 0, 0, 0], PointerWidth::Bits64),
        Err(Error::Malformed("query response header short"))
    ));
}

#[test]
fn query_response_trailing_entries_short() {
    let mut resp = query_reply_with_one_entry();
    resp.pop();
    assert!(matches!(
        parse_query_response(&resp, PointerWidth::Bits64),
        Err(Error::Malformed("query response trailing entries short"))
    ));
    let huge_count = vec![1u8, 0, 0, 0, 0xff, 0xff, 0xff, 0xff];
    assert!(matches!(
        parse_query_response(&huge_count, PointerWidth::Bits64),
        Err(Error::Malformed("query response trailing entries short"))
    ));
}

#[test]
fn unicode_strings_decode_lossily() {
    let null = UnicodeStringRef { length: 4, maximum_length: 4, buffer: 0 };
    assert_eq!(null.unit_count(), 0);
    assert_eq!(unicode_string_to_string(&null, &[]), "");
    let empty = UnicodeStringRef { length: 0, maximum_length: 4, buffer: 0x10 };
    assert_eq!(unicode_string_to_string(&empty, &[]), "");
    let s = UnicodeStringRef { length: 4, maximum_length: 4, buffer: 0x10 };
    assert_eq!(unicode_string_to_string(&s, &[0x68, 0x69]), "hi");
    assert_eq!(unicode_string_to_string(&s, &[0xd83d, 0xde00]), "\u{1F600}");
    assert_eq!(unicode_string_to_string(&s, &[0xd800, 0x41]), "\u{FFFD}A");
    assert_eq!(unicode_string_to_string(&s, &[0xdc00, 0xd800]), "\u{FFFD}\u{FFFD}");
    let odd = UnicodeStringRef { length: 5, maximum_length: 6, buffer: 0x10 };
    assert_eq!(odd.unit_count(), 2);
}

#[test]
fn ticket_cache_info_from_raw_entry() {
    let raw = RawTicketCacheEntry {
        server_name: UnicodeStringRef { length: 6, maximum_length: 8, buffer: 0x5000 },
        realm_name: UnicodeStringRef { length: 0, maximum_length: 0, buffer: 0 },
        start_time: 1,
        end_time: 2,
        renew_time: 3,
        encryption_type: 23,
        ticket_flags: 7,
    };
    let info = TicketCacheInfo::from_raw(&raw, &[0x6b, 0x64, 0x63], &[]);
    assert_eq!(info.server_name, "kdc");
    assert_eq!(info.realm_name, "");
    assert_eq!(
        (info.start_time_ft, info.end_time_ft, info.renew_time_ft, info.encryption_type, info.ticket_flags),
        (1, 2, 3, 23, 7)
    );
}

#[test]
fn status_checks() {
    assert!(check(0, "LsaConnectUntrusted").is_ok());
    assert!(matches!(
        check(-1073741790, "LsaConnectUntrusted"),
        Err(Error::Lsa { api: "LsaConnectUntrusted", status: 0xC0000022 })
    ));
    assert!(check_call(0, 0).is_ok());
    assert!(matches!(check_call(0, 7), Err(Error::Protocol(7))));
    assert!(matches!(
        check_call(3, 7),
        Err(Error::Lsa { api: "LsaCallAuthenticationPackage", status: 3 })
    ));
    assert!(matches!(check_call(0, -1073741275), Err(Error::Protocol(0xC0000225))));
}

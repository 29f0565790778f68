use windows_lsa::layout::PointerWidth;
use windows_lsa::request::{
    purge_ticket_cache_request, query_ticket_cache_request, retrieve_ticket_request,
    submit_ticket_request, to_win_luid, Relocation,
};
use windows_lsa::{Error, KrbCred, Luid};

fn luid() -> Option<Luid> {
    Some(Luid::new(0xdead_beef, 0x1234_5678))
}

#[test]
fn native_pointer_width_matches_the_target() {
    let w = PointerWidth::native();
    assert_eq!(w.pointer_size(), std::mem::size_of::<usize>());
}

#[test]
fn layout_sizes_match_the_sdk_structures() {
    let w = PointerWidth::Bits64;
    assert_eq!(w.retrieve_request_size(), 64);
    assert_eq!(w.retrieve_response_size(), 152);
    assert_eq!(w.encoded_ticket_size_offset(), 136);
    assert_eq!(w.encoded_ticket_offset(), 144);
    assert_eq!(w.cache_entry_size(), 64);
    assert_eq!(w.purge_request_header_size(), 48);
    assert_eq!(w.unicode_string_size(), 16);
    let w = PointerWidth::Bits32;
    assert_eq!(w.retrieve_request_size(), 40);
    assert_eq!(w.retrieve_response_size(), 104);
    assert_eq!(w.encoded_ticket_size_offset(), 96);
    assert_eq!(w.encoded_ticket_offset(), 100);
    assert_eq!(w.cache_entry_size(), 48);
    assert_eq!(w.purge_request_header_size(), 28);
    assert_eq!(w.unicode_string_size(), 8);
}

#[test]
fn win_luid_defaults_to_the_callers_session() {
    let z = to_win_luid(None);
    assert_eq!((z.low_part, z.high_part), (0, 0));
    let l = to_win_luid(luid());
    assert_eq!((l.low_part, l.high_part), (0xdead_beef, 0x1234_5678));
}

#[test]
fn retrieve_request_bytes_64() {
    let req = retrieve_ticket_request(luid(), PointerWidth::Bits64);
    let mut expected = vec![4u8, 0, 0, 0, 0xef, 0xbe, 0xad, 0xde, 0x78, 0x56, 0x34, 0x12];
    expected.extend_from_slice(&[0; 4]); // alignment of TargetName
    expected.extend_from_slice(&[0; 16]); // empty TargetName
    expected.extend_from_slice(&[0, 0, 0, 0]); // TicketFlags
    expected.extend_from_slice(&[8, 0, 0, 0]); // CacheOptions
    expected.extend_from_slice(&[0, 0, 0, 0]); // EncryptionType
    expected.extend_from_slice(&[0; 4]); // alignment of CredentialsHandle
    expected.extend_from_slice(&[0; 16]); // CredentialsHandle
    assert_eq!(req.bytes, expected);
    assert!(req.relocation.is_none());
}

#[test]
fn retrieve_request_bytes_32() {
    let req = retrieve_ticket_request(None, PointerWidth::Bits32);
    let mut expected = vec![4u8, 0, 0, 0, 0, 0, 0, 0, 0, 0, 0, 0];
    expected.extend_from_slice(&[0; 8]);
    expected.extend_from_slice(&[0, 0, 0, 0, 8, 0, 0, 0, 0, 0, 0, 0]);
    expected.extend_from_slice(&[0; 8]);
    assert_eq!(req.bytes, expected);
}

#[test]
fn query_request_bytes() {
    let req = query_ticket_cache_request(Some(Luid::new(1, -1)), PointerWidth::Bits64);
    assert_eq!(req.bytes, vec![1u8, 0, 0, 0, 1, 0, 0, 0, 0xff, 0xff, 0xff, 0xff]);
    assert!(req.relocation.is_none());
}

#[test]
fn submit_request_places_the_cred_after_the_header() {
    let cred = KrbCred::new(vec![0xaa, 0xbb, 0xcc]);
    let req = submit_ticket_request(&cred, None, PointerWidth::Bits64).unwrap();
    let mut expected = vec![19u8, 0, 0, 0, 0, 0, 0, 0, 0, 0, 0, 0];
    expected.extend_from_slice(&[0; 16]); // Flags and the empty Key
    expected.extend_from_slice(&[3, 0, 0, 0]); // KerbCredSize
    expected.extend_from_slice(&[36, 0, 0, 0]); // KerbCredOffset
    expected.extend_from_slice(&[0xaa, 0xbb, 0xcc]);
    assert_eq!(req.bytes, expected);
    assert!(req.relocation.is_none());
}

#[test]
fn submit_request_of_an_empty_cred_is_the_header() {
    let cred = KrbCred::new(vec![]);
    let req = submit_ticket_request(&cred, luid(), PointerWidth::Bits32).unwrap();
    assert_eq!(req.bytes.len(), 36);
    assert_eq!(&req.bytes[28..36], &[0, 0, 0, 0, 36, 0, 0, 0]);
}

#[test]
fn purge_request_with_spn_points_at_its_trailer() {
    let mut req = purge_ticket_cache_request(None, Some("ab"), PointerWidth::Bits64).unwrap();
    let mut expected = vec![6u8, 0, 0, 0, 0, 0, 0, 0, 0, 0, 0, 0];
    expected.extend_from_slice(&[0; 4]);
    expected.extend_from_slice(&[4, 0, 4, 0, 0, 0, 0, 0]); // ServerName counts
    expected.extend_from_slice(&[0; 8]); // ServerName.Buffer, not yet bound
    expected.extend_from_slice(&[0; 16]); // empty RealmName
    expected.extend_from_slice(&[0x61, 0, 0x62, 0]);
    assert_eq!(req.bytes, expected);
    assert_eq!(req.relocation, Some(Relocation { field: 24, target: 48 }));
    req.bind(0x1000);
    assert_eq!(&req.bytes[24..32], &[0x30, 0x10, 0, 0, 0, 0, 0, 0]);
    assert_eq!(req.bytes.len(), 52);
    assert_eq!(&req.bytes[..24], &expected[..24]);
    assert_eq!(&req.bytes[32..], &expected[32..]);
}

#[test]
fn purge_request_32_bit_layout() {
    let mut req = purge_ticket_cache_request(None, Some("a"), PointerWidth::Bits32).unwrap();
    assert_eq!(req.bytes.len(), 30);
    assert_eq!(&req.bytes[12..20], &[2, 0, 2, 0, 0, 0, 0, 0]);
    assert_eq!(req.relocation, Some(Relocation { field: 16, target: 28 }));
    req.bind(0x2000);
    assert_eq!(&req.bytes[16..20], &[0x1c, 0x20, 0, 0]);
    assert_eq!(&req.bytes[28..], &[0x61, 0]);
}

#[test]
fn purge_request_without_spn_purges_everything() {
    let mut req = purge_ticket_cache_request(luid(), None, PointerWidth::Bits64).unwrap();
    let mut expected = vec![6u8, 0, 0, 0, 0xef, 0xbe, 0xad, 0xde, 0x78, 0x56, 0x34, 0x12];
    expected.extend_from_slice(&[0; 36]);
    assert_eq!(req.bytes, expected);
    assert!(req.relocation.is_none());
    req.bind(0x1000);
    assert_eq!(req.bytes, expected);
    let empty = purge_ticket_cache_request(luid(), Some(""), PointerWidth::Bits64).unwrap();
    assert_eq!(empty.bytes, expected);
    assert!(empty.relocation.is_none());
}

#[test]
fn purge_request_encodes_supplementary_characters_as_pairs() {
    let req = purge_ticket_cache_request(None, Some("\u{1F600}"), PointerWidth::Bits64).unwrap();
    assert_eq!(&req.bytes[16..20], &[4, 0, 4, 0]);
    assert_eq!(&req.bytes[48..], &[0x3d, 0xd8, 0x00, 0xde]);
}

#[test]
fn purge_request_rejects_spns_too_long_for_a_unicode_string() {
    let longest = "x".repeat(32767);
    let req = purge_ticket_cache_request(None, Some(&longest), PointerWidth::Bits64).unwrap();
    assert_eq!(req.bytes.len(), 48 + 65534);
    assert_eq!(&req.bytes[16..20], &[0xfe, 0xff, 0xfe, 0xff]);
    let too_long = "x".repeat(32768);
    assert!(matches!(
        purge_ticket_cache_request(None, Some(&too_long), PointerWidth::Bits64),
        Err(Error::StringTooLong)
    ));
}

use windows_lsa::layout::PointerWidth;
use windows_lsa::request::{purge_ticket_cache_request, submit_ticket_request};
use windows_lsa::response::{unicode_string_to_string, UnicodeStringRef};
use windows_lsa::{KrbCred, Luid};

fn le32(b: &[u8], off: usize) -> usize {
    u32::from_le_bytes([b[off], b[off + 1], b[off + 2], b[off + 3]]) as usize
}

#[test]
fn luid_value_keeps_both_halves_apart() {
    let l = Luid::new(0x0000_0001, -2);
    let v = l.as_u64();
    assert_eq!(v & 0xffff_ffff, 1);
    assert_eq!((v >> 32) as u32, (-2i32) as u32);
    assert_ne!(Luid::new(1, 0).as_u64(), Luid::new(0, 1).as_u64());
    assert_ne!(Luid::new(0, -1).as_u64(), Luid::new(0xffff_ffff, 0).as_u64());
}

#[test]
fn submit_header_fields_delimit_the_cred() {
    let payload = vec![0x76, 0x82, 0x01, 0x02, 0x30];
    let req = submit_ticket_request(&KrbCred::new(payload.clone()), Some(Luid::new(9, 0)), PointerWidth::Bits64)
        .unwrap();
    let b = &req.bytes;
    assert_eq!(le32(b, 0), 19);
    assert_eq!(le32(b, 4), 9);
    let size = le32(b, 28);
    let offset = le32(b, 32);
    assert_eq!(b.len(), offset + size);
    assert_eq!(&b[offset..offset + size], &payload[..]);
}

#[test]
fn purge_spn_reads_back_as_sent() {
    let spn = "krbtgt/EXAMPLE.COM \u{1F600} \u{e9}";
    let mut req = purge_ticket_cache_request(None, Some(spn), PointerWidth::Bits64).unwrap();
    req.bind(0x4000);
    let b = &req.bytes;
    let length = u16::from_le_bytes([b[16], b[17]]);
    let buffer = u64::from_le_bytes(b[24..32].try_into().unwrap()) as usize;
    assert_eq!(buffer, 0x4000 + 48);
    let units: Vec<u16> = b[48..]
        .chunks(2)
        .map(|c| u16::from_le_bytes([c[0], c[1]]))
        .collect();
    assert_eq!(units.len() * 2, length as usize);
    let s = UnicodeStringRef { length, maximum_length: length, buffer };
    assert_eq!(unicode_string_to_string(&s, &units), spn);
}

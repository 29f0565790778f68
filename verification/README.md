# windows-lsa (verified core)

A client for the Kerberos authentication package of the Windows Local
Security Authority: retrieve the current TGT, enumerate the ticket cache,
submit a KRB-CRED, purge cache entries. Everything that can be computed
without LSA is written in Verus and proved against its contracts.

## Layout

- `src/` — the verified library (crate `windows_lsa`):
  - `types.rs` — `Luid`, `AuthPackageId`, `KrbCred`, `TicketCacheInfo`;
  - `layout.rs` — sizes and offsets of the `ntsecapi.h` structures for
    4- and 8-byte pointers;
  - `request.rs` — the retrieve, query, submit and purge requests, byte for
    byte, and the laws that locate their fields;
  - `response.rs` — validation and decoding of the retrieve and query
    replies;
  - `status.rs` — NTSTATUS to error;
  - `session.rs` — the connect / lookup / call / read dialogue as a state
    machine whose actions the caller performs;
  - `lsa.rs` and `lib.rs` — the portable entry points, which report
    `Unsupported`;
  - `wire.rs`, `text.rs` — little-endian fields, hexadecimal and decimal
    text, UTF-16.
- `app/` — the Windows shell: `Lsa` and `LsaHandle` perform a session's
  LSA calls through `win32-min` (from a fresh connection, or from an
  existing handle and package id via `Session::start_on`) and release what
  LSA hands out; also the `thiserror` error and the `zeroize` credential.
- `tests/` — tests of the library.

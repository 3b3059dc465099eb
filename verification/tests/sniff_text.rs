use leaf::sniff::{extract_sni, ReplayBuffer};
use leaf::text::{ascii_to_string, u64_to_dec, u64_to_hex};

/// A minimal TLS ClientHello record whose only extension is the given
/// server-name entry.
fn client_hello_with_sni(name: &[u8]) -> Vec<u8> {
    // server_name extension data: list length, entry type 0, name length, name
    let mut sn = Vec::new();
    sn.extend_from_slice(&((name.len() + 3) as u16).to_be_bytes());
    sn.push(0);
    sn.extend_from_slice(&(name.len() as u16).to_be_bytes());
    sn.extend_from_slice(name);

    // one extension: type 0 (server_name)
    let mut exts = Vec::new();
    exts.extend_from_slice(&[0, 0]);
    exts.extend_from_slice(&(sn.len() as u16).to_be_bytes());
    exts.extend_from_slice(&sn);

    // ClientHello body
    let mut body = Vec::new();
    body.extend_from_slice(&[3, 3]); // client version
    body.extend_from_slice(&[0u8; 32]); // random
    body.push(0); // session id length
    body.extend_from_slice(&[0, 2, 0x13, 0x01]); // cipher suites
    body.extend_from_slice(&[1, 0]); // compression methods
    body.extend_from_slice(&(exts.len() as u16).to_be_bytes());
    body.extend_from_slice(&exts);

    // handshake message: type 1, 24-bit length
    let mut hs = Vec::new();
    hs.push(1);
    let bl = body.len() as u32;
    hs.extend_from_slice(&[(bl >> 16) as u8, (bl >> 8) as u8, bl as u8]);
    hs.extend_from_slice(&body);

    // record: type 22 (handshake), version, 16-bit length
    let mut rec = Vec::new();
    rec.extend_from_slice(&[22, 3, 1]);
    rec.extend_from_slice(&(hs.len() as u16).to_be_bytes());
    rec.extend_from_slice(&hs);
    rec
}

#[test]
fn sni_extracted_from_client_hello() {
    let rec = client_hello_with_sni(b"example.com");
    let r = extract_sni(&rec);
    assert_eq!(r, Ok(Some("example.com".to_string())));
}

#[test]
fn non_tls_traffic_yields_none() {
    let r = extract_sni(b"GET / HTTP/1.1\r\n\r\n");
    assert_eq!(r, Ok(None));
}

#[test]
fn truncated_record_is_malformed() {
    let mut rec = client_hello_with_sni(b"example.com");
    rec.truncate(20);
    assert!(extract_sni(&rec).is_err());
}

#[test]
fn short_prefix_is_malformed() {
    assert!(extract_sni(&[22, 3]).is_err());
}

#[test]
fn hello_without_extensions_yields_none() {
    // A ClientHello whose extension block is empty.
    let mut body = Vec::new();
    body.extend_from_slice(&[3, 3]);
    body.extend_from_slice(&[0u8; 32]);
    body.push(0);
    body.extend_from_slice(&[0, 2, 0x13, 0x01]);
    body.extend_from_slice(&[1, 0]);
    body.extend_from_slice(&[0, 0]);
    let mut hs = vec![1, 0, 0, body.len() as u8];
    hs.extend_from_slice(&body);
    let mut rec = vec![22, 3, 1, 0, hs.len() as u8];
    rec.extend_from_slice(&hs);
    assert_eq!(extract_sni(&rec), Ok(None));
}

#[test]
fn non_client_hello_handshake_yields_none() {
    // A handshake record whose message type is not ClientHello.
    let rec = vec![22, 3, 1, 0, 4, 2, 0, 0, 0];
    assert_eq!(extract_sni(&rec), Ok(None));
}

#[test]
fn other_extensions_are_skipped() {
    // A supported-groups extension sits before the server-name one; the
    // walk must step over it.
    let name = b"host.test";
    let mut sn = Vec::new();
    sn.extend_from_slice(&((name.len() + 3) as u16).to_be_bytes());
    sn.push(0);
    sn.extend_from_slice(&(name.len() as u16).to_be_bytes());
    sn.extend_from_slice(name);

    let mut exts = Vec::new();
    exts.extend_from_slice(&[0, 0x0a, 0, 4, 0, 2, 0, 0x17]); // supported groups
    exts.extend_from_slice(&[0, 0]);
    exts.extend_from_slice(&(sn.len() as u16).to_be_bytes());
    exts.extend_from_slice(&sn);

    let mut body = Vec::new();
    body.extend_from_slice(&[3, 3]);
    body.extend_from_slice(&[0u8; 32]);
    body.push(0);
    body.extend_from_slice(&[0, 2, 0x13, 0x01]);
    body.extend_from_slice(&[1, 0]);
    body.extend_from_slice(&(exts.len() as u16).to_be_bytes());
    body.extend_from_slice(&exts);

    let mut hs = vec![1, 0, 0, body.len() as u8];
    hs.extend_from_slice(&body);
    let mut rec = vec![22, 3, 1, 0, hs.len() as u8];
    rec.extend_from_slice(&hs);

    assert_eq!(extract_sni(&rec), Ok(Some("host.test".to_string())));
}

#[test]
fn replay_buffer_redelivers_in_order() {
    let mut rb = ReplayBuffer::new(b"peeked".to_vec());
    assert!(!rb.exhausted());
    assert_eq!(rb.read(3), b"pee".to_vec());
    assert_eq!(rb.read(2), b"ke".to_vec());
    assert_eq!(rb.read(10), b"d".to_vec());
    assert!(rb.exhausted());
    assert_eq!(rb.read(4), Vec::<u8>::new());
}

#[test]
fn ascii_to_string_rejects_non_ascii() {
    assert_eq!(ascii_to_string(b"plain"), Some("plain".to_string()));
    assert_eq!(ascii_to_string(&[0x80]), None);
    assert_eq!(ascii_to_string(b""), Some(String::new()));
}

#[test]
fn decimal_and_hex_rendering() {
    assert_eq!(u64_to_dec(0), "0");
    assert_eq!(u64_to_dec(5), "5");
    assert_eq!(u64_to_dec(1234567890), "1234567890");
    assert_eq!(u64_to_dec(u64::MAX), "18446744073709551615");
    assert_eq!(u64_to_hex(0), "0");
    assert_eq!(u64_to_hex(0x2001), "2001");
    assert_eq!(u64_to_hex(0xdead), "dead");
}

#[test]
fn replay_buffer_empty_and_zero_reads() {
    let mut rb = ReplayBuffer::new(Vec::new());
    assert!(rb.exhausted());
    assert_eq!(rb.read(5), Vec::<u8>::new());
    let mut rb2 = ReplayBuffer::new(b"xy".to_vec());
    assert_eq!(rb2.read(0), Vec::<u8>::new());
    assert!(!rb2.exhausted());
    assert_eq!(rb2.read(2), b"xy".to_vec());
}

#[test]
fn hex_rendering_boundaries() {
    assert_eq!(u64_to_hex(0xffff), "ffff");
    assert_eq!(u64_to_hex(0x10), "10");
    assert_eq!(u64_to_hex(15), "f");
}

use whereyoufrom::addr::{address_text, Address};
use whereyoufrom::server::{tcp_response, udp_response, TCP_RESPONSE_SIZE};

fn v4(o0: u8, o1: u8, o2: u8, o3: u8, port: u16) -> Address {
    Address::V4 { o0, o1, o2, o3, port }
}

fn v6(segs: [u16; 8], port: u16, scope_id: u32) -> Address {
    Address::V6 {
        s0: segs[0],
        s1: segs[1],
        s2: segs[2],
        s3: segs[3],
        s4: segs[4],
        s5: segs[5],
        s6: segs[6],
        s7: segs[7],
        port,
        flowinfo: 0,
        scope_id,
    }
}

#[test]
fn ipv4_address_text() {
    assert_eq!(address_text(&v4(0, 0, 0, 0, 6969)), b"0.0.0.0:6969".to_vec());
    assert_eq!(address_text(&v4(203, 0, 113, 5, 40000)), b"203.0.113.5:40000".to_vec());
    assert_eq!(address_text(&v4(255, 255, 255, 255, 65535)), b"255.255.255.255:65535".to_vec());
}

#[test]
fn ipv6_unspecified_and_loopback() {
    assert_eq!(address_text(&v6([0; 8], 6969, 0)), b"[::]:6969".to_vec());
    assert_eq!(address_text(&v6([0, 0, 0, 0, 0, 0, 0, 1], 6969, 0)), b"[::1]:6969".to_vec());
}

#[test]
fn ipv6_zero_run_compression() {
    assert_eq!(
        address_text(&v6([0x2001, 0xdb8, 0, 0, 0, 0, 0, 1], 443, 0)),
        b"[2001:db8::1]:443".to_vec()
    );
    // The first longest run wins a tie; a later, longer run wins outright.
    assert_eq!(address_text(&v6([1, 0, 0, 1, 0, 0, 0, 1], 1, 0)), b"[1:0:0:1::1]:1".to_vec());
    // A single zero segment is not compressed.
    assert_eq!(
        address_text(&v6([1, 0, 1, 1, 1, 1, 1, 1], 2, 0)),
        b"[1:0:1:1:1:1:1:1]:2".to_vec()
    );
}

#[test]
fn ipv6_hex_is_lowercase() {
    assert_eq!(
        address_text(&v6([0xabcd, 0xef01, 0x23, 0, 0, 0, 0, 0x9], 80, 0)),
        b"[abcd:ef01:23::9]:80".to_vec()
    );
}

#[test]
fn ipv6_v4_mapped() {
    assert_eq!(
        address_text(&v6([0, 0, 0, 0, 0, 0xffff, 0xc000, 0x0205], 80, 0)),
        b"[::ffff:192.0.2.5]:80".to_vec()
    );
}

#[test]
fn ipv6_scope_id() {
    assert_eq!(
        address_text(&v6([0xfe80, 0, 0, 0, 0, 0, 0, 1], 6969, 3)),
        b"[fe80::1%3]:6969".to_vec()
    );
}

#[test]
fn tcp_response_is_padded_to_fixed_size() {
    let r = tcp_response(&v4(192, 168, 1, 9, 51234), 7);
    assert_eq!(r.len(), TCP_RESPONSE_SIZE);
    let text = b"you: 192.168.1.9:51234 | connection_number: 7";
    assert_eq!(&r[..text.len()], &text[..]);
    assert!(r[text.len()..].iter().all(|&b| b == 0));
}

#[test]
fn tcp_response_numbers_change_the_text() {
    let a = v4(10, 0, 0, 1, 80);
    assert_ne!(tcp_response(&a, 1), tcp_response(&a, 2));
}

#[test]
fn udp_response_exact_text() {
    // A "ping" datagram (4 bytes) from 203.0.113.5:40000, first packet.
    let r = udp_response(&v4(203, 0, 113, 5, 40000), 4, 1);
    assert_eq!(r, b"you: 203.0.113.5:40000 | bytes: 4 | packet_number: 1".to_vec());
}

#[test]
fn udp_response_large_counters() {
    let r = udp_response(&v4(1, 2, 3, 4, 5), 1400, u64::MAX);
    assert_eq!(
        r,
        b"you: 1.2.3.4:5 | bytes: 1400 | packet_number: 18446744073709551615".to_vec()
    );
}

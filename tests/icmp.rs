use ping_proxy::checksum::ip_checksum;
use ping_proxy::ping::{IcmpError, Ping, FIRST_ICMP_SEQ, ICMP_IDENTIFIER, PING_MAGIC};
use ping_proxy::wire::{IpAddress, SockAddr};

const PID: u32 = 4242;

fn client_v4() -> SockAddr {
    SockAddr { ip: IpAddress::V4([10, 0, 0, 5]), port: 33000 }
}

fn target_v4() -> SockAddr {
    SockAddr { ip: IpAddress::V4([8, 8, 8, 8]), port: 0 }
}

fn ipv4_header(ttl: u8) -> Vec<u8> {
    let mut h = vec![0u8; 20];
    h[0] = 0x45;
    h[8] = ttl;
    h[9] = 1;
    h
}

fn ipv6_header(hop_limit: u8) -> Vec<u8> {
    let mut h = vec![0u8; 40];
    h[0] = 0x60;
    h[6] = 58;
    h[7] = hop_limit;
    h
}

/// What a target sends back: the header, then the request with the Echo Reply type.
fn reply(header: Vec<u8>, request: &[u8], reply_type: u8) -> Vec<u8> {
    let mut d = header;
    d.extend_from_slice(request);
    let at = d.len() - request.len();
    d[at] = reply_type;
    d
}

#[test]
fn checksum_of_known_ipv4_header() {
    let h = [
        0x45, 0x00, 0x00, 0x73, 0x00, 0x00, 0x40, 0x00, 0x40, 0x11, 0x00, 0x00, 0xc0, 0xa8, 0x00,
        0x01, 0xc0, 0xa8, 0x00, 0xc7,
    ];
    assert_eq!(ip_checksum(&h), 0xb861);
}

#[test]
fn checksum_of_empty_buffer() {
    assert_eq!(ip_checksum(&[]), 0xFFFF);
}

#[test]
fn checksum_odd_length_last_byte_is_low_order() {
    assert_eq!(ip_checksum(&[0x01]), 0xFFFE);
    assert_eq!(ip_checksum(&[0x01, 0x02, 0x03]), !0x0105u16);
}

#[test]
fn checksum_folds_carries() {
    // 0xFFFF + 0x0002 = 0x10001, folded to 0x0002.
    assert_eq!(ip_checksum(&[0xFF, 0xFF, 0x00, 0x02]), !0x0002u16);
}

#[test]
fn installed_checksum_verifies_to_zero() {
    let mut b: Vec<u8> = (0u8..37).map(|i| i.wrapping_mul(31)).collect();
    b[10] = 0;
    b[11] = 0;
    let c = ip_checksum(&b);
    b[10] = (c >> 8) as u8;
    b[11] = c as u8;
    assert_eq!(ip_checksum(&b), 0);
}

#[test]
fn request_layout() {
    let mut ping = Ping::new(PID);
    let msg = ping.icmp_request_build(7, &client_v4(), &target_v4(), 64, 1000);
    assert_eq!(msg.len(), 64);
    assert_eq!(msg[0], 8);
    assert_eq!(msg[1], 0);
    assert_eq!(u16::from_be_bytes([msg[4], msg[5]]), ICMP_IDENTIFIER);
    assert_eq!(u16::from_be_bytes([msg[6], msg[7]]), FIRST_ICMP_SEQ);
    assert_eq!(u32::from_be_bytes([msg[8], msg[9], msg[10], msg[11]]), PING_MAGIC);
    assert_eq!(u32::from_be_bytes([msg[14], msg[15], msg[16], msg[17]]), PID);
    assert_eq!(u32::from_be_bytes([msg[18], msg[19], msg[20], msg[21]]), 7);
    assert_eq!(
        u64::from_be_bytes([msg[22], msg[23], msg[24], msg[25], msg[26], msg[27], msg[28], msg[29]]),
        1000
    );
    assert_eq!(u16::from_be_bytes([msg[30], msg[31]]), 33000);
    assert_eq!(msg[32], 4);
    assert_eq!(&msg[33..37], &[10, 0, 0, 5]);
    for (i, b) in msg[37..].iter().enumerate() {
        assert_eq!(*b as usize, i & 0xFF);
    }
    assert_eq!(ip_checksum(&msg[8..37]), 0);
    assert_eq!(ip_checksum(&msg), 0);
}

#[test]
fn request_shorter_than_payload_is_not_padded() {
    let mut ping = Ping::new(PID);
    let msg = ping.icmp_request_build(1, &client_v4(), &target_v4(), 10, 0);
    assert_eq!(msg.len(), 37);
    assert_eq!(ip_checksum(&msg), 0);
}

#[test]
fn round_trip_through_ipv4_target() {
    let mut ping = Ping::new(PID);
    let msg = ping.icmp_request_build(7, &client_v4(), &target_v4(), 64, 5_000);
    let d = reply(ipv4_header(55), &msg, 0);
    let info = ping.parse(&d, 5_250).ok().unwrap();
    assert_eq!(info.seq, 7);
    assert!(matches!(info.target.ip, IpAddress::V4([10, 0, 0, 5])));
    assert_eq!(info.target.port, 33000);
    assert_eq!(info.ttl, 55);
    assert_eq!(info.elapse, 250);
}

#[test]
fn ipv6_path_reads_hop_limit_and_fixed_offset() {
    let mut ping = Ping::new(PID);
    let client = SockAddr { ip: IpAddress::V6([0xfe, 0x80, 0, 0, 0, 0, 0, 0, 0, 0, 0, 0, 0, 0, 0, 9]), port: 4000 };
    let target = SockAddr { ip: IpAddress::V6([0, 0, 0, 0, 0, 0, 0, 0, 0, 0, 0, 0, 0, 0, 0, 1]), port: 0 };
    let msg = ping.icmp_request_build(3, &client, &target, 64, 10);
    assert_eq!(msg[0], 128);
    let d = reply(ipv6_header(64), &msg, 129);
    let info = ping.parse(&d, 20).ok().unwrap();
    assert_eq!(info.seq, 3);
    assert_eq!(info.ttl, 64);
    assert_eq!(info.target.port, 4000);
    assert!(matches!(info.target.ip, IpAddress::V6(a) if a[15] == 9 && a[0] == 0xfe));
    assert_eq!(info.elapse, 10);
}

#[test]
fn ipv6_echo_request_of_64_bytes() {
    let mut ping = Ping::new(PID);
    let target = SockAddr { ip: IpAddress::V6([0, 0, 0, 0, 0, 0, 0, 0, 0, 0, 0, 0, 0, 0, 0, 1]), port: 0 };
    let msg = ping.icmp_request_build(1, &client_v4(), &target, 64, 0);
    assert_eq!(msg.len(), 64);
    assert_eq!(msg[0], 128);
    for (i, b) in msg[37..].iter().enumerate() {
        assert_eq!(*b as usize, i & 0xFF);
    }
    assert_eq!(ip_checksum(&msg), 0);
}

#[test]
fn ipv6_wrong_type_is_rejected() {
    let mut ping = Ping::new(PID);
    let msg = ping.icmp_request_build(3, &client_v4(), &target_v4(), 64, 10);
    let d = reply(ipv6_header(64), &msg, 128);
    assert!(matches!(ping.parse(&d, 20), Err(IcmpError::Type)));
}

#[test]
fn corrupted_magic_is_rejected() {
    let mut ping = Ping::new(PID);
    let msg = ping.icmp_request_build(7, &client_v4(), &target_v4(), 64, 0);
    let mut d = reply(ipv4_header(55), &msg, 0);
    d[28] ^= 0x01;
    assert!(matches!(ping.parse(&d, 0), Err(IcmpError::Magic)));
    // The next datagram is still read.
    let d = reply(ipv4_header(55), &msg, 0);
    assert!(ping.parse(&d, 0).is_ok());
}

#[test]
fn truncated_before_magic_is_rejected_as_magic() {
    let ping = Ping::new(PID);
    let mut d = ipv4_header(1);
    d.extend_from_slice(&[0, 0, 0, 0, 0, 0, 0, 0, 0x19, 0x17]);
    assert!(matches!(ping.parse(&d, 0), Err(IcmpError::Magic)));
}

#[test]
fn foreign_pid_is_rejected() {
    let mut other = Ping::new(PID + 1);
    let msg = other.icmp_request_build(7, &client_v4(), &target_v4(), 64, 0);
    let d = reply(ipv4_header(55), &msg, 0);
    let ping = Ping::new(PID);
    assert!(matches!(ping.parse(&d, 0), Err(IcmpError::ID)));
}

#[test]
fn flipped_bits_fail_checksum() {
    let mut ping = Ping::new(PID);
    let msg = ping.icmp_request_build(7, &client_v4(), &target_v4(), 64, 99);
    let good = reply(ipv4_header(55), &msg, 0);
    let p = 28;
    for j in (p + 10)..(p + 29) {
        if j == p + 24 {
            continue;
        }
        for bit in 0..8 {
            let mut d = good.clone();
            d[j] ^= 1 << bit;
            assert!(matches!(ping.parse(&d, 100), Err(IcmpError::Checksum)), "byte {} bit {}", j, bit);
        }
    }
}

#[test]
fn bad_host_length_is_rejected() {
    let mut ping = Ping::new(PID);
    let msg = ping.icmp_request_build(7, &client_v4(), &target_v4(), 64, 0);
    let mut d = reply(ipv4_header(55), &msg, 0);
    d[28 + 24] = 5;
    assert!(matches!(ping.parse(&d, 0), Err(IcmpError::Length)));
}

#[test]
fn unknown_ip_version_and_empty_datagram() {
    let ping = Ping::new(PID);
    assert!(matches!(ping.parse(&[], 0), Err(IcmpError::IpHeader)));
    assert!(matches!(ping.parse(&[0x50, 0, 0, 0, 0, 0, 0, 0, 0, 0], 0), Err(IcmpError::IpHeader)));
    assert!(matches!(ping.parse(&[0x45, 0, 0], 0), Err(IcmpError::IpHeader)));
}

#[test]
fn echo_request_seen_on_the_raw_socket_is_rejected_by_type() {
    let mut ping = Ping::new(PID);
    let msg = ping.icmp_request_build(7, &client_v4(), &target_v4(), 64, 0);
    let d = reply(ipv4_header(55), &msg, 8);
    assert!(matches!(ping.parse(&d, 0), Err(IcmpError::Type)));
}

#[test]
fn elapse_wraps_modulo_32_bits() {
    let mut ping = Ping::new(PID);
    let msg = ping.icmp_request_build(7, &client_v4(), &target_v4(), 64, 10);
    let d = reply(ipv4_header(55), &msg, 0);
    let info = ping.parse(&d, 10 + (1u64 << 32) + 5).ok().unwrap();
    assert_eq!(info.elapse, 5);
    let info = ping.parse(&d, 4).ok().unwrap();
    assert_eq!(info.elapse, u32::MAX - 5);
}

#[test]
fn icmp_sequence_wraps_without_skipping() {
    let mut ping = Ping::new(PID);
    let mut last = None;
    loop {
        let msg = ping.icmp_request_build(1, &client_v4(), &target_v4(), 0, 0);
        let seq = u16::from_be_bytes([msg[6], msg[7]]);
        if let Some(prev) = last {
            assert_eq!(seq, if prev == 0xFFFF { 0 } else { prev + 1 });
        }
        if seq == 0 {
            break;
        }
        last = Some(seq);
    }
    assert_eq!(last, Some(0xFFFF));
    assert_eq!(ping.icmp_seq(), 1);
}

#[test]
fn two_clients_get_their_own_replies() {
    let mut ping = Ping::new(PID);
    let a = SockAddr { ip: IpAddress::V4([127, 0, 0, 1]), port: 50001 };
    let b = SockAddr { ip: IpAddress::V4([127, 0, 0, 1]), port: 50002 };
    let ta = SockAddr { ip: IpAddress::V4([1, 1, 1, 1]), port: 0 };
    let tb = SockAddr { ip: IpAddress::V4([9, 9, 9, 9]), port: 0 };
    let ma = ping.icmp_request_build(1, &a, &ta, 64, 0);
    let mb = ping.icmp_request_build(1, &b, &tb, 64, 0);
    let ib = ping.parse(&reply(ipv4_header(50), &mb, 0), 1).ok().unwrap();
    let ia = ping.parse(&reply(ipv4_header(60), &ma, 0), 1).ok().unwrap();
    assert_eq!(ia.target.port, 50001);
    assert_eq!(ib.target.port, 50002);
    assert_eq!(ia.ttl, 60);
    assert_eq!(ib.ttl, 50);
}

#[test]
fn error_messages() {
    assert_eq!(IcmpError::Magic.message(), "Invalid MAGIC");
    assert_eq!(IcmpError::IpHeader.message(), "Invalid IP header");
    assert_eq!(IcmpError::Type.message(), "Invalid ICMP type");
    assert_eq!(IcmpError::Checksum.message(), "Invalid checksum");
    assert_eq!(IcmpError::ID.message(), "Invalid ID");
}

#[test]
fn flipped_identity_bits_fail_their_own_checks() {
    let mut ping = Ping::new(PID);
    let msg = ping.icmp_request_build(7, &client_v4(), &target_v4(), 64, 99);
    let good = reply(ipv4_header(55), &msg, 0);
    let p = 28;
    for bit in 0..8 {
        for j in p..(p + 4) {
            let mut d = good.clone();
            d[j] ^= 1 << bit;
            assert!(matches!(ping.parse(&d, 100), Err(IcmpError::Magic)));
        }
        for j in (p + 6)..(p + 10) {
            let mut d = good.clone();
            d[j] ^= 1 << bit;
            assert!(matches!(ping.parse(&d, 100), Err(IcmpError::ID)));
        }
        let mut d = good.clone();
        d[p + 24] ^= 1 << bit;
        assert!(matches!(ping.parse(&d, 100), Err(IcmpError::Length)));
    }
}

#[test]
fn length_error_message() {
    assert_eq!(IcmpError::Length.message(), "Invalid payload length");
}

use rustos::network::{ping_reply_of, ping_request, MAX_ICMP_PACKET, PING_IDENT};

/// The RFC 1071 sum of `bytes`, folded to 16 bits.
fn internet_sum(bytes: &[u8]) -> u16 {
    let mut sum: u32 = 0;
    let mut i = 0;
    while i + 1 < bytes.len() {
        sum += u16::from_be_bytes([bytes[i], bytes[i + 1]]) as u32;
        i += 2;
    }
    if i < bytes.len() {
        sum += (bytes[i] as u32) << 8;
    }
    while sum > 0xffff {
        sum = (sum & 0xffff) + (sum >> 16);
    }
    sum as u16
}

#[test]
fn ping_request_layout() {
    let p = ping_request(7);
    assert_eq!(p.len(), 40);
    assert_eq!(&p[..2], &[8, 0]);
    assert_eq!(&p[4..6], &PING_IDENT.to_be_bytes());
    assert_eq!(&p[6..8], &[0, 7]);
    assert!(p[8..].iter().all(|b| *b == 0x42));
    // the checksum makes the whole message sum to all ones
    assert_eq!(internet_sum(&p), 0xffff);
}

#[test]
fn ping_reply_is_read() {
    let mut p = ping_request(0x0203);
    p[0] = 0;
    p[2] = 0;
    p[3] = 0;
    let c = !internet_sum(&p);
    p[2..4].copy_from_slice(&c.to_be_bytes());
    assert_eq!(ping_reply_of(&p), Some(([0, 0, 0, 0], 0x0203)));
    p[10] ^= 1;
    assert_eq!(ping_reply_of(&p), None);
}

#[test]
fn requests_and_short_messages_are_not_replies() {
    assert_eq!(ping_reply_of(&ping_request(3)), None);
    assert_eq!(ping_reply_of(&[0, 0, 0xff, 0xff, 0, 0, 0]), None);
    assert_eq!(ping_reply_of(&[0, 0, 0xff, 0xf6, 0, 0, 0, 9]), Some(([0, 0, 0, 0], 9)));
    assert!(MAX_ICMP_PACKET >= 40);
}

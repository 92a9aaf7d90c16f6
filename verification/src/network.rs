use vstd::prelude::*;
use smoltcp::phy::ChecksumCapabilities;
use smoltcp::wire::{Icmpv4Packet, Icmpv4Repr};

verus! {

/// The ICMPv4 message type of an echo reply.
pub const ECHO_REPLY: u8 = 0;
/// The ICMPv4 message type of an echo request.
pub const ECHO_REQUEST: u8 = 8;
/// The longest ICMP message that is built or read here: smoltcp sums its
/// 16-bit words in a `u32`, which this many bytes cannot overflow.
pub const MAX_ICMP_PACKET: usize = 0x2_0000;
/// The identifier of the terminal's echo requests.
pub const PING_IDENT: u16 = 0x1234;
/// How many bytes each echo request carries.
pub const PING_PAYLOAD_LEN: usize = 32;

/// The two bytes of `v`, most significant first (network order).
pub open spec fn be16(v: u16) -> Seq<u8> {
    seq![(v / 256) as u8, (v % 256) as u8]
}

/// The number that two bytes in network order stand for.
pub open spec fn from_be16(hi: u8, lo: u8) -> u16 {
    (hi * 256 + lo) as u16
}

/// The `i`-th 16-bit word of `b` in network order, a last odd byte padded
/// with a zero byte.
pub open spec fn word_at(b: Seq<u8>, i: int) -> nat {
    (b[2 * i] * 256 + (if 2 * i + 1 < b.len() { b[2 * i + 1] as int } else { 0 })) as nat
}

/// The sum of the first `n` words of `b`.
pub open spec fn word_sum(b: Seq<u8>, n: nat) -> nat
    decreases n,
{
    if n == 0 { 0 } else { word_sum(b, (n - 1) as nat) + word_at(b, n - 1) }
}

/// `s` with the carries above 16 bits added back in, until it fits in 16
/// bits.
pub open spec fn fold_carries(s: nat) -> nat
    decreases s,
{
    if s <= 0xFFFF {
        s
    } else {
        proof {
            assert(s % 0x10000 + s / 0x10000 < s);
        }
        fold_carries((s % 0x10000 + s / 0x10000) as nat)
    }
}

/// The RFC 1071 one's-complement sum of `b`: its 16-bit words in network
/// order added up, the carries folded back in.
pub open spec fn internet_sum(b: Seq<u8>) -> nat {
    fold_carries(word_sum(b, ((b.len() + 1) / 2) as nat))
}

/// The checksum field of an echo request with these fields: the complement
/// of the sum of the message with that field zero.
pub open spec fn echo_request_checksum(ident: u16, seq_no: u16, data: Seq<u8>) -> u16 {
    (0xFFFF - internet_sum(seq![ECHO_REQUEST, 0u8, 0u8, 0u8] + be16(ident) + be16(seq_no) + data)) as u16
}

/// Whether the checksum of the ICMP message `packet` is right: the sum of
/// all its bytes, the checksum field included, is all ones.
pub open spec fn icmp_checksum_valid(packet: Seq<u8>) -> bool {
    internet_sum(packet) == 0xFFFF
}

/// An echo request on the wire: type 8, code 0, the checksum, the
/// identifier and the sequence number in network order, then the data.
pub open spec fn echo_request_bytes(ident: u16, seq_no: u16, data: Seq<u8>) -> Seq<u8> {
    seq![ECHO_REQUEST, 0u8] + be16(echo_request_checksum(ident, seq_no, data)) + be16(ident) + be16(seq_no) + data
}

/// The sequence number of `packet` when it is an echo reply that smoltcp
/// accepts: at least the 8 header bytes, a valid checksum, type 0 and
/// code 0.
pub open spec fn echo_reply_seq(packet: Seq<u8>) -> Option<u16> {
    if packet.len() >= 8 && icmp_checksum_valid(packet) && packet[0] == ECHO_REPLY && packet[1] == 0 {
        Some(from_be16(packet[6], packet[7]))
    } else {
        None
    }
}

/// `Icmpv4Repr::EchoRequest { ident, seq_no, data }` emitted by smoltcp
/// (`Icmpv4Repr::emit`, default checksum capabilities, so the checksum is
/// filled in) into a buffer of `Icmpv4Repr::buffer_len()` bytes, eight
/// more than the data. smoltcp's `checksum::data` is its documented RFC
/// 1071 sum (added in native byte order and turned to network order, which
/// gives the same sum), and `fill_checksum` writes its complement.
#[verifier::external_body]
fn emit_echo_request(ident: u16, seq_no: u16, data: &[u8]) -> (packet: Vec<u8>)
    requires
        data@.len() + 8 <= MAX_ICMP_PACKET,
    ensures
        packet@ == seq![ECHO_REQUEST, 0u8] + be16(echo_request_checksum(ident, seq_no, data@)) + be16(ident)
            + be16(seq_no) + data@,
{
    let repr = Icmpv4Repr::EchoRequest { ident, seq_no, data };
    let mut buffer = vec![0u8; repr.buffer_len()];
    repr.emit(&mut Icmpv4Packet::new_unchecked(&mut buffer), &ChecksumCapabilities::default());
    buffer
}

/// `Icmpv4Repr::parse` of smoltcp on `packet` (default checksum
/// capabilities, so the checksum is verified), with the sequence number
/// given back when it is an echo reply: smoltcp refuses fewer than 8 bytes
/// and a checksum whose RFC 1071 sum (`checksum::data`) is not all ones,
/// and reads type 0 with code 0 as an echo reply.
#[verifier::external_body]
fn parse_echo_reply(packet: &[u8]) -> (r: Option<u16>)
    requires
        packet@.len() <= MAX_ICMP_PACKET,
    ensures
        r == (if packet@.len() >= 8 && icmp_checksum_valid(packet@) && packet@[0] == ECHO_REPLY && packet@[1] == 0 {
            Some(from_be16(packet@[6], packet@[7]))
        } else {
            None
        }),
{
    match Icmpv4Repr::parse(&Icmpv4Packet::new_unchecked(packet), &ChecksumCapabilities::default()) {
        Ok(Icmpv4Repr::EchoReply { seq_no, .. }) => Some(seq_no),
        _ => None,
    }
}

/// What each echo request carries: 32 bytes of 0x42.
pub open spec fn ping_payload() -> Seq<u8> {
    Seq::new(PING_PAYLOAD_LEN as nat, |_i: int| 0x42u8)
}

/// The echo request that the terminal's ping sends with sequence number
/// `seq_no`.
pub fn ping_request(seq_no: u16) -> (packet: Vec<u8>)
    ensures
        packet@ == echo_request_bytes(PING_IDENT, seq_no, ping_payload()),
        packet@.len() == 8 + PING_PAYLOAD_LEN,
{
    let mut payload: Vec<u8> = Vec::new();
    while payload.len() < PING_PAYLOAD_LEN
        invariant
            payload@.len() <= PING_PAYLOAD_LEN,
            forall|i: int| 0 <= i < payload@.len() ==> payload@[i] == 0x42u8,
        decreases PING_PAYLOAD_LEN - payload@.len(),
    {
        payload.push(0x42u8);
    }
    assert(payload@ =~= ping_payload());
    emit_echo_request(PING_IDENT, seq_no, payload.as_slice())
}

/// What the network keeps of an ICMP message that arrived: for an echo
/// reply, its sequence number with the sender's address left all zeros;
/// nothing for any other message.
pub fn ping_reply_of(packet: &[u8]) -> (r: Option<([u8; 4], u16)>)
    requires
        packet@.len() <= MAX_ICMP_PACKET,
    ensures
        r is Some <==> echo_reply_seq(packet@) is Some,
        r matches Some((ip, s)) ==> ip@ == seq![0u8, 0u8, 0u8, 0u8] && echo_reply_seq(packet@) == Some(s),
{
    match parse_echo_reply(packet) {
        Some(s) => {
            let ip: [u8; 4] = [0, 0, 0, 0];
            assert(ip@ =~= seq![0u8, 0u8, 0u8, 0u8]);
            Some((ip, s))
        },
        None => None,
    }
}

} // verus!

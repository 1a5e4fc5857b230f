//! ICMPv4 echo packet codec: wire layout, the RFC 1071 Internet
//! checksum, encoding of echo requests and decoding of echo replies.

use vstd::prelude::*;
use vstd::string::StringExecFns;

verus! {

/// Size in bytes of the ICMPv4 header: type, code, checksum,
/// identifier and sequence fields.
pub const ICMP_HEADER_SIZE: usize = 8;

/// Failure kinds of the codec.
#[derive(Clone, Copy, Debug, PartialEq, Eq, Structural)]
pub enum Error {
    /// A buffer is the wrong size: too small to encode into, or too
    /// short to decode a header from.
    InvalidSize,
    /// The decoded header's type or code is not an echo reply.
    InvalidPacket,
    TooSmallHeader,
    InvalidHeaderSize,
    InvalidVersion,
    UnknownProtocol,
}

/// The short description each codec error carries.
pub open spec fn error_text(e: Error) -> Seq<char> {
    match e {
        Error::InvalidSize => "invalid size"@,
        Error::InvalidPacket => "invalid packet"@,
        Error::TooSmallHeader => "too small header"@,
        Error::InvalidHeaderSize => "invalid header size"@,
        Error::InvalidVersion => "invalid version"@,
        Error::UnknownProtocol => "unknown protocol"@,
    }
}

impl Error {
    /// The error's short description, for display.
    pub fn message(&self) -> (r: String)
        ensures
            r@ == error_text(*self),
    {
        match self {
            Error::InvalidSize => String::from_str("invalid size"),
            Error::InvalidPacket => String::from_str("invalid packet"),
            Error::TooSmallHeader => String::from_str("too small header"),
            Error::InvalidHeaderSize => String::from_str("invalid header size"),
            Error::InvalidVersion => String::from_str("invalid version"),
            Error::UnknownProtocol => String::from_str("unknown protocol"),
        }
    }
}

/// Type and code constants of the ICMPv4 echo messages.
pub struct IcmpV4;

impl IcmpV4 {
    pub const ECHO_REQUEST_TYPE: u8 = 8;
    pub const ECHO_REQUEST_CODE: u8 = 0;
    pub const ECHO_REPLY_TYPE: u8 = 0;
    pub const ECHO_REPLY_CODE: u8 = 0;
}

/// The big-endian 16-bit word of `b` starting at byte `2 * i`; a
/// trailing odd byte is padded with a zero low byte.
pub open spec fn word_at(b: Seq<u8>, i: int) -> int {
    if 2 * i + 1 < b.len() {
        b[2 * i] * 256 + b[2 * i + 1]
    } else {
        b[2 * i] * 256
    }
}

/// How many 16-bit words cover `b`.
pub open spec fn word_count(b: Seq<u8>) -> int {
    (b.len() + 1) as int / 2
}

/// Sum of the first `n` big-endian words of `b`.
pub open spec fn word_sum(b: Seq<u8>, n: int) -> int
    decreases n,
{
    if n <= 0 {
        0
    } else {
        word_sum(b, n - 1) + word_at(b, n - 1)
    }
}

/// RFC 1071 end-around-carry fold: add the carry out of bit 16 back
/// into the low 16 bits until the sum fits in 16 bits.
pub open spec fn fold_carries(x: int) -> int
    decreases x via fold_carries_decreases
{
    if x < 0x10000 {
        x
    } else {
        fold_carries(x % 0x10000 + x / 0x10000)
    }
}

#[via_fn]
proof fn fold_carries_decreases(x: int) {
    if x >= 0x10000 {
        assert(x % 0x10000 + x / 0x10000 < x) by (nonlinear_arith)
            requires x >= 0x10000;
    }
}

/// The Internet checksum of `b`: the one's complement of the folded
/// 16-bit one's-complement sum of its big-endian words.
pub open spec fn checksum16(b: Seq<u8>) -> int {
    0xffff - fold_carries(word_sum(b, word_count(b)))
}

/// The bytes of `b` with the 16-bit value `v` written big-endian into
/// the checksum field (bytes 2 and 3).
pub open spec fn with_checksum_field(b: Seq<u8>, v: int) -> Seq<u8> {
    b.update(2, (v / 256) as u8).update(3, (v % 256) as u8)
}

/// Folding never leaves the range of the original sum, and lands
/// below 2^16 exactly when the start is non-negative.
proof fn lemma_fold_carries_range(x: int)
    requires
        x >= 0,
    ensures
        0 <= fold_carries(x) < 0x10000,
        fold_carries(x) <= x,
    decreases x,
{
    if x >= 0x10000 {
        assert(0 <= x % 0x10000 + x / 0x10000 < x) by (nonlinear_arith)
            requires x >= 0x10000;
        lemma_fold_carries_range(x % 0x10000 + x / 0x10000);
    }
}

/// Each word is non-negative and below 2^16, so the partial sums are
/// bounded by one full word per step.
proof fn lemma_word_sum_bounds(b: Seq<u8>, n: int)
    requires
        0 <= n,
        2 * n <= b.len() + 1,
    ensures
        0 <= word_sum(b, n) <= n * 0xffff,
    decreases n,
{
    if n > 0 {
        lemma_word_sum_bounds(b, n - 1);
        assert(0 <= word_at(b, n - 1) <= 0xffff);
    }
}

/// The 16-bit value read big-endian from two bytes.
pub open spec fn be16(hi: u8, lo: u8) -> int {
    hi * 256 + lo
}

/// An echo request before its checksum: type and code of an echo
/// request, a zeroed checksum field, identifier and sequence
/// big-endian, then the payload, then the untouched tail of the
/// destination buffer.
pub open spec fn pre_checksum_bytes(ident: u16, seq_cnt: u16, payload: Seq<u8>, tail: Seq<u8>) -> Seq<u8> {
    seq![
        IcmpV4::ECHO_REQUEST_TYPE,
        IcmpV4::ECHO_REQUEST_CODE,
        0u8,
        0u8,
        (ident / 256) as u8,
        (ident % 256) as u8,
        (seq_cnt / 256) as u8,
        (seq_cnt % 256) as u8,
    ] + payload + tail
}

/// The full wire bytes of an echo request: the pre-checksum bytes
/// with their own Internet checksum written into the checksum field.
pub open spec fn encoded_request(ident: u16, seq_cnt: u16, payload: Seq<u8>, tail: Seq<u8>) -> Seq<u8> {
    with_checksum_field(
        pre_checksum_bytes(ident, seq_cnt, payload, tail),
        checksum16(pre_checksum_bytes(ident, seq_cnt, payload, tail)),
    )
}

/// An ICMPv4 echo request: identifier, sequence counter and the
/// payload that correlates the eventual reply.
pub struct EchoRequest<'a> {
    pub ident: u16,
    pub seq_cnt: u16,
    pub payload: &'a [u8],
}

impl<'a> EchoRequest<'a> {
    /// Writes the request into `buffer` as ICMPv4 echo-request wire
    /// bytes: type 8, code 0, identifier and sequence big-endian, the
    /// payload after the header, and the Internet checksum, taken
    /// while the checksum field is zero, written big-endian into that
    /// field. Fails when the buffer cannot hold header and payload.
    pub fn encode(&self, buffer: &mut [u8]) -> (r: Result<(), Error>)
        requires
            old(buffer)@.len() <= 65536,
        ensures
            r is Ok <==> old(buffer)@.len() >= ICMP_HEADER_SIZE + self.payload@.len(),
            match r {
                Ok(()) => final(buffer)@ == encoded_request(
                    self.ident,
                    self.seq_cnt,
                    self.payload@,
                    old(buffer)@.skip(ICMP_HEADER_SIZE + self.payload@.len()),
                ),
                Err(e) => e == Error::InvalidSize && final(buffer)@ == old(buffer)@,
            },
    {
        let ghost b0 = buffer@;
        let n: usize = buffer.len();
        let plen: usize = self.payload.len();
        if n < ICMP_HEADER_SIZE || n - ICMP_HEADER_SIZE < plen {
            return Err(Error::InvalidSize);
        }
        buffer[0] = IcmpV4::ECHO_REQUEST_TYPE;
        buffer[1] = IcmpV4::ECHO_REQUEST_CODE;
        buffer[2] = 0;
        buffer[3] = 0;
        buffer[4] = (self.ident / 256) as u8;
        buffer[5] = (self.ident % 256) as u8;
        buffer[6] = (self.seq_cnt / 256) as u8;
        buffer[7] = (self.seq_cnt % 256) as u8;
        let mut i: usize = 0;
        while i < plen
            invariant
                buffer@.len() == n,
                b0.len() == n,
                plen == self.payload@.len(),
                ICMP_HEADER_SIZE + plen <= n,
                0 <= i <= plen,
                buffer@[0] == IcmpV4::ECHO_REQUEST_TYPE,
                buffer@[1] == IcmpV4::ECHO_REQUEST_CODE,
                buffer@[2] == 0u8,
                buffer@[3] == 0u8,
                buffer@[4] == (self.ident / 256) as u8,
                buffer@[5] == (self.ident % 256) as u8,
                buffer@[6] == (self.seq_cnt / 256) as u8,
                buffer@[7] == (self.seq_cnt % 256) as u8,
                forall|j: int| 0 <= j < i ==> buffer@[8 + j] == self.payload@[j],
                forall|j: int| 8 + plen <= j < n ==> buffer@[j] == b0[j],
            decreases plen - i,
        {
            buffer[ICMP_HEADER_SIZE + i] = self.payload[i];
            i = i + 1;
        }
        proof {
            assert(buffer@ =~= pre_checksum_bytes(
                self.ident,
                self.seq_cnt,
                self.payload@,
                b0.skip(ICMP_HEADER_SIZE + plen),
            ));
        }
        write_checksum(buffer);
        Ok(())
    }
}

/// An ICMPv4 echo reply as read off the wire: identifier, sequence
/// counter and a view of the payload inside the receive buffer.
pub struct EchoReply<'a> {
    pub ident: u16,
    pub seq_cnt: u16,
    pub payload: &'a [u8],
}

impl<'a> EchoReply<'a> {
    /// Reads `buffer` as an ICMPv4 echo reply. Fails when the buffer
    /// is shorter than the header, or when type and code are not
    /// those of an echo reply; both failures are expected of
    /// unrelated traffic on a shared socket and are benign to a
    /// polling caller. On success the identifier and sequence are the
    /// big-endian header fields and the payload is everything after
    /// the header.
    pub fn decode(buffer: &'a [u8]) -> (r: Result<Self, Error>)
        ensures
            r is Ok <==> (buffer@.len() >= ICMP_HEADER_SIZE
                && buffer@[0] == IcmpV4::ECHO_REPLY_TYPE
                && buffer@[1] == IcmpV4::ECHO_REPLY_CODE),
            match r {
                Ok(reply) => {
                    &&& reply.ident == be16(buffer@[4], buffer@[5])
                    &&& reply.seq_cnt == be16(buffer@[6], buffer@[7])
                    &&& reply.payload@ == buffer@.skip(ICMP_HEADER_SIZE as int)
                },
                Err(e) => {
                    &&& (e == Error::InvalidSize <==> buffer@.len() < ICMP_HEADER_SIZE)
                    &&& (e == Error::InvalidSize || e == Error::InvalidPacket)
                },
            },
    {
        if buffer.len() < ICMP_HEADER_SIZE {
            return Err(Error::InvalidSize);
        }
        let type_ = buffer[0];
        let code = buffer[1];
        if type_ != IcmpV4::ECHO_REPLY_TYPE || code != IcmpV4::ECHO_REPLY_CODE {
            return Err(Error::InvalidPacket);
        }
        let ident = (buffer[4] as u16) * 256 + (buffer[5] as u16);
        let seq_cnt = (buffer[6] as u16) * 256 + (buffer[7] as u16);
        let payload = &buffer[ICMP_HEADER_SIZE..buffer.len()];
        Ok(EchoReply { ident, seq_cnt, payload })
    }
}

/// Folding preserves the value modulo 0xffff: the end-around carry
/// adds 1 exactly where dropping the carry subtracted 0x10000, and
/// 0x10000 is 1 modulo 0xffff.
proof fn lemma_fold_carries_mod(x: int)
    requires
        x >= 0,
    ensures
        fold_carries(x) % 0xffff == x % 0xffff,
    decreases x,
{
    if x >= 0x10000 {
        let q: int = x / 0x10000;
        let r: int = x % 0x10000;
        let y: int = r + q;
        assert(y >= 0 && y < x) by (nonlinear_arith)
            requires x >= 0x10000, q == x / 0x10000, r == x % 0x10000, y == r + q;
        assert(x == 0xffff * q + y) by (nonlinear_arith)
            requires x >= 0, q == x / 0x10000, r == x % 0x10000, y == r + q;
        assert(y % 0xffff == x % 0xffff) by (nonlinear_arith)
            requires x == 0xffff * q + y;
        lemma_fold_carries_mod(y);
    }
}

/// Folding a positive sum never reaches zero: each step keeps at
/// least the carry it folded back in.
proof fn lemma_fold_carries_positive(x: int)
    requires
        x > 0,
    ensures
        fold_carries(x) > 0,
    decreases x,
{
    if x >= 0x10000 {
        let y: int = x % 0x10000 + x / 0x10000;
        assert(y > 0 && y < x) by (nonlinear_arith)
            requires x >= 0x10000, y == x % 0x10000 + x / 0x10000;
        lemma_fold_carries_positive(y);
    }
}

/// Two buffers that differ only in bytes 2 and 3 — the checksum
/// field, which is exactly word 1 — have word sums that differ by
/// exactly the difference of that word.
proof fn lemma_word_sum_except_word1(b: Seq<u8>, b2: Seq<u8>, n: int)
    requires
        b.len() == b2.len(),
        b.len() >= 4,
        forall|i: int| 0 <= i < b.len() && i != 2 && i != 3 ==> b[i] == b2[i],
        0 <= n <= word_count(b),
    ensures
        n >= 2 ==> word_sum(b2, n) == word_sum(b, n) + word_at(b2, 1) - word_at(b, 1),
        n < 2 ==> word_sum(b2, n) == word_sum(b, n),
    decreases n,
{
    if n > 0 {
        lemma_word_sum_except_word1(b, b2, n - 1);
        if n - 1 != 1 {
            assert(word_at(b2, n - 1) == word_at(b, n - 1));
        }
    }
}

/// Law: checksum closure. For any buffer whose checksum field is
/// zero, writing the buffer's own Internet checksum into that field
/// makes the checksum of the whole buffer, field included, zero.
pub proof fn lemma_checksum_closure(b: Seq<u8>)
    requires
        b.len() >= 4,
        b[2] == 0,
        b[3] == 0,
    ensures
        checksum16(with_checksum_field(b, checksum16(b))) == 0,
{
    let wc: int = word_count(b);
    let s0: int = word_sum(b, wc);
    lemma_word_sum_bounds(b, wc);
    let f0: int = fold_carries(s0);
    lemma_fold_carries_range(s0);
    let c: int = 0xffff - f0;
    assert(c == checksum16(b));
    let b2 = with_checksum_field(b, c);
    assert(b2.len() == b.len());
    assert(forall|i: int| 0 <= i < b.len() && i != 2 && i != 3 ==> b[i] == b2[i]);
    assert(word_at(b, 1) == 0);
    assert(b2[2] == (c / 256) as u8 && b2[3] == (c % 256) as u8);
    assert(word_at(b2, 1) == c);
    lemma_word_sum_except_word1(b, b2, wc);
    assert(wc >= 2);
    assert(word_count(b2) == wc);
    let s1: int = word_sum(b2, wc);
    assert(s1 == s0 + c);
    lemma_fold_carries_mod(s0);
    lemma_fold_carries_mod(s1);
    lemma_fold_carries_range(s1);
    assert(s1 >= 0xffff);
    lemma_fold_carries_positive(s1);
    let f1: int = fold_carries(s1);
    assert(s1 % 0xffff == 0);
    assert(f1 == 0xffff);
    assert(checksum16(b2) == 0xffff - f1);
}

/// Law: encode/decode symmetry. Take the wire bytes of any encoded
/// request and overwrite type and code with the echo-reply values, as
/// the network does when it echoes the packet back: the result is
/// long enough to decode, carries the reply type and code, gives back
/// the identifier and sequence that were encoded, and its payload
/// equals the encoded token byte for byte — it is precisely a
/// matching reply for that token.
pub proof fn lemma_encode_decode_symmetry(ident: u16, seq_cnt: u16, payload: Seq<u8>)
    ensures
        ({
            let enc = encoded_request(ident, seq_cnt, payload, Seq::<u8>::empty());
            let forced = enc.update(0, IcmpV4::ECHO_REPLY_TYPE).update(1, IcmpV4::ECHO_REPLY_CODE);
            &&& enc.len() == ICMP_HEADER_SIZE + payload.len()
            &&& forced.len() >= ICMP_HEADER_SIZE
            &&& forced[0] == IcmpV4::ECHO_REPLY_TYPE
            &&& forced[1] == IcmpV4::ECHO_REPLY_CODE
            &&& be16(forced[4], forced[5]) == ident
            &&& be16(forced[6], forced[7]) == seq_cnt
            &&& forced.skip(ICMP_HEADER_SIZE as int) == payload
        }),
{
    let p = pre_checksum_bytes(ident, seq_cnt, payload, Seq::<u8>::empty());
    let enc = encoded_request(ident, seq_cnt, payload, Seq::<u8>::empty());
    let forced = enc.update(0, IcmpV4::ECHO_REPLY_TYPE).update(1, IcmpV4::ECHO_REPLY_CODE);
    assert(p.len() == ICMP_HEADER_SIZE + payload.len());
    assert(forced[4] == (ident / 256) as u8);
    assert(forced[5] == (ident % 256) as u8);
    assert(forced[6] == (seq_cnt / 256) as u8);
    assert(forced[7] == (seq_cnt % 256) as u8);
    assert(forced.skip(ICMP_HEADER_SIZE as int) =~= payload);
}

/// Computes the Internet checksum of `buffer`: the one's complement
/// of the end-around-carry sum of its big-endian 16-bit words.
pub fn checksum(buffer: &[u8]) -> (r: u16)
    requires
        buffer@.len() <= 65536,
    ensures
        r == checksum16(buffer@),
{
    let ghost b0 = buffer@;
    let n: usize = buffer.len();
    let word_total: usize = (n + 1) / 2;
    let mut sum: u32 = 0;
    let mut w: usize = 0;
    while w < word_total
        invariant
            buffer@ == b0,
            n == b0.len(),
            n <= 65536,
            word_total == word_count(b0),
            0 <= w <= word_total,
            sum == word_sum(b0, w as int),
            sum <= w * 0xffff,
        decreases word_total - w,
    {
        let mut part: u32 = (buffer[2 * w] as u32) * 256;
        if 2 * w + 1 < n {
            part = part + (buffer[2 * w + 1] as u32);
        }
        sum = sum + part;
        w = w + 1;
    }
    while sum >= 0x10000
        invariant
            buffer@ == b0,
            n == b0.len(),
            sum >= 0,
            fold_carries(sum as int) == fold_carries(word_sum(b0, word_count(b0))),
        decreases sum,
    {
        sum = (sum % 0x10000) + (sum / 0x10000);
    }
    proof {
        lemma_word_sum_bounds(b0, word_count(b0));
        lemma_fold_carries_range(word_sum(b0, word_count(b0)));
    }
    (0xffffu32 - sum) as u16
}

/// Computes the Internet checksum of `buffer` and writes it big-endian
/// into the checksum field (bytes 2 and 3), as the last step of
/// encoding. The caller keeps the field zeroed while the sum is taken.
pub fn write_checksum(buffer: &mut [u8])
    requires
        old(buffer)@.len() >= 4,
        old(buffer)@.len() <= 65536,
    ensures
        final(buffer)@ == with_checksum_field(old(buffer)@, checksum16(old(buffer)@)),
{
    let value = checksum(buffer);
    buffer[2] = (value / 256) as u8;
    buffer[3] = (value % 256) as u8;
}

} // verus!

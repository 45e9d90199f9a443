//! Length-prefixed frames of the native-messaging protocol.

use vstd::prelude::*;

verus! {

/// Order of the four bytes of a frame header.
#[derive(Clone, Copy, Debug, PartialEq, Eq, Structural)]
pub enum ByteOrder {
    Little,
    Big,
}

/// The number that four header bytes stand for, in the given order.
pub open spec fn header_value(b: Seq<u8>, order: ByteOrder) -> nat
    recommends
        b.len() == 4,
{
    match order {
        ByteOrder::Little => (b[0] + 256 * b[1] + 65536 * b[2] + 16777216 * b[3]) as nat,
        ByteOrder::Big => (b[3] + 256 * b[2] + 65536 * b[1] + 16777216 * b[0]) as nat,
    }
}

/// The four header bytes that stand for `x` in the given order.
pub open spec fn header_bytes(x: u32, order: ByteOrder) -> Seq<u8> {
    let b0 = (x % 256) as u8;
    let b1 = ((x / 256) % 256) as u8;
    let b2 = ((x / 65536) % 256) as u8;
    let b3 = (x / 16777216) as u8;
    match order {
        ByteOrder::Little => seq![b0, b1, b2, b3],
        ByteOrder::Big => seq![b3, b2, b1, b0],
    }
}

/// The bytes written for one message: its length, cut to 32 bits, then the payload.
pub open spec fn frame_bytes(payload: Seq<u8>, order: ByteOrder) -> Seq<u8> {
    header_bytes((payload.len() % 0x1_0000_0000) as u32, order) + payload
}

/// What reading one message from the front of `buf` gives: the payload and
/// the number of bytes consumed, or nothing when `buf` ends too early.
pub open spec fn frame_split(buf: Seq<u8>, order: ByteOrder) -> Option<(Seq<u8>, nat)> {
    if buf.len() < 4 {
        None
    } else {
        let n = header_value(buf.subrange(0, 4), order);
        if buf.len() < 4 + n {
            None
        } else {
            Some((buf.subrange(4, 4 + n as int), (4 + n) as nat))
        }
    }
}

/// The payload length that a frame header announces.
pub fn decode_header(header: [u8; 4], order: ByteOrder) -> (n: u32)
    ensures
        n as nat == header_value(header@, order),
{
    let b0 = header[0] as u32;
    let b1 = header[1] as u32;
    let b2 = header[2] as u32;
    let b3 = header[3] as u32;
    match order {
        ByteOrder::Little => b0 + b1 * 256 + b2 * 65536 + b3 * 16777216,
        ByteOrder::Big => b3 + b2 * 256 + b1 * 65536 + b0 * 16777216,
    }
}

/// The header that announces a payload of `n` bytes.
pub fn encode_header(n: u32, order: ByteOrder) -> (header: [u8; 4])
    ensures
        header@ == header_bytes(n, order),
{
    let b0 = (n % 256) as u8;
    let b1 = ((n / 256) % 256) as u8;
    let b2 = ((n / 65536) % 256) as u8;
    let b3 = (n / 16777216) as u8;
    let h = match order {
        ByteOrder::Little => [b0, b1, b2, b3],
        ByteOrder::Big => [b3, b2, b1, b0],
    };
    assert(h@ =~= header_bytes(n, order));
    h
}


/// Lays out one message for writing: the payload length in the header
/// (cut to 32 bits, as a `u32` cast does), then the payload itself.
pub fn encode_frame(payload: &[u8], order: ByteOrder) -> (out: Vec<u8>)
    ensures
        out@ == frame_bytes(payload@, order),
{
    let len = payload.len();
    #[verifier::truncate]
    let n = len as u32;
    let wide = len as u64;
    assert(n as u64 == wide % 0x1_0000_0000u64) by (bit_vector)
        requires
            n == len as u32,
            wide == len as u64;
    let header = encode_header(n, order);
    let mut out: Vec<u8> = Vec::new();
    let mut i: usize = 0;
    while i < 4
        invariant
            0 <= i <= 4,
            out@ == header@.subrange(0, i as int),
        decreases 4 - i,
    {
        out.push(header[i]);
        i = i + 1;
        assert(out@ =~= header@.subrange(0, i as int));
    }
    let mut j: usize = 0;
    while j < payload.len()
        invariant
            0 <= j <= payload@.len(),
            out@ == header@ + payload@.subrange(0, j as int),
        decreases payload@.len() - j,
    {
        out.push(payload[j]);
        j = j + 1;
        assert(out@ =~= header@ + payload@.subrange(0, j as int));
    }
    assert(payload@.subrange(0, payload@.len() as int) =~= payload@);
    out
}

/// Reads one message from the front of `buf`: `None` when the header or
/// the announced payload is cut short, else the payload and the number of
/// bytes the message took.
pub fn read_frame(buf: &[u8], order: ByteOrder) -> (res: Option<(Vec<u8>, usize)>)
    ensures
        match frame_split(buf@, order) {
            None => res is None,
            Some((p, used)) => res matches Some((q, u)) && q@ == p && u as nat == used,
        },
{
    if buf.len() < 4 {
        return None;
    }
    let header: [u8; 4] = [buf[0], buf[1], buf[2], buf[3]];
    assert(header@ =~= buf@.subrange(0, 4));
    let n = decode_header(header, order) as usize;
    if buf.len() - 4 < n {
        return None;
    }
    let body = vstd::slice::slice_subrange(buf, 4, 4 + n);
    let payload = vstd::slice::slice_to_vec(body);
    Some((payload, 4 + n))
}

/// The byte order of the machine the program runs on, as vstd's
/// `endianness()` abstracts it: which of the two it is, is not known.
pub open spec fn machine_order() -> ByteOrder {
    match vstd::endian::endianness() {
        vstd::endian::Endian::Little => ByteOrder::Little,
        vstd::endian::Endian::Big => ByteOrder::Big,
    }
}

/// `u32::to_ne_bytes`: the four bytes of `x` in the machine's own byte
/// order (`machine_order`), as std documents it. Which order that is
/// depends on the machine and is left unsaid.
#[verifier::external_body]
fn native_bytes_of(x: u32) -> (b: [u8; 4])
    ensures
        b@ == header_bytes(x, machine_order()),
{
    x.to_ne_bytes()
}

/// The byte order that encoded the number 1 as `probe`: its first byte is
/// 1 in little-endian order and 0 in big-endian order.
pub fn order_of_one(probe: [u8; 4]) -> (order: ByteOrder)
    ensures
        probe@ == header_bytes(1, ByteOrder::Little) ==> order == ByteOrder::Little,
        probe@ == header_bytes(1, ByteOrder::Big) ==> order == ByteOrder::Big,
{
    if probe[0] == 1 {
        ByteOrder::Little
    } else {
        ByteOrder::Big
    }
}

/// The byte order of this machine, which is the order the protocol uses
/// for frame headers, read off the machine's own encoding of the number 1.
/// Which order that is depends on the machine.
pub fn native_byte_order() -> (order: ByteOrder)
    ensures
        order == machine_order(),
{
    let probe = native_bytes_of(1);
    assert(header_bytes(1, ByteOrder::Little)[0] == 1u8);
    assert(header_bytes(1, ByteOrder::Big)[0] == 0u8);
    order_of_one(probe)
}

/// The header bytes decode to the number they were made from.
pub proof fn lemma_header_roundtrip(x: u32, order: ByteOrder)
    ensures
        header_bytes(x, order).len() == 4,
        header_value(header_bytes(x, order), order) == x,
{
    let b = header_bytes(x, order);
    assert(x == (x % 256) + 256 * ((x / 256) % 256) + 65536 * ((x / 65536) % 256) + 16777216 * (
    x / 16777216)) by (nonlinear_arith);
    assert(x / 16777216 < 256) by (nonlinear_arith);
}

/// What a read gives back of a write: reading a written message, whatever
/// follows it, yields exactly its payload and consumes exactly its bytes,
/// as long as the payload length fits in the 32-bit header.
pub proof fn law_frame_roundtrip(payload: Seq<u8>, rest: Seq<u8>, order: ByteOrder)
    requires
        payload.len() < 0x1_0000_0000,
    ensures
        frame_split(frame_bytes(payload, order) + rest, order) == Some(
            (payload, (4 + payload.len()) as nat),
        ),
{
    let x = (payload.len() % 0x1_0000_0000) as u32;
    lemma_header_roundtrip(x, order);
    let buf = frame_bytes(payload, order) + rest;
    assert(buf.subrange(0, 4) =~= header_bytes(x, order));
    assert(buf.subrange(4, 4 + payload.len() as int) =~= payload);
}

} // verus!

//! Wire primitives of the protocol: variable-length integers, fixed-width
//! big-endian integers, length-prefixed byte strings, and the frame layer
//! with its compression threshold.

use vstd::prelude::*;

verus! {

/// Why a read out of a packet buffer failed.
#[derive(Debug, Clone, Copy, PartialEq, Eq)]
pub enum BufReadError {
    /// The buffer ended in the middle of a value.
    UnexpectedEnd,
    /// A tag id that no value kind uses.
    InvalidTag,
    /// More than five (ten for a long) continuation bytes.
    VarIntTooLong,
    /// A string length beyond the caller's limit.
    StringTooLong,
}

/// The bytes of `v` as a VarInt: 7-bit groups, least significant first,
/// high bit of each byte marking a continuation.
pub open spec fn spec_varint(v: u32) -> Seq<u8>
    decreases v via spec_varint_decreases
{
    if v < 0x80 {
        seq![v as u8]
    } else {
        seq![((v & 0x7f) | 0x80) as u8] + spec_varint(v >> 7)
    }
}

#[via_fn]
proof fn spec_varint_decreases(v: u32) {
    assert(v >= 0x80 ==> v >> 7 < v) by (bit_vector);
}

/// The bytes of `v` as a VarLong; as [`spec_varint`], up to ten bytes.
pub open spec fn spec_varlong(v: u64) -> Seq<u8>
    decreases v via spec_varlong_decreases
{
    if v < 0x80 {
        seq![v as u8]
    } else {
        seq![((v & 0x7f) | 0x80) as u8] + spec_varlong(v >> 7)
    }
}

#[via_fn]
proof fn spec_varlong_decreases(v: u64) {
    assert(v >= 0x80 ==> v >> 7 < v) by (bit_vector);
}

/// What decoding a VarInt at index `i` of `bytes` yields, given `budget`
/// bytes may still be read and `acc` holds the groups seen so far below
/// bit `shift`: the value and the index after it, or nothing when the
/// buffer ends or the budget runs out.
pub open spec fn spec_read_varint(
    bytes: Seq<u8>,
    i: int,
    budget: nat,
    shift: nat,
    acc: u32,
) -> Option<(u32, int)>
    decreases budget,
{
    if budget == 0 {
        None
    } else if i < 0 || i >= bytes.len() {
        None
    } else {
        let b = bytes[i];
        let acc2 = (acc | (((b & 0x7f) as u32) << shift)) as u32;
        if b < 0x80 {
            Some((acc2, i + 1))
        } else {
            spec_read_varint(bytes, i + 1, (budget - 1) as nat, (shift + 7) as nat, acc2)
        }
    }
}

/// The reader reports a too-long VarInt exactly when five continuation
/// bytes stand at `i`.
pub open spec fn spec_varint_too_long(bytes: Seq<u8>, i: int) -> bool {
    0 <= i && i + 5 <= bytes.len() && forall|k: int| 0 <= k < 5 ==> #[trigger] bytes[i + k] >= 0x80
}

/// A successful VarInt read ends strictly past its start and within the
/// buffer.
pub proof fn lemma_varint_read_advances(
    bytes: Seq<u8>,
    i: int,
    budget: nat,
    shift: nat,
    acc: u32,
)
    ensures
        match spec_read_varint(bytes, i, budget, shift, acc) {
            Some(h) => i < h.1 <= bytes.len(),
            None => true,
        },
    decreases budget,
{
    if budget != 0 && 0 <= i < bytes.len() && bytes[i] >= 0x80 {
        lemma_varint_read_advances(
            bytes,
            i + 1,
            (budget - 1) as nat,
            (shift + 7) as nat,
            (acc | (((bytes[i] & 0x7f) as u32) << shift)) as u32,
        );
    }
}

/// Append the VarInt encoding of `value`.
pub fn write_varint(buf: &mut Vec<u8>, value: i32)
    ensures
        final(buf)@ == old(buf)@ + spec_varint(value as u32),
        final(buf).len() - old(buf).len() <= 5,
{
    let ghost orig: Seq<u8> = buf@;
    let ghost total: Seq<u8> = buf@ + spec_varint(value as u32);
    let mut v: u32 = value as u32;
    proof {
        lemma_varint_len(value as u32);
    }
    loop
        invariant
            total == old(buf)@ + spec_varint(value as u32),
            total.len() <= old(buf)@.len() + 5,
            total == buf@ + spec_varint(v),
        decreases v,
    {
        if v < 0x80 {
            buf.push(v as u8);
            proof {
                assert(total =~= buf@);
            }
            return;
        }
        let b: u8 = ((v & 0x7f) | 0x80) as u8;
        buf.push(b);
        proof {
            assert(v >> 7 < v) by (bit_vector)
                requires v >= 0x80;
            assert(total =~= buf@ + spec_varint(v >> 7));
        }
        v = v >> 7;
    }
}

/// A VarInt encoding is at most five bytes.
pub proof fn lemma_varint_len(v: u32)
    ensures
        1 <= spec_varint(v).len() <= 5,
{
    assert((((v >> 7) >> 7) >> 7) >> 7 < 0x80) by (bit_vector);
    if v >= 0x80 {
        assert(spec_varint(v).len() == 1 + spec_varint(v >> 7).len());
        if v >> 7 >= 0x80 {
            assert(spec_varint(v >> 7).len() == 1 + spec_varint((v >> 7) >> 7).len());
            if (v >> 7) >> 7 >= 0x80 {
                assert(spec_varint((v >> 7) >> 7).len()
                    == 1 + spec_varint(((v >> 7) >> 7) >> 7).len());
                if ((v >> 7) >> 7) >> 7 >= 0x80 {
                    assert(spec_varint(((v >> 7) >> 7) >> 7).len()
                        == 1 + spec_varint((((v >> 7) >> 7) >> 7) >> 7).len());
                    assert(spec_varint((((v >> 7) >> 7) >> 7) >> 7).len() == 1);
                }
            }
        }
    }
}

/// Read a VarInt at `pos`. Returns the value and the index after it,
/// or says exactly how the buffer was malformed.
pub fn read_varint(buf: &Vec<u8>, pos: usize) -> (r: Result<(i32, usize), BufReadError>)
    requires
        pos <= buf.len(),
    ensures
        match r {
            Ok((v, next)) => {
                &&& pos < next <= buf.len()
                &&& spec_read_varint(buf@, pos as int, 5, 0, 0)
                    == Some(((v as u32), next as int))
            },
            Err(e) => {
                &&& spec_read_varint(buf@, pos as int, 5, 0, 0) is None
                &&& e == (if spec_varint_too_long(buf@, pos as int) {
                    BufReadError::VarIntTooLong
                } else {
                    BufReadError::UnexpectedEnd
                })
            },
        },
{
    let mut k: usize = 0;
    let mut acc: u32 = 0;
    while k < 5
        invariant
            pos <= buf.len(),
            k <= 5,
            forall|m: int| 0 <= m < k ==> pos + m < buf@.len() && #[trigger] buf@[pos + m]
                >= 0x80,
            spec_read_varint(buf@, pos as int, 5, 0, 0) == spec_read_varint(
                buf@,
                pos + k,
                (5 - k) as nat,
                (7 * k) as nat,
                acc,
            ),
        decreases 5 - k,
    {
        if buf.len() - pos <= k {
            return Err(BufReadError::UnexpectedEnd);
        }
        let b = buf[pos + k];
        let acc2 = acc | (((b & 0x7f) as u32) << ((7 * k) as u32));
        if b < 0x80 {
            proof {
                assert(spec_read_varint(buf@, pos + k, (5 - k) as nat, (7 * k) as nat, acc)
                    == Some((acc2, pos + k + 1)));
                assert((acc2 as i32) as u32 == acc2) by (bit_vector);
            }
            return Ok((acc2 as i32, pos + k + 1));
        }
        proof {
            assert(spec_read_varint(buf@, pos + k, (5 - k) as nat, (7 * k) as nat, acc)
                == spec_read_varint(buf@, pos + k + 1, (5 - (k + 1)) as nat,
                    (7 * (k + 1)) as nat, acc2));
        }
        acc = acc2;
        k = k + 1;
    }
    proof {
        assert(buf@[pos + 4int] >= 0x80);
        assert(spec_read_varint(buf@, pos + 5, 0, 35, acc) is None);
        assert(spec_varint_too_long(buf@, pos as int));
    }
    Err(BufReadError::VarIntTooLong)
}

/// What decoding a VarLong at index `i` yields; as [`spec_read_varint`]
/// with a ten-byte budget.
pub open spec fn spec_read_varlong(
    bytes: Seq<u8>,
    i: int,
    budget: nat,
    shift: nat,
    acc: u64,
) -> Option<(u64, int)>
    decreases budget,
{
    if budget == 0 {
        None
    } else if i < 0 || i >= bytes.len() {
        None
    } else {
        let b = bytes[i];
        let acc2 = (acc | (((b & 0x7f) as u64) << shift)) as u64;
        if b < 0x80 {
            Some((acc2, i + 1))
        } else {
            spec_read_varlong(bytes, i + 1, (budget - 1) as nat, (shift + 7) as nat, acc2)
        }
    }
}

/// Append the VarLong encoding of `value`.
pub fn write_varlong(buf: &mut Vec<u8>, value: i64)
    ensures
        final(buf)@ == old(buf)@ + spec_varlong(value as u64),
{
    let ghost total: Seq<u8> = buf@ + spec_varlong(value as u64);
    let mut v: u64 = value as u64;
    loop
        invariant
            total == old(buf)@ + spec_varlong(value as u64),
            total == buf@ + spec_varlong(v),
        decreases v,
    {
        if v < 0x80 {
            buf.push(v as u8);
            proof {
                assert(total =~= buf@);
            }
            return;
        }
        let b: u8 = ((v & 0x7f) | 0x80) as u8;
        buf.push(b);
        proof {
            assert(v >> 7 < v) by (bit_vector)
                requires v >= 0x80u64;
            assert(total =~= buf@ + spec_varlong(v >> 7));
        }
        v = v >> 7;
    }
}

/// Read a VarLong at `pos`.
pub fn read_varlong(buf: &Vec<u8>, pos: usize) -> (r: Result<(i64, usize), BufReadError>)
    requires
        pos <= buf.len(),
    ensures
        match r {
            Ok((v, next)) => {
                &&& pos < next <= buf.len()
                &&& spec_read_varlong(buf@, pos as int, 10, 0, 0)
                    == Some(((v as u64), next as int))
            },
            Err(e) => spec_read_varlong(buf@, pos as int, 10, 0, 0) is None,
        },
{
    let mut k: usize = 0;
    let mut acc: u64 = 0;
    while k < 10
        invariant
            pos <= buf.len(),
            k <= 10,
            spec_read_varlong(buf@, pos as int, 10, 0, 0) == spec_read_varlong(
                buf@,
                pos + k,
                (10 - k) as nat,
                (7 * k) as nat,
                acc,
            ),
        decreases 10 - k,
    {
        if buf.len() - pos <= k {
            return Err(BufReadError::UnexpectedEnd);
        }
        let b = buf[pos + k];
        let acc2 = acc | (((b & 0x7f) as u64) << ((7 * k) as u64));
        if b < 0x80 {
            proof {
                assert(spec_read_varlong(buf@, pos + k, (10 - k) as nat, (7 * k) as nat, acc)
                    == Some((acc2, pos + k + 1)));
                assert((acc2 as i64) as u64 == acc2) by (bit_vector);
            }
            return Ok((acc2 as i64, pos + k + 1));
        }
        proof {
            assert(spec_read_varlong(buf@, pos + k, (10 - k) as nat, (7 * k) as nat, acc)
                == spec_read_varlong(buf@, pos + k + 1, (10 - (k + 1)) as nat,
                    (7 * (k + 1)) as nat, acc2));
        }
        acc = acc2;
        k = k + 1;
    }
    Err(BufReadError::VarIntTooLong)
}

/// Append `v` as two big-endian bytes.
pub fn write_u16_be(buf: &mut Vec<u8>, v: u16)
    ensures
        final(buf)@ == old(buf)@ + seq![(v >> 8) as u8, v as u8],
{
    buf.push((v >> 8) as u8);
    buf.push(v as u8);
    proof {
        assert(final(buf)@ =~= old(buf)@ + seq![(v >> 8) as u8, v as u8]);
    }
}

/// Read two big-endian bytes at `pos` as a `u16`.
pub fn read_u16_be(buf: &Vec<u8>, pos: usize) -> (r: Result<(u16, usize), BufReadError>)
    requires
        pos <= buf.len(),
    ensures
        match r {
            Ok((v, next)) => {
                &&& next == pos + 2 <= buf.len()
                &&& v == ((buf@[pos as int] as u16) << 8) | (buf@[pos + 1] as u16)
            },
            Err(e) => pos + 2 > buf.len() && e == BufReadError::UnexpectedEnd,
        },
{
    if buf.len() - pos < 2 {
        return Err(BufReadError::UnexpectedEnd);
    }
    let v = ((buf[pos] as u16) << 8) | (buf[pos + 1] as u16);
    Ok((v, pos + 2))
}

/// Writing a `u16` and reading it back is the identity.
pub proof fn lemma_u16_round_trip(v: u16)
    ensures
        (((((v >> 8) as u8) as u16) << 8) | ((v as u8) as u16)) == v,
{
    assert((((((v >> 8) as u8) as u16) << 8) | ((v as u8) as u16)) == v) by (bit_vector);
}

/// What reading a VarInt-length-prefixed byte string at `pos` yields,
/// under a length limit: the bytes and the index after them.
pub open spec fn spec_read_bytes(bytes: Seq<u8>, pos: int, max: int) -> Option<(
    Seq<u8>,
    int,
)> {
    match spec_read_varint(bytes, pos, 5, 0, 0) {
        Some((n, s)) => if n > 0x7fffffff || n > max || s + n > bytes.len() {
            None
        } else {
            Some((bytes.subrange(s, s + n), s + n))
        },
        None => None,
    }
}

/// The big-endian `u64` standing at `i`.
pub open spec fn spec_u64_be(bytes: Seq<u8>, i: int) -> u64 {
    (((bytes[i] as u64) << 56u64) | ((bytes[i + 1] as u64) << 48u64)
        | ((bytes[i + 2] as u64) << 40u64) | ((bytes[i + 3] as u64) << 32u64)
        | ((bytes[i + 4] as u64) << 24u64) | ((bytes[i + 5] as u64) << 16u64)
        | ((bytes[i + 6] as u64) << 8u64) | (bytes[i + 7] as u64)) as u64
}

/// Read eight big-endian bytes at `pos` as a `u64`.
pub fn read_u64_be(buf: &Vec<u8>, pos: usize) -> (r: Result<(u64, usize), BufReadError>)
    requires
        pos <= buf.len(),
    ensures
        match r {
            Ok((v, next)) => {
                &&& next == pos + 8 <= buf.len()
                &&& v == spec_u64_be(buf@, pos as int)
            },
            Err(e) => pos + 8 > buf.len() && e == BufReadError::UnexpectedEnd,
        },
{
    if buf.len() - pos < 8 {
        return Err(BufReadError::UnexpectedEnd);
    }
    let v = ((buf[pos] as u64) << 56) | ((buf[pos + 1] as u64) << 48)
        | ((buf[pos + 2] as u64) << 40) | ((buf[pos + 3] as u64) << 32)
        | ((buf[pos + 4] as u64) << 24) | ((buf[pos + 5] as u64) << 16)
        | ((buf[pos + 6] as u64) << 8) | (buf[pos + 7] as u64);
    Ok((v, pos + 8))
}

/// The eight big-endian bytes of `v`.
pub open spec fn spec_u64_be_bytes(v: u64) -> Seq<u8> {
    seq![
        (v >> 56) as u8,
        (v >> 48) as u8,
        (v >> 40) as u8,
        (v >> 32) as u8,
        (v >> 24) as u8,
        (v >> 16) as u8,
        (v >> 8) as u8,
        v as u8,
    ]
}

/// Append the eight big-endian bytes of `v`.
pub fn write_u64_be(buf: &mut Vec<u8>, v: u64)
    ensures
        final(buf)@ == old(buf)@ + spec_u64_be_bytes(v),
{
    buf.push((v >> 56) as u8);
    buf.push((v >> 48) as u8);
    buf.push((v >> 40) as u8);
    buf.push((v >> 32) as u8);
    buf.push((v >> 24) as u8);
    buf.push((v >> 16) as u8);
    buf.push((v >> 8) as u8);
    buf.push(v as u8);
    proof {
        assert(buf@ =~= old(buf)@ + spec_u64_be_bytes(v));
    }
}

/// Append `data` with its length in front as a VarInt.
pub fn write_byte_array(buf: &mut Vec<u8>, data: &Vec<u8>)
    requires
        data.len() <= 0x7fffffff,
    ensures
        final(buf)@ == old(buf)@ + spec_varint(data.len() as u32) + data@,
{
    write_varint(buf, data.len() as i32);
    let ghost mid = buf@;
    let mut i: usize = 0;
    while i < data.len()
        invariant
            i <= data.len(),
            buf@ == mid + data@.subrange(0, i as int),
            mid == old(buf)@ + spec_varint(data.len() as u32),
        decreases data.len() - i,
    {
        buf.push(data[i]);
        proof {
            assert(buf@ =~= mid + data@.subrange(0, i + 1));
        }
        i = i + 1;
    }
    proof {
        assert(data@.subrange(0, data.len() as int) =~= data@);
        assert(buf@ =~= old(buf)@ + spec_varint(data.len() as u32) + data@);
    }
}

/// The big-endian `u128` standing at `i`.
pub open spec fn spec_u128_be(bytes: Seq<u8>, i: int) -> u128 {
    (((spec_u64_be(bytes, i) as u128) << 64u128) | (spec_u64_be(bytes, i + 8) as u128))
        as u128
}

/// Read sixteen big-endian bytes at `pos` as a `u128`.
pub fn read_u128_be(buf: &Vec<u8>, pos: usize) -> (r: Result<(u128, usize), BufReadError>)
    requires
        pos <= buf.len(),
    ensures
        match r {
            Ok((v, next)) => {
                &&& next == pos + 16 <= buf.len()
                &&& v == spec_u128_be(buf@, pos as int)
            },
            Err(e) => pos + 16 > buf.len() && e == BufReadError::UnexpectedEnd,
        },
{
    if buf.len() - pos < 16 {
        return Err(BufReadError::UnexpectedEnd);
    }
    let (hi, p2) = match read_u64_be(buf, pos) {
        Ok(v) => v,
        Err(e) => {
            return Err(e);
        },
    };
    let (lo, p3) = match read_u64_be(buf, p2) {
        Ok(v) => v,
        Err(e) => {
            return Err(e);
        },
    };
    Ok((((hi as u128) << 64) | (lo as u128), p3))
}

/// Read a VarInt-length-prefixed byte string at `pos`, of at most `max_len`
/// bytes. It succeeds exactly when a well-formed, non-negative length
/// within the limit is prefixed and that many bytes follow, and each
/// fault names its error: a malformed or unsatisfiable prefix ends the
/// buffer early, an oversized length is a too-long string.
pub fn read_byte_array(buf: &Vec<u8>, pos: usize, max_len: usize) -> (r: Result<
    (Vec<u8>, usize),
    BufReadError,
>)
    requires
        pos <= buf.len(),
    ensures
        match r {
            Ok((data, next)) => {
                &&& data.len() <= max_len
                &&& data.len() <= next <= buf.len()
                &&& spec_read_varint(buf@, pos as int, 5, 0, 0)
                    == Some(((data.len() as u32), next - data@.len()))
                &&& data@ == buf@.subrange(next - data@.len(), next as int)
            },
            Err(e) => match spec_read_varint(buf@, pos as int, 5, 0, 0) {
                None => e == (if spec_varint_too_long(buf@, pos as int) {
                    BufReadError::VarIntTooLong
                } else {
                    BufReadError::UnexpectedEnd
                }),
                Some((n, start)) => {
                    if n > 0x7fffffff {
                        e == BufReadError::UnexpectedEnd
                    } else if n > max_len {
                        e == BufReadError::StringTooLong
                    } else {
                        e == BufReadError::UnexpectedEnd && start + n > buf@.len()
                    }
                },
            },
        },
{
    let (len, body_start) = match read_varint(buf, pos) {
        Ok(v) => v,
        Err(e) => {
            return Err(e);
        },
    };
    if len < 0 {
        proof {
            assert((len as u32) > 0x7fffffffu32) by (bit_vector)
                requires len < 0i32;
        }
        return Err(BufReadError::UnexpectedEnd);
    }
    proof {
        assert((len as u32) <= 0x7fffffffu32) by (bit_vector)
            requires len >= 0i32;
    }
    let len = len as usize;
    if len > max_len {
        return Err(BufReadError::StringTooLong);
    }
    if buf.len() - body_start < len {
        return Err(BufReadError::UnexpectedEnd);
    }
    let mut data: Vec<u8> = Vec::new();
    let mut i: usize = 0;
    while i < len
        invariant
            i <= len,
            body_start + len <= buf.len(),
            data@ == buf@.subrange(body_start as int, body_start + i),
        decreases len - i,
    {
        data.push(buf[body_start + i]);
        proof {
            assert(data@ =~= buf@.subrange(body_start as int, body_start + i + 1));
        }
        i = i + 1;
    }
    proof {
        assert(spec_read_varint(buf@, pos as int, 5, 0, 0)
            == Some(((data.len() as u32), body_start as int)));
    }
    Ok((data, body_start + len))
}

/// Whether a payload of `len` bytes is compressed before framing, under an
/// installed `threshold`: exactly when a threshold is installed and the
/// payload has reached it.
pub open spec fn spec_compresses(len: nat, threshold: Option<i32>) -> bool {
    match threshold {
        Some(t) => t >= 0 && len >= t,
        None => false,
    }
}

/// Frame a payload that stays uncompressed: plain `length, payload` when no
/// threshold is installed; `length, 0, payload` (a zero uncompressed-size
/// marker) below an installed threshold. A payload at or over the threshold
/// must be deflated first and framed with [`frame_compressed`]; `None` says
/// so. A payload of exactly `threshold - 1` bytes is thus framed with the
/// zero marker, and one of `threshold` bytes is not framed here at all.
pub fn frame_for_send(payload: &Vec<u8>, threshold: Option<i32>) -> (r: Option<Vec<u8>>)
    requires
        payload.len() < 0x7fffffff,
    ensures
        r is None <==> spec_compresses(payload@.len(), threshold),
        threshold is None && r is Some ==> r->0@ == spec_varint(payload.len() as u32)
            + payload@,
        threshold is Some && r is Some ==> r->0@ == spec_varint((payload.len() + 1) as u32)
            + seq![0u8] + payload@,
    {
    match threshold {
        None => {
            let mut out: Vec<u8> = Vec::new();
            write_varint(&mut out, payload.len() as i32);
            let mut i: usize = 0;
            let ghost mid = out@;
            while i < payload.len()
                invariant
                    i <= payload.len(),
                    out@ == mid + payload@.subrange(0, i as int),
                decreases payload.len() - i,
            {
                out.push(payload[i]);
                proof {
                    assert(out@ =~= mid + payload@.subrange(0, i + 1));
                }
                i = i + 1;
            }
            proof {
                assert(out@ =~= spec_varint(payload.len() as u32) + payload@);
            }
            Some(out)
        },
        Some(t) => {
            if t >= 0 && payload.len() >= t as usize {
                return None;
            }
            let mut out: Vec<u8> = Vec::new();
            write_varint(&mut out, (payload.len() + 1) as i32);
            out.push(0);
            let ghost mid = out@;
            let mut i: usize = 0;
            while i < payload.len()
                invariant
                    i <= payload.len(),
                    out@ == mid + payload@.subrange(0, i as int),
                decreases payload.len() - i,
            {
                out.push(payload[i]);
                proof {
                    assert(out@ =~= mid + payload@.subrange(0, i + 1));
                }
                i = i + 1;
            }
            proof {
                assert(out@ =~= spec_varint((payload.len() + 1) as u32) + seq![0u8]
                    + payload@);
            }
            Some(out)
        },
    }
}

/// Frame an already-deflated payload: `length, uncompressed_size, deflated`.
/// The deflating itself happens outside the library; this function only
/// builds the frame around its result.
pub fn frame_compressed(uncompressed_size: i32, deflated: &Vec<u8>) -> (r: Vec<u8>)
    requires
        uncompressed_size > 0,
        deflated.len() + 5 < 0x7fffffff,
    ensures
        r@ == spec_varint((spec_varint(uncompressed_size as u32).len() + deflated@.len())
            as u32) + spec_varint(uncompressed_size as u32) + deflated@,
{
    let mut body: Vec<u8> = Vec::new();
    write_varint(&mut body, uncompressed_size);
    let mut out: Vec<u8> = Vec::new();
    write_varint(&mut out, (body.len() + deflated.len()) as i32);
    let ghost header = out@;
    let mut i: usize = 0;
    while i < body.len()
        invariant
            i <= body.len(),
            out@ == header + body@.subrange(0, i as int),
        decreases body.len() - i,
    {
        out.push(body[i]);
        proof {
            assert(out@ =~= header + body@.subrange(0, i + 1));
        }
        i = i + 1;
    }
    proof {
        assert(out@ =~= header + body@);
    }
    let ghost mid = out@;
    let mut j: usize = 0;
    while j < deflated.len()
        invariant
            j <= deflated.len(),
            out@ == mid + deflated@.subrange(0, j as int),
        decreases deflated.len() - j,
    {
        out.push(deflated[j]);
        proof {
            assert(out@ =~= mid + deflated@.subrange(0, j + 1));
        }
        j = j + 1;
    }
    proof {
        assert(out@ =~= spec_varint((spec_varint(uncompressed_size as u32).len()
            + deflated@.len()) as u32) + spec_varint(uncompressed_size as u32) + deflated@);
    }
    out
}

/// Split an inbound frame body under an installed threshold: the leading
/// VarInt is the uncompressed size, zero marking an uncompressed payload.
/// Returns the size for a deflated payload (the inflating happens outside
/// the library) or nothing for a plain one, with the payload bytes, and
/// fails exactly when the marker is malformed or negative.
pub fn split_compressed_body(body: &Vec<u8>) -> (r: Result<
    (Option<i32>, Vec<u8>),
    BufReadError,
>)
    ensures
        match r {
            Ok((marker, data)) => {
                &&& spec_read_varint(body@, 0, 5, 0, 0) matches Some((us, start)) && us
                    <= 0x7fffffff && data@ == body@.subrange(start, body@.len() as int)
                    && marker == (if us == 0 {
                    Option::<i32>::None
                } else {
                    Some(us as i32)
                })
            },
            Err(e) => !(spec_read_varint(body@, 0, 5, 0, 0) matches Some(p)
                && p.0 <= 0x7fffffff),
        },
{
    let (size, start) = match read_varint(body, 0) {
        Ok(v) => v,
        Err(e) => {
            return Err(e);
        },
    };
    if size < 0 {
        proof {
            assert((size as u32) > 0x7fffffffu32) by (bit_vector)
                requires size < 0i32;
        }
        return Err(BufReadError::InvalidTag);
    }
    proof {
        assert((size as u32) <= 0x7fffffffu32) by (bit_vector)
            requires size >= 0i32;
    }
    let mut data: Vec<u8> = Vec::new();
    let mut i: usize = start;
    while i < body.len()
        invariant
            start <= i <= body.len(),
            data@ =~= body@.subrange(start as int, i as int),
        decreases body.len() - i,
    {
        data.push(body[i]);
        proof {
            assert(data@ =~= body@.subrange(start as int, i + 1));
        }
        i = i + 1;
    }
    if size == 0 {
        Ok((None, data))
    } else {
        Ok((Some(size), data))
    }
}

/// Reading right after writing gives the value back: decoding a buffer that
/// starts with the encoding of `v` yields `v` and stops right after it,
/// whatever follows. The `u32` values here stand for all of `[-2^31, 2^31)`
/// through the usual two's-complement cast.
pub proof fn lemma_varint_round_trip(v: u32, rest: Seq<u8>)
    ensures
        spec_read_varint(spec_varint(v) + rest, 0, 5, 0, 0)
            == Some((v, spec_varint(v).len() as int)),
{
    lemma_varint_len(v);
    let bytes = spec_varint(v) + rest;
    assert forall|k: int| 0 <= k < spec_varint(v).len() implies #[trigger] bytes[k]
        == spec_varint(v)[k] by {}
    lemma_varint_read_back(bytes, 0, v, 5, 0, 0);
    assert((0u32 | (v << 0u32)) as u32 == v) by (bit_vector);
}

/// Decoding continued at bit `shift` over the encoding of `v` accumulates
/// `v`'s bits above the ones already in `acc`.
proof fn lemma_varint_read_back(bytes: Seq<u8>, i: int, v: u32, budget: nat, shift: nat, acc: u32)
    requires
        1 <= budget <= 5,
        spec_varint(v).len() <= budget,
        shift == 7 * (5 - budget),
        0 <= i,
        i + spec_varint(v).len() <= bytes.len(),
        forall|k: int| 0 <= k < spec_varint(v).len() ==> #[trigger] bytes[i + k]
            == spec_varint(v)[k],
        budget == 4 ==> v < 0x2000000,
        budget == 3 ==> v < 0x40000,
        budget == 2 ==> v < 0x800,
        budget == 1 ==> v < 0x10,
    ensures
        spec_read_varint(bytes, i, budget, shift, acc)
            == Some(((acc | (v << shift)) as u32, i + spec_varint(v).len())),
    decreases budget,
{
    let b0 = bytes[i];
    if v < 0x80 {
        assert(bytes[i + 0int] == spec_varint(v)[0]);
        assert(b0 == v as u8);
        assert(((v as u8) < 0x80) && (((v as u8) & 0x7f) as u32 == v)) by (bit_vector)
            requires v < 0x80;
        assert(spec_read_varint(bytes, i, budget, shift, acc)
            == Some(((acc | (((b0 & 0x7f) as u32) << shift)) as u32, i + 1)));
    } else {
        assert(spec_varint(v) == seq![((v & 0x7f) | 0x80) as u8] + spec_varint(v >> 7));
        assert(bytes[i + 0int] == spec_varint(v)[0]);
        assert(b0 == ((v & 0x7f) | 0x80) as u8);
        assert(((v & 0x7f) | 0x80) as u8 >= 0x80) by (bit_vector);
        let acc2 = (acc | (((b0 & 0x7f) as u32) << shift)) as u32;
        assert(spec_read_varint(bytes, i, budget, shift, acc)
            == spec_read_varint(bytes, i + 1, (budget - 1) as nat, (shift + 7) as nat, acc2));
        assert forall|k: int| 0 <= k < spec_varint(v >> 7).len()
            implies #[trigger] bytes[i + 1 + k] == spec_varint(v >> 7)[k] by {
            assert(bytes[i + (k + 1)] == spec_varint(v)[k + 1]);
        }
        assert(v >> 7 < 0x2000000) by (bit_vector);
        if budget == 4 {
            assert(v >> 7 < 0x40000) by (bit_vector)
                requires v < 0x2000000u32;
        }
        if budget == 3 {
            assert(v >> 7 < 0x800) by (bit_vector)
                requires v < 0x40000u32;
        }
        if budget == 2 {
            assert(v >> 7 < 0x10) by (bit_vector)
                requires v < 0x800u32;
        }
        lemma_varint_read_back(bytes, i + 1, v >> 7, (budget - 1) as nat, (shift + 7) as nat,
            acc2);
        let combined = (acc2 | ((v >> 7) << (shift + 7) as nat)) as u32;
        if budget == 5 {
            assert(((acc | (((((v & 0x7f) | 0x80) as u8) & 0x7f) as u32) << 0u32) as u32
                | ((v >> 7) << 7u32)) as u32 == (acc | (v << 0u32)) as u32) by (bit_vector);
        } else if budget == 4 {
            assert(((acc | (((((v & 0x7f) | 0x80) as u8) & 0x7f) as u32) << 7u32) as u32
                | ((v >> 7) << 14u32)) as u32 == (acc | (v << 7u32)) as u32) by (bit_vector)
                requires v < 0x2000000u32;
        } else if budget == 3 {
            assert(((acc | (((((v & 0x7f) | 0x80) as u8) & 0x7f) as u32) << 14u32) as u32
                | ((v >> 7) << 21u32)) as u32 == (acc | (v << 14u32)) as u32) by (bit_vector)
                requires v < 0x40000u32;
        } else if budget == 2 {
            assert(((acc | (((((v & 0x7f) | 0x80) as u8) & 0x7f) as u32) << 21u32) as u32
                | ((v >> 7) << 28u32)) as u32 == (acc | (v << 21u32)) as u32) by (bit_vector)
                requires v < 0x800u32;
        } else {
            assert(spec_varint(v >> 7).len() >= 1);
            assert(false);
        }
        assert(combined == (acc | (v << shift)) as u32);
    }
}

} // verus!

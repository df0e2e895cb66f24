//! The session hash of the credentials exchange: the SHA-1 digest of the
//! server id, the shared secret and the server's public key, rendered as
//! Minecraft's signed big-endian hex text. The digest comes from an
//! outside hasher; the rendering is this module's own and is exact.

use sha1::Digest;
use vstd::prelude::*;

verus! {

/// The SHA-1 digest of `data`: named, not stated.
pub uninterp spec fn sha1_of(data: Seq<u8>) -> Seq<u8>;

/// Relies on sha1::Sha1 through its Digest impl: the digest depends on
/// the input bytes alone and is twenty bytes long.
#[verifier::external_body]
fn sha1_digest(data: &Vec<u8>) -> (r: Vec<u8>)
    ensures
        r@ == sha1_of(data@),
        r@.len() == 20,
{
    let mut hasher = sha1::Sha1::new();
    hasher.update(data.as_slice());
    hasher.finalize().to_vec()
}

/// The ASCII hex digit for a value below sixteen, lower case.
pub open spec fn spec_hex_char(v: u8) -> u8 {
    if v < 10 {
        (48 + v) as u8
    } else {
        (87 + v) as u8
    }
}

/// The two ASCII hex digits of one byte.
pub open spec fn spec_hex_pair(b: u8) -> Seq<u8> {
    seq![spec_hex_char(b / 16), spec_hex_char(b % 16)]
}

/// The ASCII hex rendering of `s`, two digits a byte, in order.
pub open spec fn spec_hex_of_bytes(s: Seq<u8>) -> Seq<u8>
    decreases s.len(),
{
    if s.len() == 0 {
        Seq::empty()
    } else {
        spec_hex_of_bytes(s.drop_last()) + spec_hex_pair(s.last())
    }
}

/// Every byte of `s` inverted.
pub open spec fn spec_invert_bytes(s: Seq<u8>) -> Seq<u8> {
    s.map(|i: int, b: u8| (0xff - b) as u8)
}

/// The two's complement negation of `s` at its own width: from the right,
/// zero bytes stay zero under the carry, the rightmost nonzero byte is
/// subtracted from 256, and the rest are inverted.
pub open spec fn spec_negate_bytes(s: Seq<u8>) -> Seq<u8>
    decreases s.len(),
{
    if s.len() == 0 {
        Seq::empty()
    } else if s.last() == 0 {
        spec_negate_bytes(s.drop_last()).push(0)
    } else {
        spec_invert_bytes(s.drop_last()).push((256 - s.last()) as u8)
    }
}

/// `text` with its leading zero digits dropped, one digit kept at least.
pub open spec fn spec_strip_zeros(text: Seq<u8>) -> Seq<u8>
    decreases text.len(),
{
    if text.len() <= 1 {
        text
    } else if text[0] == 48 {
        spec_strip_zeros(text.subrange(1, text.len() as int))
    } else {
        text
    }
}

/// Minecraft's rendering of a digest: the big-endian bytes read as a
/// signed number, written as minimal lower-case hex with a leading minus
/// for a negative value.
pub open spec fn spec_signed_hex(digest: Seq<u8>) -> Seq<u8> {
    if digest[0] < 0x80 {
        spec_strip_zeros(spec_hex_of_bytes(digest))
    } else {
        seq![45u8] + spec_strip_zeros(spec_hex_of_bytes(spec_negate_bytes(digest)))
    }
}

/// One lower-case hex digit.
fn hex_char(v: u8) -> (r: u8)
    requires
        v < 16,
    ensures
        r == spec_hex_char(v),
{
    if v < 10 {
        48 + v
    } else {
        87 + v
    }
}

/// The hex rendering of `bytes`, two digits a byte.
fn hex_of_bytes(bytes: &Vec<u8>) -> (r: Vec<u8>)
    ensures
        r@ == spec_hex_of_bytes(bytes@),
        r@.len() == 2 * bytes@.len(),
{
    let mut r: Vec<u8> = Vec::new();
    let mut i: usize = 0;
    while i < bytes.len()
        invariant
            i <= bytes.len(),
            r@ =~= spec_hex_of_bytes(bytes@.subrange(0, i as int)),
            r@.len() == 2 * i,
        decreases bytes.len() - i,
    {
        let b = bytes[i];
        r.push(hex_char(b / 16));
        r.push(hex_char(b % 16));
        proof {
            let pre = bytes@.subrange(0, i + 1);
            assert(pre.drop_last() =~= bytes@.subrange(0, i as int));
            assert(pre.last() == bytes@[i as int]);
            assert(r@ =~= spec_hex_of_bytes(pre));
        }
        i = i + 1;
    }
    proof {
        assert(bytes@.subrange(0, bytes@.len() as int) =~= bytes@);
    }
    r
}

/// Drop the leading zero digits, keeping one digit at least.
fn strip_zeros(text: &Vec<u8>) -> (r: Vec<u8>)
    requires
        text.len() >= 1,
    ensures
        r@ == spec_strip_zeros(text@),
        r@.len() >= 1,
{
    let n = text.len();
    proof {
        assert(text@.subrange(0, n as int) =~= text@);
    }
    let mut j: usize = 0;
    while j + 1 < n && text[j] == 48
        invariant
            j < n == text.len(),
            spec_strip_zeros(text@) == spec_strip_zeros(text@.subrange(j as int, n as int)),
        decreases n - j,
    {
        proof {
            let cur = text@.subrange(j as int, n as int);
            assert(cur[0] == 48 && cur.len() > 1);
            assert(cur.subrange(1, cur.len() as int) =~= text@.subrange(j + 1, n as int));
        }
        j = j + 1;
    }
    let mut r: Vec<u8> = Vec::new();
    let mut i: usize = j;
    while i < n
        invariant
            j <= i <= n == text.len(),
            r@ =~= text@.subrange(j as int, i as int),
        decreases n - i,
    {
        r.push(text[i]);
        proof {
            assert(r@ =~= text@.subrange(j as int, i + 1));
        }
        i = i + 1;
    }
    proof {
        let rest = text@.subrange(j as int, n as int);
        assert(rest.len() <= 1 || rest[0] != 48);
        assert(spec_strip_zeros(rest) == rest);
    }
    r
}

/// The split shape of a negation: inverted bytes, then the subtracted
/// rightmost nonzero byte, then the zeros the carry ran through.
proof fn lemma_negate_split(s: Seq<u8>, k: int)
    requires
        0 <= k < s.len(),
        s[k] != 0,
        forall|j: int| k < j < s.len() ==> s[j] == 0,
    ensures
        spec_negate_bytes(s) =~= spec_invert_bytes(s.subrange(0, k)) + seq![
            (256 - s[k]) as u8,
        ] + Seq::new((s.len() - 1 - k) as nat, |i: int| 0u8),
    decreases s.len(),
{
    if k == s.len() - 1 {
        assert(s.last() == s[k]);
        assert(s.drop_last() =~= s.subrange(0, k));
    } else {
        assert(s.last() == 0);
        lemma_negate_split(s.drop_last(), k);
        assert(s.drop_last().subrange(0, k) =~= s.subrange(0, k));
        assert(s.drop_last()[k] == s[k]);
    }
}

/// The two's complement negation of `digest` at its own width.
fn negate_bytes(digest: &Vec<u8>) -> (r: Vec<u8>)
    requires
        digest.len() >= 1,
        digest[0] != 0,
    ensures
        r@ == spec_negate_bytes(digest@),
        r@.len() == digest@.len(),
{
    let n = digest.len();
    let mut k: usize = n - 1;
    while digest[k] == 0
        invariant
            k < n == digest.len(),
            digest@[0] != 0,
            forall|j: int| k < j < n ==> digest@[j] == 0,
        decreases k,
    {
        k = k - 1;
    }
    let mut r: Vec<u8> = Vec::new();
    let mut i: usize = 0;
    while i < k
        invariant
            i <= k < n == digest.len(),
            r@.len() == i,
            forall|j: int| 0 <= j < i ==> r@[j] == (0xff - digest@[j]) as u8,
        decreases k - i,
    {
        r.push(0xff - digest[i]);
        i = i + 1;
    }
    r.push((255 - digest[k]) + 1);
    let mut i: usize = k + 1;
    while i < n
        invariant
            k + 1 <= i <= n == digest.len(),
            r@.len() == i,
            forall|j: int| 0 <= j < k ==> r@[j] == (0xff - digest@[j]) as u8,
            r@[k as int] == (256 - digest@[k as int]) as u8,
            forall|j: int| k < j < i ==> r@[j] == 0,
        decreases n - i,
    {
        r.push(0);
        i = i + 1;
    }
    proof {
        lemma_negate_split(digest@, k as int);
        assert(r@ =~= spec_invert_bytes(digest@.subrange(0, k as int)) + seq![
            (256 - digest@[k as int]) as u8,
        ] + Seq::new((digest@.len() - 1 - k) as nat, |i: int| 0u8));
    }
    r
}

/// Render a digest as Minecraft's signed big-endian hex text.
pub fn hex_digest(digest: &Vec<u8>) -> (r: Vec<u8>)
    requires
        digest.len() >= 1,
    ensures
        r@ == spec_signed_hex(digest@),
{
    if digest[0] < 0x80 {
        let hex = hex_of_bytes(digest);
        strip_zeros(&hex)
    } else {
        let neg = negate_bytes(digest);
        let hex = hex_of_bytes(&neg);
        let stripped = strip_zeros(&hex);
        let mut r: Vec<u8> = Vec::new();
        r.push(45);
        let mut i: usize = 0;
        while i < stripped.len()
            invariant
                i <= stripped.len(),
                r@ =~= seq![45u8] + stripped@.subrange(0, i as int),
            decreases stripped.len() - i,
        {
            r.push(stripped[i]);
            proof {
                assert(r@ =~= seq![45u8] + stripped@.subrange(0, i + 1));
            }
            i = i + 1;
        }
        proof {
            assert(stripped@.subrange(0, stripped@.len() as int) =~= stripped@);
        }
        r
    }
}

/// The session hash the credentials exchange sends to the session server:
/// the SHA-1 digest of the server id, the shared secret and the server's
/// public key in that order, rendered as signed hex.
pub fn server_session_hash(
    server_id: &Vec<u8>,
    shared_secret: &Vec<u8>,
    public_key: &Vec<u8>,
) -> (r: Vec<u8>)
    ensures
        r@ == spec_signed_hex(sha1_of(server_id@ + shared_secret@ + public_key@)),
{
    let mut data: Vec<u8> = Vec::new();
    append_bytes(&mut data, server_id);
    append_bytes(&mut data, shared_secret);
    append_bytes(&mut data, public_key);
    proof {
        assert(data@ =~= server_id@ + shared_secret@ + public_key@);
    }
    let digest = sha1_digest(&data);
    hex_digest(&digest)
}

/// Append every byte of `src`.
fn append_bytes(dst: &mut Vec<u8>, src: &Vec<u8>)
    ensures
        final(dst)@ == old(dst)@ + src@,
{
    let mut i: usize = 0;
    while i < src.len()
        invariant
            i <= src.len(),
            dst@ =~= old(dst)@ + src@.subrange(0, i as int),
        decreases src.len() - i,
    {
        dst.push(src[i]);
        proof {
            assert(dst@ =~= old(dst)@ + src@.subrange(0, i + 1));
        }
        i = i + 1;
    }
    proof {
        assert(src@.subrange(0, src@.len() as int) =~= src@);
    }
}

} // verus!

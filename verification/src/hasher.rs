//! Content-identity hash of a file.
//!
//! A file is identified by its size, its modification time, its first bytes
//! and, if it is large enough, its last bytes. These are laid out as one
//! message whose SHA-256 digest, in lowercase hexadecimal, is the identity.

use sha2::{Digest, Sha256};
use vstd::prelude::*;

verus! {

/// Number of bytes sampled at either end of a file.
pub const SAMPLE_BYTES: u64 = 8192;

/// Files larger than this many bytes are also sampled at their end.
pub const TAIL_THRESHOLD: u64 = 16384;

/// The SHA-256 digest of `data`, written as 64 lowercase hexadecimal digits.
pub uninterp spec fn sha256_hex(data: Seq<u8>) -> Seq<char>;

/// `Sha256::digest` followed by the `LowerHex` formatting of its output: the
/// SHA-256 digest of `data` in lowercase hexadecimal.
#[verifier::external_body]
fn sha256_hex_digest(data: &Vec<u8>) -> (hex: String)
    ensures
        hex@ == sha256_hex(data@),
{
    format!("{:x}", Sha256::digest(data))
}

/// The SHA-256 digest of `data` in lowercase hexadecimal.
pub fn compute_sha256(data: &Vec<u8>) -> (digest: String)
    ensures
        digest@ == sha256_hex(data@),
{
    sha256_hex_digest(data)
}

/// The `count` low bytes of `value`, least significant first.
pub open spec fn little_endian(value: nat, count: nat) -> Seq<u8>
    decreases count,
{
    if count == 0 {
        Seq::empty()
    } else {
        seq![(value % 256) as u8] + little_endian(value / 256, (count - 1) as nat)
    }
}

/// Number of bytes sampled at the start of a file of `size` bytes.
pub open spec fn head_length(size: nat) -> nat {
    if size < SAMPLE_BYTES {
        size
    } else {
        SAMPLE_BYTES as nat
    }
}

/// Number of bytes sampled at the end of a file of `size` bytes.
pub open spec fn tail_length(size: nat) -> nat {
    if size > TAIL_THRESHOLD {
        SAMPLE_BYTES as nat
    } else {
        0
    }
}

/// The message that identifies a file: size and modification time, each as
/// eight little-endian bytes, then the sampled bytes of the start and of the
/// end.
pub open spec fn identity_message(size: nat, mtime: nat, head: Seq<u8>, tail: Seq<u8>) -> Seq<u8> {
    little_endian(size, 8) + little_endian(mtime, 8) + head + tail
}

/// The identity of a file.
pub open spec fn identity_hash(size: nat, mtime: nat, head: Seq<u8>, tail: Seq<u8>) -> Seq<char> {
    sha256_hex(identity_message(size, mtime, head, tail))
}

/// Number of bytes to read from the start of a file of `size` bytes.
pub fn head_sample_length(size: u64) -> (length: u64)
    ensures
        length == head_length(size as nat),
{
    if size < SAMPLE_BYTES {
        size
    } else {
        SAMPLE_BYTES
    }
}

/// Number of bytes to read from the end of a file of `size` bytes.
pub fn tail_sample_length(size: u64) -> (length: u64)
    ensures
        length == tail_length(size as nat),
{
    if size > TAIL_THRESHOLD {
        SAMPLE_BYTES
    } else {
        0
    }
}

/// Appends the eight little-endian bytes of `value`.
fn push_little_endian(out: &mut Vec<u8>, value: u64)
    ensures
        final(out)@ == old(out)@ + little_endian(value as nat, 8),
{
    let mut rest = value;
    let mut i: usize = 0;
    assert(little_endian(value as nat, 0) =~= Seq::<u8>::empty());
    while i < 8
        invariant
            i <= 8,
            out@ + little_endian(rest as nat, (8 - i) as nat) == old(out)@ + little_endian(
                value as nat,
                8,
            ),
        decreases 8 - i,
    {
        let ghost before = out@;
        out.push((rest % 256) as u8);
        assert(before + (seq![(rest % 256) as u8] + little_endian(
            (rest / 256) as nat,
            (8 - i - 1) as nat,
        )) =~= out@ + little_endian((rest / 256) as nat, (8 - i - 1) as nat));
        rest = rest / 256;
        i += 1;
    }
    assert(out@ + Seq::<u8>::empty() =~= out@);
}

/// Appends `bytes`.
fn push_bytes(out: &mut Vec<u8>, bytes: &Vec<u8>)
    ensures
        final(out)@ == old(out)@ + bytes@,
{
    let mut i: usize = 0;
    while i < bytes.len()
        invariant
            i <= bytes.len(),
            out@ == old(out)@ + bytes@.take(i as int),
        decreases bytes.len() - i,
    {
        out.push(bytes[i]);
        i += 1;
        assert(out@ =~= old(out)@ + bytes@.take(i as int));
    }
    assert(bytes@.take(i as int) =~= bytes@);
}

/// The message that identifies a file.
pub fn build_identity_message(size: u64, mtime: u64, head: &Vec<u8>, tail: &Vec<u8>) -> (message:
    Vec<u8>)
    ensures
        message@ == identity_message(size as nat, mtime as nat, head@, tail@),
{
    let mut message: Vec<u8> = Vec::new();
    push_little_endian(&mut message, size);
    push_little_endian(&mut message, mtime);
    push_bytes(&mut message, head);
    push_bytes(&mut message, tail);
    assert(message@ =~= identity_message(size as nat, mtime as nat, head@, tail@));
    message
}

/// Computes the identity of a file from its size, its modification time in
/// seconds since the epoch, and the bytes sampled at its start and its end.
pub fn compute_file_hash(size: u64, mtime: u64, head: &Vec<u8>, tail: &Vec<u8>) -> (hash: String)
    ensures
        hash@ == identity_hash(size as nat, mtime as nat, head@, tail@),
{
    let message = build_identity_message(size, mtime, head, tail);
    sha256_hex_digest(&message)
}

/// Eight little-endian bytes determine the value below `2^64` that they stand for.
pub proof fn lemma_little_endian_injective(a: nat, b: nat, count: nat)
    requires
        little_endian(a, count) == little_endian(b, count),
    ensures
        a % pow256(count) == b % pow256(count),
    decreases count,
{
    if count > 0 {
        let rest_a = little_endian(a / 256, (count - 1) as nat);
        let rest_b = little_endian(b / 256, (count - 1) as nat);
        let first_a = seq![(a % 256) as u8];
        let first_b = seq![(b % 256) as u8];
        lemma_little_endian_length(a / 256, (count - 1) as nat);
        lemma_little_endian_length(b / 256, (count - 1) as nat);
        assert((first_a + rest_a)[0] == (first_b + rest_b)[0]);
        assert(a % 256 == b % 256);
        assert(rest_a =~= (first_a + rest_a).skip(1));
        assert(rest_b =~= (first_b + rest_b).skip(1));
        lemma_little_endian_injective(a / 256, b / 256, (count - 1) as nat);
        let p = pow256((count - 1) as nat);
        lemma_pow256_positive((count - 1) as nat);
        vstd::arithmetic::div_mod::lemma_mod_breakdown(a as int, 256, p as int);
        vstd::arithmetic::div_mod::lemma_mod_breakdown(b as int, 256, p as int);
    }
}

/// 256 to the power `exponent`.
pub open spec fn pow256(exponent: nat) -> nat
    decreases exponent,
{
    if exponent == 0 {
        1
    } else {
        256 * pow256((exponent - 1) as nat)
    }
}

/// Powers of 256 are positive.
proof fn lemma_pow256_positive(exponent: nat)
    ensures
        pow256(exponent) > 0,
    decreases exponent,
{
    if exponent > 0 {
        lemma_pow256_positive((exponent - 1) as nat);
    }
}

/// `little_endian` yields as many bytes as it is asked for.
pub proof fn lemma_little_endian_length(value: nat, count: nat)
    ensures
        little_endian(value, count).len() == count,
    decreases count,
{
    if count > 0 {
        lemma_little_endian_length(value / 256, (count - 1) as nat);
    }
}

/// Hash stability, as far as it is a matter of this library: two files that
/// differ in size, in modification time or in a sampled byte are identified
/// by different messages. That the digests of different messages differ is
/// the collision resistance of SHA-256 and is not claimed here.
pub proof fn lemma_identity_message_injective(
    size_a: u64,
    mtime_a: u64,
    head_a: Seq<u8>,
    tail_a: Seq<u8>,
    size_b: u64,
    mtime_b: u64,
    head_b: Seq<u8>,
    tail_b: Seq<u8>,
)
    requires
        head_a.len() == head_length(size_a as nat),
        tail_a.len() == tail_length(size_a as nat),
        head_b.len() == head_length(size_b as nat),
        tail_b.len() == tail_length(size_b as nat),
        identity_message(size_a as nat, mtime_a as nat, head_a, tail_a) == identity_message(
            size_b as nat,
            mtime_b as nat,
            head_b,
            tail_b,
        ),
    ensures
        size_a == size_b,
        mtime_a == mtime_b,
        head_a == head_b,
        tail_a == tail_b,
{
    let ma = identity_message(size_a as nat, mtime_a as nat, head_a, tail_a);
    let mb = identity_message(size_b as nat, mtime_b as nat, head_b, tail_b);
    lemma_little_endian_length(size_a as nat, 8);
    lemma_little_endian_length(mtime_a as nat, 8);
    lemma_little_endian_length(size_b as nat, 8);
    lemma_little_endian_length(mtime_b as nat, 8);
    assert(little_endian(size_a as nat, 8) =~= ma.subrange(0, 8));
    assert(little_endian(size_b as nat, 8) =~= mb.subrange(0, 8));
    assert(little_endian(mtime_a as nat, 8) =~= ma.subrange(8, 16));
    assert(little_endian(mtime_b as nat, 8) =~= mb.subrange(8, 16));
    lemma_little_endian_injective(size_a as nat, size_b as nat, 8);
    lemma_little_endian_injective(mtime_a as nat, mtime_b as nat, 8);
    lemma_pow256_eight();
    assert(size_a == size_b);
    assert(mtime_a == mtime_b);
    assert(head_a =~= ma.subrange(16, 16 + head_a.len() as int));
    assert(head_b =~= mb.subrange(16, 16 + head_b.len() as int));
    assert(tail_a =~= ma.subrange(16 + head_a.len() as int, ma.len() as int));
    assert(tail_b =~= mb.subrange(16 + head_b.len() as int, mb.len() as int));
}

/// 256 to the eighth power is `2^64`.
proof fn lemma_pow256_eight()
    ensures
        pow256(8) == 0x1_0000_0000_0000_0000,
{
    assert(pow256(0) == 1);
    assert(pow256(1) == 0x100);
    assert(pow256(2) == 0x1_0000);
    assert(pow256(3) == 0x100_0000);
    assert(pow256(4) == 0x1_0000_0000);
    assert(pow256(5) == 0x100_0000_0000);
    assert(pow256(6) == 0x1_0000_0000_0000);
    assert(pow256(7) == 0x100_0000_0000_0000);
}

/// Hash stability: the identity is a function of size, modification time
/// and sampled bytes, so a file that is read twice without a change in any of
/// them has the same identity both times.
pub proof fn lemma_identity_is_stable(
    size: u64,
    mtime: u64,
    head_first: Seq<u8>,
    tail_first: Seq<u8>,
    head_second: Seq<u8>,
    tail_second: Seq<u8>,
)
    requires
        head_first == head_second,
        tail_first == tail_second,
    ensures
        identity_hash(size as nat, mtime as nat, head_first, tail_first) == identity_hash(
            size as nat,
            mtime as nat,
            head_second,
            tail_second,
        ),
{
}

} // verus!

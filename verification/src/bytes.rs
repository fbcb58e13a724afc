//! Byte buffers, lowercase hex and SHA-256.

use vstd::prelude::*;
use sha2::Digest;
use crate::text::push_char;

verus! {

/// Appends `b` to `buf`.
pub fn append_bytes(buf: &mut Vec<u8>, b: &[u8])
    ensures
        final(buf)@ == old(buf)@ + b@,
{
    let mut i: usize = 0;
    while i < b.len()
        invariant
            i <= b@.len(),
            buf@ == old(buf)@ + b@.subrange(0, i as int),
        decreases b@.len() - i,
    {
        buf.push(b[i]);
        assert(b@.subrange(0, i + 1) =~= b@.subrange(0, i as int).push(b@[i as int]));
        i = i + 1;
    }
    assert(b@.subrange(0, b@.len() as int) =~= b@);
}

/// The lowercase hex digit for a nibble `d < 16`.
pub open spec fn hex_char(d: nat) -> char {
    if d < 10 {
        ((('0' as u32) + d) as u32) as char
    } else {
        ((('a' as u32) + (d - 10)) as u32) as char
    }
}

/// Two lowercase hex digits per byte, high nibble first, as `{:x}` prints a digest.
pub open spec fn hex_lower(b: Seq<u8>) -> Seq<char>
    decreases b.len(),
{
    if b.len() == 0 {
        Seq::empty()
    } else {
        hex_lower(b.drop_last()).push(hex_char((b.last() / 16) as nat)).push(hex_char((b.last() % 16) as nat))
    }
}

fn nibble_char(d: u8) -> (c: char)
    requires
        d < 16,
    ensures
        c == hex_char(d as nat),
{
    if d < 10 {
        (48 + d) as char
    } else {
        (97 + (d - 10)) as char
    }
}

/// Lowercase hex text of `b`.
pub fn to_hex_lower(b: &[u8]) -> (r: String)
    ensures
        r@ == hex_lower(b@),
        r@.len() == 2 * b@.len(),
{
    let mut r = String::new();
    let mut i: usize = 0;
    while i < b.len()
        invariant
            i <= b@.len(),
            r@ == hex_lower(b@.subrange(0, i as int)),
            r@.len() == 2 * i,
        decreases b@.len() - i,
    {
        let x = b[i];
        push_char(&mut r, nibble_char(x / 16));
        push_char(&mut r, nibble_char(x % 16));
        assert(b@.subrange(0, i + 1).drop_last() =~= b@.subrange(0, i as int));
        i = i + 1;
    }
    assert(b@.subrange(0, b@.len() as int) =~= b@);
    r
}

/// The SHA-256 digest of a byte sequence.
pub uninterp spec fn sha256_digest(data: Seq<u8>) -> Seq<u8>;

/// `sha2::Sha256::digest`: a 32-byte digest that depends on the input bytes alone.
#[verifier::external_body]
pub(crate) fn sha256(data: &[u8]) -> (r: Vec<u8>)
    ensures
        r@ == sha256_digest(data@),
        r@.len() == 32,
{
    sha2::Sha256::digest(data).to_vec()
}

/// `u32::to_ne_bytes`: four bytes in the machine's byte order.
#[verifier::external_body]
pub(crate) fn u32_ne_bytes(x: u32) -> (r: Vec<u8>)
    ensures
        r@.len() == 4,
{
    x.to_ne_bytes().to_vec()
}

/// `usize::to_ne_bytes`: the machine's width and byte order.
#[verifier::external_body]
pub(crate) fn usize_ne_bytes(x: usize) -> (r: Vec<u8>)
    ensures
        r@.len() == 4 || r@.len() == 8,
{
    x.to_ne_bytes().to_vec()
}

} // verus!

verus! {

/// One bit of the reflected CRC-32 (IEEE) register update, polynomial 0xEDB88320.
pub open spec fn crc_bit(c: u32) -> u32 {
    if c & 1 == 1 { (c >> 1) ^ 0xEDB8_8320u32 } else { c >> 1 }
}

/// The register after folding in one byte: eight bit steps.
pub open spec fn crc_byte(c: u32, b: u8) -> u32 {
    crc_bit(crc_bit(crc_bit(crc_bit(crc_bit(crc_bit(crc_bit(crc_bit(c ^ (b as u32)))))))))
}

/// The register after the bytes, starting from all ones.
pub open spec fn crc_register(data: Seq<u8>) -> u32
    decreases data.len(),
{
    if data.len() == 0 { 0xFFFF_FFFFu32 } else { crc_byte(crc_register(data.drop_last()), data.last()) }
}

/// The CRC-32 (IEEE) checksum of a byte sequence: the final register inverted.
pub open spec fn crc32_of(data: Seq<u8>) -> u32 {
    crc_register(data) ^ 0xFFFF_FFFFu32
}

/// `crc32fast::hash`: the standard CRC-32 (IEEE, reflected, initial and final
/// value all ones) of the bytes.
#[verifier::external_body]
pub(crate) fn crc32(data: &[u8]) -> (r: u32)
    ensures
        r == crc32_of(data@),
{
    crc32fast::hash(data)
}

/// Lowercase hex digits of `x` without leading zeros, as `{:x}` prints an integer.
pub open spec fn hex_digits(x: nat) -> Seq<char>
    decreases x,
{
    if x < 16 {
        seq![hex_char(x)]
    } else {
        hex_digits(x / 16).push(hex_char(x % 16))
    }
}

/// `format!("{:x}", x)`.
pub fn hex_string(x: u32) -> (r: String)
    ensures
        r@ == hex_digits(x as nat),
{
    let mut digits: Vec<char> = Vec::new();
    let mut cur = x;
    while cur >= 16
        invariant
            hex_digits(x as nat) == hex_digits(cur as nat) + digits@,
        decreases cur,
    {
        let c = nibble_char((cur % 16) as u8);
        let mut next: Vec<char> = Vec::new();
        next.push(c);
        let mut i: usize = 0;
        while i < digits.len()
            invariant
                i <= digits@.len(),
                next@ == seq![c] + digits@.subrange(0, i as int),
            decreases digits@.len() - i,
        {
            next.push(digits[i]);
            assert(digits@.subrange(0, i + 1) =~= digits@.subrange(0, i as int).push(digits@[i as int]));
            i = i + 1;
        }
        assert(digits@.subrange(0, digits@.len() as int) =~= digits@);
        assert(hex_digits(cur as nat) == hex_digits((cur / 16) as nat).push(c));
        assert(hex_digits(cur as nat) + digits@ =~= hex_digits((cur / 16) as nat) + next@);
        digits = next;
        cur = cur / 16;
    }
    let mut r = String::new();
    push_char(&mut r, nibble_char(cur as u8));
    assert(r@ =~= hex_digits(cur as nat));
    let mut i: usize = 0;
    while i < digits.len()
        invariant
            i <= digits@.len(),
            r@ == hex_digits(cur as nat) + digits@.subrange(0, i as int),
        decreases digits@.len() - i,
    {
        push_char(&mut r, digits[i]);
        assert(digits@.subrange(0, i + 1) =~= digits@.subrange(0, i as int).push(digits@[i as int]));
        i = i + 1;
    }
    assert(digits@.subrange(0, digits@.len() as int) =~= digits@);
    r
}

} // verus!

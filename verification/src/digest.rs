use vstd::prelude::*;
use sha2::{Digest, Sha256};

verus! {

/// The lowercase hexadecimal SHA-256 digest of a byte string.
pub uninterp spec fn sha256_hex(bytes: Seq<u8>) -> Seq<char>;

/// Calls `sha2::Sha256::digest` on the bytes and formats the 32-byte digest
/// with `{:x}`, which writes two lowercase hex digits per byte. The contract
/// claims that the text is a function of the bytes alone, named
/// `sha256_hex`, and that it is 64 characters long; what the function is,
/// is left unsaid.
#[verifier::external_body]
pub(crate) fn sha256_hex_of(bytes: &Vec<u8>) -> (r: String)
    ensures
        r@ == sha256_hex(bytes@),
        r@.len() == 64,
{
    format!("{:x}", Sha256::digest(bytes.as_slice()))
}

/// The four little-endian bytes of a `u32`.
pub open spec fn le_u32(v: u32) -> Seq<u8> {
    seq![
        (v % 0x100) as u8,
        ((v / 0x100) % 0x100) as u8,
        ((v / 0x1_0000) % 0x100) as u8,
        ((v / 0x100_0000) % 0x100) as u8,
    ]
}

/// The eight little-endian bytes of a `u64`.
pub open spec fn le_u64(u: u64) -> Seq<u8> {
    seq![
        (u % 0x100) as u8,
        ((u / 0x100) % 0x100) as u8,
        ((u / 0x1_0000) % 0x100) as u8,
        ((u / 0x100_0000) % 0x100) as u8,
        ((u / 0x1_0000_0000) % 0x100) as u8,
        ((u / 0x100_0000_0000) % 0x100) as u8,
        ((u / 0x1_0000_0000_0000) % 0x100) as u8,
        ((u / 0x100_0000_0000_0000) % 0x100) as u8,
    ]
}

/// The eight little-endian bytes of an `i64` in two's complement.
pub open spec fn le_i64(v: i64) -> Seq<u8> {
    le_u64(v as u64)
}

/// Appends the little-endian bytes of a `u32`.
pub fn push_u32_le(bytes: &mut Vec<u8>, v: u32)
    ensures
        final(bytes)@ == old(bytes)@ + le_u32(v),
{
    bytes.push((v % 0x100) as u8);
    bytes.push(((v / 0x100) % 0x100) as u8);
    bytes.push(((v / 0x1_0000) % 0x100) as u8);
    bytes.push(((v / 0x100_0000) % 0x100) as u8);
    assert(bytes@ =~= old(bytes)@ + le_u32(v));
}

/// The four little-endian bytes of an `i32` in two's complement.
pub open spec fn le_i32(v: i32) -> Seq<u8> {
    le_u32(v as u32)
}

/// Appends the little-endian two's complement bytes of an `i32`.
pub fn push_i32_le(bytes: &mut Vec<u8>, v: i32)
    ensures
        final(bytes)@ == old(bytes)@ + le_i32(v),
{
    push_u32_le(bytes, v as u32);
}

/// Appends the little-endian two's complement bytes of an `i64`.
pub fn push_i64_le(bytes: &mut Vec<u8>, v: i64)
    ensures
        final(bytes)@ == old(bytes)@ + le_i64(v),
{
    let u = v as u64;
    bytes.push((u % 0x100) as u8);
    bytes.push(((u / 0x100) % 0x100) as u8);
    bytes.push(((u / 0x1_0000) % 0x100) as u8);
    bytes.push(((u / 0x100_0000) % 0x100) as u8);
    bytes.push(((u / 0x1_0000_0000) % 0x100) as u8);
    bytes.push(((u / 0x100_0000_0000) % 0x100) as u8);
    bytes.push(((u / 0x1_0000_0000_0000) % 0x100) as u8);
    bytes.push(((u / 0x100_0000_0000_0000) % 0x100) as u8);
    assert(bytes@ =~= old(bytes)@ + le_i64(v));
}

} // verus!

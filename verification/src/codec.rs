//! The byte encoding of numbers in stored records, as postcard writes it.

use vstd::prelude::*;

verus! {

/// `postcard::Error`, the error of postcard's encoder and decoder. Nothing
/// is said of its values: the contracts below say when an error is returned.
#[verifier::external_type_specification]
#[verifier::external_body]
pub struct ExPostcardError(postcard::Error);

/// The four bytes of `value`, least significant first.
pub open spec fn le_bytes(value: u32) -> Seq<u8> {
    seq![
        (value % 256) as u8,
        ((value / 256) % 256) as u8,
        ((value / 65536) % 256) as u8,
        (value / 16777216) as u8,
    ]
}

/// The number whose four bytes, least significant first, open `bytes`.
pub open spec fn le_value(bytes: Seq<u8>) -> int {
    bytes[0] + 256 * bytes[1] + 65536 * bytes[2] + 16777216 * bytes[3]
}

/// The sequence `s` with `bytes` written over it from index `start` on.
pub open spec fn overwrite(s: Seq<u8>, start: int, bytes: Seq<u8>) -> Seq<u8> {
    Seq::new(
        s.len(),
        |i: int|
            if start <= i < start + bytes.len() {
                bytes[i - start]
            } else {
                s[i]
            },
    )
}

/// Writing `x` and then `y` right behind it is writing `x + y`.
pub proof fn lemma_overwrite_append(s: Seq<u8>, start: int, x: Seq<u8>, y: Seq<u8>)
    ensures
        overwrite(overwrite(s, start, x), start + x.len(), y) == overwrite(s, start, x + y),
{
    assert(overwrite(overwrite(s, start, x), start + x.len(), y) =~= overwrite(s, start, x + y));
}

/// `postcard::to_slice` on a `u32`, writing into `buf` from `start` on.
/// postcard encodes a `u32` as its four bytes, least significant first. It
/// fails, and leaves `buf` as it was, exactly when fewer than four bytes
/// remain; otherwise it returns the number of bytes written, four, and
/// changes no other byte.
#[verifier::external_body]
pub(crate) fn postcard_to_slice_u32<const N: usize>(value: u32, buf: &mut [u8; N], start: usize) -> (r:
    Result<usize, postcard::Error>)
    requires
        start <= N,
    ensures
        r is Ok <==> start + 4 <= N,
        r matches Ok(n) ==> n == 4 && final(buf)@ == overwrite(
            old(buf)@,
            start as int,
            le_bytes(value),
        ),
        r is Err ==> final(buf)@ == old(buf)@,
{
    match postcard::to_slice(&value, &mut buf[start..]) {
        Ok(used) => Ok(used.len()),
        Err(e) => Err(e),
    }
}

/// `postcard::from_bytes` for a `u32`. postcard reads the first four bytes,
/// least significant first, and ignores what follows; it fails exactly when
/// fewer than four bytes are given.
#[verifier::external_body]
pub(crate) fn postcard_from_bytes_u32(bytes: &[u8]) -> (r: Result<u32, postcard::Error>)
    ensures
        r is Ok <==> bytes@.len() >= 4,
        r matches Ok(v) ==> v == le_value(bytes@),
{
    postcard::from_bytes::<u32>(bytes)
}

/// Least significant first, the four bytes of a number give the number back.
pub proof fn lemma_le_round_trip(value: u32)
    ensures
        le_bytes(value).len() == 4,
        le_value(le_bytes(value)) == value,
{
}

} // verus!

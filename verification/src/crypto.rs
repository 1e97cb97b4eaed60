//! The cryptographic and wide-integer primitives that the registries and the
//! relay rely on. Nothing in this module is proved: each function states what
//! the crate behind it is taken to do.

use vstd::prelude::*;

verus! {

/// The Keccak-256 digest of a byte string.
pub uninterp spec fn keccak256_of(data: Seq<u8>) -> Seq<u8>;

/// The 20-byte address of the key that produced a compact recoverable
/// signature over a digest, or `None` where no key can be recovered.
pub uninterp spec fn recovered_address(digest: Seq<u8>, signature: Seq<u8>, recovery_id: i32) -> Option<Seq<u8>>;

/// Whether a recovery indicator in Electrum notation names a recovery id.
pub open spec fn valid_recovery_byte(v: u64) -> bool {
    v == 27 || v == 28 || v >= 35
}

/// The recovery id that a valid recovery indicator names.
pub open spec fn recovery_id_of(v: u64) -> i32 {
    if v == 27 {
        0
    } else if v == 28 {
        1
    } else {
        ((v - 1) % 2) as i32
    }
}

/// The big-endian value of the eight bytes of `b` that start at `8 * j`.
pub open spec fn be_word(b: Seq<u8>, j: int) -> int {
    b[8 * j] * 0x100_0000_0000_0000 + b[8 * j + 1] * 0x1_0000_0000_0000 + b[8 * j + 2]
        * 0x100_0000_0000 + b[8 * j + 3] * 0x1_0000_0000 + b[8 * j + 4] * 0x100_0000 + b[8 * j
        + 5] * 0x1_0000 + b[8 * j + 6] * 0x100 + b[8 * j + 7]
}

/// `web3::signing::keccak256`: the Keccak-256 digest of `data`. The contract
/// only names the digest; it is taken to depend on the bytes alone.
#[verifier::external_body]
pub(crate) fn keccak256(data: &Vec<u8>) -> (out: [u8; 32])
    ensures
        out@ == keccak256_of(data@),
{
    web3::signing::keccak256(data.as_slice())
}

/// `web3::types::Recovery::new` followed by `Recovery::as_signature`: the
/// compact form of a signature given as `(v, r, s)`. It exists exactly for the
/// recovery indicators 27, 28 and those from 35 on; the compact signature is
/// `r` followed by `s`, and the recovery id is 0 for 27, 1 for 28 and the
/// parity of `v - 1` otherwise. The digest is carried along and not read.
#[verifier::external_body]
pub(crate) fn compact_signature(digest: &[u8; 32], v: u64, r: &[u8; 32], s: &[u8; 32]) -> (out:
    Option<([u8; 64], i32)>)
    ensures
        out is Some <==> valid_recovery_byte(v),
        out matches Some(p) ==> p.0@ == r@ + s@ && p.1 == recovery_id_of(v),
{
    web3::types::Recovery::new(*digest, v, (*r).into(), (*s).into()).as_signature()
}

/// `web3::signing::recover`: the address of the key that signed `digest`, or
/// `None` where the function reports an error. The contract only names the
/// outcome; it is taken to depend on the three arguments alone.
#[verifier::external_body]
pub(crate) fn recover(digest: &[u8; 32], signature: &[u8; 64], recovery_id: i32) -> (out: Option<
    [u8; 20],
>)
    ensures
        out is Some <==> recovered_address(digest@, signature@, recovery_id) is Some,
        out matches Some(a) ==> recovered_address(digest@, signature@, recovery_id) == Some(a@),
{
    match web3::signing::recover(&digest[..], &signature[..], recovery_id) {
        Ok(address) => Some(address.0),
        Err(_) => None,
    }
}

/// `primitive_types::U256::from_big_endian`: the four 64-bit limbs of the
/// 256-bit integer that 32 bytes spell in big-endian order, least significant
/// limb first.
#[verifier::external_body]
pub(crate) fn big_endian_limbs(bytes: &[u8; 32]) -> (out: [u64; 4])
    ensures
        forall|k: int| 0 <= k < 4 ==> (#[trigger] out@[k]) as int == be_word(bytes@, 3 - k),
{
    primitive_types::U256::from_big_endian(&bytes[..]).0
}

} // verus!

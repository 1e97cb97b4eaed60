//! Threshold attestation: recovering the signer of each signature over a
//! digest and counting those that match the member at the same position.

use vstd::prelude::*;
use crate::bytes::address_matches;
use crate::crypto::{
    compact_signature,
    recover,
    recovered_address,
    recovery_id_of,
    valid_recovery_byte,
};

verus! {

/// The address that the signature `(v, r, s)` over `digest` recovers to, or
/// `None` where the signature is malformed.
pub open spec fn signer_of(digest: Seq<u8>, v: u64, r: Seq<u8>, s: Seq<u8>) -> Option<Seq<u8>> {
    if valid_recovery_byte(v) {
        recovered_address(digest, r + s, recovery_id_of(v))
    } else {
        None
    }
}

/// The first `n` signatures are present and each of them recovers to some
/// address.
pub open spec fn signatures_well_formed(
    digest: Seq<u8>,
    n: int,
    v: Seq<u64>,
    r: Seq<[u8; 32]>,
    s: Seq<[u8; 32]>,
) -> bool {
    &&& n <= v.len()
    &&& n <= r.len()
    &&& n <= s.len()
    &&& forall|i: int| 0 <= i < n ==> (#[trigger] signer_of(digest, v[i], r[i]@, s[i]@)) is Some
}

/// The signature `(v, r, s)` over `digest` was made by the key whose address
/// fills the first 20 bytes of `member`.
pub open spec fn attests(digest: Seq<u8>, member: [u8; 32], v: u64, r: [u8; 32], s: [u8; 32]) -> bool {
    signer_of(digest, v, r@, s@) == Some(member@.subrange(0, 20))
}

/// How many of the first `n` members are attested by the signature at their
/// own position.
pub open spec fn attested_count(
    digest: Seq<u8>,
    members: Seq<[u8; 32]>,
    v: Seq<u64>,
    r: Seq<[u8; 32]>,
    s: Seq<[u8; 32]>,
    n: int,
) -> nat
    decreases n,
{
    if n <= 0 {
        0
    } else {
        let rest = attested_count(digest, members, v, r, s, n - 1);
        if attests(digest, members[n - 1], v[n - 1], r[n - 1], s[n - 1]) {
            rest + 1
        } else {
            rest
        }
    }
}

/// Recovers the signer of one signature over `digest`.
pub fn recover_signer(digest: &[u8; 32], v: u64, r: &[u8; 32], s: &[u8; 32]) -> (out: Option<
    [u8; 20],
>)
    ensures
        out is Some <==> signer_of(digest@, v, r@, s@) is Some,
        out matches Some(a) ==> signer_of(digest@, v, r@, s@) == Some(a@),
{
    match compact_signature(digest, v, r, s) {
        None => None,
        Some(parts) => recover(digest, &parts.0, parts.1),
    }
}

/// Whether a recovered signer attests `member`: a missing signer attests
/// nobody, an address attests the member whose first 20 bytes it is.
pub fn signer_attests(member: &[u8; 32], signer: &Option<[u8; 20]>) -> (yes: bool)
    ensures
        yes == (signer matches Some(a) && member@.subrange(0, 20) == a@),
{
    match signer {
        None => false,
        Some(address) => address_matches(member, address),
    }
}

/// Counts the members attested by the signature at their own position, or
/// returns `None` where one of those signatures is missing or malformed.
pub fn count_attested(
    digest: &[u8; 32],
    members: &Vec<[u8; 32]>,
    v: &Vec<u64>,
    r: &Vec<[u8; 32]>,
    s: &Vec<[u8; 32]>,
) -> (out: Option<u128>)
    ensures
        out is Some <==> signatures_well_formed(digest@, members@.len() as int, v@, r@, s@),
        out matches Some(count) ==> count == attested_count(
            digest@,
            members@,
            v@,
            r@,
            s@,
            members@.len() as int,
        ),
{
    let n = members.len();
    if v.len() < n || r.len() < n || s.len() < n {
        return None;
    }
    let mut count: u128 = 0;
    let mut i: usize = 0;
    while i < n
        invariant
            n == members@.len(),
            n <= v@.len(),
            n <= r@.len(),
            n <= s@.len(),
            i <= n,
            count <= i,
            count == attested_count(digest@, members@, v@, r@, s@, i as int),
            forall|j: int|
                0 <= j < i ==> (#[trigger] signer_of(digest@, v@[j], r@[j]@, s@[j]@)) is Some,
        decreases n - i,
    {
        let signer = recover_signer(digest, v[i], &r[i], &s[i]);
        if signer.is_none() {
            assert(!(signer_of(digest@, v@[i as int], r@[i as int]@, s@[i as int]@) is Some));
            return None;
        }
        if signer_attests(&members[i], &signer) {
            count += 1;
        }
        i += 1;
    }
    Some(count)
}

} // verus!

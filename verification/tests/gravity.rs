use gravity_bridge::bytes::{flatten_words, word_after, words_equal};
use gravity_bridge::gravity::Gravity;
use gravity_bridge::quorum::{count_attested, recover_signer, signer_attests};
use web3::signing::{keccak256, Key, SecretKey, SecretKeyRef};

fn key(seed: u8) -> SecretKey {
    let mut bytes = [0u8; 32];
    bytes[31] = seed;
    bytes[0] = 1;
    SecretKey::from_slice(&bytes).unwrap()
}

fn member(k: &SecretKey) -> [u8; 32] {
    let mut out = [0u8; 32];
    out[..20].copy_from_slice(SecretKeyRef::new(k).address().as_bytes());
    out
}

fn sign(k: &SecretKey, digest: &[u8; 32]) -> (u64, [u8; 32], [u8; 32]) {
    let sig = SecretKeyRef::new(k).sign(digest, None).unwrap();
    (sig.v, sig.r.0, sig.s.0)
}

fn round(n: u8) -> [u8; 32] {
    let mut r = [0u8; 32];
    r[31] = n;
    r
}

fn signed_by(keys: &[&SecretKey], digest: &[u8; 32]) -> (Vec<u64>, Vec<[u8; 32]>, Vec<[u8; 32]>) {
    let mut v = Vec::new();
    let mut r = Vec::new();
    let mut s = Vec::new();
    for k in keys {
        let (a, b, c) = sign(k, digest);
        v.push(a);
        r.push(b);
        s.push(c);
    }
    (v, r, s)
}

#[test]
fn new_seeds_round_zero() {
    let initial = vec![[1u8; 32], [2u8; 32], [3u8; 32]];
    let g = Gravity::new(initial.clone(), 2);
    assert_eq!(g.last_round(), [0u8; 32]);
    assert_eq!(g.get_consuls(), initial);
    assert_eq!(g.get_consuls_by_round_id([0u8; 32]), initial);
    assert_eq!(g.get_consuls_by_round_id(round(1)), Vec::<[u8; 32]>::new());
}

#[test]
fn digest_is_keccak_of_consuls_then_round() {
    let g = Gravity::new(vec![], 0);
    let consuls = vec![[7u8; 32], [9u8; 32]];
    let mut data = Vec::new();
    data.extend_from_slice(&[7u8; 32]);
    data.extend_from_slice(&[9u8; 32]);
    data.extend_from_slice(&round(4));
    assert_eq!(g.hash_new_consuls(consuls, round(4)), keccak256(&data));
    assert_eq!(g.hash_new_consuls(vec![], round(4)), keccak256(&round(4)));
    assert_ne!(g.hash_new_consuls(vec![], round(4)), round(4));
}

#[test]
fn flatten_keeps_order() {
    let mut a = [0u8; 32];
    a[0] = 1;
    let mut b = [0u8; 32];
    b[31] = 2;
    let flat = flatten_words(&vec![a, b]);
    assert_eq!(flat.len(), 64);
    assert_eq!(flat[0], 1);
    assert_eq!(flat[63], 2);
    assert_eq!(flatten_words(&vec![]), Vec::<u8>::new());
}

#[test]
fn rounds_are_ordered_bytewise() {
    let mut high = [0u8; 32];
    high[0] = 1;
    let low = round(255);
    assert!(word_after(&high, &low));
    assert!(!word_after(&low, &high));
    assert!(!word_after(&low, &low));
    assert!(word_after(&round(2), &round(1)));
    assert!(words_equal(&low, &round(255)));
    assert!(!words_equal(&low, &high));
}

#[test]
fn recovered_signer_is_the_signing_key() {
    let k = key(1);
    let digest = keccak256(b"message");
    let (v, r, s) = sign(&k, &digest);
    let signer = recover_signer(&digest, v, &r, &s);
    assert_eq!(signer, Some(SecretKeyRef::new(&k).address().0));
    assert!(signer_attests(&member(&k), &signer));
    assert!(!signer_attests(&member(&key(2)), &signer));
    assert!(!signer_attests(&member(&k), &None));
}

#[test]
fn recovery_byte_outside_electrum_notation_is_malformed() {
    let k = key(1);
    let digest = keccak256(b"message");
    let (_, r, s) = sign(&k, &digest);
    assert_eq!(recover_signer(&digest, 5, &r, &s), None);
    assert_eq!(recover_signer(&digest, 29, &r, &s), None);
    assert_eq!(recover_signer(&digest, 27, &[0u8; 32], &[0u8; 32]), None);
}

#[test]
fn chain_protected_recovery_byte_is_accepted() {
    let k = key(3);
    let digest = keccak256(b"chain");
    let sig = SecretKeyRef::new(&k).sign(&digest, Some(1)).unwrap();
    let signer = recover_signer(&digest, sig.v, &sig.r.0, &sig.s.0);
    assert_eq!(signer, Some(SecretKeyRef::new(&k).address().0));
}

#[test]
fn count_attested_counts_matching_positions() {
    let (k1, k2, k3) = (key(1), key(2), key(3));
    let members = vec![member(&k1), member(&k2), member(&k3)];
    let digest = keccak256(b"count");
    let (v, r, s) = signed_by(&[&k1, &k3, &k3], &digest);
    assert_eq!(count_attested(&digest, &members, &v, &r, &s), Some(2));
    let (v, r, s) = signed_by(&[&k1, &k2], &digest);
    assert_eq!(count_attested(&digest, &members, &v, &r, &s), None);
    assert_eq!(count_attested(&digest, &vec![], &vec![], &vec![], &vec![]), Some(0));
}

#[test]
fn two_of_three_attesting_rotates() {
    let (k1, k2, k3, k4) = (key(1), key(2), key(3), key(4));
    let initial = vec![[1u8; 32], [2u8; 32], [3u8; 32]];
    let mut g = Gravity::new(initial, 2);
    let new_consuls = vec![member(&k1), member(&k2), member(&k3)];
    let digest = g.hash_new_consuls(new_consuls.clone(), round(1));
    let (v, r, s) = signed_by(&[&k1, &k2, &k4], &digest);
    g.update_consuls(new_consuls.clone(), v, r, s, round(1));
    assert_eq!(g.last_round(), round(1));
    assert_eq!(g.get_consuls(), new_consuls);
    assert_eq!(g.get_consuls_by_round_id(round(1)), new_consuls);
    assert_eq!(g.get_consuls_by_round_id([0u8; 32]), vec![[1u8; 32], [2u8; 32], [3u8; 32]]);
}

#[test]
fn same_round_again_is_a_no_op() {
    let (k1, k2, k3) = (key(1), key(2), key(3));
    let mut g = Gravity::new(vec![[1u8; 32]], 2);
    let first = vec![member(&k1), member(&k2), member(&k3)];
    let digest = g.hash_new_consuls(first.clone(), round(1));
    let (v, r, s) = signed_by(&[&k1, &k2, &k3], &digest);
    g.update_consuls(first.clone(), v, r, s, round(1));
    assert_eq!(g.get_consuls(), first);

    let second = vec![member(&k3), member(&k2)];
    let digest = g.hash_new_consuls(second.clone(), round(1));
    let (v, r, s) = signed_by(&[&k3, &k2], &digest);
    g.update_consuls(second.clone(), v, r, s, round(1));
    assert_eq!(g.get_consuls(), first);
    assert_eq!(g.last_round(), round(1));

    let digest = g.hash_new_consuls(second.clone(), [0u8; 32]);
    let (v, r, s) = signed_by(&[&k3, &k2], &digest);
    g.update_consuls(second, v, r, s, [0u8; 32]);
    assert_eq!(g.get_consuls(), first);
    assert_eq!(g.last_round(), round(1));
}

#[test]
fn stale_round_ignores_even_missing_signatures() {
    let mut g = Gravity::new(vec![[1u8; 32]], 0);
    assert!(g.try_update_consuls(vec![[5u8; 32]], vec![], vec![], vec![], [0u8; 32]));
    assert_eq!(g.get_consuls(), vec![[1u8; 32]]);
    assert_eq!(g.last_round(), [0u8; 32]);
}

#[test]
fn below_threshold_is_a_silent_no_op() {
    let (k1, k2, k3, k4) = (key(1), key(2), key(3), key(4));
    let initial = vec![[1u8; 32]];
    let mut g = Gravity::new(initial.clone(), 2);
    let new_consuls = vec![member(&k1), member(&k2), member(&k3)];
    let digest = g.hash_new_consuls(new_consuls.clone(), round(1));
    let (v, r, s) = signed_by(&[&k1, &k4, &k4], &digest);
    g.update_consuls(new_consuls, v, r, s, round(1));
    assert_eq!(g.last_round(), [0u8; 32]);
    assert_eq!(g.get_consuls(), initial);
    assert_eq!(g.get_consuls_by_round_id(round(1)), Vec::<[u8; 32]>::new());
}

#[test]
fn signature_over_another_round_does_not_attest() {
    let (k1, k2) = (key(1), key(2));
    let mut g = Gravity::new(vec![], 2);
    let new_consuls = vec![member(&k1), member(&k2)];
    let digest = g.hash_new_consuls(new_consuls.clone(), round(2));
    let (v, r, s) = signed_by(&[&k1, &k2], &digest);
    g.update_consuls(new_consuls, v, r, s, round(1));
    assert_eq!(g.last_round(), [0u8; 32]);
}

#[test]
fn malformed_signature_leaves_the_registry_alone() {
    let (k1, k2) = (key(1), key(2));
    let mut g = Gravity::new(vec![[1u8; 32]], 1);
    let new_consuls = vec![member(&k1), member(&k2)];
    let digest = g.hash_new_consuls(new_consuls.clone(), round(1));
    let (mut v, r, s) = signed_by(&[&k1, &k2], &digest);
    v[1] = 3;
    assert!(!g.try_update_consuls(new_consuls.clone(), v, r.clone(), s.clone(), round(1)));
    assert_eq!(g.last_round(), [0u8; 32]);
    assert_eq!(g.get_consuls(), vec![[1u8; 32]]);
    assert!(!g.try_update_consuls(new_consuls.clone(), vec![27], r.clone(), s.clone(), round(1)));
    assert_eq!(g.last_round(), [0u8; 32]);
    let (v, r, s) = signed_by(&[&k1, &k2], &digest);
    assert!(g.try_update_consuls(new_consuls.clone(), v, r, s, round(1)));
    assert_eq!(g.get_consuls(), new_consuls);
}

#[test]
fn apply_rotation_decides_by_round_and_count() {
    let mut g = Gravity::new(vec![[1u8; 32]], 2);
    assert!(!g.apply_rotation(vec![[2u8; 32]], round(1), 1));
    assert!(!g.apply_rotation(vec![[2u8; 32]], [0u8; 32], 5));
    assert_eq!(g.get_consuls(), vec![[1u8; 32]]);
    assert!(g.apply_rotation(vec![[2u8; 32]], round(3), 2));
    assert_eq!(g.last_round(), round(3));
    assert_eq!(g.get_consuls(), vec![[2u8; 32]]);
    assert!(!g.apply_rotation(vec![[4u8; 32]], round(2), 9));
    assert!(!g.apply_rotation(vec![[4u8; 32]], round(3), 9));
    assert_eq!(g.get_consuls(), vec![[2u8; 32]]);
    assert_eq!(g.get_consuls_by_round_id(round(2)), Vec::<[u8; 32]>::new());
    assert_eq!(g.get_consuls_by_round_id([0u8; 32]), vec![[1u8; 32]]);
}

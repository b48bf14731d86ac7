use perfect_hash::hashing::SaltedHash;

#[test]
fn salt_padded_to_chunk_width() {
    let f = SaltedHash::new(10, 3);
    assert_eq!(f.salt.len(), 8);
    for &b in &f.salt[3..] {
        assert_eq!(b, 0);
    }
    let g = SaltedHash::new(10, 8);
    assert_eq!(g.salt.len(), 8);
    let e = SaltedHash::new(10, 0);
    assert_eq!(e.salt.len(), 0);
}

#[test]
fn hash_stays_in_range_and_is_deterministic() {
    let f = SaltedHash::new(7, 4);
    for key in [b"".as_slice(), b"a", b"abcd", b"well beyond the salt"] {
        let h = f.hash(key);
        assert!(h < 7);
        assert_eq!(f.hash(key), h);
    }
}

#[test]
fn hash_matches_the_salted_sum() {
    // a fixed salt pins the whole formula: sum of salt[i] * key[i] mod ng
    let f = SaltedHash { ng: 11, salt: vec![3, 5] };
    assert_eq!(f.hash(&[2, 4]), (3 * 2 + 5 * 4) % 11);
    assert_eq!(f.hash(&[2]), 6 % 11);
    // bytes beyond the salt contribute nothing
    assert_eq!(f.hash(&[2, 4, 9]), (3 * 2 + 5 * 4) % 11);
    // the empty key always answers zero
    assert_eq!(f.hash(b""), 0);
}

use perfect_hash::artifact::PerfectHash;
use perfect_hash::builder::{build, build_default, BuildError};

fn keys_of(strs: &[&str]) -> Vec<Vec<u8>> {
    strs.iter().map(|s| s.as_bytes().to_vec()).collect()
}

#[test]
fn scenario_three_keys_default_values() {
    let keys = keys_of(&["a", "b", "c"]);
    let h = build_default(&keys).expect("three short keys build quickly");
    let (ng, _, _, _) = h.export();
    assert!(ng >= 4);
    assert_eq!(h.hash(b"a"), 0);
    assert_eq!(h.hash(b"b"), 1);
    assert_eq!(h.hash(b"c"), 2);
}

#[test]
fn maps_keys_to_supplied_values() {
    let keys = keys_of(&["apple", "pear", "plum"]);
    let values = vec![2, 1, 0];
    let h = build(&keys, &values).expect("three short keys build quickly");
    assert_eq!(h.hash(b"apple"), 2);
    assert_eq!(h.hash(b"pear"), 1);
    assert_eq!(h.hash(b"plum"), 0);
}

#[test]
fn values_reduced_modulo_table_size() {
    let keys = keys_of(&["left", "right"]);
    let values = vec![5, 700];
    let h = build(&keys, &values).expect("two short keys build quickly");
    let (ng, _, _, _) = h.export();
    assert_eq!(h.hash(b"left"), 5 % ng);
    assert_eq!(h.hash(b"right"), 700 % ng);
}

#[test]
fn round_trip_export_load() {
    let keys = keys_of(&["alpha", "beta", "gamma", "delta"]);
    let h = build_default(&keys).expect("four short keys build quickly");
    let (ng, salt1, salt2, indices) = h.export();
    let g = PerfectHash::load(ng, salt1, salt2, indices);
    for key in &keys {
        assert_eq!(g.hash(key), h.hash(key));
    }
    // untrained keys answer identically too: the artifacts carry the same
    // four fields
    for key in [b"omega".as_slice(), b"", b"alphabet"] {
        assert_eq!(g.hash(key), h.hash(key));
    }
    let (ng2, salt1b, salt2b, indices2) = g.export();
    let (_, salt1a, salt2a, indices1) = h.export();
    assert_eq!(ng2, ng);
    assert_eq!(salt1b, salt1a);
    assert_eq!(salt2b, salt2a);
    assert_eq!(indices2, indices1);
}

#[test]
fn range_invariant_for_untrained_keys() {
    let keys = keys_of(&["one", "two", "three"]);
    let h = build_default(&keys).expect("three short keys build quickly");
    let (ng, _, _, _) = h.export();
    for key in [
        b"".as_slice(),
        b"untrained",
        b"a much longer key than any in the training set",
        b"\x00\xff\x7f",
    ] {
        assert!(h.hash(key) < ng);
    }
}

#[test]
fn determinism_same_key_same_answer() {
    let keys = keys_of(&["x", "y"]);
    let h = build_default(&keys).expect("two short keys build quickly");
    for key in [b"x".as_slice(), b"y", b"z", b""] {
        assert_eq!(h.hash(key), h.hash(key));
    }
}

#[test]
fn ceiling_aborts_on_adversarial_keys() {
    // distinct keys that agree on every salted sum: the second key only
    // appends a zero byte, which contributes nothing under any salt, so
    // every attempt yields parallel edges and fails until the ceiling
    let keys = vec![b"a".to_vec(), b"a\x00".to_vec()];
    let values = vec![0, 1];
    match build(&keys, &values) {
        Err(BuildError::ExceededGrowthCeiling { ng, trials }) => {
            // the ceiling for two keys is 100 * 3
            assert!(ng > 300);
            assert!(trials > 0);
        }
        other => panic!("expected the growth ceiling to abort, got {:?}", other.map(|h| h.export().0)),
    }
}

#[test]
fn empty_key_set_rejected() {
    let keys: Vec<Vec<u8>> = Vec::new();
    let values: Vec<usize> = Vec::new();
    assert!(matches!(build(&keys, &values), Err(BuildError::InvalidInput)));
    assert!(matches!(build_default(&keys), Err(BuildError::InvalidInput)));
}

#[test]
fn duplicate_keys_rejected() {
    let keys = keys_of(&["x", "x"]);
    let values = vec![0, 1];
    assert!(matches!(build(&keys, &values), Err(BuildError::InvalidInput)));
}

#[test]
fn mismatched_values_length_rejected() {
    let keys = keys_of(&["x", "y"]);
    let values = vec![0];
    assert!(matches!(build(&keys, &values), Err(BuildError::InvalidInput)));
}

#[test]
fn fifty_keys_bijective_on_ordinals() {
    let strs: Vec<String> = (0..50).map(|i| format!("key-number-{i}")).collect();
    let keys: Vec<Vec<u8>> = strs.iter().map(|s| s.as_bytes().to_vec()).collect();
    let h = build_default(&keys).expect("fifty distinct keys build quickly");
    let (ng, _, _, _) = h.export();
    assert!(ng > 50);
    for (i, key) in keys.iter().enumerate() {
        assert_eq!(h.hash(key), i);
    }
}

#[test]
fn loaded_artifact_answers_by_the_formula() {
    // ng = 7, one-byte salts: h1 = (2*3) % 7 = 6, h2 = (3*3) % 7 = 2,
    // answer = (indices[6] + indices[2]) % 7 = (6 + 2) % 7 = 1
    let h = PerfectHash::load(7, vec![2], vec![3], vec![0, 1, 2, 3, 4, 5, 6]);
    assert_eq!(h.hash(&[3]), 1);
    // the empty key projects to (0, 0): answer = (0 + 0) % 7
    assert_eq!(h.hash(b""), 0);
}

use perfect_hash::builder::{check_input, exceeded_ceiling, grow_step, max_key_len};

#[test]
fn growth_schedule_grows_every_eighth_trial() {
    // trials 1..7 keep the table size; the eighth grows it by ng / 8 + 1
    let mut ng = 10;
    let mut trials = 0;
    for expected_trials in 1..=7 {
        let (g, t) = grow_step(ng, trials).unwrap();
        assert_eq!(g, 10);
        assert_eq!(t, expected_trials);
        ng = g;
        trials = t;
    }
    let (g, t) = grow_step(ng, trials).unwrap();
    assert_eq!(t, 8);
    assert_eq!(g, 10 + 10 / 8 + 1);
}

#[test]
fn ceiling_test_is_exact() {
    // the ceiling for n keys is 100 * (n + 1)
    assert!(!exceeded_ceiling(300, 2));
    assert!(exceeded_ceiling(301, 2));
    assert!(!exceeded_ceiling(usize::MAX, usize::MAX / 100 + 1));
}

#[test]
fn input_check_decides_validity() {
    let keys = vec![b"a".to_vec(), b"b".to_vec()];
    assert!(check_input(&keys, &vec![0, 1]));
    assert!(!check_input(&keys, &vec![0]));
    assert!(!check_input(&Vec::new(), &Vec::new()));
    let duplicated = vec![b"a".to_vec(), b"a".to_vec()];
    assert!(!check_input(&duplicated, &vec![0, 1]));
}

#[test]
fn max_key_len_finds_the_longest() {
    let keys = vec![b"ab".to_vec(), b"a".to_vec(), b"abcd".to_vec()];
    assert_eq!(max_key_len(&keys), 4);
    assert_eq!(max_key_len(&Vec::new()), 0);
}

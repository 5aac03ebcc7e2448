use bloom_filter::{n_hashers_for, optimal_n_hashers, truncated_n_hashers, Rounding};

#[test]
fn optimal_rounds_up() {
    assert_eq!(70, optimal_n_hashers(100, 1));
    assert_eq!(24, optimal_n_hashers(100, 3));
    assert_eq!(7, optimal_n_hashers(959, 100));
    assert_eq!(694, optimal_n_hashers(1_000_000, 1000));
    assert_eq!(2, optimal_n_hashers(2, 1));
}

#[test]
fn truncated_rounds_down() {
    assert_eq!(69, truncated_n_hashers(100, 1));
    assert_eq!(23, truncated_n_hashers(100, 3));
    assert_eq!(6, truncated_n_hashers(959, 100));
    assert_eq!(693, truncated_n_hashers(1_000_000, 1000));
    assert_eq!(1, truncated_n_hashers(2, 1));
}

#[test]
fn policies_part_where_the_optimum_is_below_one() {
    assert_eq!(1, optimal_n_hashers(100, 100));
    assert_eq!(0, truncated_n_hashers(100, 100));
    assert_eq!(1, optimal_n_hashers(1, 1000));
    assert_eq!(0, truncated_n_hashers(1, 1000));
    assert_eq!(1, optimal_n_hashers(1442, 1000));
    assert_eq!(0, truncated_n_hashers(1442, 1000));
    assert_eq!(2, optimal_n_hashers(1443, 1000));
    assert_eq!(1, truncated_n_hashers(1443, 1000));
}

#[test]
fn no_bucket_needs_no_hasher() {
    assert_eq!(0, optimal_n_hashers(0, 5));
    assert_eq!(0, truncated_n_hashers(0, 5));
}

#[test]
fn largest_shapes_do_not_overflow() {
    if usize::BITS == 64 {
        let max = usize::MAX;
        assert_eq!(12786308645202655659, optimal_n_hashers(max, 1) as u64);
        assert_eq!(12786308645202655658, truncated_n_hashers(max, 1) as u64);
        assert_eq!(1826615520743236523, optimal_n_hashers(max, 7) as u64);
        assert_eq!(1826615520743236522, truncated_n_hashers(max, 7) as u64);
        assert_eq!(1, optimal_n_hashers(max, max));
        assert_eq!(0, truncated_n_hashers(max, max));
    }
}

#[test]
fn policy_selects_the_rounding() {
    assert_eq!(70, n_hashers_for(100, 1, Rounding::Ceiling));
    assert_eq!(69, n_hashers_for(100, 1, Rounding::Truncation));
    assert_eq!(1, n_hashers_for(100, 100, Rounding::Ceiling));
    assert_eq!(0, n_hashers_for(100, 100, Rounding::Truncation));
}

#[test]
fn policies_differ_by_at_most_one() {
    let mut n_buckets: usize = 0;
    while n_buckets < 300 {
        let mut n_elems: usize = 1;
        while n_elems < 40 {
            let up = optimal_n_hashers(n_buckets, n_elems);
            let down = truncated_n_hashers(n_buckets, n_elems);
            assert!(down <= up);
            assert!(up <= down + 1);
            assert!(up <= n_buckets);
            if n_buckets > 0 {
                assert!(up >= 1);
            }
            n_elems += 1;
        }
        n_buckets += 1;
    }
}

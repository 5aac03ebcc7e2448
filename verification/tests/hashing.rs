use bloom_filter::bucket_of;

#[test]
fn digest_is_reduced_modulo_the_bucket_count() {
    assert_eq!(45, bucket_of(12345, 100));
    assert_eq!(0, bucket_of(0, 100));
    assert_eq!(99, bucket_of(99, 100));
    assert_eq!(0, bucket_of(100, 100));
    assert_eq!(15, bucket_of(u64::MAX, 100));
    assert_eq!(1, bucket_of(u64::MAX, 7));
}

#[test]
fn single_bucket_takes_every_digest() {
    assert_eq!(0, bucket_of(0, 1));
    assert_eq!(0, bucket_of(5, 1));
    assert_eq!(0, bucket_of(u64::MAX, 1));
}

#[test]
fn digest_below_the_bucket_count_is_its_own_bucket() {
    assert_eq!(7, bucket_of(7, usize::MAX));
}

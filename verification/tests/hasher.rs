use ts_kvstore::hasher::NoopU64Builder;

#[test]
fn hash_u64() {
    let mut hasher = NoopU64Builder.build_hasher();
    hasher.write_u64(42);
    assert_eq!(42, hasher.finish());
}

#[test]
fn hasher_passes_through_max() {
    let mut hasher = NoopU64Builder.build_hasher();
    hasher.write_u64(u64::MAX);
    assert_eq!(u64::MAX, hasher.finish());
}

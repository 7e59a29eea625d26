use ftzz::utils::{dir_name, file_name, with_dir_name, with_file_name, FileNameCache};

#[test]
fn str_bytes_used_correctness() {
    for i in 0..FileNameCache::max_cache_size() {
        let used = FileNameCache::str_bytes_used(i);
        if i >= 100 {
            assert_eq!(used, 3);
        } else if i >= 10 {
            assert_eq!(used, 2);
        } else {
            assert_eq!(used, 1);
        }
    }
}

#[test]
fn names_are_returned() {
    let cache = FileNameCache::new();
    for i in 0..FileNameCache::max_cache_size() * 2 {
        with_file_name(&cache, i.into(), |s| {
            assert_eq!(s, i.to_string());
        });
        with_dir_name(&cache, i.into(), |s| {
            assert_eq!(s, format!("{i}.dir"));
        });
    }
}

#[test]
fn names_are_decimal_numbers() {
    let cache = FileNameCache::new();
    assert_eq!(file_name(&cache, 0), "0");
    assert_eq!(file_name(&cache, 9), "9");
    assert_eq!(file_name(&cache, 10), "10");
    assert_eq!(file_name(&cache, 99), "99");
    assert_eq!(file_name(&cache, 100), "100");
    assert_eq!(file_name(&cache, 999), "999");
    assert_eq!(file_name(&cache, 1000), "1000");
    assert_eq!(file_name(&cache, 123_456_789), "123456789");
    assert_eq!(file_name(&cache, u64::MAX), "18446744073709551615");
    assert_eq!(dir_name(&cache, 0), "0.dir");
    assert_eq!(dir_name(&cache, 42), "42.dir");
    assert_eq!(dir_name(&cache, 1000), "1000.dir");
    assert_eq!(dir_name(&cache, usize::MAX), format!("{}.dir", usize::MAX));
}

#[test]
fn cached_names_are_read_from_the_table() {
    let cache = FileNameCache::new();
    for i in 0..FileNameCache::max_cache_size() {
        assert_eq!(cache.cached_name(i), i.to_string());
        let len = cache.with_file_name(i, |s| s.len());
        assert_eq!(len, FileNameCache::str_bytes_used(i));
    }
    assert_eq!(FileNameCache::max_cache_size(), 1000);
}

#[test]
fn closures_hand_their_result_back() {
    let cache = FileNameCache::new();
    assert_eq!(with_file_name(&cache, 12345, str::len), 5);
    assert_eq!(with_dir_name(&cache, 12345, str::len), 9);
    assert_eq!(with_dir_name(&cache, 7, |s| s.to_owned()), "7.dir");
}

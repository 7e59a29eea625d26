use ftzz::utils::name_cache::FileNameCache;

/// Number of names to make room for, for a run with these means.
fn requested(files_per_dir: f64, dirs_per_dir: f64) -> usize {
    // Overestimate since the cache can't grow.
    (1.5 * f64::max(files_per_dir, dirs_per_dir)).round() as usize
}

#[test]
fn zero_files_allocates_nothing() {
    let cache = FileNameCache::allocate(requested(0., 0.));

    assert_eq!(cache.len(), 0);
    assert_eq!(cache.num_entries(), 0);
    cache.free();
}

#[test]
fn one_file_allocates_minimal_bytes() {
    let cache = FileNameCache::allocate(requested(0.9, 0.));

    assert_eq!(cache.len(), 10);
    assert_eq!(cache.num_entries(), 4);
    cache.free();
}

#[test]
fn fifty_files_allocates_minimal_bytes() {
    let cache = FileNameCache::allocate(requested(50., 0.));

    assert_eq!(cache.len(), 256);
    assert_eq!(cache.num_entries(), 76);
    cache.free();
}

#[test]
fn max_files_allocates_max_bytes() {
    let cache = FileNameCache::allocate(requested(1e10, 0.));

    assert_eq!(cache.len(), 88522);
    assert_eq!(cache.num_entries(), 15328);
    cache.free();
}

#[test]
fn cached_names_are_returned() {
    let cache = FileNameCache::allocate(requested(1e10, 0.));

    for i in 0..cache.num_entries() as usize * 2 {
        cache.with_file_name(i, |s| {
            assert_eq!(s, i.to_string());
        });
        cache.with_dir_name(i, |s| {
            assert_eq!(s, format!("{}.dir", i));
        });
    }
    cache.free();
}

#[test]
fn small_caches_return_every_name() {
    for requested in [0usize, 1, 2, 3, 4, 5, 9, 10, 11, 99, 100, 101, 1000, 1001] {
        let cache = FileNameCache::allocate(requested);
        assert_eq!(cache.num_entries() as usize, (requested + 3) / 4 * 4);
        for i in 0..cache.num_entries() as usize + 10 {
            assert_eq!(cache.file_name(i), i.to_string());
        }
    }
}

#[test]
fn huge_requests_are_capped() {
    let cache = FileNameCache::allocate(usize::MAX);
    assert_eq!(cache.num_entries(), 15328);
    assert_eq!(cache.file_name(15327), "15327");
    assert_eq!(cache.file_name(15328), "15328");
    assert_eq!(cache.file_name(usize::MAX), usize::MAX.to_string());
}

#[test]
fn metadata_of_four_entries_shares_six_bytes() {
    assert_eq!(FileNameCache::index_to_metadata(0), (0, 4));
    assert_eq!(FileNameCache::index_to_metadata(1), (0, 4));
    assert_eq!(FileNameCache::index_to_metadata(2), (2, 5));
    assert_eq!(FileNameCache::index_to_metadata(3), (2, 5));
    assert_eq!(FileNameCache::index_to_metadata(4), (6, 10));
    assert_eq!(FileNameCache::index_to_metadata(7), (8, 11));
    assert_eq!(FileNameCache::index_to_metadata(15327), (22988, 22991));
}

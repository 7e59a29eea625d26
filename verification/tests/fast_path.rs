use ftzz::utils::{CStrFastPathBufGuard, FastPathBuf, PopGuard};

fn text(path: &FastPathBuf) -> String {
    String::from_utf8(path.as_bytes().to_vec()).unwrap()
}

#[test]
fn new_paths_are_empty() {
    let path = FastPathBuf::new();
    assert_eq!(path.len(), 0);
    assert_eq!(path.as_bytes(), b"");
    let path = FastPathBuf::with_capacity(64);
    assert_eq!(path.len(), 0);
    assert!(path.capacity() >= 64);
}

#[test]
fn reserve_keeps_the_path() {
    let mut path = FastPathBuf::from_bytes(b"root".to_vec());
    path.reserve(100);
    assert_eq!(text(&path), "root");
    assert!(path.capacity() >= 104);
}

#[test]
fn push_adds_one_segment() {
    let mut path = FastPathBuf::from_bytes(b"root".to_vec());
    path.push("0.dir");
    assert_eq!(text(&path), "root/0.dir");
    path.push("17");
    assert_eq!(text(&path), "root/0.dir/17");
    assert_eq!(path.len(), 13);
}

#[test]
fn pop_undoes_push() {
    let mut path = FastPathBuf::from_bytes(b"root".to_vec());
    let guard = path.push("0.dir");
    guard.pop();
    assert_eq!(text(&path), "root");

    let guard = PopGuard::push(&mut path, "a/b");
    guard.pop();
    assert_eq!(text(&path), "root");
}

#[test]
fn second_pop_looks_for_the_separator() {
    let mut path = FastPathBuf::from_bytes(b"root".to_vec());
    path.push("0.dir");
    path.push("1.dir");
    path.push("2.dir");
    assert!(path.can_pop());
    path.pop();
    assert_eq!(text(&path), "root/0.dir/1.dir");
    assert!(path.can_pop());
    path.pop();
    assert_eq!(text(&path), "root/0.dir");
    path.pop();
    assert_eq!(text(&path), "root");
    // A single name has the empty path as its parent, which has none.
    assert!(path.can_pop());
    assert_eq!(path.parent_len(), Some(0));
    path.pop();
    assert_eq!(text(&path), "");
    assert!(!path.can_pop());
    assert_eq!(path.parent_len(), None);
}

#[test]
fn pop_of_an_absolute_path_stops_at_the_root() {
    let mut path = FastPathBuf::from_bytes(b"/tmp/a".to_vec());
    assert_eq!(path.parent_len(), Some(4));
    path.pop();
    assert_eq!(text(&path), "/tmp");
    assert!(path.can_pop());
    path.pop();
    // The separator that the path starts with stays.
    assert_eq!(text(&path), "/");
    assert!(!path.can_pop());
    assert_eq!(path.parent_len(), None);
}

#[test]
fn set_file_name_replaces_the_last_segment() {
    let mut path = FastPathBuf::from_bytes(b"root".to_vec());
    path.push("0.dir");
    path.set_file_name("1.dir");
    assert_eq!(text(&path), "root/1.dir");
    path.set_file_name("222.dir");
    assert_eq!(text(&path), "root/222.dir");
    path.push("0.dir");
    path.pop();
    path.set_file_name("3.dir");
    assert_eq!(text(&path), "root/3.dir");
}

#[test]
fn clones_are_equal_and_apart() {
    let mut path = FastPathBuf::from_bytes(b"root".to_vec());
    path.push("0.dir");
    let mut copy = path.clone();
    assert_eq!(text(&copy), "root/0.dir");
    copy.pop();
    assert_eq!(text(&copy), "root");
    assert_eq!(text(&path), "root/0.dir");

    let mut other = FastPathBuf::from_bytes(b"something/else/entirely".to_vec());
    other.copy_from(&path);
    assert_eq!(text(&other), "root/0.dir");
    other.pop();
    assert_eq!(text(&other), "root");
}

#[test]
fn nul_guard_ends_the_path_and_gives_it_back() {
    let mut path = FastPathBuf::from_bytes(b"root".to_vec());
    path.push("5");
    {
        let guard = path.to_cstr_mut();
        assert_eq!(guard.as_bytes_with_nul(), b"root/5\0");
    }
    assert_eq!(text(&path), "root/5");
    {
        let guard = CStrFastPathBufGuard::new(&mut path);
        assert_eq!(guard.as_bytes_with_nul(), b"root/5\0");
        drop(guard);
    }
    assert_eq!(text(&path), "root/5");
    path.pop();
    assert_eq!(text(&path), "root");
}

#[test]
fn into_bytes_gives_the_bytes() {
    let mut path = FastPathBuf::from_bytes(b"a".to_vec());
    path.push("b");
    assert_eq!(path.into_bytes(), b"a/b".to_vec());
}

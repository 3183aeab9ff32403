use opendal::error::{Cause, ErrorKind, Operation};
use opendal::memory::Backend;
use opendal::metadata::{ObjectMode, Scheme};
use opendal::ops::{OpCreate, OpDelete, OpList, OpRead, OpStat, OpWrite};

fn store_with(keys: &[&str]) -> Backend {
    let mut b = Backend::build().finish();
    for k in keys {
        b.create(&OpCreate::new(k, ObjectMode::FILE)).unwrap();
    }
    b
}

fn put(b: &mut Backend, path: &str, data: &[u8]) {
    let mut w = b.write(&OpWrite::new(path, data.len() as u64));
    assert_eq!(w.write(data), data.len());
    w.close(b).unwrap();
}

fn listed(b: &Backend, dir: &str) -> Vec<(String, ObjectMode)> {
    let mut s = b.list(&OpList::new(dir));
    let mut out = Vec::new();
    while let Some(e) = s.next() {
        out.push((e.path, e.mode));
    }
    out.sort_by(|a, b| a.0.cmp(&b.0));
    out
}

#[test]
fn memory_metadata() {
    let b = Backend::new();
    let m = b.metadata();
    assert_eq!(m.scheme, Scheme::Memory);
    assert_eq!(m.root, "/");
    assert_eq!(m.name, "memory");
}

#[test]
fn create_stat_delete_stat() {
    let mut b = Backend::new();
    b.create(&OpCreate::new("dir/file", ObjectMode::FILE)).unwrap();
    let m = b.stat(&OpStat::new("dir/file")).unwrap();
    assert_eq!(m.mode, ObjectMode::FILE);
    assert_eq!(m.content_length, Some(0));
    b.delete(&OpDelete::new("dir/file")).unwrap();
    let e = b.stat(&OpStat::new("dir/file")).unwrap_err();
    assert_eq!(e.kind, ErrorKind::NotFound);
    assert_eq!(e.op, Operation::Stat);
    assert_eq!(e.cause, Cause::KeyMissing);
}

#[test]
fn write_then_read_round_trip() {
    let mut b = Backend::new();
    let data: Vec<u8> = (0u8..=255).collect();
    put(&mut b, "blob", &data);
    assert_eq!(b.read(&OpRead::new("blob", None, None)).unwrap(), data);
    assert_eq!(b.stat(&OpStat::new("blob")).unwrap().content_length, Some(256));
}

#[test]
fn write_in_chunks() {
    let mut b = Backend::new();
    let mut w = b.write(&OpWrite::new("k", 6));
    w.write(b"abc");
    w.write(b"def");
    w.close(&mut b).unwrap();
    assert_eq!(b.read(&OpRead::new("k", None, None)).unwrap(), b"abcdef".to_vec());
}

#[test]
fn read_window_inside() {
    let mut b = Backend::new();
    put(&mut b, "k", b"hello world");
    assert_eq!(b.read(&OpRead::new("k", Some(6), Some(5))).unwrap(), b"world".to_vec());
    assert_eq!(b.read(&OpRead::new("k", Some(0), Some(1))).unwrap(), b"h".to_vec());
    assert_eq!(b.read(&OpRead::new("k", Some(4), None)).unwrap(), b"o world".to_vec());
    assert_eq!(b.read(&OpRead::new("k", None, Some(4))).unwrap(), b"hell".to_vec());
}

#[test]
fn read_window_out_of_bounds() {
    let mut b = Backend::new();
    put(&mut b, "k", b"hello");
    let e = b.read(&OpRead::new("k", Some(5), Some(1))).unwrap_err();
    assert_eq!(e.kind, ErrorKind::Other);
    assert_eq!(e.cause, Cause::OffsetOutOfBound);
    let e = b.read(&OpRead::new("k", Some(2), Some(4))).unwrap_err();
    assert_eq!(e.kind, ErrorKind::Other);
    assert_eq!(e.cause, Cause::SizeOutOfBound);
    let e = b.read(&OpRead::new("k", None, Some(6))).unwrap_err();
    assert_eq!(e.cause, Cause::SizeOutOfBound);
}

#[test]
fn read_of_empty_object_with_offset_fails() {
    let b = store_with(&["empty"]);
    assert_eq!(b.read(&OpRead::new("empty", None, None)).unwrap(), Vec::<u8>::new());
    let e = b.read(&OpRead::new("empty", Some(0), None)).unwrap_err();
    assert_eq!(e.cause, Cause::OffsetOutOfBound);
}

#[test]
fn read_missing_key() {
    let b = Backend::new();
    let e = b.read(&OpRead::new("nope", None, None)).unwrap_err();
    assert_eq!(e.kind, ErrorKind::NotFound);
    assert_eq!(e.op, Operation::Read);
    assert_eq!(e.path, "nope");
}

#[test]
fn short_and_long_writes_keep_previous_value() {
    let mut b = Backend::new();
    put(&mut b, "k", b"old");
    let mut w = b.write(&OpWrite::new("k", 5));
    w.write(b"abc");
    let e = w.close(&mut b).unwrap_err();
    assert_eq!(e.kind, ErrorKind::Other);
    assert_eq!(e.cause, Cause::ShortWrite);
    assert_eq!(e.op, Operation::Write);
    let mut w = b.write(&OpWrite::new("k", 2));
    w.write(b"abc");
    assert_eq!(w.close(&mut b).unwrap_err().cause, Cause::ShortWrite);
    assert_eq!(b.read(&OpRead::new("k", None, None)).unwrap(), b"old".to_vec());
    let mut w = b.write(&OpWrite::new("fresh", 1));
    assert!(w.close(&mut b).is_err());
    assert_eq!(b.stat(&OpStat::new("fresh")).unwrap_err().kind, ErrorKind::NotFound);
}

#[test]
fn delete_absent_key_succeeds() {
    let mut b = store_with(&["a"]);
    assert!(b.delete(&OpDelete::new("missing")).is_ok());
    assert!(b.delete(&OpDelete::new("a")).is_ok());
    assert!(b.delete(&OpDelete::new("a")).is_ok());
}

#[test]
fn stat_directory_needs_no_key() {
    let b = Backend::new();
    let m = b.stat(&OpStat::new("some/dir/")).unwrap();
    assert_eq!(m.mode, ObjectMode::DIR);
    assert_eq!(m.content_length, None);
    assert_eq!(b.stat(&OpStat::new("/")).unwrap().mode, ObjectMode::DIR);
}

#[test]
fn list_is_one_level_deep() {
    let b = store_with(&["a/b", "a/c/", "a/c/d", "e"]);
    assert_eq!(
        listed(&b, "a/"),
        vec![("a/b".to_string(), ObjectMode::FILE), ("a/c/".to_string(), ObjectMode::DIR)]
    );
    assert_eq!(listed(&b, "/"), vec![("e".to_string(), ObjectMode::FILE)]);
    assert_eq!(listed(&b, "a/c/"), vec![("a/c/d".to_string(), ObjectMode::FILE)]);
}

#[test]
fn list_with_placeholder_and_child() {
    let b = store_with(&["a/", "a/b", "x"]);
    assert_eq!(
        listed(&b, "/"),
        vec![("a/".to_string(), ObjectMode::DIR), ("x".to_string(), ObjectMode::FILE)]
    );
    assert_eq!(listed(&b, "a/"), vec![("a/b".to_string(), ObjectMode::FILE)]);
    assert_eq!(listed(&b, "a"), vec![("a/".to_string(), ObjectMode::DIR)]);
}

#[test]
fn list_empty_directory() {
    let b = store_with(&["k"]);
    assert!(listed(&b, "none/").is_empty());
}

#[test]
fn create_directory_placeholder() {
    let mut b = Backend::new();
    b.create(&OpCreate::new("d/", ObjectMode::DIR)).unwrap();
    assert_eq!(listed(&b, "/"), vec![("d/".to_string(), ObjectMode::DIR)]);
}

#[test]
fn listed_modes_follow_paths() {
    let b = store_with(&["x/", "x/y", "x/z/", "w"]);
    let mut s = b.list(&OpList::new("x/"));
    let mut n = 0;
    while let Some(e) = s.next() {
        assert_eq!(e.mode == ObjectMode::DIR, e.path.ends_with('/'));
        n += 1;
    }
    assert_eq!(n, 2);
    assert!(s.next().is_none());
}

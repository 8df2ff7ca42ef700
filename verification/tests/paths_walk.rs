use upfind::paths::{join, parent, split_name, Ancestors};

fn bytes(s: &str) -> Vec<u8> {
    s.as_bytes().to_vec()
}

#[test]
fn ancestor_walk_from_absolute_path() {
    let mut a = Ancestors::new(bytes("/a/b/c"));
    assert_eq!(a.next(), Some(bytes("/a/b/c")));
    assert_eq!(a.next(), Some(bytes("/a/b")));
    assert_eq!(a.next(), Some(bytes("/a")));
    assert_eq!(a.next(), Some(bytes("/")));
    assert_eq!(a.next(), None);
    assert_eq!(a.next(), None);
}

#[test]
fn single_relative_component_yields_exactly_one_element() {
    let mut a = Ancestors::new(bytes("marker"));
    assert_eq!(a.next(), Some(bytes("marker")));
    assert_eq!(a.next(), None);
}

#[test]
fn root_alone_yields_exactly_one_element() {
    let mut a = Ancestors::new(bytes("/"));
    assert_eq!(a.next(), Some(bytes("/")));
    assert_eq!(a.next(), None);
}

#[test]
fn ancestors_shrink_strictly_and_end_without_parent() {
    let mut a = Ancestors::new(bytes("/one/two/three/four"));
    let mut previous: Option<Vec<u8>> = None;
    let mut count = 0;
    while let Some(p) = a.next() {
        if let Some(prev) = &previous {
            assert!(p.len() < prev.len());
        }
        previous = Some(p);
        count += 1;
        assert!(count <= 16, "the walk must terminate");
    }
    assert_eq!(count, 5);
    assert_eq!(parent(&previous.unwrap()), None);
}

#[test]
fn parent_cases() {
    assert_eq!(parent(&bytes("/a/b")), Some(bytes("/a")));
    assert_eq!(parent(&bytes("/a")), Some(bytes("/")));
    assert_eq!(parent(&bytes("/")), None);
    assert_eq!(parent(&bytes("name")), None);
    assert_eq!(parent(&bytes("")), None);
    assert_eq!(parent(&bytes("a/b")), Some(bytes("a")));
}

#[test]
fn join_cases() {
    assert_eq!(join(&bytes("/a"), &bytes("b.txt")), bytes("/a/b.txt"));
    assert_eq!(join(&bytes("/"), &bytes("x")), bytes("/x"));
    assert_eq!(join(&bytes(""), &bytes("rel")), bytes("rel"));
    assert_eq!(join(&bytes("dir/"), &bytes("x")), bytes("dir/x"));
}

#[test]
fn join_keeps_raw_bytes() {
    let odd = vec![0xff_u8, 0xfe];
    let joined = join(&bytes("/d"), &odd);
    assert_eq!(joined, vec![b'/', b'd', b'/', 0xff, 0xfe]);
}

#[test]
fn split_name_cases() {
    assert_eq!(split_name(&bytes("config.toml")), (None, bytes("config.toml")));
    assert_eq!(
        split_name(&bytes("sub/dir/x")),
        (Some(bytes("sub/dir")), bytes("x"))
    );
    assert_eq!(split_name(&bytes("sub/x")), (Some(bytes("sub")), bytes("x")));
}

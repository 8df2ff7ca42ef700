use tempfile::Builder;
use upfind::engine::{iter, search, Level, Strategy};
use upfind::level::LevelError;

fn bytes(s: &str) -> Vec<u8> {
    s.as_bytes().to_vec()
}

fn dir_bytes(p: &std::path::Path) -> Vec<u8> {
    p.to_str().expect("temp paths are text").as_bytes().to_vec()
}

#[test]
fn non_text_candidate_fails_that_level_only() {
    let mut s = iter(bytes("/up-nowhere"), vec![vec![0xff_u8]]);
    match s.next_level() {
        Some(Level::Glob(Err(LevelError::PathNotText { raw }))) => {
            assert_eq!(raw, vec![b'/', b'u', b'p', b'-', b'n', b'o', b'w', b'h', b'e', b'r', b'e', b'/', 0xff]);
        }
        other => panic!("expected a text-conversion failure, got {other:?}"),
    }
    // The walk goes on: the next level is the pair at the root.
    match s.next_level() {
        Some(Level::Glob(Err(LevelError::PathNotText { raw }))) => {
            assert_eq!(raw, vec![b'/', 0xff]);
        }
        other => panic!("expected a text-conversion failure, got {other:?}"),
    }
    assert_eq!(s.next_level(), None);
}

#[test]
fn invalid_pattern_fails_that_level() {
    let mut s = iter(bytes("/up-nowhere"), vec![bytes("a***")]);
    match s.next_level() {
        Some(Level::Glob(Err(LevelError::PatternInvalid { message }))) => {
            assert!(!message.is_empty());
        }
        other => panic!("expected a pattern failure, got {other:?}"),
    }
}

#[test]
fn glob_level_finds_matching_files() {
    let root = Builder::new().prefix("upfind-glob").tempdir().unwrap();
    let kept = Builder::new()
        .prefix("alpha")
        .suffix(".uptoml")
        .rand_bytes(0)
        .tempfile_in(root.path())
        .unwrap();
    let _other = Builder::new()
        .prefix("beta")
        .suffix(".txt")
        .rand_bytes(0)
        .tempfile_in(root.path())
        .unwrap();

    let mut s = iter(dir_bytes(root.path()), vec![bytes("*.uptoml")]);
    // Pull only the first level: the pair of the starting directory itself.
    match s.next_level() {
        Some(Level::Glob(Ok(entries))) => {
            assert_eq!(entries, vec![Ok(dir_bytes(kept.path()))]);
        }
        other => panic!("expected a resolved glob level, got {other:?}"),
    }
}

// The engine is used with its default matching semantics, and the default
// of the delegated engine lets `*` match a leading dot: both files at the
// `a` level surface, in the engine's alphabetical order, and none anywhere
// else.
#[test]
fn wildcard_matches_surface_at_their_ancestor_level() {
    let root = Builder::new().prefix("upfind-walk").tempdir().unwrap();
    let a = Builder::new().prefix("a").rand_bytes(0).tempdir_in(root.path()).unwrap();
    let b = Builder::new().prefix("b").rand_bytes(0).tempdir_in(a.path()).unwrap();
    let c = Builder::new().prefix("c").rand_bytes(0).tempdir_in(b.path()).unwrap();
    let hidden = Builder::new()
        .prefix(".x")
        .suffix(".zqlock")
        .rand_bytes(0)
        .tempfile_in(a.path())
        .unwrap();
    let plain = Builder::new()
        .prefix("y")
        .suffix(".zqlock")
        .rand_bytes(0)
        .tempfile_in(a.path())
        .unwrap();

    let mut s = iter(dir_bytes(c.path()), vec![bytes("*.zqlock")]);
    let mut found = Vec::new();
    let mut pulled = 0;
    while let Some(l) = s.next_level() {
        match l {
            Level::Glob(Ok(entries)) => {
                for e in entries {
                    found.push(e.expect("no engine error expected here"));
                }
            }
            Level::Glob(Err(e)) => panic!("unexpected level failure: {e:?}"),
            Level::Literal(_) => panic!("a glob search must yield glob levels"),
        }
        pulled += 1;
        assert!(pulled <= 64, "the walk must terminate");
    }
    assert_eq!(found, vec![dir_bytes(hidden.path()), dir_bytes(plain.path())]);
}

#[test]
fn pattern_directory_part_descends_from_each_ancestor() {
    let root = Builder::new().prefix("upfind-sub").tempdir().unwrap();
    let sub = Builder::new().prefix("conf").rand_bytes(0).tempdir_in(root.path()).unwrap();
    let kept = Builder::new()
        .prefix("delta")
        .suffix(".uptoml")
        .rand_bytes(0)
        .tempfile_in(sub.path())
        .unwrap();

    let mut s = iter(dir_bytes(root.path()), vec![bytes("conf/*.uptoml")]);
    match s.next_level() {
        Some(Level::Glob(Ok(entries))) => {
            assert_eq!(entries, vec![Ok(dir_bytes(kept.path()))]);
        }
        other => panic!("expected a resolved glob level, got {other:?}"),
    }
}

#[test]
fn results_ending_in_dot_segments_are_dropped() {
    let root = Builder::new().prefix("upfind-dots").tempdir().unwrap();
    let sub = Builder::new().prefix("sub").rand_bytes(0).tempdir_in(root.path()).unwrap();

    // The pattern resolves to an existing path whose rendered text ends in
    // a `/..` segment; the post-filter must drop it.
    let mut s = search(dir_bytes(root.path()), vec![bytes("sub/..")], Strategy::Glob);
    match s.next_level() {
        Some(Level::Glob(Ok(entries))) => {
            assert_eq!(entries, vec![]);
        }
        other => panic!("expected a resolved glob level, got {other:?}"),
    }
    drop(sub);
}

#[test]
fn identical_glob_searches_yield_identical_outcomes() {
    let root = Builder::new().prefix("upfind-idem").tempdir().unwrap();
    let _kept = Builder::new()
        .prefix("gamma")
        .suffix(".uptoml")
        .rand_bytes(0)
        .tempfile_in(root.path())
        .unwrap();

    // Only the starting directory's own level is pulled: levels further up
    // read directories that other processes may be changing meanwhile.
    let run = || {
        let mut s = iter(dir_bytes(root.path()), vec![bytes("*.uptoml")]);
        s.next_level().expect("the walk has at least one level")
    };
    assert_eq!(run(), run());
}

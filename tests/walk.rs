use dir_iterator::filter::{dirs, exclude, files, includes, symlink};
use dir_iterator::{DirIterator, Entry, FileKind, Pattern, Pulled, Step, WalkError};

/// A node of an in-memory tree that the walker is driven over.
#[derive(Clone)]
enum Node {
    File(&'static str),
    Link(&'static str),
    Dir(&'static str, Vec<Node>),
    /// A directory that cannot be opened.
    Locked(&'static str),
    /// An object whose kind cannot be determined.
    Unknown(&'static str),
    /// A listing error at this position.
    Broken,
}

struct Cursor {
    prefix: String,
    items: Vec<Node>,
    pos: usize,
}

/// Pulls one event, with the children and path of a directory item.
fn pull(cur: &mut Cursor) -> (Pulled, Option<Vec<Node>>, String) {
    if cur.pos >= cur.items.len() {
        return (Pulled::End, None, String::new());
    }
    let node = cur.items[cur.pos].clone();
    cur.pos += 1;
    let entry = |name: &str, kind: Option<FileKind>| {
        let path = format!("{}/{}", cur.prefix, name);
        (Entry::new(name.as_bytes().to_vec(), path.as_bytes().to_vec(), kind), path)
    };
    match node {
        Node::File(n) => (Pulled::Item(entry(n, Some(FileKind::File)).0), None, String::new()),
        Node::Link(n) => (Pulled::Item(entry(n, Some(FileKind::Symlink)).0), None, String::new()),
        Node::Unknown(n) => (Pulled::Item(entry(n, None).0), None, String::new()),
        Node::Locked(n) => {
            let (e, p) = entry(n, Some(FileKind::Dir));
            (Pulled::Item(e), None, p)
        }
        Node::Dir(n, children) => {
            let (e, p) = entry(n, Some(FileKind::Dir));
            (Pulled::Item(e), Some(children), p)
        }
        Node::Broken => (Pulled::Failed, None, String::new()),
    }
}

/// Walks `root` (`None`: a root that cannot be opened) from the path "root".
fn walk_at(
    path: &str,
    root: Option<Vec<Node>>,
    ignores: &[&str],
) -> Result<Vec<Result<Entry, WalkError>>, WalkError> {
    let mut builder = DirIterator::<Cursor>::from_path(path);
    for i in ignores {
        builder = builder.ignore(i).expect("malformed wildcard");
    }
    let prefix = builder.path().to_string();
    let root = root.map(|items| Cursor { prefix, items, pos: 0 });
    let mut walk = builder.build(root)?;
    let mut out = Vec::new();
    while let Some(mut cur) = walk.take_frame() {
        let (ev, children, path) = pull(&mut cur);
        match walk.advance(cur, ev) {
            Step::Exhausted => {}
            Step::Yield(e) => out.push(Ok(e)),
            Step::Fail(err) => out.push(Err(err)),
            Step::Descend(e) => {
                let opened = children.map(|items| Cursor { prefix: path, items, pos: 0 });
                out.push(walk.descend(e, opened));
            }
        }
    }
    assert!(walk.is_finished());
    Ok(out)
}

fn walk(root: Vec<Node>, ignores: &[&str]) -> Vec<Result<Entry, WalkError>> {
    walk_at("root", Some(root), ignores).expect("path not found")
}

fn ok_entries(items: Vec<Result<Entry, WalkError>>) -> Vec<Entry> {
    items.into_iter().flatten().collect()
}

fn name(e: &Entry) -> String {
    String::from_utf8_lossy(&e.name).to_string()
}

fn path(e: &Entry) -> String {
    String::from_utf8_lossy(&e.path).to_string()
}

fn project() -> Vec<Node> {
    vec![
        Node::File("Cargo.toml"),
        Node::File("README.md"),
        Node::Dir(".github", vec![Node::Dir("workflows", vec![Node::File("ci.yml")])]),
        Node::Dir(
            "src",
            vec![Node::File("filter.rs"), Node::File("lib.rs"), Node::File("test.rs")],
        ),
        Node::Dir("target", vec![Node::Dir("debug", vec![Node::File("main.o")])]),
        Node::File("notes.txt"),
    ]
}

fn abcd() -> Vec<Node> {
    vec![Node::File("a"), Node::File("b"), Node::Dir("c", vec![Node::File("d")])]
}

#[test]
fn read_cur() {
    let files = ok_entries(walk(project(), &[])).iter().map(name).collect::<Vec<_>>();

    assert!(files.contains(&"test.rs".to_string()));
    assert!(files.contains(&"lib.rs".to_string()));
    assert!(files.contains(&"Cargo.toml".to_string()));
    assert!(files.contains(&"README.md".to_string()));
}

#[test]
fn read_dir() {
    let src = vec![Node::File("filter.rs"), Node::File("lib.rs"), Node::File("test.rs")];
    let mut dir = ok_entries(walk_at("src", Some(src), &[]).expect("path not found"))
        .iter()
        .map(name)
        .collect::<Vec<_>>();
    dir.sort();
    assert_eq!(dir, ["filter.rs", "lib.rs", "test.rs"],);
}

#[test]
fn filter_dir() {
    let src = vec![Node::File("filter.rs"), Node::File("lib.rs"), Node::File("test.rs")];
    let pattern = Pattern::new("test.*").unwrap();
    let mut dir = ok_entries(walk_at("src", Some(src), &[]).expect("path not found"))
        .iter()
        .filter(|e| includes(&pattern, e))
        .map(name)
        .collect::<Vec<_>>();
    dir.sort();
    assert_eq!(dir, ["test.rs"],);
}

#[test]
fn read_paths() {
    let cur = "/home/user/project";
    let files = ok_entries(walk_at(cur, Some(project()), &[]).unwrap())
        .iter()
        .map(path)
        .collect::<Vec<_>>();

    assert!(files.contains(&format!("{}/{}", cur, "src/test.rs")));
    assert!(files.contains(&format!("{}/{}", cur, "src/lib.rs")));
    assert!(files.contains(&format!("{}/{}", cur, "Cargo.toml")));
    assert!(files.contains(&format!("{}/{}", cur, "README.md")));
}

#[test]
fn filter_dirs() {
    let dir = ok_entries(walk(project(), &["target"]))
        .iter()
        .filter(|e| dirs(e))
        .map(name)
        .collect::<Vec<_>>();

    assert!(dir.contains(&".github".to_string()));
    // a pruned directory keeps its own entry; only its contents are skipped
    assert!(dir.contains(&"target".to_string()));
    assert!(!dir.contains(&"debug".to_string()));
    assert!(!dir.contains(&"*.o".to_string()));
}

#[test]
fn read_a_directory_recursively() {
    for e in ok_entries(walk(project(), &[])) {
        println!("{:?}", name(&e));
    }
}

#[test]
fn filter_result_with_wildcards() {
    let txt = Pattern::new("*.txt").unwrap();
    let kept = ok_entries(walk(project(), &[]))
        .into_iter()
        .filter(|e| exclude(&txt, e))
        .map(|e| name(&e))
        .collect::<Vec<_>>();
    for n in &kept {
        println!("{:?}", n);
    }
    assert!(!kept.contains(&"notes.txt".to_string()));
    assert!(kept.contains(&"README.md".to_string()));
}

#[test]
fn ignore_folders_when_scanning() {
    let hidden = Pattern::new(".*").unwrap();
    let tree = vec![
        Node::Dir(".git", vec![Node::File("config")]),
        Node::File(".env"),
        Node::Dir("target", vec![Node::File("out")]),
        Node::Dir("src", vec![Node::File("lib.rs")]),
    ];
    let kept = ok_entries(walk(tree, &["target", ".*"]))
        .into_iter()
        .filter(|e| exclude(&hidden, e))
        .map(|e| path(&e))
        .collect::<Vec<_>>();
    for p in &kept {
        println!("{:?}", p);
    }
    assert_eq!(kept, ["root/target", "root/src", "root/src/lib.rs"]);
}

#[test]
fn full_walk_yields_all_entries_parent_first() {
    let paths = ok_entries(walk(abcd(), &[])).iter().map(path).collect::<Vec<_>>();
    let mut sorted = paths.clone();
    sorted.sort();
    assert_eq!(sorted, ["root/a", "root/b", "root/c", "root/c/d"]);
    let c = paths.iter().position(|p| p == "root/c").unwrap();
    let d = paths.iter().position(|p| p == "root/c/d").unwrap();
    assert!(c < d);
}

#[test]
fn walk_is_depth_first_pre_order() {
    let tree = vec![
        Node::Dir("x", vec![Node::Dir("y", vec![Node::File("z")]), Node::File("w")]),
        Node::File("v"),
    ];
    let paths = ok_entries(walk(tree, &[])).iter().map(path).collect::<Vec<_>>();
    assert_eq!(paths, ["root/x", "root/x/y", "root/x/y/z", "root/x/w", "root/v"]);
}

#[test]
fn pruned_directory_is_surfaced_but_not_entered() {
    let entries = ok_entries(walk(project(), &["target"]));
    assert!(entries.iter().any(|e| name(e) == "target"));
    assert!(!entries.iter().any(|e| path(e).starts_with("root/target/")));
    assert!(entries.iter().any(|e| path(e) == "root/src/lib.rs"));
}

#[test]
fn pattern_on_a_file_prunes_nothing() {
    let entries = ok_entries(walk(abcd(), &["a", "d"]));
    let paths = entries.iter().map(path).collect::<Vec<_>>();
    assert_eq!(paths, ["root/a", "root/b", "root/c", "root/c/d"]);
}

#[test]
fn kind_filters_are_exclusive_and_exhaustive() {
    let tree = vec![Node::File("f"), Node::Link("l"), Node::Dir("d", vec![])];
    for e in ok_entries(walk(tree, &[])) {
        let n = [files(&e), dirs(&e), symlink(&e)].iter().filter(|b| **b).count();
        assert_eq!(n, 1);
    }
    let unknown = Entry::new(b"u".to_vec(), b"root/u".to_vec(), None);
    assert!(!files(&unknown) && !dirs(&unknown) && !symlink(&unknown));
}

#[test]
fn name_filters_are_complementary() {
    let entries = ok_entries(walk(project(), &[]));
    for text in ["*.rs", "?EADME.md", "src", "\\*", "*"] {
        let p = Pattern::new(text).unwrap();
        for e in &entries {
            assert_eq!(includes(&p, e), !exclude(&p, e));
        }
    }
}

#[test]
fn walking_twice_gives_the_same_entries() {
    let first = ok_entries(walk(project(), &["target"]));
    let second = ok_entries(walk(project(), &["target"]));
    assert_eq!(first, second);
}

#[test]
fn file_is_only_a_file() {
    let e = Entry::new(b"lib.rs".to_vec(), b"src/lib.rs".to_vec(), Some(FileKind::File));
    assert!(files(&e));
    assert!(!dirs(&e));
    assert!(!symlink(&e));
}

#[test]
fn rust_sources_end_to_end() {
    let rs = Pattern::new("*.rs").unwrap();
    let tree = vec![
        Node::File("Cargo.toml"),
        Node::Dir("src", vec![Node::File("test.rs"), Node::File("lib.rs")]),
    ];
    let mut names = ok_entries(walk(tree, &[]))
        .iter()
        .filter(|e| files(e))
        .filter(|e| includes(&rs, e))
        .map(name)
        .collect::<Vec<_>>();
    names.sort();
    assert_eq!(names, ["lib.rs", "test.rs"]);
}

#[test]
fn hidden_directory_contents_are_never_surfaced() {
    let tree = vec![
        Node::Dir(".git", vec![Node::File("config"), Node::Dir("refs", vec![])]),
        Node::File("main.rs"),
    ];
    let entries = ok_entries(walk(tree, &[".*"]));
    assert!(!entries.iter().any(|e| path(e).contains(".git/")));
    let hidden = Pattern::new(".*").unwrap();
    let shown = entries.iter().filter(|e| exclude(&hidden, e)).map(path).collect::<Vec<_>>();
    assert!(!shown.iter().any(|p| p.contains(".git")));
    assert_eq!(shown, ["root/main.rs"]);
}

#[test]
fn unreadable_root_fails_and_yields_nothing() {
    let r = walk_at("missing", None, &[]);
    assert_eq!(r.err(), Some(WalkError::RootUnreadable));
}

#[test]
fn kind_failure_is_reported_and_walk_goes_on() {
    let tree = vec![Node::Unknown("gone"), Node::File("kept")];
    let items = walk(tree, &[]);
    assert_eq!(items.len(), 2);
    assert_eq!(items[0], Err(WalkError::KindResolution));
    assert_eq!(name(items[1].as_ref().unwrap()), "kept");
}

#[test]
fn descend_failure_is_reported_and_siblings_remain() {
    let tree = vec![Node::Locked("secret"), Node::File("open")];
    let items = walk(tree, &[]);
    assert_eq!(items.len(), 2);
    assert_eq!(items[0], Err(WalkError::DescendFailure));
    assert_eq!(name(items[1].as_ref().unwrap()), "open");
}

#[test]
fn listing_failure_is_surfaced() {
    let tree = vec![Node::File("a"), Node::Broken];
    let items = walk(tree, &[]);
    assert_eq!(items.len(), 2);
    assert_eq!(items[1], Err(WalkError::ListingFailure));
}

#[test]
fn pruned_locked_directory_is_not_opened() {
    let items = walk(vec![Node::Locked("target")], &["target"]);
    assert_eq!(items.len(), 1);
    assert_eq!(name(items[0].as_ref().unwrap()), "target");
}

#[test]
fn malformed_patterns_are_refused() {
    assert!(Pattern::new("abc\\").is_err());
    assert!(Pattern::new("a\\b").is_err());
    assert!(Pattern::new("a\\*").is_ok());
    let b = DirIterator::<Cursor>::from_path("root");
    let err = b.ignore("bad\\").err().unwrap();
    assert_eq!(err.pattern, "bad\\");
}

#[test]
fn pattern_matching_uses_wildcards() {
    let p = Pattern::new("test.*").unwrap();
    assert!(p.is_match(b"test.rs"));
    assert!(!p.is_match(b"lib.rs"));
    let q = Pattern::new("?.rs").unwrap();
    assert!(q.is_match(b"a.rs"));
    assert!(!q.is_match(b"ab.rs"));
    let lit = Pattern::new("\\*").unwrap();
    assert!(lit.is_match(b"*"));
    assert!(!lit.is_match(b"x"));
}

#[test]
fn empty_root_yields_nothing() {
    assert!(walk(vec![], &[]).is_empty());
}

#[test]
fn builder_keeps_its_path() {
    let b = DirIterator::<Cursor>::from_path("some/dir").ignore("target").unwrap();
    assert_eq!(b.path(), "some/dir");
}

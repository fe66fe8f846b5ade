//! End-to-end exercises of the facade: population, listing,
//! resolution and bounded reads over test sources.

use effs::attr::FileType;
use effs::attr::Timestamp;
use effs::effs::Effs;
use effs::entry::Dir;
use effs::entry::Entry;
use effs::error::Errno;
use effs::error::Error;
use effs::error::NodeLookupError;
use effs::error::SourceError;
use effs::node::ReadOutcome;
use effs::traits::EffsSource;

/// A source that serves nothing anywhere.
struct NullSource;

impl EffsSource for NullSource {
    fn dir(&mut self, _request: &str) -> Result<Vec<(String, Entry)>, SourceError> {
        Ok(Vec::new())
    }
}

/// A source that mirrors a small fixed host tree: `a.txt` holding
/// `hello\n` and a subdirectory `sub` holding `b.txt` with `world`.
struct TreeSource;

impl EffsSource for TreeSource {
    fn dir(&mut self, request: &str) -> Result<Vec<(String, Entry)>, SourceError> {
        let req: String = request.chars().skip_while(|c| *c == '/').collect();
        if req.is_empty() {
            Ok(vec![
                ("a.txt".to_string(), Entry::Filtrated(b"hello\n".to_vec())),
                ("sub".to_string(), Entry::Dir(Dir::new())),
            ])
        } else if req == "sub" {
            Ok(vec![("b.txt".to_string(), Entry::Filtrated(b"world".to_vec()))])
        } else {
            Err(SourceError::Io)
        }
    }
}

fn now() -> Timestamp {
    Timestamp::new(11, 22)
}

#[test]
fn basic() {
    let fs: Effs<NullSource> = Effs::new(now());
    assert_eq!(1u64, fs.path_to_node_id("").unwrap());
    assert_eq!(1u64, fs.path_to_node_id("/").unwrap());
    assert!(fs.path_to_node_id("no_such_path").is_err());
    assert!(fs.path_to_node_id("/no_such_path").is_err());
}

#[test]
fn mirror_tree_listing() {
    let mut fs: Effs<TreeSource> = Effs::new(now());
    fs.push_source(TreeSource);
    fs.build_nodes("", now()).unwrap();

    let entries = fs.readdirplus(1, 0).unwrap();
    let names: Vec<&str> = entries.iter().map(|e| e.name.as_str()).collect();
    assert_eq!(names, vec![".", "..", "a.txt", "sub"]);
    assert_eq!(entries[0].inode, 1);
    assert_eq!(entries[1].inode, 1, "the root's dot-dot is itself");
    assert_eq!(entries[2].kind, FileType::RegularFile);
    assert_eq!(entries[3].kind, FileType::Directory);
    // offsets are resume cookies counted from one
    assert_eq!(entries.iter().map(|e| e.offset).collect::<Vec<u64>>(), vec![1, 2, 3, 4]);

    // reading a.txt fully returns its bytes
    let a = fs.path_to_node_id("a.txt").unwrap();
    match fs.read(a, 0, 100).unwrap() {
        ReadOutcome::Data(d) => assert_eq!(d, b"hello\n".to_vec()),
        ReadOutcome::Pending(_) => panic!("materialised bytes should be served directly"),
    }
}

#[test]
fn lazy_subdirectory_expansion() {
    let mut fs: Effs<TreeSource> = Effs::new(now());
    fs.push_source(TreeSource);
    fs.build_nodes("", now()).unwrap();

    let sub = fs.path_to_node_id("sub").unwrap();
    // the refresh hook resolves the listed directory's path first
    assert_eq!(fs.path_of_inode(sub).unwrap(), "/sub");
    fs.build_nodes("/sub", now()).unwrap();

    let entries = fs.readdirplus(sub, 0).unwrap();
    let names: Vec<&str> = entries.iter().map(|e| e.name.as_str()).collect();
    assert_eq!(names, vec![".", "..", "b.txt"]);
    assert_eq!(entries[1].inode, 1, "sub's parent is the root");

    let b = fs.path_to_node_id("sub/b.txt").unwrap();
    match fs.read(b, 0, 64).unwrap() {
        ReadOutcome::Data(d) => assert_eq!(d, b"world".to_vec()),
        ReadOutcome::Pending(_) => panic!("materialised bytes should be served directly"),
    }
    match fs.read(b, 1, 2).unwrap() {
        ReadOutcome::Data(d) => assert_eq!(d, b"or".to_vec()),
        ReadOutcome::Pending(_) => panic!("materialised bytes should be served directly"),
    }
    match fs.read(b, 100, 10).unwrap() {
        ReadOutcome::Data(d) => assert_eq!(d, Vec::<u8>::new()),
        ReadOutcome::Pending(_) => panic!("materialised bytes should be served directly"),
    }
}

#[test]
fn relink_preserves_inode_and_bumps_generation() {
    let mut fs: Effs<TreeSource> = Effs::new(now());
    fs.push_source(TreeSource);
    fs.build_nodes("", now()).unwrap();

    let a_before = fs.path_to_node_id("a.txt").unwrap();
    let (_, gen_before) = fs.lookup(1, "a.txt").unwrap();

    fs.build_nodes("", now()).unwrap();

    let a_after = fs.path_to_node_id("a.txt").unwrap();
    let (_, gen_after) = fs.lookup(1, "a.txt").unwrap();
    assert_eq!(a_before, a_after, "re-linking keeps the inode");
    assert_eq!(gen_after, gen_before + 1, "re-linking bumps the generation by one");
}

#[test]
fn readdir_matches_lookup() {
    let mut fs: Effs<TreeSource> = Effs::new(now());
    fs.push_source(TreeSource);
    fs.build_nodes("", now()).unwrap();

    let entries = fs.readdirplus(1, 0).unwrap();
    for e in entries.iter().skip(2) {
        let (attr, gen) = fs.lookup(1, e.name.as_str()).unwrap();
        assert_eq!(attr.ino, e.inode);
        assert!(gen >= e.generation);
    }
    // and no name appears twice
    for (i, a) in entries.iter().enumerate() {
        for b in entries.iter().skip(i + 1) {
            assert_ne!(a.name, b.name);
        }
    }
}

#[test]
fn readdir_pagination() {
    let mut fs: Effs<TreeSource> = Effs::new(now());
    fs.push_source(TreeSource);
    fs.build_nodes("", now()).unwrap();

    let all = fs.readdirplus(1, 0).unwrap();
    assert_eq!(all.len(), 4);
    let resumed = fs.readdirplus(1, 2).unwrap();
    assert_eq!(resumed.len(), 2);
    assert_eq!(resumed[0].name, "a.txt");
    assert_eq!(resumed[0].offset, 3);
    let beyond = fs.readdirplus(1, 10).unwrap();
    assert_eq!(beyond.len(), 0);
}

#[test]
fn root_getattr_is_directory() {
    let fs: Effs<NullSource> = Effs::new(now());
    let attr = fs.getattr(1).unwrap();
    assert_eq!(attr.ino, 1);
    assert_eq!(attr.kind, FileType::Directory);
    // 0o755 xored with the directory bits, as the kernel adapter
    // reports permissions
    assert_eq!(attr.perm, 0o40755u16);
    assert_eq!(attr.size, 0);
    assert_eq!(attr.nlink, 0);
    assert_eq!(attr.uid, 0);
    assert_eq!(attr.gid, 0);
    // link time is what the arena was created at
    assert_eq!(attr.mtime, now());
    assert_eq!(attr.atime, attr.ctime);
}

#[test]
fn file_perm_mixes_kind_bits() {
    let mut fs: Effs<TreeSource> = Effs::new(now());
    fs.push_source(TreeSource);
    fs.build_nodes("", now()).unwrap();
    let (attr, _) = fs.lookup(1, "a.txt").unwrap();
    // 0o644 xored with the regular-file bits: not the raw mode word
    assert_eq!(attr.perm, 0o100644u64 as u16);
    assert_ne!(attr.perm as u32, 0o644u32);
}

#[test]
fn error_surface() {
    let mut fs: Effs<TreeSource> = Effs::new(now());
    fs.push_source(TreeSource);
    fs.build_nodes("", now()).unwrap();

    assert_eq!(fs.getattr(999).unwrap_err(), Errno::NoEnt);
    assert_eq!(fs.lookup(999, "x").unwrap_err(), Errno::NoEnt);
    assert_eq!(fs.lookup(1, "nope").unwrap_err(), Errno::NoEnt);
    let a = fs.path_to_node_id("a.txt").unwrap();
    assert_eq!(fs.lookup(a, "x").unwrap_err(), Errno::NotDir);
    assert_eq!(fs.read(1, 0, 10).unwrap_err(), Errno::NotDir);
    assert_eq!(fs.readdirplus(a, 0).unwrap_err(), Errno::NotDir);
    assert_eq!(fs.readdirplus(999, 0).unwrap_err(), Errno::NoEnt);
    assert_eq!(fs.open(999, 0).unwrap_err(), Errno::NoEnt);

    match fs.path_to_node_id("nope") {
        Err(Error::NodeLookupError(NodeLookupError::NoSuchName(at, name))) => {
            assert_eq!(at, 1);
            assert_eq!(name, "nope");
        },
        other => panic!("expected NoSuchName, got {:?}", other.map(|_| ())),
    }
}

#[test]
fn open_forces_direct_io() {
    let fs: Effs<NullSource> = Effs::new(now());
    assert_eq!(fs.open(1, 0).unwrap(), (0, 1));
    assert_eq!(fs.open(1, 0o100).unwrap(), (0, 0o101));
    assert_eq!(fs.init(), 1024);
}

#[test]
fn path_round_trip() {
    let mut fs: Effs<TreeSource> = Effs::new(now());
    fs.push_source(TreeSource);
    fs.build_nodes("", now()).unwrap();
    fs.build_nodes("sub", now()).unwrap();

    for p in ["/sub", "sub", "sub/", "//sub", "/sub/b.txt", "sub//b.txt"] {
        let id = fs.path_to_node_id(p).unwrap();
        let back = fs.path_of_inode(id).unwrap();
        let renormalized: String =
            p.split('/').filter(|s| !s.is_empty()).collect::<Vec<_>>().join("/");
        assert_eq!(back, format!("/{}", renormalized));
        // resolving the reconstructed path lands on the same node
        assert_eq!(fs.path_to_node_id(back.as_str()).unwrap(), id);
    }
    assert_eq!(fs.path_of_inode(1).unwrap(), "/");
}

#[test]
fn later_sources_win_collisions() {
    struct First;
    impl EffsSource for First {
        fn dir(&mut self, _request: &str) -> Result<Vec<(String, Entry)>, SourceError> {
            Ok(vec![("f".to_string(), Entry::Filtrated(b"one".to_vec()))])
        }
    }
    struct Second;
    impl EffsSource for Second {
        fn dir(&mut self, _request: &str) -> Result<Vec<(String, Entry)>, SourceError> {
            Ok(vec![("f".to_string(), Entry::Filtrated(b"two".to_vec()))])
        }
    }
    enum Any {
        First(First),
        Second(Second),
    }
    impl EffsSource for Any {
        fn dir(&mut self, request: &str) -> Result<Vec<(String, Entry)>, SourceError> {
            match self {
                Any::First(s) => s.dir(request),
                Any::Second(s) => s.dir(request),
            }
        }
    }
    let mut fs: Effs<Any> = Effs::new(now());
    fs.push_source(Any::First(First));
    fs.push_source(Any::Second(Second));
    fs.build_nodes("", now()).unwrap();

    let f = fs.path_to_node_id("f").unwrap();
    match fs.read(f, 0, 16).unwrap() {
        ReadOutcome::Data(d) => assert_eq!(d, b"two".to_vec()),
        ReadOutcome::Pending(_) => panic!("materialised bytes should be served directly"),
    }
    // one name, one inode: the listing holds a single child
    let entries = fs.readdirplus(1, 0).unwrap();
    assert_eq!(entries.len(), 3);
    let (_, gen) = fs.lookup(1, "f").unwrap();
    assert_eq!(gen, 2, "the second source re-linked the same child");
}

#[test]
fn improper_names_are_skipped() {
    struct Rogue;
    impl EffsSource for Rogue {
        fn dir(&mut self, _request: &str) -> Result<Vec<(String, Entry)>, SourceError> {
            Ok(vec![
                (".".to_string(), Entry::Filtrated(b"x".to_vec())),
                ("..".to_string(), Entry::Filtrated(b"x".to_vec())),
                ("".to_string(), Entry::Filtrated(b"x".to_vec())),
                ("a/b".to_string(), Entry::Filtrated(b"x".to_vec())),
                ("fine".to_string(), Entry::Filtrated(b"x".to_vec())),
            ])
        }
    }
    let mut fs: Effs<Rogue> = Effs::new(now());
    fs.push_source(Rogue);
    fs.build_nodes("", now()).unwrap();
    let entries = fs.readdirplus(1, 0).unwrap();
    let names: Vec<&str> = entries.iter().map(|e| e.name.as_str()).collect();
    assert_eq!(names, vec![".", "..", "fine"]);
}

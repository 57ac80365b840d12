use bandsocks::vfs::{Filesystem, MapRef, Node, Stat, VFSError};

fn path(parts: &[&str]) -> Vec<Vec<u8>> {
    parts.iter().map(|p| p.as_bytes().to_vec()).collect()
}

fn dir_names(fs: &Filesystem, num: usize) -> Vec<Vec<u8>> {
    match &fs.get_inode(num).unwrap().data {
        Node::Directory(entries) => entries.iter().map(|e| e.name.clone()).collect(),
        _ => panic!("not a directory"),
    }
}

#[test]
fn new_filesystem_has_root_dot() {
    let fs = Filesystem::new();
    assert_eq!(fs.resolve_path(0, &path(&["."])), Ok(0));
    assert_eq!(fs.resolve_path(0, &path(&[])), Ok(0));
    assert_eq!(fs.resolve_path(0, &path(&["etc"])), Err(VFSError::NotFound));
    assert_eq!(fs.get_inode(0).unwrap().stat, Stat { mode: 0o755, uid: 0, gid: 0, mtime: 0 });
    assert_eq!(fs.get_inode(1).err(), Some(VFSError::UnallocNode));
    assert_eq!(dir_names(&fs, 0), vec![b".".to_vec()]);
}

#[test]
fn mkdirp_creates_each_level_with_dot_entries() {
    let mut w = Filesystem::new().writer();
    assert_eq!(w.mkdirp(&path(&["usr", "lib", "x86_64"])), Ok(()));
    let fs = w.into_filesystem();
    let usr = fs.resolve_path(0, &path(&["usr"])).unwrap();
    let lib = fs.resolve_path(0, &path(&["usr", "lib"])).unwrap();
    let deep = fs.resolve_path(0, &path(&["usr", "lib", "x86_64"])).unwrap();
    assert_eq!((usr, lib, deep), (1, 2, 3));
    assert_eq!(fs.resolve_path(deep, &path(&["..", ".."])), Ok(usr));
    assert_eq!(fs.resolve_path(lib, &path(&["."])), Ok(lib));
    assert_eq!(dir_names(&fs, lib), vec![b".".to_vec(), b"..".to_vec(), b"x86_64".to_vec()]);
}

#[test]
fn mkdirp_twice_changes_nothing() {
    let mut w = Filesystem::new().writer();
    assert_eq!(w.mkdirp(&path(&["a", "b"])), Ok(()));
    assert_eq!(w.mkdirp(&path(&["a", "b"])), Ok(()));
    assert_eq!(w.mkdirp(&path(&["a"])), Ok(()));
    let fs = w.into_filesystem();
    assert_eq!(fs.get_inode(3).err(), Some(VFSError::UnallocNode));
    assert_eq!(fs.resolve_path(0, &path(&["a", "b"])), Ok(2));
}

#[test]
fn write_then_read_back() {
    let mut w = Filesystem::new().writer();
    w.mkdirp(&path(&["bin"])).unwrap();
    let data = MapRef { offset: 1024, len: 77 };
    assert_eq!(w.write_normal_file(&path(&["bin", "sh"]), data), Ok(()));
    let fs = w.into_filesystem();
    let num = fs.resolve_path(0, &path(&["bin", "sh"])).unwrap();
    let node = fs.get_inode(num).unwrap();
    assert_eq!(node.stat, Stat { mode: 0o644, uid: 0, gid: 0, mtime: 0 });
    match &node.data {
        Node::NormalFile(m) => assert_eq!(*m, data),
        _ => panic!("expected a normal file"),
    }
}

#[test]
fn write_errors() {
    let mut w = Filesystem::new().writer();
    let data = MapRef { offset: 0, len: 1 };
    assert_eq!(w.write_normal_file(&path(&[]), data), Err(VFSError::NotFound));
    assert_eq!(w.write_normal_file(&path(&["missing", "f"]), data), Err(VFSError::NotFound));
    assert_eq!(w.write_normal_file(&path(&[".."]), data), Err(VFSError::NotFound));
    assert_eq!(w.write_normal_file(&path(&["."]), data), Err(VFSError::NotFound));
    assert_eq!(w.write_normal_file(&path(&["f"]), data), Ok(()));
    // a file is no directory to write into, nor to make directories under
    assert_eq!(w.write_normal_file(&path(&["f", "g"]), data), Err(VFSError::DirectoryExpected));
    assert_eq!(w.mkdirp(&path(&["f", "h"])), Err(VFSError::DirectoryExpected));
}

#[test]
fn rewriting_a_name_rebinds_it() {
    let mut w = Filesystem::new().writer();
    w.write_normal_file(&path(&["f"]), MapRef { offset: 0, len: 1 }).unwrap();
    w.write_normal_file(&path(&["f"]), MapRef { offset: 5, len: 2 }).unwrap();
    let fs = w.into_filesystem();
    let num = fs.resolve_path(0, &path(&["f"])).unwrap();
    assert_eq!(num, 2);
    match &fs.get_inode(num).unwrap().data {
        Node::NormalFile(m) => assert_eq!(*m, MapRef { offset: 5, len: 2 }),
        _ => panic!("expected a normal file"),
    }
    assert_eq!(dir_names(&fs, 0), vec![b".".to_vec(), b"f".to_vec()]);
}

#[test]
fn segment_lookup_errors() {
    let mut w = Filesystem::new().writer();
    w.write_normal_file(&path(&["f"]), MapRef { offset: 0, len: 1 }).unwrap();
    let fs = w.into_filesystem();
    assert_eq!(fs.resolve_path_segment(1, &b"x".to_vec()), Err(VFSError::DirectoryExpected));
    assert_eq!(fs.resolve_path_segment(9, &b"x".to_vec()), Err(VFSError::UnallocNode));
    assert_eq!(fs.resolve_path_segment(0, &b"f".to_vec()), Ok(1));
}

#[test]
fn mkdirp_parent_step_through_a_file_fails_after_creating() {
    let mut w = Filesystem::new().writer();
    w.write_normal_file(&path(&["f"]), MapRef { offset: 0, len: 1 }).unwrap();
    assert_eq!(w.mkdirp(&path(&["new", "..", "f", "x"])), Err(VFSError::DirectoryExpected));
    let fs = w.into_filesystem();
    // `new` was made before the walk reached the file
    let new_dir = fs.resolve_path(0, &path(&["new"])).unwrap();
    assert_eq!(new_dir, 2);
    assert_eq!(fs.resolve_path(new_dir, &path(&[".."])), Ok(0));
    assert_eq!(fs.resolve_path(new_dir, &path(&["."])), Ok(new_dir));
}

#[test]
fn mkdirp_accepts_an_existing_file_as_last_component() {
    let mut w = Filesystem::new().writer();
    w.write_normal_file(&path(&["f"]), MapRef { offset: 0, len: 1 }).unwrap();
    assert_eq!(w.mkdirp(&path(&["f"])), Ok(()));
    let fs = w.into_filesystem();
    assert_eq!(fs.get_inode(2).err(), Some(VFSError::UnallocNode));
    match &fs.get_inode(1).unwrap().data {
        Node::NormalFile(_) => {}
        _ => panic!("expected the file to stay"),
    }
}

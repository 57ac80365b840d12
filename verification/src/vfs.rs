//! The in-memory filesystem that holds a container image: numbered inodes, where a
//! directory maps names to inode numbers. Paths are given as their components, in the
//! order `Path::iter` yields them (a leading `/`, `.` and `..` are ordinary names here,
//! looked up like any other).
use vstd::prelude::*;
use crate::protocol::INodeNum;

verus! {

#[derive(Debug, Clone, Copy, PartialEq, Eq, Structural)]
pub enum VFSError {
    DirectoryExpected,
    UnallocNode,
    NotFound,
}

#[derive(Debug, Clone, Copy, PartialEq, Eq, Structural)]
pub struct Stat {
    pub mode: u64,
    pub uid: u64,
    pub gid: u64,
    pub mtime: u64,
}

/// A range of bytes within the image data that holds a file's contents.
#[derive(Debug, Clone, Copy, PartialEq, Eq, Structural)]
pub struct MapRef {
    pub offset: usize,
    pub len: usize,
}

#[derive(Debug)]
pub struct DirEntry {
    pub name: Vec<u8>,
    pub inode: INodeNum,
}

#[derive(Debug)]
pub enum Node {
    Directory(Vec<DirEntry>),
    NormalFile(MapRef),
    SymbolicLink(Vec<u8>),
}

#[derive(Debug)]
pub struct INode {
    pub stat: Stat,
    pub data: Node,
}

pub open spec fn dir_stat() -> Stat {
    Stat { mode: 0o755, uid: 0, gid: 0, mtime: 0 }
}

pub open spec fn file_stat() -> Stat {
    Stat { mode: 0o644, uid: 0, gid: 0, mtime: 0 }
}

/// The index of the first entry named `name`, searching from `j`.
pub open spec fn find_from(es: Seq<DirEntry>, name: Seq<u8>, j: int) -> Option<int>
    decreases es.len() - j,
{
    if j < 0 || j >= es.len() {
        None
    } else if es[j].name@ == name {
        Some(j)
    } else {
        find_from(es, name, j + 1)
    }
}

/// The inode a directory with entries `es` maps `name` to.
pub open spec fn lookup(es: Seq<DirEntry>, name: Seq<u8>) -> Option<INodeNum> {
    match find_from(es, name, 0) {
        Some(i) => Some(es[i].inode),
        None => None,
    }
}

pub open spec fn is_dir(inodes: Seq<Option<INode>>, n: int) -> bool {
    0 <= n < inodes.len() && (inodes[n] matches Some(node) && node.data is Directory)
}

pub open spec fn dir_entries(inodes: Seq<Option<INode>>, n: int) -> Seq<DirEntry> {
    match inodes[n] {
        Some(node) => match node.data {
            Node::Directory(es) => es@,
            _ => Seq::empty(),
        },
        None => Seq::empty(),
    }
}

pub open spec fn is_allocated(inodes: Seq<Option<INode>>, n: int) -> bool {
    0 <= n < inodes.len() && inodes[n] is Some
}

/// Looking up one name in the directory `dir`.
pub open spec fn resolve_segment(inodes: Seq<Option<INode>>, dir: int, name: Seq<u8>) -> Result<
    INodeNum,
    VFSError,
> {
    if !is_allocated(inodes, dir) {
        Err(VFSError::UnallocNode)
    } else if !is_dir(inodes, dir) {
        Err(VFSError::DirectoryExpected)
    } else {
        match lookup(dir_entries(inodes, dir), name) {
            Some(c) => Ok(c),
            None => Err(VFSError::NotFound),
        }
    }
}

/// Following the path `comps` from `dir`, one name at a time.
pub open spec fn resolve_path(inodes: Seq<Option<INode>>, dir: int, comps: Seq<Seq<u8>>) -> Result<
    INodeNum,
    VFSError,
>
    decreases comps.len(),
{
    if comps.len() == 0 {
        Ok(dir as INodeNum)
    } else {
        match resolve_segment(inodes, dir, comps[0]) {
            Ok(c) => resolve_path(inodes, c as int, comps.drop_first()),
            Err(e) => Err(e),
        }
    }
}

/// The names of a list of path components.
pub open spec fn components(path: Seq<Vec<u8>>) -> Seq<Seq<u8>> {
    path.map_values(|c: Vec<u8>| c@)
}

/// A directory's names are distinct, and each names an allocated inode.
pub open spec fn dir_ok(inodes: Seq<Option<INode>>, es: Seq<DirEntry>) -> bool {
    &&& forall|i: int, j: int| 0 <= i < j < es.len() ==> (#[trigger] es[i]).name@ != (#[trigger] es[j]).name@
    &&& forall|i: int| 0 <= i < es.len() ==> is_allocated(inodes, (#[trigger] es[i]).inode as int)
}

/// Every directory is consistent.
pub open spec fn nodes_ok(s: Seq<Option<INode>>) -> bool {
    forall|k: int| #![trigger s[k]] is_dir(s, k) ==> dir_ok(s, dir_entries(s, k))
}

/// In a consistent filesystem, a path from an allocated inode leads to an allocated inode.
pub proof fn lemma_resolve_allocated(s: Seq<Option<INode>>, d: int, comps: Seq<Seq<u8>>)
    requires
        nodes_ok(s),
        is_allocated(s, d),
        d <= usize::MAX,
    ensures
        resolve_path(s, d, comps) matches Ok(n) ==> is_allocated(s, n as int),
    decreases comps.len(),
{
    if comps.len() > 0 {
        match resolve_segment(s, d, comps[0]) {
            Ok(c) => {
                let es = dir_entries(s, d);
                assert(s[d] is Some);
                lemma_find_from(es, comps[0], 0);
                let i = find_from(es, comps[0], 0)->Some_0;
                assert(is_allocated(s, es[i].inode as int));
                lemma_resolve_allocated(s, c as int, comps.drop_first());
            },
            Err(_) => {},
        }
    }
}

/// `new` keeps everything `old` had: the same nodes, and in each directory every name
/// it had, bound to the same inode.
pub open spec fn extends(old: Seq<Option<INode>>, new: Seq<Option<INode>>) -> bool {
    &&& old.len() <= new.len()
    &&& forall|k: int| #![trigger old[k]] 0 <= k < old.len() && old[k] is Some ==> {
        &&& new[k] is Some
        &&& new[k]->Some_0.stat == old[k]->Some_0.stat
        &&& (!is_dir(old, k) ==> new[k] == old[k])
        &&& (is_dir(old, k) ==> is_dir(new, k) && forall|name: Seq<u8>|
            #[trigger] lookup(dir_entries(old, k), name) is Some ==> lookup(dir_entries(new, k), name)
                == lookup(dir_entries(old, k), name))
    }
}

pub proof fn lemma_extends_refl(s: Seq<Option<INode>>)
    ensures
        extends(s, s),
{
}

pub proof fn lemma_extends_trans(a: Seq<Option<INode>>, b: Seq<Option<INode>>, c: Seq<Option<INode>>)
    requires
        extends(a, b),
        extends(b, c),
    ensures
        extends(a, c),
{
    assert forall|k: int| #![trigger a[k]] 0 <= k < a.len() && a[k] is Some implies {
        &&& c[k] is Some
        &&& c[k]->Some_0.stat == a[k]->Some_0.stat
        &&& (!is_dir(a, k) ==> c[k] == a[k])
        &&& (is_dir(a, k) ==> is_dir(c, k) && forall|name: Seq<u8>|
            #[trigger] lookup(dir_entries(a, k), name) is Some ==> lookup(dir_entries(c, k), name)
                == lookup(dir_entries(a, k), name))
    } by {
        assert(b[k] is Some);
        if is_dir(a, k) {
            assert forall|name: Seq<u8>| #[trigger]
                lookup(dir_entries(a, k), name) is Some implies lookup(dir_entries(c, k), name)
                == lookup(dir_entries(a, k), name) by {
                assert(lookup(dir_entries(b, k), name) is Some);
            }
        }
    }
}

/// A path that resolved before an extension resolves to the same inode after it.
pub proof fn lemma_extends_resolve(
    old: Seq<Option<INode>>,
    new: Seq<Option<INode>>,
    dir: int,
    comps: Seq<Seq<u8>>,
)
    requires
        extends(old, new),
        resolve_path(old, dir, comps) is Ok,
    ensures
        resolve_path(new, dir, comps) == resolve_path(old, dir, comps),
    decreases comps.len(),
{
    if comps.len() > 0 {
        let seg = resolve_segment(old, dir, comps[0]);
        assert(seg is Ok);
        assert(old[dir] is Some);
        assert(lookup(dir_entries(old, dir), comps[0]) is Some);
        assert(resolve_segment(new, dir, comps[0]) == seg);
        lemma_extends_resolve(old, new, seg->Ok_0 as int, comps.drop_first());
    }
}

/// Resolving a path with one more component is resolving one more segment.
pub proof fn lemma_resolve_push(
    s: Seq<Option<INode>>,
    dir: int,
    comps: Seq<Seq<u8>>,
    x: Seq<u8>,
)
    requires
        0 <= dir <= usize::MAX,
    ensures
        resolve_path(s, dir, comps.push(x)) == match resolve_path(s, dir, comps) {
            Ok(d) => resolve_segment(s, d as int, x),
            Err(e) => Err(e),
        },
    decreases comps.len(),
{
    if comps.len() == 0 {
        assert(comps.push(x).drop_first() =~= Seq::<Seq<u8>>::empty());
        assert(comps.push(x)[0] == x);
        match resolve_segment(s, dir, x) {
            Ok(c) => {
                assert(resolve_path(s, c as int, Seq::<Seq<u8>>::empty()) == Ok::<INodeNum, VFSError>(c));
            },
            Err(_) => {},
        }
    } else {
        assert(comps.push(x)[0] == comps[0]);
        assert(comps.push(x).drop_first() =~= comps.drop_first().push(x));
        match resolve_segment(s, dir, comps[0]) {
            Ok(c) => {
                lemma_resolve_push(s, c as int, comps.drop_first(), x);
            },
            Err(_) => {},
        }
    }
}

/// The first `i` components followed by the `i`-th one are the first `i + 1`.
proof fn lemma_take_push(comps: Seq<Seq<u8>>, i: int)
    requires
        0 <= i < comps.len(),
    ensures
        comps.take(i + 1) == comps.take(i).push(comps[i]),
{
    assert(comps.take(i + 1) =~= comps.take(i).push(comps[i]));
}

proof fn lemma_find_from(es: Seq<DirEntry>, name: Seq<u8>, j: int)
    requires
        0 <= j,
    ensures
        find_from(es, name, j) matches Some(i) ==> j <= i < es.len() && es[i].name@ == name,
        find_from(es, name, j) is None ==> forall|i: int| j <= i < es.len() ==> es[i].name@ != name,
    decreases es.len() - j,
{
    if j < es.len() && es[j].name@ != name {
        lemma_find_from(es, name, j + 1);
    }
}

proof fn lemma_find_unique(es: Seq<DirEntry>, name: Seq<u8>, i: int)
    requires
        0 <= i < es.len(),
        es[i].name@ == name,
        forall|a: int, b: int| 0 <= a < b < es.len() ==> (#[trigger] es[a]).name@ != (#[trigger] es[b]).name@,
    ensures
        find_from(es, name, 0) == Some(i),
{
    lemma_find_first(es, name, 0, i);
}

proof fn lemma_find_first(es: Seq<DirEntry>, name: Seq<u8>, j: int, i: int)
    requires
        0 <= j <= i < es.len(),
        es[i].name@ == name,
        forall|a: int, b: int| 0 <= a < b < es.len() ==> (#[trigger] es[a]).name@ != (#[trigger] es[b]).name@,
    ensures
        find_from(es, name, j) == Some(i),
    decreases i - j,
{
    if j < i {
        assert(es[j].name@ != es[i].name@);
        lemma_find_first(es, name, j + 1, i);
    }
}

/// The image filesystem.
pub struct Filesystem {
    inodes: Vec<Option<INode>>,
    root: INodeNum,
}

fn bytes_eq(a: &Vec<u8>, b: &Vec<u8>) -> (r: bool)
    ensures
        r == (a@ == b@),
{
    if a.len() != b.len() {
        return false;
    }
    let mut i: usize = 0;
    while i < a.len()
        invariant
            a@.len() == b@.len(),
            i <= a@.len(),
            forall|k: int| 0 <= k < i ==> a@[k] == b@[k],
        decreases a@.len() - i,
    {
        if a[i] != b[i] {
            return false;
        }
        i = i + 1;
    }
    assert(a@ =~= b@);
    true
}

fn slice_to_vec(s: &Vec<u8>) -> (r: Vec<u8>)
    ensures
        r@ == s@,
{
    vstd::slice::slice_to_vec(s.as_slice())
}

impl Filesystem {
    pub closed spec fn nodes(&self) -> Seq<Option<INode>> {
        self.inodes@
    }

    pub closed spec fn root_inode(&self) -> INodeNum {
        self.root
    }

    /// The root is an allocated directory, and every directory is consistent.
    pub closed spec fn wf(&self) -> bool {
        &&& is_dir(self.inodes@, self.root as int)
        &&& nodes_ok(self.inodes@)
    }

    /// A filesystem holding only the root directory, whose `.` names itself.
    pub fn new() -> (r: Self)
        ensures
            r.wf(),
            r.root_inode() == 0,
            r.nodes().len() == 1,
            lookup(dir_entries(r.nodes(), 0), seq![46u8]) == Some(0usize),
            forall|nm: Seq<u8>|
                nm != seq![46u8] ==> #[trigger] lookup(dir_entries(r.nodes(), 0), nm) is None,
            r.nodes()[0]->Some_0.stat == dir_stat(),
    {
        let mut inodes: Vec<Option<INode>> = Vec::new();
        inodes.push(None);
        let fs = Filesystem { root: 0, inodes };
        let mut w = VFSWriter { fs, workdir: 0 };
        w.put_directory(0);
        proof {
            let es = dir_entries(w.fs.inodes@, 0);
            lemma_find_unique(es, seq![46u8], 0);
            assert forall|nm: Seq<u8>| nm != seq![46u8] implies #[trigger] lookup(es, nm) is None by {
                lemma_find_from(es, nm, 0);
            }
        }
        w.fs
    }

    /// A writer whose working directory is the root.
    pub fn writer(self) -> (w: VFSWriter)
        ensures
            w.filesystem() == self,
            w.nodes() == self.nodes(),
            w.root_inode() == self.root_inode(),
            w.wf() == self.wf(),
    {
        let workdir = self.root;
        VFSWriter { fs: self, workdir }
    }

    /// The inode numbered `num`, where one is allocated.
    pub fn get_inode(&self, num: INodeNum) -> (r: Result<&INode, VFSError>)
        ensures
            is_allocated(self.nodes(), num as int) ==> (r matches Ok(node) && Some(*node)
                == self.nodes()[num as int]),
            !is_allocated(self.nodes(), num as int) ==> (r matches Err(e) && e
                == VFSError::UnallocNode),
    {
        if num >= self.inodes.len() {
            return Err(VFSError::UnallocNode);
        }
        match &self.inodes[num] {
            None => Err(VFSError::UnallocNode),
            Some(node) => Ok(node),
        }
    }

    /// Look up one name in a directory.
    pub fn resolve_path_segment(&self, workdir: INodeNum, part: &Vec<u8>) -> (r: Result<
        INodeNum,
        VFSError,
    >)
        ensures
            r == resolve_segment(self.nodes(), workdir as int, part@),
    {
        if workdir >= self.inodes.len() {
            return Err(VFSError::UnallocNode);
        }
        match &self.inodes[workdir] {
            None => Err(VFSError::UnallocNode),
            Some(node) => match &node.data {
                Node::Directory(entries) => {
                    let mut i: usize = 0;
                    while i < entries.len()
                        invariant
                            i <= entries@.len(),
                            workdir < self.nodes().len(),
                            is_dir(self.nodes(), workdir as int),
                            entries@ == dir_entries(self.nodes(), workdir as int),
                            find_from(entries@, part@, 0) == find_from(entries@, part@, i as int),
                        decreases entries@.len() - i,
                    {
                        if bytes_eq(&entries[i].name, part) {
                            return Ok(entries[i].inode);
                        }
                        i = i + 1;
                    }
                    Err(VFSError::NotFound)
                },
                _ => Err(VFSError::DirectoryExpected),
            },
        }
    }

    /// Follow `path` from `workdir`.
    pub fn resolve_path(&self, workdir: INodeNum, path: &[Vec<u8>]) -> (r: Result<
        INodeNum,
        VFSError,
    >)
        ensures
            r == resolve_path(self.nodes(), workdir as int, components(path@)),
    {
        let ghost comps = components(path@);
        let mut node = workdir;
        let mut i: usize = 0;
        proof {
            assert(comps.take(0) =~= Seq::<Seq<u8>>::empty());
        }
        while i < path.len()
            invariant
                i <= path@.len(),
                comps == components(path@),
                comps.len() == path@.len(),
                resolve_path(self.nodes(), workdir as int, comps.take(i as int)) == Ok::<
                    INodeNum,
                    VFSError,
                >(node),
            decreases path@.len() - i,
        {
            proof {
                lemma_take_push(comps, i as int);
                lemma_resolve_push(self.nodes(), workdir as int, comps.take(i as int), comps[i as int]);
            }
            match self.resolve_path_segment(node, &path[i]) {
                Ok(child) => {
                    node = child;
                },
                Err(e) => {
                    proof {
                        lemma_resolve_err_extends(self.nodes(), workdir as int, comps, i as int + 1);
                    }
                    return Err(e);
                },
            }
            i = i + 1;
        }
        proof {
            assert(comps.take(path@.len() as int) =~= comps);
        }
        Ok(node)
    }


}

/// A handle that adds to a filesystem, relative to its working directory (the root).
pub struct VFSWriter {
    fs: Filesystem,
    workdir: INodeNum,
}

impl VFSWriter {
    pub closed spec fn nodes(&self) -> Seq<Option<INode>> {
        self.fs.inodes@
    }

    pub closed spec fn root_inode(&self) -> INodeNum {
        self.fs.root
    }

    pub closed spec fn filesystem(&self) -> Filesystem {
        self.fs
    }

    /// The filesystem is consistent and the working directory is its root.
    pub closed spec fn wf(&self) -> bool {
        &&& self.fs.wf()
        &&& self.workdir == self.fs.root
    }

    /// Give the filesystem back.
    pub fn into_filesystem(self) -> (fs: Filesystem)
        ensures
            fs == self.filesystem(),
            fs.nodes() == self.nodes(),
            fs.root_inode() == self.root_inode(),
            self.wf() ==> fs.wf(),
    {
        self.fs
    }

    /// Make `num` a directory whose only entry is `.`, naming itself.
    fn put_directory(&mut self, num: INodeNum)
        requires
            num < old(self).nodes().len(),
            old(self).nodes()[num as int] is None,
        ensures
            final(self).nodes() == old(self).nodes().update(
                num as int,
                final(self).nodes()[num as int],
            ),
            final(self).root_inode() == old(self).root_inode(),
            final(self).workdir == old(self).workdir,
            is_dir(final(self).nodes(), num as int),
            final(self).nodes()[num as int]->Some_0.stat == dir_stat(),
            dir_entries(final(self).nodes(), num as int).len() == 1,
            dir_entries(final(self).nodes(), num as int)[0].name@ == seq![46u8],
            dir_entries(final(self).nodes(), num as int)[0].inode == num,
    {
        let mut entries: Vec<DirEntry> = Vec::new();
        entries.push(DirEntry { name: vec![46u8], inode: num });
        let node = INode {
            stat: Stat { mode: 0o755, uid: 0, gid: 0, mtime: 0 },
            data: Node::Directory(entries),
        };
        self.fs.inodes.set(num, Some(node));
        proof {
            assert(self.fs.inodes@ =~= old(self).fs.inodes@.update(num as int, self.fs.inodes@[num as int]));
        }
    }

    /// Bind `child_name` to `child_value` in the directory `parent`, replacing any
    /// entry of that name.
    fn modify_directory(&mut self, parent: INodeNum, child_name: &Vec<u8>, child_value: INodeNum) -> (r: Result<
        (),
        VFSError,
    >)
        requires
            parent < old(self).nodes().len(),
            is_dir(old(self).nodes(), parent as int),
            forall|a: int, b: int|
                0 <= a < b < dir_entries(old(self).nodes(), parent as int).len() ==> (#[trigger] dir_entries(
                    old(self).nodes(),
                    parent as int,
                )[a]).name@ != (#[trigger] dir_entries(old(self).nodes(), parent as int)[b]).name@,
        ensures
            r is Ok,
            final(self).root_inode() == old(self).root_inode(),
            final(self).workdir == old(self).workdir,
            final(self).nodes().len() == old(self).nodes().len(),
            forall|k: int|
                0 <= k < old(self).nodes().len() && k != parent ==> #[trigger] final(self).nodes()[k]
                    == old(self).nodes()[k],
            is_dir(final(self).nodes(), parent as int),
            final(self).nodes()[parent as int]->Some_0.stat == old(self).nodes()[parent as int]->Some_0.stat,
            lookup(dir_entries(final(self).nodes(), parent as int), child_name@) == Some(child_value),
            forall|name: Seq<u8>|
                name != child_name@ ==> #[trigger] lookup(dir_entries(final(self).nodes(), parent as int), name)
                    == lookup(dir_entries(old(self).nodes(), parent as int), name),
            forall|a: int, b: int|
                0 <= a < b < dir_entries(final(self).nodes(), parent as int).len() ==> (#[trigger] dir_entries(
                    final(self).nodes(),
                    parent as int,
                )[a]).name@ != (#[trigger] dir_entries(final(self).nodes(), parent as int)[b]).name@,
            forall|i: int|
                0 <= i < dir_entries(final(self).nodes(), parent as int).len() ==> ((#[trigger] dir_entries(
                    final(self).nodes(),
                    parent as int,
                )[i]).inode == child_value || exists|j: int|
                    0 <= j < dir_entries(old(self).nodes(), parent as int).len() && dir_entries(
                        old(self).nodes(),
                        parent as int,
                    )[j].inode == dir_entries(final(self).nodes(), parent as int)[i].inode),
    {
        let ghost old_es = dir_entries(self.nodes(), parent as int);
        let mut slot: Option<INode> = None;
        std::mem::swap(&mut slot, &mut self.fs.inodes[parent]);
        let mut node = slot.unwrap();
        let mut entries = match node.data {
            Node::Directory(es) => es,
            _ => Vec::new(),
        };
        assert(entries@ == old_es);
        let mut i: usize = 0;
        let mut found = false;
        while i < entries.len()
            invariant_except_break
                !found,
            invariant
                i <= entries@.len(),
                entries@ == old_es,
                find_from(old_es, child_name@, 0) == find_from(old_es, child_name@, i as int),
            ensures
                i <= entries@.len(),
                entries@ == old_es,
                found ==> i < entries@.len() && entries@[i as int].name@ == child_name@,
                !found ==> i == entries@.len(),
                find_from(old_es, child_name@, 0) == find_from(old_es, child_name@, i as int),
            decreases entries@.len() - i,
        {
            if bytes_eq(&entries[i].name, child_name) {
                found = true;
                break;
            }
            i = i + 1;
        }
        proof {
            lemma_find_from(old_es, child_name@, i as int);
        }
        if found {
            let name = slice_to_vec(&entries[i].name);
            entries.set(i, DirEntry { name, inode: child_value });
            proof {
                lemma_find_unique(entries@, child_name@, i as int);
                assert forall|name: Seq<u8>| name != child_name@ implies #[trigger] lookup(
                    entries@,
                    name,
                ) == lookup(old_es, name) by {
                    lemma_find_from(old_es, name, 0);
                    lemma_find_from(entries@, name, 0);
                    if let Some(k) = find_from(old_es, name, 0) {
                        lemma_find_unique(entries@, name, k);
                    }
                    if let Some(k) = find_from(entries@, name, 0) {
                        lemma_find_unique(old_es, name, k);
                    }
                }
                assert forall|a: int| 0 <= a < entries@.len() implies (#[trigger] entries@[a]).inode
                    == child_value || exists|j: int| 0 <= j < old_es.len() && old_es[j].inode
                    == entries@[a].inode by {
                    if a != i {
                        assert(old_es[a].inode == entries@[a].inode);
                    }
                }
            }
        } else {
            let name = slice_to_vec(child_name);
            entries.push(DirEntry { name, inode: child_value });
            proof {
                let n = old_es.len() as int;
                lemma_find_from(old_es, child_name@, 0);
                assert forall|a: int, b: int| 0 <= a < b < entries@.len() implies (#[trigger] entries@[a]).name@
                    != (#[trigger] entries@[b]).name@ by {
                    if b == n {
                        assert(old_es[a].name@ != child_name@);
                    } else {
                        assert(old_es[a] == entries@[a] && old_es[b] == entries@[b]);
                    }
                }
                lemma_find_unique(entries@, child_name@, n);
                assert forall|name: Seq<u8>| name != child_name@ implies #[trigger] lookup(
                    entries@,
                    name,
                ) == lookup(old_es, name) by {
                    lemma_find_from(old_es, name, 0);
                    lemma_find_from(entries@, name, 0);
                    if let Some(k) = find_from(old_es, name, 0) {
                        assert(entries@[k] == old_es[k]);
                        lemma_find_unique(entries@, name, k);
                    }
                    if let Some(k) = find_from(entries@, name, 0) {
                        assert(k < n);
                        assert(entries@[k] == old_es[k]);
                        lemma_find_unique(old_es, name, k);
                    }
                }
                assert forall|a: int| 0 <= a < entries@.len() implies (#[trigger] entries@[a]).inode
                    == child_value || exists|j: int| 0 <= j < old_es.len() && old_es[j].inode
                    == entries@[a].inode by {
                    if a < n {
                        assert(old_es[a].inode == entries@[a].inode);
                    }
                }
            }
        }
        node.data = Node::Directory(entries);
        let mut slot = Some(node);
        std::mem::swap(&mut slot, &mut self.fs.inodes[parent]);
        Ok(())
    }
}

proof fn lemma_resolve_err_extends(s: Seq<Option<INode>>, dir: int, comps: Seq<Seq<u8>>, i: int)
    requires
        0 <= dir <= usize::MAX,
        0 <= i <= comps.len(),
        resolve_path(s, dir, comps.take(i)) is Err,
    ensures
        resolve_path(s, dir, comps) == resolve_path(s, dir, comps.take(i)),
    decreases comps.len() - i,
{
    if i < comps.len() {
        lemma_take_push(comps, i);
        lemma_resolve_push(s, dir, comps.take(i), comps[i]);
        lemma_resolve_err_extends(s, dir, comps, i + 1);
    } else {
        assert(comps.take(i) =~= comps);
    }
}

/// A name that can stand for a file: not empty, and not `/`, `.` or `..`.
pub open spec fn is_file_name(name: Seq<u8>) -> bool {
    name.len() > 0 && name != seq![47u8] && name != seq![46u8] && name != seq![46u8, 46u8]
}

/// A path component names a file exactly when it is not empty, not `/`, and neither `.`
/// nor `..`: any name without a `/` other than those two is a file name, names that
/// begin with a dot (such as `.bashrc`) included.
pub proof fn lemma_file_names(name: Seq<u8>)
    ensures
        name.len() > 0 && (forall|k: int| 0 <= k < name.len() ==> #[trigger] name[k] != 47u8) && name
            != seq![46u8] && name != seq![46u8, 46u8] ==> is_file_name(name),
        is_file_name(name) ==> name.len() > 0 && name != seq![46u8] && name != seq![46u8, 46u8],
        name.len() >= 2 && name[0] == 46u8 && name != seq![46u8, 46u8] ==> is_file_name(name),
{
    if name == seq![47u8] {
        assert(name[0] == 47u8);
    }
    if name.len() >= 2 {
        assert(name != seq![47u8] && name != seq![46u8]) by {
            assert(seq![47u8].len() == 1 && seq![46u8].len() == 1);
        }
    }
}

fn check_file_name(name: &Vec<u8>) -> (r: bool)
    ensures
        r == is_file_name(name@),
        (name@.len() > 0 && (forall|k: int| 0 <= k < name@.len() ==> #[trigger] name@[k] != 47u8)
            && name@ != seq![46u8] && name@ != seq![46u8, 46u8]) ==> r,
        r ==> name@.len() > 0 && name@ != seq![46u8] && name@ != seq![46u8, 46u8],
{
    proof {
        lemma_file_names(name@);
    }
    let n = name.len();
    if n == 0 {
        return false;
    }
    if n == 1 && (name[0] == 47u8 || name[0] == 46u8) {
        assert(name@ == seq![name@[0]]);
        return false;
    }
    if n == 2 && name[0] == 46u8 && name[1] == 46u8 {
        assert(name@ =~= seq![46u8, 46u8]);
        return false;
    }
    proof {
        if n == 1 {
            assert(name@ != seq![46u8, 46u8]);
            assert(seq![47u8][0] == 47u8);
            assert(seq![46u8][0] == 46u8);
        } else if n == 2 {
            assert(seq![46u8, 46u8][0] == 46u8);
            assert(seq![46u8, 46u8][1] == 46u8);
        }
    }
    true
}

/// The directory `k` was made by `mkdirp`: its `.` names itself, and its `..` names a
/// directory that holds it under some name.
pub open spec fn made_dir(s: Seq<Option<INode>>, k: int) -> bool {
    &&& is_dir(s, k)
    &&& lookup(dir_entries(s, k), seq![46u8]) == Some(k as INodeNum)
    &&& lookup(dir_entries(s, k), seq![46u8, 46u8]) matches Some(p) && is_dir(s, p as int)
        && exists|nm: Seq<u8>| #[trigger] lookup(dir_entries(s, p as int), nm) == Some(
        k as INodeNum,
    )
}

/// No component of the path is `..`.
pub open spec fn no_parent_steps(comps: Seq<Seq<u8>>) -> bool {
    forall|i: int| 0 <= i < comps.len() ==> #[trigger] comps[i] != seq![46u8, 46u8]
}

/// In the inodes from `base` on, every name but `..` leads to an inode from `base` on.
spec fn names_stay_new(s: Seq<Option<INode>>, base: int) -> bool {
    forall|k: int, nm: Seq<u8>|
        base <= k < s.len() && nm != seq![46u8, 46u8] && #[trigger] lookup(dir_entries(s, k), nm)
            is Some ==> lookup(dir_entries(s, k), nm)->Some_0 >= base
}

impl VFSWriter {
    /// Allocate a new directory named `name` in `parent`, whose `.` names itself and
    /// whose `..` names `parent`.
    fn alloc_child_directory(&mut self, parent: INodeNum, name: &Vec<u8>) -> (r: INodeNum)
        requires
            old(self).wf(),
            is_dir(old(self).nodes(), parent as int),
            lookup(dir_entries(old(self).nodes(), parent as int), name@) is None,
            old(self).nodes().len() < usize::MAX,
        ensures
            final(self).wf(),
            final(self).root_inode() == old(self).root_inode(),
            final(self).workdir == old(self).workdir,
            extends(old(self).nodes(), final(self).nodes()),
            r == old(self).nodes().len(),
            final(self).nodes().len() == old(self).nodes().len() + 1,
            is_dir(final(self).nodes(), r as int),
            lookup(dir_entries(final(self).nodes(), parent as int), name@) == Some(r),
            forall|k: int|
                0 <= k < old(self).nodes().len() && k != parent ==> #[trigger] final(self).nodes()[k]
                    == old(self).nodes()[k],
            forall|nm: Seq<u8>|
                nm != name@ ==> #[trigger] lookup(dir_entries(final(self).nodes(), parent as int), nm)
                    == lookup(dir_entries(old(self).nodes(), parent as int), nm),
            lookup(dir_entries(final(self).nodes(), r as int), seq![46u8]) == Some(r),
            lookup(dir_entries(final(self).nodes(), r as int), seq![46u8, 46u8]) == Some(parent),
            forall|nm: Seq<u8>|
                #[trigger] lookup(dir_entries(final(self).nodes(), r as int), nm) is Some ==> nm
                    == seq![46u8] || nm == seq![46u8, 46u8],
    {
        let ghost s0 = self.nodes();
        let num = self.fs.inodes.len();
        self.fs.inodes.push(None);
        let ghost s1 = self.nodes();
        let _ = self.modify_directory(parent, name, num);
        let ghost s2 = self.nodes();
        self.put_directory(num);
        let ghost s3 = self.nodes();
        let dotdot: Vec<u8> = vec![46u8, 46u8];
        proof {
            let es = dir_entries(s3, num as int);
            assert forall|a: int, b: int| 0 <= a < b < es.len() implies (#[trigger] es[a]).name@
                != (#[trigger] es[b]).name@ by {}
        }
        let _ = self.modify_directory(num, &dotdot, parent);
        proof {
            let s4 = self.nodes();
            assert forall|k: int| #![trigger s0[k]] 0 <= k < s0.len() && s0[k] is Some implies {
                &&& s4[k] is Some
                &&& s4[k]->Some_0.stat == s0[k]->Some_0.stat
                &&& (!is_dir(s0, k) ==> s4[k] == s0[k])
                &&& (is_dir(s0, k) ==> is_dir(s4, k) && forall|nm: Seq<u8>|
                    #[trigger] lookup(dir_entries(s0, k), nm) is Some ==> lookup(dir_entries(s4, k), nm)
                        == lookup(dir_entries(s0, k), nm))
            } by {
                assert(s1[k] == s0[k]);
                if k != parent {
                    assert(s2[k] == s1[k]);
                }
                assert(s3[k] == s2[k]);
                assert(s4[k] == s3[k]);
                if k == parent {
                    assert forall|nm: Seq<u8>| #[trigger]
                        lookup(dir_entries(s0, k), nm) is Some implies lookup(dir_entries(s4, k), nm)
                        == lookup(dir_entries(s0, k), nm) by {
                        assert(dir_entries(s1, k) == dir_entries(s0, k));
                        if nm == name@ {
                        } else {
                            assert(lookup(dir_entries(s2, k), nm) == lookup(dir_entries(s1, k), nm));
                        }
                    }
                }
            }
            assert(extends(s0, s4));
            assert forall|k: int| #![trigger s4[k]] is_dir(s4, k) implies dir_ok(s4, dir_entries(s4, k)) by {
                let es = dir_entries(s4, k);
                if k == num {
                    assert forall|i: int| 0 <= i < es.len() implies is_allocated(s4, (#[trigger] es[i]).inode as int) by {
                        if es[i].inode != parent {
                            let j = choose|j: int|
                                0 <= j < dir_entries(s3, num as int).len() && dir_entries(s3, num as int)[j].inode
                                    == es[i].inode;
                            assert(dir_entries(s3, num as int)[j].inode == num);
                        }
                    }
                } else if k == parent {
                    assert(s4[k] == s3[k]);
                    assert(s3[k] == s2[k]);
                    assert forall|i: int| 0 <= i < es.len() implies is_allocated(s4, (#[trigger] es[i]).inode as int) by {
                        if es[i].inode != num {
                            let j = choose|j: int|
                                0 <= j < dir_entries(s1, parent as int).len() && dir_entries(s1, parent as int)[j].inode
                                    == es[i].inode;
                            assert(dir_entries(s1, parent as int) == dir_entries(s0, parent as int));
                            assert(is_dir(s0, parent as int));
                            assert(dir_ok(s0, dir_entries(s0, parent as int)));
                            assert(is_allocated(s0, dir_entries(s0, parent as int)[j].inode as int));
                        }
                    }
                } else {
                    assert(k < s0.len());
                    assert(s4[k] == s0[k]);
                    assert(is_dir(s0, k));
                    assert(dir_ok(s0, dir_entries(s0, k)));
                    assert forall|i: int| 0 <= i < es.len() implies is_allocated(s4, (#[trigger] es[i]).inode as int) by {
                        assert(is_allocated(s0, es[i].inode as int));
                        let t = es[i].inode as int;
                        assert(s1[t] == s0[t]);
                        if t != parent {
                            assert(s2[t] == s1[t]);
                        }
                    }
                }
            }
            assert(lookup(dir_entries(s4, parent as int), name@) == lookup(dir_entries(s3, parent as int), name@));
            let es3 = dir_entries(s3, num as int);
            lemma_find_unique(es3, seq![46u8], 0);
            assert(seq![46u8] != seq![46u8, 46u8]) by {
                assert(seq![46u8].len() != seq![46u8, 46u8].len());
            }
            assert forall|nm: Seq<u8>| #[trigger] lookup(dir_entries(s4, num as int), nm) is Some implies nm
                == seq![46u8] || nm == seq![46u8, 46u8] by {
                if nm != seq![46u8, 46u8] {
                    assert(lookup(dir_entries(s4, num as int), nm) == lookup(es3, nm));
                    lemma_find_from(es3, nm, 0);
                }
            }
            assert forall|nm: Seq<u8>| nm != name@ implies #[trigger] lookup(
                dir_entries(s4, parent as int),
                nm,
            ) == lookup(dir_entries(s0, parent as int), nm) by {
                assert(s4[parent as int] == s3[parent as int]);
                assert(s3[parent as int] == s2[parent as int]);
                assert(dir_entries(s1, parent as int) == dir_entries(s0, parent as int));
            }
            assert forall|k: int| 0 <= k < s0.len() && k != parent implies #[trigger] s4[k] == s0[k] by {
                assert(s1[k] == s0[k]);
                assert(s2[k] == s1[k]);
                assert(s3[k] == s2[k]);
                assert(s4[k] == s3[k]);
            }
        }
        num
    }

    /// Create every missing directory along `path`, starting at the root.
    pub fn mkdirp(&mut self, path: &[Vec<u8>]) -> (r: Result<(), VFSError>)
        requires
            old(self).wf(),
            old(self).nodes().len() + path@.len() < usize::MAX,
        ensures
            final(self).wf(),
            final(self).root_inode() == old(self).root_inode(),
            extends(old(self).nodes(), final(self).nodes()),
            final(self).nodes().len() <= old(self).nodes().len() + path@.len(),
            r is Ok ==> forall|j: int|
                0 <= j <= path@.len() ==> #[trigger] resolve_path(
                    final(self).nodes(),
                    final(self).root_inode() as int,
                    components(path@).take(j),
                ) is Ok,
            r is Ok ==> forall|j: int|
                0 <= j < path@.len() ==> is_dir(
                    final(self).nodes(),
                    #[trigger] resolve_path(
                        final(self).nodes(),
                        final(self).root_inode() as int,
                        components(path@).take(j),
                    )->Ok_0 as int,
                ),
            forall|k: int|
                old(self).nodes().len() <= k < final(self).nodes().len() ==> #[trigger] made_dir(
                    final(self).nodes(),
                    k,
                ),
            r is Err ==> r == Err::<(), VFSError>(VFSError::DirectoryExpected) && exists|j: int|
                0 <= j < path@.len() && (#[trigger] resolve_path(
                    final(self).nodes(),
                    final(self).root_inode() as int,
                    components(path@).take(j),
                ) matches Ok(n) && !is_dir(final(self).nodes(), n as int) && n < old(
                    self,
                ).nodes().len() && old(self).nodes()[n as int] is Some && !is_dir(
                    old(self).nodes(),
                    n as int,
                )),
            r is Ok && no_parent_steps(components(path@)) && resolve_path(
                old(self).nodes(),
                old(self).root_inode() as int,
                components(path@),
            ) is Err ==> (resolve_path(
                final(self).nodes(),
                final(self).root_inode() as int,
                components(path@),
            ) matches Ok(n) && n >= old(self).nodes().len() && made_dir(
                final(self).nodes(),
                n as int,
            )),
            r is Err && no_parent_steps(components(path@)) ==> exists|j: int|
                0 <= j < path@.len() && (#[trigger] resolve_path(
                    old(self).nodes(),
                    old(self).root_inode() as int,
                    components(path@).take(j),
                ) matches Ok(n) && !is_dir(old(self).nodes(), n as int)),
            (exists|j: int|
                0 <= j < path@.len() && (#[trigger] resolve_path(
                    old(self).nodes(),
                    old(self).root_inode() as int,
                    components(path@).take(j),
                ) matches Ok(n) && !is_dir(old(self).nodes(), n as int))) ==> r is Err,
            (forall|j: int|
                0 <= j <= path@.len() ==> #[trigger] resolve_path(
                    old(self).nodes(),
                    old(self).root_inode() as int,
                    components(path@).take(j),
                ) is Ok) ==> r is Ok && final(self).nodes() == old(self).nodes(),
    {
        let ghost s0 = self.nodes();
        let ghost comps = components(path@);
        let ghost root = self.workdir as int;
        let mut dir = self.workdir;
        let mut i: usize = 0;
        let ghost mut created = false;
        proof {
            assert(comps.take(0) =~= Seq::<Seq<u8>>::empty());
        }
        while i < path.len()
            invariant
                self.wf(),
                self.workdir as int == root,
                s0 == old(self).nodes(),
                forall|k: int| s0.len() <= k < self.nodes().len() ==> #[trigger] made_dir(self.nodes(), k),
                forall|k: int| 0 <= k < s0.len() && s0[k] is None ==> #[trigger] self.nodes()[k] is None,
                names_stay_new(self.nodes(), s0.len() as int),
                !created ==> self.nodes() == s0,
                created && no_parent_steps(comps) ==> dir >= s0.len(),
                root == old(self).root_inode() as int,
                comps == components(path@),
                comps.len() == path@.len(),
                s0.len() + path@.len() < usize::MAX,
                self.nodes().len() <= s0.len() + i,
                extends(s0, self.nodes()),
                i <= path@.len(),
                resolve_path(self.nodes(), root, comps.take(i as int)) == Ok::<INodeNum, VFSError>(dir),
                forall|j: int|
                    0 <= j < i ==> (#[trigger] resolve_path(self.nodes(), root, comps.take(j)) matches Ok(n)
                        && is_dir(self.nodes(), n as int)),
                (forall|j: int| 0 <= j <= path@.len() ==> #[trigger] resolve_path(s0, root, comps.take(j)) is Ok)
                    ==> self.nodes() == s0,
            decreases path@.len() - i,
        {
            proof {
                lemma_take_push(comps, i as int);
                lemma_resolve_push(self.nodes(), root, comps.take(i as int), comps[i as int]);
                lemma_resolve_allocated(self.nodes(), root, comps.take(i as int));
            }
            match self.fs.resolve_path_segment(dir, &path[i]) {
                Ok(child) => {
                    proof {
                        if created && no_parent_steps(comps) {
                            assert(comps[i as int] != seq![46u8, 46u8]);
                            assert(lookup(dir_entries(self.nodes(), dir as int), comps[i as int]) is Some);
                        }
                    }
                    dir = child;
                },
                Err(VFSError::NotFound) => {
                    let ghost before = self.nodes();
                    let ghost parent = dir;
                    proof {
                        assert(resolve_path(before, root, comps.take(i as int + 1)) is Err);
                    }
                    dir = self.alloc_child_directory(dir, &path[i]);
                    proof {
                        let after = self.nodes();
                        assert(after.len() <= usize::MAX);
                        lemma_mkdirp_step(s0, before, after, parent as int, dir as int, comps[i as int]);
                        created = true;
                        assert forall|j: int| 0 <= j < i implies (#[trigger] resolve_path(after, root, comps.take(j)) matches Ok(n)
                            && is_dir(after, n as int)) by {
                            lemma_extends_resolve(before, after, root, comps.take(j));
                            let n = resolve_path(before, root, comps.take(j))->Ok_0 as int;
                            assert(before[n] is Some);
                        }
                        lemma_extends_resolve(before, after, root, comps.take(i as int));
                        lemma_resolve_push(after, root, comps.take(i as int), comps[i as int]);
                        lemma_extends_trans(s0, before, after);
                    }
                },
                Err(other) => {
                    proof {
                        assert(other == VFSError::DirectoryExpected);
                        assert(resolve_path(self.nodes(), root, comps.take(i as int)) matches Ok(n)
                            && !is_dir(self.nodes(), n as int));
                        assert(is_allocated(self.nodes(), dir as int));
                        if dir >= s0.len() {
                            assert(made_dir(self.nodes(), dir as int));
                        }
                        assert(s0[dir as int] is Some);
                        if is_dir(s0, dir as int) {
                            assert(is_dir(self.nodes(), dir as int));
                        }
                        assert(resolve_path(self.nodes(), root, comps.take(i as int)) matches Ok(n)
                            && !is_dir(self.nodes(), n as int) && n < s0.len() && s0[n as int] is Some
                            && !is_dir(s0, n as int));
                        if no_parent_steps(comps) {
                            assert(!created);
                            assert(resolve_path(s0, root, comps.take(i as int)) matches Ok(n)
                                && !is_dir(s0, n as int));
                        }
                    }
                    return Err(other);
                },
            }
            i = i + 1;
        }
        proof {
            assert(comps.take(path@.len() as int) =~= comps);
            if no_parent_steps(comps) && resolve_path(s0, root, comps) is Err {
                assert(created);
                lemma_resolve_allocated(self.nodes(), root, comps);
                assert(made_dir(self.nodes(), dir as int));
            }
            assert forall|j: int|
                0 <= j < path@.len() && (#[trigger] resolve_path(s0, root, comps.take(j)) matches Ok(n)
                    && !is_dir(s0, n as int)) implies false by {
                lemma_extends_resolve(s0, self.nodes(), root, comps.take(j));
                let n = resolve_path(s0, root, comps.take(j))->Ok_0 as int;
                lemma_resolve_allocated(s0, root, comps.take(j));
                assert(s0[n] is Some);
            }
        }
        Ok(())
    }
}

/// One directory made by `mkdirp` in `parent` (an old or a made directory) keeps what the
/// loop knows of the inodes it made.
proof fn lemma_mkdirp_step(
    s0: Seq<Option<INode>>,
    before: Seq<Option<INode>>,
    after: Seq<Option<INode>>,
    parent: int,
    num: int,
    name: Seq<u8>,
)
    requires
        s0.len() <= before.len(),
        forall|k: int| s0.len() <= k < before.len() ==> #[trigger] made_dir(before, k),
        forall|k: int| 0 <= k < s0.len() && s0[k] is None ==> #[trigger] before[k] is None,
        names_stay_new(before, s0.len() as int),
        is_dir(before, parent),
        extends(before, after),
        num == before.len(),
        after.len() == before.len() + 1,
        after.len() <= usize::MAX,
        is_dir(after, num),
        lookup(dir_entries(after, parent), name) == Some(num as INodeNum),
        forall|k: int| 0 <= k < before.len() && k != parent ==> #[trigger] after[k] == before[k],
        forall|nm: Seq<u8>|
            nm != name ==> #[trigger] lookup(dir_entries(after, parent), nm) == lookup(
                dir_entries(before, parent),
                nm,
            ),
        lookup(dir_entries(after, num), seq![46u8]) == Some(num as INodeNum),
        lookup(dir_entries(after, num), seq![46u8, 46u8]) == Some(parent as INodeNum),
        forall|nm: Seq<u8>|
            #[trigger] lookup(dir_entries(after, num), nm) is Some ==> nm == seq![46u8] || nm
                == seq![46u8, 46u8],
    ensures
        forall|k: int| s0.len() <= k < after.len() ==> #[trigger] made_dir(after, k),
        forall|k: int| 0 <= k < s0.len() && s0[k] is None ==> #[trigger] after[k] is None,
        names_stay_new(after, s0.len() as int),
{
    assert(is_dir(after, parent));
    assert forall|k: int| s0.len() <= k < after.len() implies #[trigger] made_dir(after, k) by {
        if k == num {
            assert(lookup(dir_entries(after, parent), name) == Some(k as INodeNum));
        } else {
            assert(made_dir(before, k));
            assert(before[k] is Some);
            let p = lookup(dir_entries(before, k), seq![46u8, 46u8])->Some_0;
            assert(lookup(dir_entries(before, k), seq![46u8]) is Some);
            assert(lookup(dir_entries(after, k), seq![46u8]) == lookup(dir_entries(before, k), seq![46u8]));
            assert(lookup(dir_entries(before, k), seq![46u8, 46u8]) is Some);
            assert(lookup(dir_entries(after, k), seq![46u8, 46u8]) == Some(p));
            let nm = choose|nm: Seq<u8>| #[trigger] lookup(dir_entries(before, p as int), nm) == Some(
                k as INodeNum,
            );
            assert(before[p as int] is Some);
            assert(lookup(dir_entries(before, p as int), nm) is Some);
            assert(lookup(dir_entries(after, p as int), nm) == Some(k as INodeNum));
            assert(is_dir(after, p as int));
        }
    }
    assert forall|k: int| 0 <= k < s0.len() && s0[k] is None implies #[trigger] after[k] is None by {
        assert(before[k] is None);
        assert(k != parent);
    }
    assert forall|k: int, nm: Seq<u8>|
        s0.len() <= k < after.len() && nm != seq![46u8, 46u8] && #[trigger] lookup(
            dir_entries(after, k),
            nm,
        ) is Some implies lookup(dir_entries(after, k), nm)->Some_0 >= s0.len() by {
        if k == num {
            assert(nm == seq![46u8]);
        } else if k == parent {
            if nm != name {
                assert(lookup(dir_entries(before, k), nm) is Some);
            }
        } else {
            assert(after[k] == before[k]);
            assert(lookup(dir_entries(before, k), nm) is Some);
        }
    }
}

impl Filesystem {
    /// Whether `num` is an allocated directory.
    fn is_directory(&self, num: INodeNum) -> (r: bool)
        ensures
            r == is_dir(self.nodes(), num as int),
    {
        if num >= self.inodes.len() {
            return false;
        }
        match &self.inodes[num] {
            Some(node) => match &node.data {
                Node::Directory(_) => true,
                _ => false,
            },
            None => false,
        }
    }

}

impl VFSWriter {
    /// Make the empty slot `num` a normal file holding `data`.
    fn put_normal_file(&mut self, num: INodeNum, data: MapRef)
        requires
            num < old(self).nodes().len(),
            old(self).nodes()[num as int] is None,
        ensures
            final(self).nodes() == old(self).nodes().update(num as int, Some(file_inode(data))),
            final(self).root_inode() == old(self).root_inode(),
            final(self).workdir == old(self).workdir,
    {
        let node = INode {
            stat: Stat { mode: 0o644, uid: 0, gid: 0, mtime: 0 },
            data: Node::NormalFile(data),
        };
        self.fs.inodes.set(num, Some(node));
    }

    /// Allocate a new inode number and bind `name` to it in `parent`, as a normal
    /// file holding `data`. The number is taken before `parent` is looked at, so a
    /// `parent` that is not a directory leaves an empty slot behind.
    fn alloc_file(&mut self, parent: INodeNum, name: &Vec<u8>, data: MapRef) -> (r: Result<
        INodeNum,
        VFSError,
    >)
        requires
            old(self).wf(),
            is_allocated(old(self).nodes(), parent as int),
            old(self).nodes().len() < usize::MAX,
        ensures
            final(self).wf(),
            file_written(old(self).nodes(), final(self).nodes(), parent as int, name@, data, r),
            final(self).root_inode() == old(self).root_inode(),
            final(self).workdir == old(self).workdir,
    {
        let ghost s0 = self.nodes();
        let num = self.fs.inodes.len();
        self.fs.inodes.push(None);
        let ghost s1 = self.nodes();
        proof {
            assert forall|k: int| #![trigger s1[k]] is_dir(s1, k) implies dir_ok(s1, dir_entries(s1, k)) by {
                assert(s1[k] == s0[k]);
                let es = dir_entries(s1, k);
                assert forall|i: int| 0 <= i < es.len() implies is_allocated(s1, (#[trigger] es[i]).inode as int) by {
                    assert(is_dir(s0, k));
                    assert(is_allocated(s0, es[i].inode as int));
                    assert(s1[es[i].inode as int] == s0[es[i].inode as int]);
                }
            }
            assert(s1 == s0.push(None));
        }
        if !self.fs.is_directory(parent) {
            return Err(VFSError::DirectoryExpected);
        }
        let _ = self.modify_directory(parent, name, num);
        let ghost s2 = self.nodes();
        self.put_normal_file(num, data);
        proof {
            let s3 = self.nodes();
            assert forall|k: int| #![trigger s3[k]] is_dir(s3, k) implies dir_ok(s3, dir_entries(s3, k)) by {
                let es = dir_entries(s3, k);
                assert(k != num);
                assert(s3[k] == s2[k]);
                if k == parent {
                    assert forall|i: int| 0 <= i < es.len() implies is_allocated(s3, (#[trigger] es[i]).inode as int) by {
                        if es[i].inode != num {
                            let j = choose|j: int|
                                0 <= j < dir_entries(s1, parent as int).len() && dir_entries(s1, parent as int)[j].inode
                                    == es[i].inode;
                            assert(dir_ok(s1, dir_entries(s1, parent as int)));
                            assert(is_allocated(s1, dir_entries(s1, parent as int)[j].inode as int));
                            let t = es[i].inode as int;
                            if t != parent {
                                assert(s2[t] == s1[t]);
                            }
                        }
                    }
                } else {
                    assert(s2[k] == s1[k]);
                    assert(dir_ok(s1, dir_entries(s1, k)));
                    assert forall|i: int| 0 <= i < es.len() implies is_allocated(s3, (#[trigger] es[i]).inode as int) by {
                        assert(is_allocated(s1, es[i].inode as int));
                        let t = es[i].inode as int;
                        if t != parent {
                            assert(s2[t] == s1[t]);
                        }
                    }
                }
            }
            assert forall|k: int| 0 <= k < s0.len() && k != parent implies #[trigger] s3[k] == s0[k] by {
                assert(s1[k] == s0[k]);
                assert(s2[k] == s1[k]);
            }
        }
        Ok(num)
    }

    /// Create a normal file at `path`, holding `data`, in the directory that all but
    /// the last component lead to from the root. An existing entry of that name is
    /// rebound to the new file.
    pub fn write_normal_file(&mut self, path: &[Vec<u8>], data: MapRef) -> (r: Result<(), VFSError>)
        requires
            old(self).wf(),
            old(self).nodes().len() < usize::MAX,
        ensures
            final(self).wf(),
            final(self).root_inode() == old(self).root_inode(),
            ({
                let comps = components(path@);
                let s0 = old(self).nodes();
                let s1 = final(self).nodes();
                if comps.len() == 0 {
                    r == Err::<(), VFSError>(VFSError::NotFound) && s1 == s0
                } else {
                    match resolve_path(s0, old(self).root_inode() as int, comps.drop_last()) {
                        Err(e) => r == Err::<(), VFSError>(e) && s1 == s0,
                        Ok(d) => if !is_file_name(comps.last()) {
                            r == Err::<(), VFSError>(VFSError::NotFound) && s1 == s0
                        } else {
                            exists|w: Result<INodeNum, VFSError>|
                                file_written(s0, s1, d as int, comps.last(), data, w) && r == match w {
                                    Ok(_) => Ok::<(), VFSError>(()),
                                    Err(e) => Err(e),
                                }
                        },
                    }
                }
            }),
    {
        let ghost comps = components(path@);
        let n = path.len();
        if n == 0 {
            return Err(VFSError::NotFound);
        }
        let root = self.workdir;
        let dir = match self.fs.resolve_path(root, &path[0..n - 1]) {
            Ok(d) => d,
            Err(e) => {
                proof {
                    assert(components(path@.subrange(0, n - 1)) =~= comps.drop_last());
                }
                return Err(e);
            },
        };
        proof {
            assert(components(path@.subrange(0, n - 1)) =~= comps.drop_last());
            lemma_resolve_allocated(self.nodes(), root as int, comps.drop_last());
        }
        let name = &path[n - 1];
        if !check_file_name(name) {
            return Err(VFSError::NotFound);
        }
        let w = self.alloc_file(dir, name, data);
        match w {
            Ok(_) => Ok(()),
            Err(e) => Err(e),
        }
    }
}

/// The inode of a normal file holding `data`.
pub open spec fn file_inode(data: MapRef) -> INode {
    INode { stat: file_stat(), data: Node::NormalFile(data) }
}

/// `new` is `old` after a new inode was numbered and, where `parent` is a directory,
/// made a normal file holding `data` and bound to `name` there; `r` is what that step
/// returned.
pub open spec fn file_written(
    old: Seq<Option<INode>>,
    new: Seq<Option<INode>>,
    parent: int,
    name: Seq<u8>,
    data: MapRef,
    r: Result<INodeNum, VFSError>,
) -> bool {
    if !is_dir(old, parent) {
        r == Err::<INodeNum, VFSError>(VFSError::DirectoryExpected) && new == old.push(None)
    } else {
        &&& r == Ok::<INodeNum, VFSError>(old.len() as INodeNum)
        &&& new.len() == old.len() + 1
        &&& new[old.len() as int] == Some(file_inode(data))
        &&& forall|k: int| 0 <= k < old.len() && k != parent ==> #[trigger] new[k] == old[k]
        &&& is_dir(new, parent)
        &&& new[parent]->Some_0.stat == old[parent]->Some_0.stat
        &&& lookup(dir_entries(new, parent), name) == Some(old.len() as INodeNum)
        &&& forall|nm: Seq<u8>|
            nm != name ==> #[trigger] lookup(dir_entries(new, parent), nm) == lookup(
                dir_entries(old, parent),
                nm,
            )
    }
}

/// A file written by `write_normal_file` is found again: the directory it went into
/// binds its name to the new inode, which holds the data written; and where that name
/// was new in the directory, the whole path leads there from the root.
pub proof fn lemma_write_then_resolve(
    s0: Seq<Option<INode>>,
    s1: Seq<Option<INode>>,
    root: int,
    comps: Seq<Seq<u8>>,
    data: MapRef,
    w: Result<INodeNum, VFSError>,
)
    requires
        0 <= root <= usize::MAX,
        s0.len() < usize::MAX,
        comps.len() > 0,
        resolve_path(s0, root, comps.drop_last()) matches Ok(d) && file_written(
            s0,
            s1,
            d as int,
            comps.last(),
            data,
            w,
        ),
        w is Ok,
    ensures
        s1[w->Ok_0 as int] == Some(file_inode(data)),
        resolve_path(s0, root, comps.drop_last()) matches Ok(d) && resolve_segment(
            s1,
            d as int,
            comps.last(),
        ) == w,
        (resolve_path(s0, root, comps.drop_last()) matches Ok(d) && lookup(
            dir_entries(s0, d as int),
            comps.last(),
        ) is None) ==> resolve_path(s1, root, comps) == w,
{
    let d = resolve_path(s0, root, comps.drop_last())->Ok_0 as int;
    let name = comps.last();
    if lookup(dir_entries(s0, d), name) is None {
        assert forall|k: int| #![trigger s0[k]] 0 <= k < s0.len() && s0[k] is Some implies {
            &&& s1[k] is Some
            &&& s1[k]->Some_0.stat == s0[k]->Some_0.stat
            &&& (!is_dir(s0, k) ==> s1[k] == s0[k])
            &&& (is_dir(s0, k) ==> is_dir(s1, k) && forall|nm: Seq<u8>|
                #[trigger] lookup(dir_entries(s0, k), nm) is Some ==> lookup(dir_entries(s1, k), nm)
                    == lookup(dir_entries(s0, k), nm))
        } by {
            if k == d {
                assert forall|nm: Seq<u8>| #[trigger]
                    lookup(dir_entries(s0, k), nm) is Some implies lookup(dir_entries(s1, k), nm)
                    == lookup(dir_entries(s0, k), nm) by {
                    assert(nm != name);
                }
            }
        }
        assert(extends(s0, s1));
        lemma_extends_resolve(s0, s1, root, comps.drop_last());
        lemma_resolve_push(s1, root, comps.drop_last(), name);
        assert(comps.drop_last().push(name) =~= comps);
    }
}

} // verus!

//! The VFS task's state and decisions: mount points by path, opened files by descriptor,
//! which mount point a path falls under, and what seeking does to a file's head.  The
//! requests arrive and the answers leave through the caller.
use vstd::prelude::*;
use crate::hal::buffer::Buffer;
use crate::hal::fs::{HalFsIOErr, HalIOCtx, HalInode, OpenFlags};
use crate::hal::path::Path;

verus! {

/// Where a seek counts from.
#[derive(Debug, Clone, Copy, PartialEq, Eq, Structural)]
pub enum Whence {
    SeekSet,
    SeekCur,
    SeekEnd,
    SeekData,
    SeekHole,
}

/// The errors the VFS answers with.
#[derive(Debug)]
pub enum ErrNo {
    BadFd,
    NoSuchFileOrDirectory,
    FileSystem(HalFsIOErr),
}

/// A request to the VFS task; `cell` names the reply slot of the requester.
pub enum VfsOperationType {
    Open { path: Path, flags: OpenFlags, cell: u64 },
    Read { inode_id: i64, buffer: Buffer, cell: u64 },
    Write { inode_id: i64, buffer: Buffer, cell: u64 },
    Lseek { inode_id: i64, whence: Whence, offset: i64, cell: u64 },
    Close { inode_id: i64 },
}

/// A request to the VFS task.
pub struct VfsOperation {
    pub operation_type: VfsOperationType,
}

/// An opened file: its inode, its head, how many hold it, and its mount point.
#[derive(Debug)]
pub struct HalOpenedInode {
    pub inode: HalInode,
    pub ctx: HalIOCtx,
    pub count: usize,
    pub mount_point_id: i64,
}

impl HalOpenedInode {
    /// A file opened once, its head at the start, on mount point `id`.
    pub fn from_inode(inode: HalInode, id: i64) -> (r: Self)
        ensures
            r.inode == inode,
            r.ctx.head == 0,
            r.count == 1,
            r.mount_point_id == id,
    {
        HalOpenedInode { inode, ctx: HalIOCtx::new(), count: 1, mount_point_id: id }
    }
}

/// Whether `p` starts `s`.
pub open spec fn is_prefix(p: Seq<char>, s: Seq<char>) -> bool {
    p.len() <= s.len() && s.take(p.len() as int) == p
}

/// Whether the characters of `p` start those of `s`.
pub fn starts_with(s: &str, p: &str) -> (b: bool)
    ensures
        b == is_prefix(p@, s@),
{
    let n = p.unicode_len();
    if n > s.unicode_len() {
        return false;
    }
    let mut i: usize = 0;
    while i < n
        invariant
            n == p@.len(),
            n <= s@.len(),
            i <= n,
            s@.take(i as int) == p@.take(i as int),
        decreases n - i,
    {
        if s.get_char(i) != p.get_char(i) {
            assert(s@.take(n as int)[i as int] != p@[i as int]);
            return false;
        }
        assert(s@.take(i + 1) =~= p@.take(i + 1));
        i = i + 1;
    }
    assert(p@.take(n as int) =~= p@);
    true
}

/// `s` with every leading repetition of `p` removed (nothing where `p` is empty).
pub open spec fn trim_start(s: Seq<char>, p: Seq<char>) -> Seq<char>
    decreases s.len(),
{
    if p.len() > 0 && is_prefix(p, s) {
        trim_start(s.skip(p.len() as int), p)
    } else {
        s
    }
}

/// `s` with every leading repetition of `p` removed, as `trim_start_matches` does.
pub fn trim_start_matches(s: &str, p: &str) -> (r: String)
    ensures
        r@ == trim_start(s@, p@),
{
    let n = p.unicode_len();
    let len = s.unicode_len();
    let mut start: usize = 0;
    assert(s@.skip(0) =~= s@);
    if n > 0 {
        loop
            invariant
                n == p@.len(),
                n > 0,
                len == s@.len(),
                start <= len,
                trim_start(s@.skip(start as int), p@) == trim_start(s@, p@),
            ensures
                start <= len,
                trim_start(s@.skip(start as int), p@) == trim_start(s@, p@),
                !is_prefix(p@, s@.skip(start as int)),
            decreases len - start,
        {
            if n > len - start {
                break;
            }
            let rest = s.substring_char(start, len);
            assert(rest@ =~= s@.skip(start as int));
            if !starts_with(rest, p) {
                break;
            }
            assert(s@.skip(start as int).skip(n as int) =~= s@.skip(start + n));
            start = start + n;
        }
    }
    let rest = s.substring_char(start, len);
    assert(rest@ =~= s@.skip(start as int));
    String::from_str(rest)
}

/// The mount points: each file system under its id, each mount path with its id, and the
/// next id.
pub struct MountPointArray<F> {
    pub mount_points: Vec<(i64, F)>,
    pub path_to_id_map: Vec<(Path, i64)>,
    pub counter: i64,
}

/// The mount path that `path` falls under: among those that start it, the one with the
/// fewest characters.
pub open spec fn best_mount(paths: Seq<(Path, i64)>, path: Seq<char>, k: int) -> bool {
    &&& 0 <= k < paths.len()
    &&& is_prefix(paths[k].0@, path)
    &&& forall|j: int| 0 <= j < paths.len() && is_prefix(#[trigger] paths[j].0@, path) ==> paths[k].0@.len() <= paths[j].0@.len()
}

impl<F> MountPointArray<F> {
    /// No mount points; ids start at zero.
    pub fn new() -> (m: Self)
        ensures
            m.mount_points@.len() == 0,
            m.path_to_id_map@.len() == 0,
            m.counter == 0,
            m.wf(),
    {
        MountPointArray { mount_points: Vec::new(), path_to_id_map: Vec::new(), counter: 0 }
    }

    /// Whether each path is mounted once, each mount id occurs once, and every mount id is
    /// below the next id, so the next id is fresh.
    pub open spec fn wf(&self) -> bool {
        &&& forall|k: int, l: int| 0 <= k < l < self.path_to_id_map@.len() ==> self.path_to_id_map@[k].0@ != self.path_to_id_map@[l].0@
        &&& forall|k: int, l: int| 0 <= k < l < self.mount_points@.len() ==> self.mount_points@[k].0 != self.mount_points@[l].0
        &&& forall|k: int| 0 <= k < self.mount_points@.len() ==> #[trigger] self.mount_points@[k].0 < self.counter
    }

    /// Mounts `fs` at `path` under the next id; a path mounted before now names the new id.
    pub fn insert(&mut self, path: Path, fs: F)
        requires
            old(self).counter < i64::MAX,
            old(self).wf(),
        ensures
            final(self).wf(),
            final(self).counter == old(self).counter + 1,
            final(self).mount_points@ == old(self).mount_points@.push((old(self).counter, fs)),
            exists|k: int| 0 <= k < final(self).path_to_id_map@.len() && final(self).path_to_id_map@[k].0@ == path@
                && final(self).path_to_id_map@[k].1 == old(self).counter,
            forall|k: int| 0 <= k < final(self).path_to_id_map@.len() && final(self).path_to_id_map@[k].0@ != path@
                ==> old(self).path_to_id_map@.contains(final(self).path_to_id_map@[k]),
            forall|k: int| 0 <= k < old(self).path_to_id_map@.len() && old(self).path_to_id_map@[k].0@ != path@
                ==> final(self).path_to_id_map@.contains(old(self).path_to_id_map@[k]),
    {
        let id = self.counter;
        let ghost mp0 = self.mount_points@;
        self.mount_points.push((id, fs));
        proof {
            assert forall|k: int| 0 <= k < self.mount_points@.len() implies #[trigger] self.mount_points@[k].0 < id + 1 by {
                if k < mp0.len() {
                    assert(self.mount_points@[k] == mp0[k]);
                }
            }
            assert forall|k: int, l: int| 0 <= k < l < self.mount_points@.len() implies self.mount_points@[k].0
                != self.mount_points@[l].0 by {
                assert(self.mount_points@[k] == mp0[k]);
                if l < mp0.len() {
                    assert(self.mount_points@[l] == mp0[l]);
                } else {
                    assert(mp0[k].0 < id);
                }
            }
        }
        let ghost before = self.path_to_id_map@;
        let ghost pv = path@;
        let ghost mut w: int = 0;
        match self.id_of_path(&path) {
            Some(k) => {
                self.path_to_id_map.set(k, (path, id));
                proof {
                    assert forall|a: int, b: int| 0 <= a < b < self.path_to_id_map@.len() implies self.path_to_id_map@[a].0@ != self.path_to_id_map@[b].0@ by {
                        if a == k as int {
                            assert(before[b].0@ != before[k as int].0@);
                        } else if b == k as int {
                            assert(before[a].0@ != before[k as int].0@);
                        }
                    }
                    assert forall|m: int| 0 <= m < self.path_to_id_map@.len() && self.path_to_id_map@[m].0@ != path@
                        implies before.contains(self.path_to_id_map@[m]) by {
                        assert(m != k);
                        assert(before[m] == self.path_to_id_map@[m]);
                    }
                    assert forall|m: int| 0 <= m < before.len() && before[m].0@ != path@
                        implies self.path_to_id_map@.contains(before[m]) by {
                        assert(m != k);
                        assert(self.path_to_id_map@[m] == before[m]);
                    }
                    assert(self.path_to_id_map@[k as int].0@ == path@ && self.path_to_id_map@[k as int].1 == old(self).counter);
                    w = k as int;
                }
            },
            None => {
                self.path_to_id_map.push((path, id));
                proof {
                    let n = before.len() as int;
                    assert(self.path_to_id_map@[n].0@ == path@ && self.path_to_id_map@[n].1 == old(self).counter);
                    w = n;
                    assert forall|m: int| 0 <= m < self.path_to_id_map@.len() && self.path_to_id_map@[m].0@ != path@
                        implies before.contains(self.path_to_id_map@[m]) by {
                        assert(before[m] == self.path_to_id_map@[m]);
                    }
                    assert forall|m: int| 0 <= m < before.len() && before[m].0@ != path@
                        implies self.path_to_id_map@.contains(before[m]) by {
                        assert(self.path_to_id_map@[m] == before[m]);
                    }
                }
            },
        }
        self.counter = id + 1;
        assert(0 <= w < self.path_to_id_map@.len() && self.path_to_id_map@[w].0@ == pv && self.path_to_id_map@[w].1 == old(self).counter);
    }

    /// The position of the file system with id `id`, if mounted.
    pub fn get_mount_point_by_id(&self, id: i64) -> (r: Option<usize>)
        ensures
            r matches Some(k) ==> k < self.mount_points@.len() && self.mount_points@[k as int].0 == id,
            r is None ==> forall|k: int| 0 <= k < self.mount_points@.len() ==> #[trigger] self.mount_points@[k].0 != id,
    {
        let mut k: usize = 0;
        while k < self.mount_points.len()
            invariant
                k <= self.mount_points@.len(),
                forall|j: int| 0 <= j < k ==> #[trigger] self.mount_points@[j].0 != id,
            decreases self.mount_points@.len() - k,
        {
            if self.mount_points[k].0 == id {
                return Some(k);
            }
            k = k + 1;
        }
        None
    }

    /// The position of the mount path spelled as `path`, if any.
    pub fn id_of_path(&self, path: &Path) -> (r: Option<usize>)
        ensures
            r matches Some(k) ==> k < self.path_to_id_map@.len() && self.path_to_id_map@[k as int].0@ == path@,
            r is None ==> forall|k: int| 0 <= k < self.path_to_id_map@.len() ==> #[trigger] self.path_to_id_map@[k].0@ != path@,
    {
        let mut k: usize = 0;
        while k < self.path_to_id_map.len()
            invariant
                k <= self.path_to_id_map@.len(),
                forall|j: int| 0 <= j < k ==> #[trigger] self.path_to_id_map@[j].0@ != path@,
            decreases self.path_to_id_map@.len() - k,
        {
            if self.path_to_id_map[k].0.equals(path) {
                return Some(k);
            }
            k = k + 1;
        }
        None
    }

    /// The position of the file system mounted at `path`, if any.
    pub fn get_mount_point_by_path(&self, path: &Path) -> (r: Option<usize>)
        requires
            self.wf(),
        ensures
            r matches Some(j) ==> j < self.mount_points@.len() && exists|k: int| 0 <= k < self.path_to_id_map@.len()
                && self.path_to_id_map@[k].0@ == path@ && self.mount_points@[j as int].0 == self.path_to_id_map@[k].1,
            r is None ==> forall|k: int| 0 <= k < self.path_to_id_map@.len() && #[trigger] self.path_to_id_map@[k].0@ == path@
                ==> forall|j: int| 0 <= j < self.mount_points@.len() ==> #[trigger] self.mount_points@[j].0 != self.path_to_id_map@[k].1,
    {
        match self.id_of_path(path) {
            Some(k) => {
                let r = self.get_mount_point_by_id(self.path_to_id_map[k].1);
                proof {
                    assert forall|m: int| 0 <= m < self.path_to_id_map@.len() && #[trigger] self.path_to_id_map@[m].0@ == path@
                        implies m == k by {
                        if m != k {
                            assert(self.path_to_id_map@[m].0@ == self.path_to_id_map@[k as int].0@);
                        }
                    }
                }
                r
            },
            None => None,
        }
    }

    /// Whether a file system is mounted at `path`.
    pub fn contains_path(&self, path: &Path) -> (b: bool)
        requires
            self.wf(),
        ensures
            b == (exists|k: int, j: int| 0 <= k < self.path_to_id_map@.len() && self.path_to_id_map@[k].0@ == path@
                && 0 <= j < self.mount_points@.len() && self.mount_points@[j].0 == self.path_to_id_map@[k].1),
    {
        let r = self.get_mount_point_by_path(path);
        proof {
            if r is None {
                assert forall|k: int, j: int| !(0 <= k < self.path_to_id_map@.len() && self.path_to_id_map@[k].0@ == path@
                    && 0 <= j < self.mount_points@.len() && self.mount_points@[j].0 == self.path_to_id_map@[k].1) by {
                    if 0 <= k < self.path_to_id_map@.len() && self.path_to_id_map@[k].0@ == path@ && 0 <= j < self.mount_points@.len() {
                        assert(self.mount_points@[j].0 != self.path_to_id_map@[k].1);
                    }
                }
            }
        }
        r.is_some()
    }

    /// The position of the mount path that `path` falls under: the one with the fewest
    /// characters among those that start it (the first such where several tie).
    pub fn resolve_index(&self, path: &Path) -> (r: Option<usize>)
        ensures
            r is None ==> forall|k: int| 0 <= k < self.path_to_id_map@.len() ==> !is_prefix(#[trigger] self.path_to_id_map@[k].0@, path@),
            r matches Some(b) ==> best_mount(self.path_to_id_map@, path@, b as int),
            r matches Some(b) ==> forall|j: int| 0 <= j < b ==> !(#[trigger] is_prefix(self.path_to_id_map@[j].0@, path@)
                && self.path_to_id_map@[j].0@.len() == self.path_to_id_map@[b as int].0@.len()),
    {
        let mut best: Option<usize> = None;
        let mut k: usize = 0;
        while k < self.path_to_id_map.len()
            invariant
                k <= self.path_to_id_map@.len(),
                best matches Some(b) ==> b < k && is_prefix(self.path_to_id_map@[b as int].0@, path@)
                    && forall|j: int| 0 <= j < k && is_prefix(#[trigger] self.path_to_id_map@[j].0@, path@)
                        ==> self.path_to_id_map@[b as int].0@.len() <= self.path_to_id_map@[j].0@.len(),
                best matches Some(b) ==> forall|j: int| 0 <= j < b ==> !(#[trigger] is_prefix(self.path_to_id_map@[j].0@, path@)
                    && self.path_to_id_map@[j].0@.len() == self.path_to_id_map@[b as int].0@.len()),
                best is None ==> forall|j: int| 0 <= j < k ==> !is_prefix(#[trigger] self.path_to_id_map@[j].0@, path@),
            decreases self.path_to_id_map@.len() - k,
        {
            let p = &self.path_to_id_map[k].0;
            if starts_with(path.as_str(), p.as_str()) {
                let n = p.as_str().unicode_len();
                match best {
                    Some(b) => {
                        if n < self.path_to_id_map[b].0.as_str().unicode_len() {
                            best = Some(k);
                        }
                    },
                    None => {
                        best = Some(k);
                    },
                }
            }
            k = k + 1;
        }
        best
    }

    /// The mount point that a path to open falls under: the mount path with the fewest
    /// characters among those that start it.
    pub fn resolve(&self, path: &Path) -> (r: Option<i64>)
        ensures
            r is None ==> forall|k: int| 0 <= k < self.path_to_id_map@.len() ==> !is_prefix(#[trigger] self.path_to_id_map@[k].0@, path@),
            r matches Some(id) ==> exists|k: int| best_mount(self.path_to_id_map@, path@, k) && self.path_to_id_map@[k].1 == id,
    {
        match self.resolve_index(path) {
            Some(b) => Some(self.path_to_id_map[b].1),
            None => None,
        }
    }

    /// How a request to open `path` is handed on: the path normalized; the mount path that
    /// it falls under (the shortest that starts it); that mount's id, the position of its
    /// file system, and the path inside the file system: the normalized path with the
    /// leading repetitions of the mount path removed, rooted at `/`.  No such file where no
    /// mount path starts the normalized path or its id has no file system.
    pub fn plan_open(&self, path: &Path) -> (r: Result<(i64, usize, Path), ErrNo>)
        ensures
            match r {
                Err(e) => e is NoSuchFileOrDirectory,
                Ok(_) => true,
            },
            (forall|k: int| 0 <= k < self.path_to_id_map@.len() ==> !is_prefix(#[trigger] self.path_to_id_map@[k].0@,
                crate::hal::path::spec_normalize(path@))) ==> r is Err,
            forall|k: int| first_best_mount(self.path_to_id_map@, crate::hal::path::spec_normalize(path@), k) ==> {
                &&& (forall|m: int| 0 <= m < self.mount_points@.len() ==> #[trigger] self.mount_points@[m].0 != self.path_to_id_map@[k].1)
                    ==> r is Err
                &&& (r is Ok ==> r->Ok_0.0 == self.path_to_id_map@[k].1 && r->Ok_0.1 < self.mount_points@.len()
                    && self.mount_points@[r->Ok_0.1 as int].0 == self.path_to_id_map@[k].1 && r->Ok_0.2@ == rooted(
                    trim_start(crate::hal::path::spec_normalize(path@), self.path_to_id_map@[k].0@)))
                &&& ((exists|m: int| 0 <= m < self.mount_points@.len() && #[trigger] self.mount_points@[m].0 == self.path_to_id_map@[k].1)
                    ==> r is Ok)
            },
            r is Ok ==> exists|k: int| first_best_mount(self.path_to_id_map@, crate::hal::path::spec_normalize(path@), k),
    {
        let np = path.normalize();
        let b = match self.resolve_index(&np) {
            Some(b) => b,
            None => {
                return Err(ErrNo::NoSuchFileOrDirectory);
            },
        };
        let id = self.path_to_id_map[b].1;
        let m = match self.get_mount_point_by_id(id) {
            Some(m) => m,
            None => {
                proof {
                    lemma_best_mount_first(self.path_to_id_map@, np@, b as int);
                }
                return Err(ErrNo::NoSuchFileOrDirectory);
            },
        };
        let rest = trim_start_matches(np.as_str(), self.path_to_id_map[b].0.as_str());
        let rel = rooted_path(&rest);
        proof {
            lemma_best_mount_first(self.path_to_id_map@, np@, b as int);
            assert(first_best_mount(self.path_to_id_map@, np@, b as int));
        }
        Ok((id, m, rel))
    }
}

/// The first of the shortest mount paths that start `path`: the one a request falls under.
pub open spec fn first_best_mount(paths: Seq<(Path, i64)>, path: Seq<char>, k: int) -> bool {
    &&& best_mount(paths, path, k)
    &&& forall|j: int| 0 <= j < k ==> !(#[trigger] is_prefix(paths[j].0@, path) && paths[j].0@.len() == paths[k].0@.len())
}

/// There is one first shortest mount path: any `k` that is one is `b`.
proof fn lemma_best_mount_first(paths: Seq<(Path, i64)>, path: Seq<char>, b: int)
    requires
        first_best_mount(paths, path, b),
    ensures
        forall|k: int| #[trigger] first_best_mount(paths, path, k) ==> k == b,
{
    assert forall|k: int| #[trigger] first_best_mount(paths, path, k) implies k == b by {
        assert(paths[k].0@.len() <= paths[b].0@.len());
        assert(paths[b].0@.len() <= paths[k].0@.len());
        if k < b {
            assert(is_prefix(paths[k].0@, path) && paths[k].0@.len() == paths[b].0@.len());
        } else if b < k {
            assert(is_prefix(paths[b].0@, path) && paths[b].0@.len() == paths[k].0@.len());
        }
    }
}

/// `s` as a path inside a file system: as it is where it starts with `/`, else with `/`
/// put before it.
pub open spec fn rooted(s: Seq<char>) -> Seq<char> {
    if s.len() > 0 && s[0] == '/' {
        s
    } else {
        seq!['/'] + s
    }
}

/// The path `rooted(rest)`.
pub fn rooted_path(rest: &String) -> (p: Path)
    ensures
        p@ == rooted(rest@),
{
    let s = rest.as_str();
    let n = s.unicode_len();
    if n > 0 && s.get_char(0) == '/' {
        return Path::new_unchecked(rest.clone());
    }
    let mut out = String::new();
    crate::utils::strings::push_char(&mut out, '/');
    let mut i: usize = 0;
    while i < n
        invariant
            n == s@.len(),
            s@ == rest@,
            i <= n,
            out@ == seq!['/'] + s@.take(i as int),
        decreases n - i,
    {
        crate::utils::strings::push_char(&mut out, s.get_char(i));
        assert(s@.take(i + 1) =~= s@.take(i as int).push(s@[i as int]));
        assert(out@ =~= seq!['/'] + s@.take(i + 1));
        i = i + 1;
    }
    assert(s@.take(n as int) =~= s@);
    Path::new_unchecked(out)
}

/// The VFS task's opened files by descriptor, and the next descriptor.
pub struct VfsState {
    pub opened_inodes: Vec<(i64, HalOpenedInode)>,
    pub inode_idx_counter: i64,
}

/// Every descriptor of `files` occurs once and is below `counter`, so `counter` is fresh.
pub open spec fn fds_fresh(files: Seq<(i64, HalOpenedInode)>, counter: i64) -> bool {
    &&& forall|k: int, l: int| 0 <= k < l < files.len() ==> files[k].0 != files[l].0
    &&& forall|k: int| 0 <= k < files.len() ==> #[trigger] files[k].0 < counter
}

impl VfsState {
    /// The state's invariant: each descriptor names one opened file, and the next
    /// descriptor is new.
    pub open spec fn wf(&self) -> bool {
        fds_fresh(self.opened_inodes@, self.inode_idx_counter)
    }

    /// Nothing opened; descriptors start at zero.
    pub fn new() -> (s: Self)
        ensures
            s.opened_inodes@.len() == 0,
            s.inode_idx_counter == 0,
            s.wf(),
    {
        VfsState { opened_inodes: Vec::new(), inode_idx_counter: 0 }
    }

    /// Records an opened file on mount point `mount_id` under the next descriptor, which
    /// comes back.
    pub fn register_open(&mut self, inode: HalInode, mount_id: i64) -> (fd: i64)
        requires
            old(self).inode_idx_counter < i64::MAX,
        ensures
            fd == old(self).inode_idx_counter,
            final(self).inode_idx_counter == fd + 1,
            final(self).opened_inodes@.len() == old(self).opened_inodes@.len() + 1,
            final(self).opened_inodes@.last().0 == fd,
            final(self).opened_inodes@.last().1.inode == inode,
            final(self).opened_inodes@.last().1.ctx.head == 0,
            final(self).opened_inodes@.last().1.count == 1,
            final(self).opened_inodes@.last().1.mount_point_id == mount_id,
            forall|k: int| 0 <= k < old(self).opened_inodes@.len() ==> #[trigger] final(self).opened_inodes@[k] == old(self).opened_inodes@[k],
            old(self).wf() ==> final(self).wf(),
            old(self).wf() ==> forall|k: int| 0 <= k < old(self).opened_inodes@.len() ==> #[trigger] old(self).opened_inodes@[k].0 != fd,
    {
        let fd = self.inode_idx_counter;
        let ghost before = self.opened_inodes@;
        self.opened_inodes.push((fd, HalOpenedInode::from_inode(inode, mount_id)));
        self.inode_idx_counter = fd + 1;
        proof {
            if fds_fresh(before, fd) {
                assert forall|k: int| 0 <= k < self.opened_inodes@.len() implies #[trigger] self.opened_inodes@[k].0 < fd + 1 by {
                    if k < before.len() {
                        assert(self.opened_inodes@[k] == before[k]);
                    }
                }
                assert forall|k: int, l: int| 0 <= k < l < self.opened_inodes@.len() implies self.opened_inodes@[k].0
                    != self.opened_inodes@[l].0 by {
                    assert(self.opened_inodes@[k] == before[k]);
                    if l < before.len() {
                        assert(self.opened_inodes@[l] == before[l]);
                    } else {
                        assert(before[k].0 < fd);
                    }
                }
            }
        }
        fd
    }

    /// The position of the file opened as `fd`, if any.
    pub fn find(&self, fd: i64) -> (r: Option<usize>)
        ensures
            r matches Some(k) ==> k < self.opened_inodes@.len() && self.opened_inodes@[k as int].0 == fd,
            r is None ==> forall|k: int| 0 <= k < self.opened_inodes@.len() ==> #[trigger] self.opened_inodes@[k].0 != fd,
    {
        let mut k: usize = 0;
        while k < self.opened_inodes.len()
            invariant
                k <= self.opened_inodes@.len(),
                forall|j: int| 0 <= j < k ==> #[trigger] self.opened_inodes@[j].0 != fd,
            decreases self.opened_inodes@.len() - k,
        {
            if self.opened_inodes[k].0 == fd {
                return Some(k);
            }
            k = k + 1;
        }
        None
    }

    /// Seeks the file opened as `fd`: from the start the head becomes the offset (taken as
    /// unsigned); from the current position the offset is added or, when negative, its
    /// magnitude taken away; the other kinds do nothing and are not answered.  The answer is
    /// the new head, or a bad descriptor.
    pub fn lseek(&mut self, fd: i64, whence: Whence, offset: i64) -> (r: Option<Result<i64, ErrNo>>)
        requires
            whence == Whence::SeekCur ==> offset > i64::MIN,
            whence == Whence::SeekCur ==> forall|k: int| 0 <= k < old(self).opened_inodes@.len() && #[trigger] old(self).opened_inodes@[k].0 == fd ==> {
                let h = old(self).opened_inodes@[k].1.ctx.head as int;
                0 <= h + offset <= usize::MAX
            },
        ensures
            final(self).opened_inodes@.len() == old(self).opened_inodes@.len(),
            final(self).inode_idx_counter == old(self).inode_idx_counter,
            (forall|k: int| 0 <= k < old(self).opened_inodes@.len() ==> #[trigger] old(self).opened_inodes@[k].0 != fd)
                ==> r matches Some(Err(ErrNo::BadFd)),
            forall|k: int| 0 <= k < old(self).opened_inodes@.len() ==> #[trigger] final(self).opened_inodes@[k].0 == old(self).opened_inodes@[k].0,
            forall|k: int| 0 <= k < old(self).opened_inodes@.len() && old(self).opened_inodes@[k].0 != fd ==> #[trigger] final(self).opened_inodes@[k] == old(self).opened_inodes@[k],
            forall|k: int| 0 <= k < old(self).opened_inodes@.len() ==> {
                &&& (#[trigger] final(self).opened_inodes@[k]).1.inode == old(self).opened_inodes@[k].1.inode
                &&& final(self).opened_inodes@[k].1.count == old(self).opened_inodes@[k].1.count
                &&& final(self).opened_inodes@[k].1.mount_point_id == old(self).opened_inodes@[k].1.mount_point_id
            },
            r matches Some(Ok(h)) ==> exists|k: int| 0 <= k < old(self).opened_inodes@.len() && old(self).opened_inodes@[k].0 == fd
                && final(self).opened_inodes@[k].1.ctx.head == if whence == Whence::SeekSet {
                    offset as usize as int
                } else {
                    old(self).opened_inodes@[k].1.ctx.head + offset
                } && h == final(self).opened_inodes@[k].1.ctx.head as i64,
            (whence == Whence::SeekSet || whence == Whence::SeekCur) && (exists|k: int| 0 <= k < old(self).opened_inodes@.len() && old(self).opened_inodes@[k].0 == fd) ==> r matches Some(Ok(_)),
            !(whence == Whence::SeekSet || whence == Whence::SeekCur) && (exists|k: int| 0 <= k < old(self).opened_inodes@.len() && old(self).opened_inodes@[k].0 == fd) ==> r is None,
            old(self).wf() ==> final(self).wf(),
    {
        let k = match self.find(fd) {
            Some(k) => k,
            None => {
                return Some(Err(ErrNo::BadFd));
            },
        };
        let ghost before = self.opened_inodes@;
        let (id, mut inode) = self.opened_inodes.remove(k);
        let r = match whence {
            Whence::SeekSet => {
                inode.ctx.head = offset as usize;
                Some(Ok(inode.ctx.head as i64))
            },
            Whence::SeekCur => {
                assert(before[k as int].0 == fd);
                assert(0 <= before[k as int].1.ctx.head + offset <= usize::MAX);
                if offset < 0 {
                    let mag = (0 - offset) as usize;
                    inode.ctx.head = inode.ctx.head - mag;
                } else {
                    inode.ctx.head += offset as usize;
                }
                Some(Ok(inode.ctx.head as i64))
            },
            _ => None,
        };
        let ghost newhead = inode.ctx.head;
        self.opened_inodes.insert(k, (id, inode));
        proof {
            assert(self.opened_inodes@[k as int].0 == fd && self.opened_inodes@[k as int].1.ctx.head == newhead);
            assert(before[k as int].0 == fd);
            assert forall|j: int| 0 <= j < before.len() && j != k implies #[trigger] self.opened_inodes@[j] == before[j] by {
                if j < k {
                    assert(self.opened_inodes@[j] == before.remove(k as int)[j]);
                } else if j > k {
                    assert(self.opened_inodes@[j] == before.remove(k as int)[j - 1]);
                }
            }
            assert forall|j: int| 0 <= j < before.len() implies #[trigger] self.opened_inodes@[j].0 == before[j].0 by {
                if j < k {
                    assert(self.opened_inodes@[j] == before.remove(k as int)[j]);
                } else if j > k {
                    assert(self.opened_inodes@[j] == before.remove(k as int)[j - 1]);
                }
            }
            if fds_fresh(before, self.inode_idx_counter) {
                assert forall|a: int, b: int| 0 <= a < b < self.opened_inodes@.len() implies self.opened_inodes@[a].0
                    != self.opened_inodes@[b].0 by {
                    assert(self.opened_inodes@[a].0 == before[a].0);
                    assert(self.opened_inodes@[b].0 == before[b].0);
                }
                assert forall|a: int| 0 <= a < self.opened_inodes@.len() implies #[trigger] self.opened_inodes@[a].0
                    < self.inode_idx_counter by {
                    assert(self.opened_inodes@[a].0 == before[a].0);
                }
            }
        }
        r
    }
}

} // verus!

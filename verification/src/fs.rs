//! The filesystem facade: a mount table routing paths to concrete
//! filesystems by longest standing mount-point prefix (first match in table
//! order), a current working directory with path normalization, and a file
//! handle that remembers which table entry it was opened on. The concrete
//! filesystems stand behind the [`FsHandle`] trait and are supplied by the
//! board.

use vstd::prelude::*;

use crate::bytes::{append_bytes, bytes_eq, clone_bytes};
use crate::driver::DriverError;

verus! {

/// Where a seek offset counts from.
#[derive(Clone, Copy, Debug, PartialEq, Eq, Structural)]
#[allow(non_camel_case_types)]
pub enum Whence {
    /// From the start of the file.
    SEEK_SET,
    /// From the current position.
    SEEK_CUR,
    /// From the end of the file.
    SEEK_END,
}

/// Why a filesystem operation was refused.
#[derive(Debug)]
pub enum FsError {
    /// The root path belongs to no mounted filesystem.
    RootPath,
    /// No mount point is a prefix of the path.
    NoFilesystem,
    /// No table entry carries this mount point.
    MountPointNotFound,
    /// The root directory cannot be created.
    CannotCreateRoot,
    /// The root directory cannot be deleted.
    CannotDeleteRoot,
    /// The root directory cannot be renamed.
    CannotRenameRoot,
    /// The two paths of a rename lie on different filesystems.
    CrossFilesystem,
    /// A directory was required and the path names none.
    NotADirectory,
    /// The file was already closed.
    AlreadyClosed,
    /// The concrete filesystem refused the operation.
    Handle(DriverError),
}

/// What a directory entry says about one name.
pub struct DirEntry {
    name: Vec<u8>,
    file: bool,
    dir: bool,
    size: usize,
}

impl DirEntry {
    /// Describe one name.
    pub fn new(name: Vec<u8>, file: bool, dir: bool, size: usize) -> (r: DirEntry)
        ensures
            r.name_view() == name@,
            r.is_file_spec() == file,
            r.is_dir_spec() == dir,
            r.size_spec() == size,
    {
        DirEntry { name, file, dir, size }
    }

    /// The entry's name bytes.
    pub closed spec fn name_view(&self) -> Seq<u8> {
        self.name@
    }

    /// Whether the entry is a regular file.
    pub closed spec fn is_file_spec(&self) -> bool {
        self.file
    }

    /// Whether the entry is a directory.
    pub closed spec fn is_dir_spec(&self) -> bool {
        self.dir
    }

    /// The entry's size in bytes.
    pub closed spec fn size_spec(&self) -> usize {
        self.size
    }

    /// The entry's name.
    pub fn name(&self) -> (r: &Vec<u8>)
        ensures
            r@ == self.name_view(),
    {
        &self.name
    }

    /// Whether the entry is a regular file.
    pub fn is_file(&self) -> (r: bool)
        ensures
            r == self.is_file_spec(),
    {
        self.file
    }

    /// Whether the entry is a directory.
    pub fn is_dir(&self) -> (r: bool)
        ensures
            r == self.is_dir_spec(),
    {
        self.dir
    }

    /// The entry's size in bytes.
    pub fn size(&self) -> (r: usize)
        ensures
            r == self.size_spec(),
    {
        self.size
    }
}

/// Capacity report of one filesystem, in bytes.
pub struct FsInfo {
    total: isize,
    used: isize,
    free: isize,
}

impl FsInfo {
    /// Bundle a capacity report.
    pub fn new(total: isize, used: isize, free: isize) -> (r: FsInfo)
        ensures
            r.total_spec() == total,
            r.used_spec() == used,
            r.free_spec() == free,
    {
        FsInfo { total, used, free }
    }

    /// Total capacity.
    pub closed spec fn total_spec(&self) -> isize {
        self.total
    }

    /// Bytes in use.
    pub closed spec fn used_spec(&self) -> isize {
        self.used
    }

    /// Bytes free.
    pub closed spec fn free_spec(&self) -> isize {
        self.free
    }

    /// Total capacity.
    pub fn total(&self) -> (r: isize)
        ensures
            r == self.total_spec(),
    {
        self.total
    }

    /// Bytes in use.
    pub fn used(&self) -> (r: isize)
        ensures
            r == self.used_spec(),
    {
        self.used
    }

    /// Bytes free.
    pub fn free(&self) -> (r: isize)
        ensures
            r == self.free_spec(),
    {
        self.free
    }
}

/// A concrete filesystem, as the board supplies it. Paths handed to it are
/// relative to its mount point, always starting with a slash.
pub trait FsHandle {
    /// The handle a concrete filesystem uses for an open file.
    type File;

    /// Capacity report.
    fn info(&mut self) -> Result<FsInfo, FsError>;

    /// Attach the filesystem.
    fn mount(&mut self) -> Result<(), FsError>;

    /// Detach the filesystem.
    fn unmount(&mut self) -> Result<(), FsError>;

    /// Re-initialize the on-disk structures.
    fn format(&mut self) -> Result<(), FsError>;

    /// Create a directory.
    fn mkdir(&mut self, path: &Vec<u8>) -> Result<(), FsError>;

    /// Remove a file or directory.
    fn unlink(&mut self, path: &Vec<u8>) -> Result<(), FsError>;

    /// Rename within this filesystem.
    fn rename(&mut self, old_path: &Vec<u8>, new_path: &Vec<u8>) -> Result<(), FsError>;

    /// Describe one name.
    fn stat(&mut self, path: &Vec<u8>) -> Result<DirEntry, FsError>;

    /// List a directory.
    fn readdir(&mut self, path: &Vec<u8>) -> Result<Vec<DirEntry>, FsError>;

    /// Flush everything to the medium.
    fn sync(&mut self) -> Result<(), FsError>;

    /// Open a file; `mode` is the usual mode string as bytes.
    fn open(&mut self, path: &Vec<u8>, mode: &Vec<u8>) -> Result<Self::File, FsError>;

    /// Close an open file.
    fn close(&mut self, file: &mut Self::File) -> Result<(), FsError>;

    /// Flush an open file.
    fn flush(&mut self, file: &mut Self::File) -> Result<(), FsError>;

    /// Read up to `max` bytes from the current position.
    fn read(&mut self, file: &mut Self::File, max: usize) -> Result<Vec<u8>, FsError>;

    /// Write the bytes at the current position; the count written is
    /// returned.
    fn write(&mut self, file: &mut Self::File, buf: &Vec<u8>) -> Result<usize, FsError>;

    /// Move the current position; the new position is returned.
    fn seek(&mut self, file: &mut Self::File, pos: isize, whence: Whence) -> Result<isize, FsError>;
}

/// One mount-table row: a mount point and the filesystem behind it.
pub struct FsEntry<F> {
    /// The absolute path the filesystem is mounted on.
    pub mount_point: Vec<u8>,
    /// The filesystem.
    pub fs: F,
}

/// Whether `p` is a prefix of `s`.
pub open spec fn is_prefix(p: Seq<u8>, s: Seq<u8>) -> bool {
    p.len() <= s.len() && s.take(p.len() as int) == p
}

/// Index of the first table row whose mount point is a prefix of `path`.
pub open spec fn match_index(tab: Seq<Seq<u8>>, path: Seq<u8>) -> Option<int>
    decreases tab.len(),
{
    if tab.len() == 0 {
        None
    } else if is_prefix(tab[0], path) {
        Some(0)
    } else {
        match match_index(tab.skip(1), path) {
            Some(i) => Some(i + 1),
            None => None,
        }
    }
}

/// The path handed down to the matched filesystem: the bytes after the mount
/// point, or the root when nothing is left.
pub open spec fn local_path(path: Seq<u8>, mount_point_len: int) -> Seq<u8> {
    if path.len() == mount_point_len {
        seq![47u8]
    } else {
        path.skip(mount_point_len)
    }
}

/// `s` without its leading slashes.
pub open spec fn skip_leading_slashes(s: Seq<u8>) -> Seq<u8>
    decreases s.len(),
{
    if s.len() > 0 && s[0] == 47 {
        skip_leading_slashes(s.skip(1))
    } else {
        s
    }
}

/// Whether `s` starts with the bytes of `p`.
pub fn starts_with(s: &Vec<u8>, p: &Vec<u8>) -> (r: bool)
    ensures
        r == is_prefix(p@, s@),
{
    if p.len() > s.len() {
        return false;
    }
    let mut k: usize = 0;
    while k < p.len()
        invariant
            k <= p@.len() <= s@.len(),
            forall|j: int| 0 <= j < k ==> s@[j] == p@[j],
        decreases p@.len() - k,
    {
        if s[k] != p[k] {
            proof {
                assert(s@.take(p@.len() as int)[k as int] != p@[k as int]);
            }
            return false;
        }
        k += 1;
    }
    proof {
        assert(s@.take(p@.len() as int) =~= p@);
    }
    true
}

/// The mount table and current working directory.
pub struct Fs<F> {
    fstab: Vec<FsEntry<F>>,
    cwd: Vec<u8>,
}

impl<F: FsHandle> Fs<F> {
    /// The mount points, in table order.
    pub closed spec fn mounts(&self) -> Seq<Seq<u8>> {
        self.fstab@.map_values(|e: FsEntry<F>| e.mount_point@)
    }

    /// Number of table rows.
    pub closed spec fn tab_len(&self) -> int {
        self.fstab@.len() as int
    }

    /// The current working directory.
    pub closed spec fn cwd_view(&self) -> Seq<u8> {
        self.cwd@
    }

    /// A facade over the given table, with the root as working directory.
    pub fn new(fstab: Vec<FsEntry<F>>) -> (r: Self)
        ensures
            r.tab_len() == fstab@.len(),
            r.mounts() == fstab@.map_values(|e: FsEntry<F>| e.mount_point@),
            r.cwd_view() == seq![47u8],
    {
        let mut cwd: Vec<u8> = Vec::new();
        cwd.push(47);
        proof {
            assert(cwd@ =~= seq![47u8]);
        }
        Fs { fstab, cwd }
    }

    /// Mount every table row; a row whose mount fails is formatted and
    /// mounted again, and an error of that second attempt (or of the format)
    /// ends the walk.
    pub fn init(&mut self) -> (r: Result<(), FsError>)
        ensures
            final(self).tab_len() == old(self).tab_len(),
            final(self).mounts() == old(self).mounts(),
            final(self).tab_len() == old(self).tab_len(),
            final(self).cwd_view() == old(self).cwd_view(),
    {
        let mut i: usize = 0;
        while i < self.fstab.len()
            invariant
                i <= self.fstab@.len(),
                self.fstab@.len() == old(self).fstab@.len(),
                self.mounts() == old(self).mounts(),
                self.cwd@ == old(self).cwd@,
            decreases self.fstab@.len() - i,
        {
            let ghost pre = self.fstab@;
            let first = self.fstab[i].fs.mount();
            proof {
                assert(self.fstab@ =~= pre.update(i as int, self.fstab@[i as int]));
                assert(self.mounts() =~= old(self).mounts());
            }
            if first.is_err() {
                let ghost pre2 = self.fstab@;
                let formatted = self.fstab[i].fs.format();
                proof {
                    assert(self.fstab@ =~= pre2.update(i as int, self.fstab@[i as int]));
                    assert(self.mounts() =~= old(self).mounts());
                }
                if let Err(e) = formatted {
                    return Err(e);
                }
                let ghost pre3 = self.fstab@;
                let second = self.fstab[i].fs.mount();
                proof {
                    assert(self.fstab@ =~= pre3.update(i as int, self.fstab@[i as int]));
                    assert(self.mounts() =~= old(self).mounts());
                }
                if let Err(e) = second {
                    return Err(e);
                }
            }
            i += 1;
        }
        Ok(())
    }

    /// The current working directory.
    pub fn get_cwd(&self) -> (r: Vec<u8>)
        ensures
            r@ == self.cwd_view(),
    {
        clone_bytes(&self.cwd)
    }

    /// The current working directory (shorthand for [`Fs::get_cwd`]).
    pub fn cwd(&self) -> (r: Vec<u8>)
        ensures
            r@ == self.cwd_view(),
    {
        clone_bytes(&self.cwd)
    }

    /// The mount table.
    pub fn fstab(&self) -> (r: &Vec<FsEntry<F>>)
        ensures
            r@.map_values(|e: FsEntry<F>| e.mount_point@) == self.mounts(),
            r@.len() == self.tab_len(),
    {
        &self.fstab
    }

    /// Number of mount-table rows.
    pub fn fstab_len(&self) -> (r: usize)
        ensures
            r == self.tab_len(),
    {
        self.fstab.len()
    }

    /// The mount point of one table row.
    pub fn mount_point_of(&self, i: usize) -> (r: &Vec<u8>)
        requires
            i < self.tab_len(),
        ensures
            r@ == self.mounts()[i as int],
    {
        &self.fstab[i].mount_point
    }

    /// Index of the first table row whose mount point is a prefix of `path`,
    /// with the path local to that filesystem. The bare root belongs to no
    /// filesystem; a path no mount point covers reports `NoFilesystem`.
    pub fn path_to_fs_index(&self, path: &Vec<u8>) -> (r: Result<(usize, Vec<u8>), FsError>)
        ensures
            match r {
                Ok((i, local)) => path@ != seq![47u8] && i < self.tab_len() && match_index(
                    self.mounts(),
                    path@,
                ) == Some(i as int) && local@ == local_path(
                    path@,
                    self.mounts()[i as int].len() as int,
                ),
                Err(e) => {
                    &&& (path@ == seq![47u8] ==> e is RootPath)
                    &&& (path@ != seq![47u8] ==> e is NoFilesystem && match_index(
                        self.mounts(),
                        path@,
                    ) is None)
                },
            },
    {
        if path.len() == 1 && path[0] == 47 {
            proof {
                assert(path@ =~= seq![47u8]);
            }
            return Err(FsError::RootPath);
        }
        proof {
            assert(path@ != seq![47u8]);
        }
        let mut i: usize = 0;
        while i < self.fstab.len()
            invariant
                path@ != seq![47u8],
                i <= self.tab_len(),
                forall|j: int| 0 <= j < i ==> !is_prefix(self.mounts()[j], path@),
            decreases self.tab_len() - i,
        {
            let mp = &self.fstab[i].mount_point;
            proof {
                assert(self.mounts()[i as int] == self.fstab@[i as int].mount_point@);
            }
            let matched = starts_with(path, mp);
            if matched {
                let mut local: Vec<u8> = Vec::new();
                if mp.len() == path.len() {
                    local.push(47);
                    proof {
                        assert(local@ =~= local_path(path@, self.mounts()[i as int].len() as int));
                    }
                } else {
                    let mut k: usize = mp.len();
                    while k < path.len()
                        invariant
                            mp@.len() <= k <= path@.len(),
                            local@ == path@.subrange(mp@.len() as int, k as int),
                        decreases path@.len() - k,
                    {
                        local.push(path[k]);
                        proof {
                            assert(local@ =~= path@.subrange(mp@.len() as int, k + 1));
                        }
                        k += 1;
                    }
                    proof {
                        assert(local@ =~= local_path(path@, self.mounts()[i as int].len() as int));
                    }
                }
                proof {
                    lemma_match_index_at(self.mounts(), path@, i as int);
                }
                return Ok((i, local));
            }
            i += 1;
        }
        proof {
            lemma_match_index_none(self.mounts(), path@);
        }
        Err(FsError::NoFilesystem)
    }

    /// Route a path to its filesystem (same routing as
    /// [`Fs::path_to_fs_index`]).
    pub fn path_to_fs(&self, path: &Vec<u8>) -> (r: Result<(usize, Vec<u8>), FsError>)
        ensures
            match r {
                Ok((i, local)) => path@ != seq![47u8] && i < self.tab_len() && match_index(
                    self.mounts(),
                    path@,
                ) == Some(i as int) && local@ == local_path(
                    path@,
                    self.mounts()[i as int].len() as int,
                ),
                Err(e) => {
                    &&& (path@ == seq![47u8] ==> e is RootPath)
                    &&& (path@ != seq![47u8] ==> e is NoFilesystem && match_index(
                        self.mounts(),
                        path@,
                    ) is None)
                },
            },
    {
        self.path_to_fs_index(path)
    }

    /// Index of the table row with exactly this mount point.
    pub fn mount_point_to_fs(&self, mount_point: &Vec<u8>) -> (r: Result<usize, FsError>)
        ensures
            match r {
                Ok(i) => i < self.tab_len() && self.mounts()[i as int] == mount_point@,
                Err(e) => e is MountPointNotFound && !self.mounts().contains(mount_point@),
            },
    {
        let mut i: usize = 0;
        while i < self.fstab.len()
            invariant
                i <= self.tab_len(),
                forall|j: int| 0 <= j < i ==> self.mounts()[j] != mount_point@,
            decreases self.tab_len() - i,
        {
            if bytes_eq(&self.fstab[i].mount_point, mount_point) {
                return Ok(i);
            }
            i += 1;
        }
        proof {
            assert forall|j: int| 0 <= j < self.mounts().len() implies self.mounts()[j]
                != mount_point@ by {}
            if self.mounts().contains(mount_point@) {
                let j = choose|j: int|
                    0 <= j < self.mounts().len() && self.mounts()[j] == mount_point@;
            }
        }
        Err(FsError::MountPointNotFound)
    }

    /// Capacity report of the filesystem mounted exactly here.
    pub fn info(&mut self, mount_point: &Vec<u8>) -> (r: Result<FsInfo, FsError>)
        ensures
            !old(self).mounts().contains(mount_point@) ==> (r matches Err(e)
                && e is MountPointNotFound),
            final(self).mounts() == old(self).mounts(),
            final(self).tab_len() == old(self).tab_len(),
            final(self).cwd_view() == old(self).cwd_view(),
    {
        let i = match self.mount_point_to_fs(mount_point) {
            Ok(i) => i,
            Err(e) => {
                return Err(e);
            },
        };
        let ghost pre = self.fstab@;
        let r = self.fstab[i].fs.info();
        proof {
            assert(self.fstab@ =~= pre.update(i as int, self.fstab@[i as int]));
            assert(self.mounts() =~= old(self).mounts());
        }
        r
    }

    /// Mount the filesystem with exactly this mount point.
    pub fn mount(&mut self, mount_point: &Vec<u8>) -> (r: Result<(), FsError>)
        ensures
            !old(self).mounts().contains(mount_point@) ==> (r matches Err(e)
                && e is MountPointNotFound),
            final(self).mounts() == old(self).mounts(),
            final(self).tab_len() == old(self).tab_len(),
            final(self).cwd_view() == old(self).cwd_view(),
    {
        let i = match self.mount_point_to_fs(mount_point) {
            Ok(i) => i,
            Err(e) => {
                return Err(e);
            },
        };
        let ghost pre = self.fstab@;
        let r = self.fstab[i].fs.mount();
        proof {
            assert(self.fstab@ =~= pre.update(i as int, self.fstab@[i as int]));
            assert(self.mounts() =~= old(self).mounts());
        }
        r
    }

    /// Unmount the filesystem with exactly this mount point.
    pub fn unmount(&mut self, mount_point: &Vec<u8>) -> (r: Result<(), FsError>)
        ensures
            !old(self).mounts().contains(mount_point@) ==> (r matches Err(e)
                && e is MountPointNotFound),
            final(self).mounts() == old(self).mounts(),
            final(self).tab_len() == old(self).tab_len(),
            final(self).cwd_view() == old(self).cwd_view(),
    {
        let i = match self.mount_point_to_fs(mount_point) {
            Ok(i) => i,
            Err(e) => {
                return Err(e);
            },
        };
        let ghost pre = self.fstab@;
        let r = self.fstab[i].fs.unmount();
        proof {
            assert(self.fstab@ =~= pre.update(i as int, self.fstab@[i as int]));
            assert(self.mounts() =~= old(self).mounts());
        }
        r
    }

    /// Format the filesystem with exactly this mount point.
    pub fn format(&mut self, mount_point: &Vec<u8>) -> (r: Result<(), FsError>)
        ensures
            !old(self).mounts().contains(mount_point@) ==> (r matches Err(e)
                && e is MountPointNotFound),
            final(self).mounts() == old(self).mounts(),
            final(self).tab_len() == old(self).tab_len(),
            final(self).cwd_view() == old(self).cwd_view(),
    {
        let i = match self.mount_point_to_fs(mount_point) {
            Ok(i) => i,
            Err(e) => {
                return Err(e);
            },
        };
        let ghost pre = self.fstab@;
        let r = self.fstab[i].fs.format();
        proof {
            assert(self.fstab@ =~= pre.update(i as int, self.fstab@[i as int]));
            assert(self.mounts() =~= old(self).mounts());
        }
        r
    }

    /// Create a directory. The root cannot be created; other paths are routed
    /// to the first filesystem whose mount point is a prefix, and fail when
    /// none is.
    pub fn mkdir(&mut self, path: &Vec<u8>) -> (r: Result<(), FsError>)
        ensures
            path@ == seq![47u8] ==> (r matches Err(e) && e is CannotCreateRoot),
            path@ != seq![47u8] && match_index(old(self).mounts(), path@) is None ==> (r matches Err(
                e,
            ) && e is NoFilesystem),
            final(self).mounts() == old(self).mounts(),
            final(self).tab_len() == old(self).tab_len(),
            final(self).cwd_view() == old(self).cwd_view(),
    {
        if path.len() == 1 && path[0] == 47 {
            proof {
                assert(path@ =~= seq![47u8]);
            }
            return Err(FsError::CannotCreateRoot);
        }
        proof {
            assert(path@ != seq![47u8]);
        }
        let (i, local) = match self.path_to_fs(path) {
            Ok(p) => p,
            Err(e) => {
                return Err(e);
            },
        };
        let ghost pre = self.fstab@;
        let r = self.fstab[i].fs.mkdir(&local);
        proof {
            assert(self.fstab@ =~= pre.update(i as int, self.fstab@[i as int]));
            assert(self.mounts() =~= old(self).mounts());
        }
        r
    }

    /// Remove a file or directory. The root cannot be deleted; other paths
    /// are routed and fail when no mount point is a prefix.
    pub fn unlink(&mut self, path: &Vec<u8>) -> (r: Result<(), FsError>)
        ensures
            path@ == seq![47u8] ==> (r matches Err(e) && e is CannotDeleteRoot),
            path@ != seq![47u8] && match_index(old(self).mounts(), path@) is None ==> (r matches Err(
                e,
            ) && e is NoFilesystem),
            final(self).mounts() == old(self).mounts(),
            final(self).tab_len() == old(self).tab_len(),
            final(self).cwd_view() == old(self).cwd_view(),
    {
        if path.len() == 1 && path[0] == 47 {
            proof {
                assert(path@ =~= seq![47u8]);
            }
            return Err(FsError::CannotDeleteRoot);
        }
        proof {
            assert(path@ != seq![47u8]);
        }
        let (i, local) = match self.path_to_fs(path) {
            Ok(p) => p,
            Err(e) => {
                return Err(e);
            },
        };
        let ghost pre = self.fstab@;
        let r = self.fstab[i].fs.unlink(&local);
        proof {
            assert(self.fstab@ =~= pre.update(i as int, self.fstab@[i as int]));
            assert(self.mounts() =~= old(self).mounts());
        }
        r
    }

    /// Rename. The root cannot be renamed, both paths must route to a
    /// filesystem, and to the same one.
    pub fn rename(&mut self, old_path: &Vec<u8>, new_path: &Vec<u8>) -> (r: Result<(), FsError>)
        ensures
            old_path@ == seq![47u8] || new_path@ == seq![47u8] ==> (r matches Err(e)
                && e is CannotRenameRoot),
            old_path@ != seq![47u8] && new_path@ != seq![47u8] && (match_index(
                old(self).mounts(),
                old_path@,
            ) is None || match_index(old(self).mounts(), new_path@) is None) ==> r is Err,
            old_path@ != seq![47u8] && new_path@ != seq![47u8] && (match_index(
                old(self).mounts(),
                old_path@,
            ) matches Some(i) && match_index(old(self).mounts(), new_path@) matches Some(j) && i
                != j) ==> (r matches Err(e) && e is CrossFilesystem),
            final(self).mounts() == old(self).mounts(),
            final(self).tab_len() == old(self).tab_len(),
            final(self).cwd_view() == old(self).cwd_view(),
    {
        let old_is_root = old_path.len() == 1 && old_path[0] == 47;
        let new_is_root = new_path.len() == 1 && new_path[0] == 47;
        proof {
            if old_is_root {
                assert(old_path@ =~= seq![47u8]);
            }
            if new_is_root {
                assert(new_path@ =~= seq![47u8]);
            }
            if old_path@ == seq![47u8] || new_path@ == seq![47u8] {
                assert(old_is_root || new_is_root);
            }
        }
        if old_is_root || new_is_root {
            return Err(FsError::CannotRenameRoot);
        }
        let (oi, olocal) = match self.path_to_fs_index(old_path) {
            Ok(p) => p,
            Err(e) => {
                return Err(e);
            },
        };
        let (ni, nlocal) = match self.path_to_fs_index(new_path) {
            Ok(p) => p,
            Err(e) => {
                return Err(e);
            },
        };
        if oi != ni {
            return Err(FsError::CrossFilesystem);
        }
        let ghost pre = self.fstab@;
        let r = self.fstab[oi].fs.rename(&olocal, &nlocal);
        proof {
            assert(self.fstab@ =~= pre.update(oi as int, self.fstab@[oi as int]));
            assert(self.mounts() =~= old(self).mounts());
        }
        r
    }

    /// Describe one name. The root is always a directory named `/`; other
    /// paths are routed to the first filesystem whose mount point is a
    /// prefix, and fail when none is.
    pub fn stat(&mut self, path: &Vec<u8>) -> (r: Result<DirEntry, FsError>)
        ensures
            path@ == seq![47u8] ==> (r matches Ok(e) && e.name_view() == seq![47u8]
                && e.is_dir_spec() && !e.is_file_spec() && e.size_spec() == 0),
            path@ != seq![47u8] && match_index(old(self).mounts(), path@) is None ==> (r matches Err(
                e,
            ) && e is NoFilesystem),
            final(self).mounts() == old(self).mounts(),
            final(self).tab_len() == old(self).tab_len(),
            final(self).cwd_view() == old(self).cwd_view(),
    {
        if path.len() == 1 && path[0] == 47 {
            proof {
                assert(path@ =~= seq![47u8]);
            }
            let mut name: Vec<u8> = Vec::new();
            name.push(47);
            proof {
                assert(name@ =~= seq![47u8]);
            }
            return Ok(DirEntry::new(name, false, true, 0));
        }
        proof {
            assert(path@ != seq![47u8]);
        }
        let (i, local) = match self.path_to_fs(path) {
            Ok(p) => p,
            Err(e) => {
                return Err(e);
            },
        };
        let ghost pre = self.fstab@;
        let r = self.fstab[i].fs.stat(&local);
        proof {
            assert(self.fstab@ =~= pre.update(i as int, self.fstab@[i as int]));
            assert(self.mounts() =~= old(self).mounts());
        }
        r
    }

    /// List a directory. Listing the root yields one directory entry per
    /// mount point, its name the mount point without leading slashes; other
    /// paths are routed to the first filesystem whose mount point is a
    /// prefix, and fail when none is.
    pub fn readdir(&mut self, path: &Vec<u8>) -> (r: Result<Vec<DirEntry>, FsError>)
        ensures
            path@ != seq![47u8] && match_index(old(self).mounts(), path@) is None ==> (r matches Err(
                e,
            ) && e is NoFilesystem),
            path@ == seq![47u8] ==> (r matches Ok(entries) && entries@.len() == old(self).tab_len()
                && forall|i: int|
                0 <= i < entries@.len() ==> {
                    &&& (#[trigger] entries@[i]).name_view() == skip_leading_slashes(
                        old(self).mounts()[i],
                    )
                    &&& entries@[i].is_dir_spec()
                    &&& !entries@[i].is_file_spec()
                    &&& entries@[i].size_spec() == 0
                }),
            final(self).mounts() == old(self).mounts(),
            final(self).tab_len() == old(self).tab_len(),
            final(self).cwd_view() == old(self).cwd_view(),
    {
        if path.len() == 1 && path[0] == 47 {
            proof {
                assert(path@ =~= seq![47u8]);
            }
            let mut entries: Vec<DirEntry> = Vec::new();
            let mut i: usize = 0;
            while i < self.fstab.len()
                invariant
                    i <= self.tab_len(),
                    entries@.len() == i,
                    self.fstab@ == old(self).fstab@,
                    self.cwd@ == old(self).cwd@,
                    forall|j: int|
                        0 <= j < i ==> {
                            &&& (#[trigger] entries@[j]).name_view() == skip_leading_slashes(
                                self.mounts()[j],
                            )
                            &&& entries@[j].is_dir_spec()
                            &&& !entries@[j].is_file_spec()
                            &&& entries@[j].size_spec() == 0
                        },
                decreases self.tab_len() - i,
            {
                let mp = &self.fstab[i].mount_point;
                let mut k: usize = 0;
                while k < mp.len() && mp[k] == 47
                    invariant
                        k <= mp@.len(),
                        forall|j: int| 0 <= j < k ==> mp@[j] == 47,
                    decreases mp@.len() - k,
                {
                    k += 1;
                }
                let mut name: Vec<u8> = Vec::new();
                let mut m: usize = k;
                while m < mp.len()
                    invariant
                        k <= m <= mp@.len(),
                        name@ == mp@.subrange(k as int, m as int),
                    decreases mp@.len() - m,
                {
                    name.push(mp[m]);
                    proof {
                        assert(name@ =~= mp@.subrange(k as int, m + 1));
                    }
                    m += 1;
                }
                proof {
                    lemma_skip_leading_slashes(mp@, k as int);
                    assert(name@ =~= skip_leading_slashes(mp@));
                }
                entries.push(DirEntry::new(name, false, true, 0));
                i += 1;
            }
            return Ok(entries);
        }
        proof {
            assert(path@ != seq![47u8]);
        }
        let (i, local) = match self.path_to_fs(path) {
            Ok(p) => p,
            Err(e) => {
                return Err(e);
            },
        };
        let ghost pre = self.fstab@;
        let r = self.fstab[i].fs.readdir(&local);
        proof {
            assert(self.fstab@ =~= pre.update(i as int, self.fstab@[i as int]));
            assert(self.mounts() =~= old(self).mounts());
        }
        r
    }

    /// Flush every mounted filesystem; the first error ends the walk.
    pub fn sync(&mut self) -> (r: Result<(), FsError>)
        ensures
            final(self).mounts() == old(self).mounts(),
            final(self).tab_len() == old(self).tab_len(),
            final(self).cwd_view() == old(self).cwd_view(),
    {
        let mut i: usize = 0;
        while i < self.fstab.len()
            invariant
                i <= self.fstab@.len(),
                self.fstab@.len() == old(self).fstab@.len(),
                self.mounts() == old(self).mounts(),
                self.cwd@ == old(self).cwd@,
            decreases self.fstab@.len() - i,
        {
            let ghost pre = self.fstab@;
            let r = self.fstab[i].fs.sync();
            proof {
                assert(self.fstab@ =~= pre.update(i as int, self.fstab@[i as int]));
                assert(self.mounts() =~= old(self).mounts());
            }
            if let Err(e) = r {
                return Err(e);
            }
            i += 1;
        }
        Ok(())
    }

    /// Whether a stat of the path succeeds.
    pub fn path_exists(&mut self, path: &Vec<u8>) -> (r: bool)
        ensures
            final(self).mounts() == old(self).mounts(),
            final(self).tab_len() == old(self).tab_len(),
            final(self).cwd_view() == old(self).cwd_view(),
            path@ == seq![47u8] ==> r,
    {
        let s = self.stat(path);
        s.is_ok()
    }

    /// Change the working directory: the path must stat as a directory; the
    /// stored directory then becomes exactly the given path.
    pub fn change_dir(&mut self, path: &Vec<u8>) -> (r: Result<(), FsError>)
        ensures
            final(self).mounts() == old(self).mounts(),
            final(self).tab_len() == old(self).tab_len(),
            r is Ok ==> final(self).cwd_view() == path@,
            r is Err ==> final(self).cwd_view() == old(self).cwd_view(),
    {
        let st = match self.stat(path) {
            Ok(st) => st,
            Err(e) => {
                return Err(e);
            },
        };
        if !st.is_dir() {
            return Err(FsError::NotADirectory);
        }
        self.cwd = clone_bytes(path);
        Ok(())
    }
}

/// The first prefix match at index `i` (nothing before it matches) is what
/// `match_index` finds.
proof fn lemma_match_index_at(tab: Seq<Seq<u8>>, path: Seq<u8>, i: int)
    requires
        0 <= i < tab.len(),
        forall|j: int| 0 <= j < i ==> !is_prefix(#[trigger] tab[j], path),
        is_prefix(tab[i], path),
    ensures
        match_index(tab, path) == Some(i),
    decreases i,
{
    if i > 0 {
        let t = tab.skip(1);
        assert(forall|j: int| 0 <= j < i - 1 ==> t[j] == tab[j + 1]);
        assert(forall|j: int| 0 <= j < i - 1 ==> !is_prefix(#[trigger] t[j], path));
        lemma_match_index_at(t, path, i - 1);
    }
}

/// When no mount point is a prefix of the path, `match_index` finds nothing.
proof fn lemma_match_index_none(tab: Seq<Seq<u8>>, path: Seq<u8>)
    requires
        forall|j: int| 0 <= j < tab.len() ==> !is_prefix(#[trigger] tab[j], path),
    ensures
        match_index(tab, path) is None,
    decreases tab.len(),
{
    if tab.len() > 0 {
        let t = tab.skip(1);
        assert(forall|j: int| 0 <= j < t.len() ==> t[j] == tab[j + 1]);
        assert(forall|j: int| 0 <= j < t.len() ==> !is_prefix(#[trigger] t[j], path));
        lemma_match_index_none(t, path);
    }
}

/// A subrange past `k` leading slashes, not starting on one, is what
/// `skip_leading_slashes` leaves.
proof fn lemma_skip_leading_slashes(s: Seq<u8>, k: int)
    requires
        0 <= k <= s.len(),
        forall|j: int| 0 <= j < k ==> s[j] == 47,
        k == s.len() || s[k] != 47,
    ensures
        skip_leading_slashes(s) == s.subrange(k, s.len() as int),
    decreases k,
{
    if k == 0 {
        assert(s.subrange(0, s.len() as int) =~= s);
    } else {
        let t = s.skip(1);
        assert(forall|j: int| 0 <= j < k - 1 ==> t[j] == 47);
        lemma_skip_leading_slashes(t, k - 1);
        assert(t.subrange(k - 1, t.len() as int) =~= s.subrange(k, s.len() as int));
    }
}


/// The path to resolve against the working directory: an absolute path
/// stands; a relative one is appended to the working directory with exactly
/// one slash between.
pub open spec fn joined_path(cwd: Seq<u8>, path: Seq<u8>) -> Seq<u8> {
    if path.len() > 0 && path[0] == 47 {
        path
    } else if cwd.len() > 0 && cwd.last() == 47 {
        cwd + path
    } else {
        cwd + seq![47u8] + path
    }
}

/// One normalization step: empty pieces and `.` disappear, `..` removes the
/// last kept piece, anything else is kept.
pub open spec fn norm_step(acc: Seq<Seq<u8>>, part: Seq<u8>) -> Seq<Seq<u8>> {
    if part.len() == 0 || part == seq![46u8] {
        acc
    } else if part == seq![46u8, 46u8] {
        if acc.len() > 0 {
            acc.drop_last()
        } else {
            acc
        }
    } else {
        acc.push(part)
    }
}

/// The kept pieces after normalizing all parts, left to right.
pub open spec fn norm_parts(parts: Seq<Seq<u8>>, acc: Seq<Seq<u8>>) -> Seq<Seq<u8>>
    decreases parts.len(),
{
    if parts.len() == 0 {
        acc
    } else {
        norm_parts(parts.skip(1), norm_step(acc, parts[0]))
    }
}

/// The pieces joined with single slashes.
pub open spec fn join_slash(parts: Seq<Seq<u8>>) -> Seq<u8>
    decreases parts.len(),
{
    if parts.len() == 0 {
        Seq::<u8>::empty()
    } else if parts.len() == 1 {
        parts[0]
    } else {
        parts[0] + seq![47u8] + join_slash(parts.skip(1))
    }
}

/// Joining after appending one piece appends `/piece` (or starts with it).
proof fn lemma_join_slash_push(parts: Seq<Seq<u8>>, p: Seq<u8>)
    ensures
        parts.len() == 0 ==> join_slash(parts.push(p)) == p,
        parts.len() > 0 ==> join_slash(parts.push(p)) == join_slash(parts) + seq![47u8] + p,
    decreases parts.len(),
{
    if parts.len() == 0 {
        assert(join_slash(parts.push(p)) == parts.push(p)[0]);
    } else {
        assert(parts.push(p).skip(1) =~= parts.skip(1).push(p));
        lemma_join_slash_push(parts.skip(1), p);
        if parts.len() == 1 {
            assert(join_slash(parts.push(p)) =~= parts[0] + seq![47u8] + p);
            assert(join_slash(parts) + seq![47u8] + p =~= parts[0] + seq![47u8] + p);
        } else {
            assert(join_slash(parts) + seq![47u8] + p =~= parts[0] + seq![47u8] + (join_slash(
                parts.skip(1),
            ) + seq![47u8] + p));
        }
    }
}

/// The absolute, normalized form of a path: resolved against the working
/// directory, redundant pieces removed, one leading slash.
pub open spec fn abs_path_spec(cwd: Seq<u8>, path: Seq<u8>) -> Seq<u8> {
    seq![47u8] + join_slash(
        norm_parts(crate::parse::split_spec(joined_path(cwd, path), 47), Seq::<Seq<u8>>::empty()),
    )
}

impl<F: FsHandle> Fs<F> {
    /// Resolve a path against the working directory and normalize it: `.`
    /// and empty pieces disappear, `..` climbs, and the result is absolute
    /// with single slashes.
    pub fn to_absolute_path(&self, path: &Vec<u8>) -> (r: Vec<u8>)
        ensures
            r@ == abs_path_spec(self.cwd_view(), path@),
    {
        let mut joined: Vec<u8>;
        if path.len() > 0 && path[0] == 47 {
            joined = clone_bytes(path);
        } else if self.cwd.len() > 0 && self.cwd[self.cwd.len() - 1] == 47 {
            joined = clone_bytes(&self.cwd);
            append_bytes(&mut joined, path);
        } else {
            joined = clone_bytes(&self.cwd);
            joined.push(47);
            append_bytes(&mut joined, path);
            proof {
                assert(joined@ =~= self.cwd@ + seq![47u8] + path@);
            }
        }
        proof {
            assert(joined@ == joined_path(self.cwd_view(), path@));
        }
        let parts = crate::parse::split_on(&joined, 47);
        let ghost pv = parts@.map_values(|x: Vec<u8>| x@);
        let mut acc: Vec<Vec<u8>> = Vec::new();
        let mut i: usize = 0;
        proof {
            assert(pv.skip(0) =~= pv);
            assert(acc@.map_values(|x: Vec<u8>| x@) =~= Seq::<Seq<u8>>::empty());
        }
        while i < parts.len()
            invariant
                i <= parts@.len(),
                pv == parts@.map_values(|x: Vec<u8>| x@),
                norm_parts(pv, Seq::<Seq<u8>>::empty()) == norm_parts(
                    pv.skip(i as int),
                    acc@.map_values(|x: Vec<u8>| x@),
                ),
            decreases parts@.len() - i,
        {
            let part = &parts[i];
            proof {
                assert(pv.skip(i as int)[0] == pv[i as int]);
                assert(pv.skip(i as int).skip(1) =~= pv.skip(i + 1));
            }
            let ghost accpre = acc@.map_values(|x: Vec<u8>| x@);
            if part.len() == 0 || (part.len() == 1 && part[0] == 46) {
                proof {
                    if part@.len() == 1 {
                        assert(part@ =~= seq![46u8]);
                    }
                    assert(norm_step(accpre, pv[i as int]) == accpre);
                }
            } else if part.len() == 2 && part[0] == 46 && part[1] == 46 {
                proof {
                    assert(part@ =~= seq![46u8, 46u8]);
                }
                if acc.len() > 0 {
                    acc.pop();
                    proof {
                        assert(acc@.map_values(|x: Vec<u8>| x@) =~= accpre.drop_last());
                    }
                }
            } else {
                proof {
                    assert(part@.len() != 0);
                    if part@.len() == 1 {
                        assert(part@[0] != 46);
                        assert(part@ != seq![46u8]);
                    }
                    if part@.len() == 2 {
                        assert(part@ != seq![46u8, 46u8]) by {
                            if part@ == seq![46u8, 46u8] {
                                assert(part@[0] == 46 && part@[1] == 46);
                            }
                        }
                    }
                    assert(part@ != seq![46u8] && part@ != seq![46u8, 46u8]);
                }
                let kept = clone_bytes(part);
                acc.push(kept);
                proof {
                    assert(acc@.map_values(|x: Vec<u8>| x@) =~= accpre.push(pv[i as int]));
                }
            }
            i += 1;
        }
        proof {
            assert(pv.skip(i as int) =~= Seq::<Seq<u8>>::empty());
        }
        let ghost norm = norm_parts(pv, Seq::<Seq<u8>>::empty());
        proof {
            assert(acc@.map_values(|x: Vec<u8>| x@) == norm);
        }
        let mut r: Vec<u8> = Vec::new();
        let mut j: usize = 0;
        let ghost av = acc@.map_values(|x: Vec<u8>| x@);
        while j < acc.len()
            invariant
                j <= acc@.len(),
                av == acc@.map_values(|x: Vec<u8>| x@),
                j == 0 ==> r@ == Seq::<u8>::empty(),
                j > 0 ==> r@ == seq![47u8] + join_slash(av.take(j as int)),
            decreases acc@.len() - j,
        {
            r.push(47);
            append_bytes(&mut r, &acc[j]);
            proof {
                lemma_join_slash_push(av.take(j as int), av[j as int]);
                assert(av.take(j as int).push(av[j as int]) =~= av.take(j + 1));
                if j == 0 {
                    assert(r@ =~= seq![47u8] + join_slash(av.take(1)));
                } else {
                    assert(r@ =~= seq![47u8] + (join_slash(av.take(j as int)) + seq![47u8] + av[
                    j as int]));
                    assert(seq![47u8] + (join_slash(av.take(j as int)) + seq![47u8] + av[j as int])
                        =~= seq![47u8] + join_slash(av.take(j + 1)));
                }
            }
            j += 1;
        }
        if r.len() == 0 {
            r.push(47);
            proof {
                assert(av.take(0) =~= Seq::<Seq<u8>>::empty());
                assert(acc@.len() == 0);
                assert(av =~= Seq::<Seq<u8>>::empty());
                assert(r@ =~= seq![47u8] + join_slash(av));
            }
        } else {
            proof {
                assert(av.take(acc@.len() as int) =~= av);
            }
        }
        proof {
            assert(r@ == abs_path_spec(self.cwd_view(), path@));
        }
        r
    }
}

/// An open file: the concrete filesystem's handle, the mount-table row it was
/// opened on, and whether it has been closed.
pub struct File<F: FsHandle> {
    node: F::File,
    fs_index: usize,
    closed: bool,
}

impl<F: FsHandle> File<F> {
    /// The mount-table row the file was opened on.
    pub closed spec fn fs_index_spec(&self) -> int {
        self.fs_index as int
    }

    /// Whether the file has been closed.
    pub closed spec fn is_closed(&self) -> bool {
        self.closed
    }

    /// Open a file: route the path, then open on the matched filesystem.
    pub fn open(fs: &mut Fs<F>, path: &Vec<u8>, mode: &Vec<u8>) -> (r: Result<File<F>, FsError>)
        ensures
            final(fs).mounts() == old(fs).mounts(),
            final(fs).tab_len() == old(fs).tab_len(),
            final(fs).cwd_view() == old(fs).cwd_view(),
            r matches Ok(f) ==> !f.is_closed() && f.fs_index_spec() < final(fs).tab_len(),
            path@ == seq![47u8] ==> r is Err,
            path@ != seq![47u8] && match_index(old(fs).mounts(), path@) is None ==> r is Err,
    {
        let (i, local) = match fs.path_to_fs_index(path) {
            Ok(p) => p,
            Err(e) => {
                return Err(e);
            },
        };
        let ghost pre = fs.fstab@;
        let node = fs.fstab[i].fs.open(&local, mode);
        proof {
            assert(fs.fstab@ =~= pre.update(i as int, fs.fstab@[i as int]));
            assert(fs.mounts() =~= old(fs).mounts());
        }
        match node {
            Ok(node) => Ok(File { node, fs_index: i, closed: false }),
            Err(e) => Err(e),
        }
    }

    /// Close the file; closing an already closed file succeeds and does
    /// nothing.
    pub fn close(&mut self, fs: &mut Fs<F>) -> (r: Result<(), FsError>)
        requires
            old(self).fs_index_spec() < old(fs).tab_len(),
        ensures
            final(fs).mounts() == old(fs).mounts(),
            final(fs).tab_len() == old(fs).tab_len(),
            final(fs).cwd_view() == old(fs).cwd_view(),
            final(self).fs_index_spec() == old(self).fs_index_spec(),
            old(self).is_closed() ==> r is Ok && final(self).is_closed(),
            r is Ok ==> final(self).is_closed(),
            r is Err ==> final(self).is_closed() == old(self).is_closed(),
    {
        if self.closed {
            return Ok(());
        }
        let ghost pre = fs.fstab@;
        let r = fs.fstab[self.fs_index].fs.close(&mut self.node);
        proof {
            assert(fs.fstab@ =~= pre.update(self.fs_index as int, fs.fstab@[self.fs_index as int]));
            assert(fs.mounts() =~= old(fs).mounts());
        }
        match r {
            Ok(()) => {
                self.closed = true;
                Ok(())
            },
            Err(e) => Err(e),
        }
    }

    /// Flush the file; refused once closed.
    pub fn flush(&mut self, fs: &mut Fs<F>) -> (r: Result<(), FsError>)
        requires
            old(self).fs_index_spec() < old(fs).tab_len(),
        ensures
            final(fs).mounts() == old(fs).mounts(),
            final(fs).tab_len() == old(fs).tab_len(),
            final(fs).cwd_view() == old(fs).cwd_view(),
            final(self).fs_index_spec() == old(self).fs_index_spec(),
            final(self).is_closed() == old(self).is_closed(),
            old(self).is_closed() ==> (r matches Err(e) && e is AlreadyClosed),
    {
        if self.closed {
            return Err(FsError::AlreadyClosed);
        }
        let ghost pre = fs.fstab@;
        let r = fs.fstab[self.fs_index].fs.flush(&mut self.node);
        proof {
            assert(fs.fstab@ =~= pre.update(self.fs_index as int, fs.fstab@[self.fs_index as int]));
            assert(fs.mounts() =~= old(fs).mounts());
        }
        r
    }

    /// Read up to `max` bytes from the current position; refused once closed.
    pub fn read(&mut self, fs: &mut Fs<F>, max: usize) -> (r: Result<Vec<u8>, FsError>)
        requires
            old(self).fs_index_spec() < old(fs).tab_len(),
        ensures
            final(fs).mounts() == old(fs).mounts(),
            final(fs).tab_len() == old(fs).tab_len(),
            final(fs).cwd_view() == old(fs).cwd_view(),
            final(self).fs_index_spec() == old(self).fs_index_spec(),
            final(self).is_closed() == old(self).is_closed(),
            old(self).is_closed() ==> (r matches Err(e) && e is AlreadyClosed),
    {
        if self.closed {
            return Err(FsError::AlreadyClosed);
        }
        let ghost pre = fs.fstab@;
        let r = fs.fstab[self.fs_index].fs.read(&mut self.node, max);
        proof {
            assert(fs.fstab@ =~= pre.update(self.fs_index as int, fs.fstab@[self.fs_index as int]));
            assert(fs.mounts() =~= old(fs).mounts());
        }
        r
    }

    /// Write bytes at the current position; refused once closed.
    pub fn write(&mut self, fs: &mut Fs<F>, buf: &Vec<u8>) -> (r: Result<usize, FsError>)
        requires
            old(self).fs_index_spec() < old(fs).tab_len(),
        ensures
            final(fs).mounts() == old(fs).mounts(),
            final(fs).tab_len() == old(fs).tab_len(),
            final(fs).cwd_view() == old(fs).cwd_view(),
            final(self).fs_index_spec() == old(self).fs_index_spec(),
            final(self).is_closed() == old(self).is_closed(),
            old(self).is_closed() ==> (r matches Err(e) && e is AlreadyClosed),
    {
        if self.closed {
            return Err(FsError::AlreadyClosed);
        }
        let ghost pre = fs.fstab@;
        let r = fs.fstab[self.fs_index].fs.write(&mut self.node, buf);
        proof {
            assert(fs.fstab@ =~= pre.update(self.fs_index as int, fs.fstab@[self.fs_index as int]));
            assert(fs.mounts() =~= old(fs).mounts());
        }
        r
    }

    /// Move the current position; refused once closed.
    pub fn seek(&mut self, fs: &mut Fs<F>, pos: isize, whence: Whence) -> (r: Result<
        isize,
        FsError,
    >)
        requires
            old(self).fs_index_spec() < old(fs).tab_len(),
        ensures
            final(fs).mounts() == old(fs).mounts(),
            final(fs).tab_len() == old(fs).tab_len(),
            final(fs).cwd_view() == old(fs).cwd_view(),
            final(self).fs_index_spec() == old(self).fs_index_spec(),
            final(self).is_closed() == old(self).is_closed(),
            old(self).is_closed() ==> (r matches Err(e) && e is AlreadyClosed),
    {
        if self.closed {
            return Err(FsError::AlreadyClosed);
        }
        let ghost pre = fs.fstab@;
        let r = fs.fstab[self.fs_index].fs.seek(&mut self.node, pos, whence);
        proof {
            assert(fs.fstab@ =~= pre.update(self.fs_index as int, fs.fstab@[self.fs_index as int]));
            assert(fs.mounts() =~= old(fs).mounts());
        }
        r
    }
}

} // verus!

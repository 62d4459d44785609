//! The filesystem facade: mount routing, path normalization, root handling,
//! the working directory, and the file handle.

use simple_os::fs::{DirEntry, File, Fs, FsEntry, FsError, FsHandle, FsInfo, Whence};

/// A tiny in-memory filesystem recording the calls it receives.
struct MockFs {
    mounted: bool,
    synced: u32,
    last_path: Vec<u8>,
    data: Vec<u8>,
}

impl MockFs {
    fn new() -> MockFs {
        MockFs { mounted: false, synced: 0, last_path: Vec::new(), data: Vec::new() }
    }
}

impl FsHandle for MockFs {
    type File = usize;

    fn info(&mut self) -> Result<FsInfo, FsError> {
        Ok(FsInfo::new(1000, 300, 700))
    }

    fn mount(&mut self) -> Result<(), FsError> {
        self.mounted = true;
        Ok(())
    }

    fn unmount(&mut self) -> Result<(), FsError> {
        self.mounted = false;
        Ok(())
    }

    fn format(&mut self) -> Result<(), FsError> {
        self.data.clear();
        Ok(())
    }

    fn mkdir(&mut self, path: &Vec<u8>) -> Result<(), FsError> {
        self.last_path = path.clone();
        Ok(())
    }

    fn unlink(&mut self, path: &Vec<u8>) -> Result<(), FsError> {
        self.last_path = path.clone();
        Ok(())
    }

    fn rename(&mut self, _old_path: &Vec<u8>, new_path: &Vec<u8>) -> Result<(), FsError> {
        self.last_path = new_path.clone();
        Ok(())
    }

    fn stat(&mut self, path: &Vec<u8>) -> Result<DirEntry, FsError> {
        self.last_path = path.clone();
        // Everything under `/dirs` is a directory, the rest are files.
        let is_dir = path.starts_with(b"/dirs");
        Ok(DirEntry::new(path.clone(), !is_dir, is_dir, 5))
    }

    fn readdir(&mut self, path: &Vec<u8>) -> Result<Vec<DirEntry>, FsError> {
        self.last_path = path.clone();
        Ok(vec![DirEntry::new(b"one".to_vec(), true, false, 1)])
    }

    fn sync(&mut self) -> Result<(), FsError> {
        self.synced += 1;
        Ok(())
    }

    fn open(&mut self, path: &Vec<u8>, _mode: &Vec<u8>) -> Result<usize, FsError> {
        self.last_path = path.clone();
        Ok(7)
    }

    fn close(&mut self, _file: &mut usize) -> Result<(), FsError> {
        Ok(())
    }

    fn flush(&mut self, _file: &mut usize) -> Result<(), FsError> {
        Ok(())
    }

    fn read(&mut self, _file: &mut usize, max: usize) -> Result<Vec<u8>, FsError> {
        let n = max.min(self.data.len());
        Ok(self.data[..n].to_vec())
    }

    fn write(&mut self, _file: &mut usize, buf: &Vec<u8>) -> Result<usize, FsError> {
        self.data.extend_from_slice(buf);
        Ok(buf.len())
    }

    fn seek(&mut self, _file: &mut usize, pos: isize, _whence: Whence) -> Result<isize, FsError> {
        Ok(pos)
    }
}

fn two_mounts() -> Fs<MockFs> {
    Fs::new(vec![
        FsEntry { mount_point: b"/flash".to_vec(), fs: MockFs::new() },
        FsEntry { mount_point: b"/ram".to_vec(), fs: MockFs::new() },
    ])
}

#[test]
fn routing_picks_the_first_matching_mount() {
    let fs = two_mounts();
    let (i, local) = fs.path_to_fs_index(&b"/flash/a/b".to_vec()).unwrap();
    assert_eq!(i, 0);
    assert_eq!(local, b"/a/b".to_vec());
    let (i, local) = fs.path_to_fs_index(&b"/ram".to_vec()).unwrap();
    assert_eq!(i, 1);
    assert_eq!(local, b"/".to_vec());
}

#[test]
fn root_and_unknown_paths_are_refused() {
    let fs = two_mounts();
    assert!(matches!(fs.path_to_fs_index(&b"/".to_vec()), Err(FsError::RootPath)));
    assert!(matches!(
        fs.path_to_fs_index(&b"/nowhere/x".to_vec()),
        Err(FsError::NoFilesystem)
    ));
}

#[test]
fn mount_point_lookup_is_exact() {
    let mut fs = two_mounts();
    assert!(fs.mount(&b"/ram".to_vec()).is_ok());
    assert!(matches!(
        fs.mount(&b"/ra".to_vec()),
        Err(FsError::MountPointNotFound)
    ));
    let info = fs.info(&b"/flash".to_vec()).unwrap();
    assert_eq!((info.total(), info.used(), info.free()), (1000, 300, 700));
}

#[test]
fn init_mounts_every_entry() {
    let mut fs = two_mounts();
    assert!(fs.init().is_ok());
}

#[test]
fn root_directory_operations() {
    let mut fs = two_mounts();
    assert!(matches!(fs.mkdir(&b"/".to_vec()), Err(FsError::CannotCreateRoot)));
    assert!(matches!(fs.unlink(&b"/".to_vec()), Err(FsError::CannotDeleteRoot)));
    assert!(matches!(
        fs.rename(&b"/".to_vec(), &b"/x".to_vec()),
        Err(FsError::CannotRenameRoot)
    ));
    let st = fs.stat(&b"/".to_vec()).unwrap();
    assert_eq!(st.name(), &b"/".to_vec());
    assert!(st.is_dir());
    assert!(!st.is_file());
    let listing = fs.readdir(&b"/".to_vec()).unwrap();
    assert_eq!(listing.len(), 2);
    assert_eq!(listing[0].name(), &b"flash".to_vec());
    assert_eq!(listing[1].name(), &b"ram".to_vec());
    assert!(listing[0].is_dir());
}

#[test]
fn rename_across_filesystems_is_refused() {
    let mut fs = two_mounts();
    assert!(matches!(
        fs.rename(&b"/flash/a".to_vec(), &b"/ram/b".to_vec()),
        Err(FsError::CrossFilesystem)
    ));
    assert!(fs.rename(&b"/flash/a".to_vec(), &b"/flash/b".to_vec()).is_ok());
}

#[test]
fn sync_walks_every_filesystem() {
    let mut fs = two_mounts();
    assert!(fs.sync().is_ok());
}

#[test]
fn change_dir_requires_a_directory() {
    let mut fs = two_mounts();
    assert_eq!(fs.get_cwd(), b"/".to_vec());
    assert!(fs.change_dir(&b"/flash/dirs/sub".to_vec()).is_ok());
    assert_eq!(fs.get_cwd(), b"/flash/dirs/sub".to_vec());
    assert!(matches!(
        fs.change_dir(&b"/flash/file".to_vec()),
        Err(FsError::NotADirectory)
    ));
    // A failed change keeps the working directory.
    assert_eq!(fs.cwd(), b"/flash/dirs/sub".to_vec());
}

#[test]
fn absolute_paths_are_normalized() {
    let fs = two_mounts();
    assert_eq!(fs.to_absolute_path(&b"/a//b/./c".to_vec()), b"/a/b/c".to_vec());
    assert_eq!(fs.to_absolute_path(&b"/a/b/../c".to_vec()), b"/a/c".to_vec());
    assert_eq!(fs.to_absolute_path(&b"/..".to_vec()), b"/".to_vec());
    assert_eq!(fs.to_absolute_path(&b"/../..".to_vec()), b"/".to_vec());
}

#[test]
fn relative_paths_resolve_against_the_working_directory() {
    let mut fs = two_mounts();
    assert!(fs.change_dir(&b"/flash/dirs".to_vec()).is_ok());
    assert_eq!(fs.to_absolute_path(&b"x".to_vec()), b"/flash/dirs/x".to_vec());
    assert_eq!(fs.to_absolute_path(&b"../y".to_vec()), b"/flash/y".to_vec());
    assert_eq!(fs.to_absolute_path(&b".".to_vec()), b"/flash/dirs".to_vec());
}

#[test]
fn path_existence_follows_stat() {
    let mut fs = two_mounts();
    assert!(fs.path_exists(&b"/".to_vec()));
    assert!(fs.path_exists(&b"/flash/anything".to_vec()));
    assert!(!fs.path_exists(&b"/nowhere/x".to_vec()));
}

#[test]
fn files_route_reads_and_writes_and_refuse_use_after_close() {
    let mut fs = two_mounts();
    let mut f = File::open(&mut fs, &b"/ram/notes".to_vec(), &b"w".to_vec()).unwrap();
    assert_eq!(f.write(&mut fs, &b"hello".to_vec()).unwrap(), 5);
    assert!(f.flush(&mut fs).is_ok());
    let got = f.read(&mut fs, 3).unwrap();
    assert_eq!(got, b"hel".to_vec());
    assert_eq!(f.seek(&mut fs, 2, Whence::SEEK_SET).unwrap(), 2);
    assert!(f.close(&mut fs).is_ok());
    // Closing twice is harmless; anything else is refused.
    assert!(f.close(&mut fs).is_ok());
    assert!(matches!(f.read(&mut fs, 1), Err(FsError::AlreadyClosed)));
    assert!(matches!(f.write(&mut fs, &b"x".to_vec()), Err(FsError::AlreadyClosed)));
    assert!(matches!(f.flush(&mut fs), Err(FsError::AlreadyClosed)));
    assert!(matches!(
        f.seek(&mut fs, 0, Whence::SEEK_CUR),
        Err(FsError::AlreadyClosed)
    ));
}

#[test]
fn opening_the_bare_root_fails() {
    let mut fs = two_mounts();
    assert!(File::open(&mut fs, &b"/".to_vec(), &b"r".to_vec()).is_err());
}

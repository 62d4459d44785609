//! The filesystem shell commands over a scripted filesystem.

use simple_os::fs::{DirEntry, Fs, FsEntry, FsError, FsHandle, FsInfo, Whence};
use simple_os::fs_cmds::{FsCmds, FsVerb};

/// A filesystem that stores one file's bytes and lists a fixed directory.
struct ScriptFs {
    file_data: Vec<u8>,
    read_pos: usize,
}

impl FsHandle for ScriptFs {
    type File = u8;

    fn info(&mut self) -> Result<FsInfo, FsError> {
        Ok(FsInfo::new(4096, 1024, 3072))
    }
    fn mount(&mut self) -> Result<(), FsError> {
        Ok(())
    }
    fn unmount(&mut self) -> Result<(), FsError> {
        Ok(())
    }
    fn format(&mut self) -> Result<(), FsError> {
        Ok(())
    }
    fn mkdir(&mut self, _path: &Vec<u8>) -> Result<(), FsError> {
        Ok(())
    }
    fn unlink(&mut self, _path: &Vec<u8>) -> Result<(), FsError> {
        Ok(())
    }
    fn rename(&mut self, _old_path: &Vec<u8>, _new_path: &Vec<u8>) -> Result<(), FsError> {
        Ok(())
    }
    fn stat(&mut self, path: &Vec<u8>) -> Result<DirEntry, FsError> {
        Ok(DirEntry::new(path.clone(), false, true, 0))
    }
    fn readdir(&mut self, _path: &Vec<u8>) -> Result<Vec<DirEntry>, FsError> {
        Ok(vec![
            DirEntry::new(b"docs".to_vec(), false, true, 0),
            DirEntry::new(b"note".to_vec(), true, false, 5),
        ])
    }
    fn sync(&mut self) -> Result<(), FsError> {
        Ok(())
    }
    fn open(&mut self, _path: &Vec<u8>, _mode: &Vec<u8>) -> Result<u8, FsError> {
        self.read_pos = 0;
        Ok(1)
    }
    fn close(&mut self, _file: &mut u8) -> Result<(), FsError> {
        Ok(())
    }
    fn flush(&mut self, _file: &mut u8) -> Result<(), FsError> {
        Ok(())
    }
    fn read(&mut self, _file: &mut u8, max: usize) -> Result<Vec<u8>, FsError> {
        let end = (self.read_pos + max).min(self.file_data.len());
        let chunk = self.file_data[self.read_pos..end].to_vec();
        self.read_pos = end;
        Ok(chunk)
    }
    fn write(&mut self, _file: &mut u8, buf: &Vec<u8>) -> Result<usize, FsError> {
        self.file_data = buf.clone();
        Ok(buf.len())
    }
    fn seek(&mut self, _file: &mut u8, pos: isize, _whence: Whence) -> Result<isize, FsError> {
        Ok(pos)
    }
}

fn one_mount() -> Fs<ScriptFs> {
    Fs::new(vec![FsEntry {
        mount_point: b"/flash".to_vec(),
        fs: ScriptFs { file_data: b"hello".to_vec(), read_pos: 0 },
    }])
}

fn args(words: &[&[u8]]) -> Vec<Vec<u8>> {
    words.iter().map(|w| w.to_vec()).collect()
}

#[test]
fn fs_verbs_are_recognized() {
    let c = FsCmds::new();
    assert_eq!(c.parse_verb(&b"df".to_vec()), FsVerb::Df);
    assert_eq!(c.parse_verb(&b"ls".to_vec()), FsVerb::Ls);
    assert_eq!(c.parse_verb(&b"write".to_vec()), FsVerb::Write);
    assert_eq!(c.parse_verb(&b"reset".to_vec()), FsVerb::Unknown);
    assert_eq!(c.help().len(), 15);
}

#[test]
fn missing_arguments_are_usage_errors() {
    let c = FsCmds::new();
    let mut fs = one_mount();
    let mut out = Vec::new();
    assert_eq!(c.cmd_mount(&mut fs, &args(&[b"mount"]), &mut out), 2);
    assert_eq!(c.cmd_mkdir(&mut fs, &args(&[b"mkdir"]), &mut out), 2);
    assert_eq!(c.cmd_mv(&mut fs, &args(&[b"mv", b"/flash/a"]), &mut out), 2);
    assert_eq!(c.cmd_write(&mut fs, &args(&[b"write", b"/flash/f"]), &mut out), 2);
    assert!(out.starts_with(b"Usage: mount <mount_point>\r\n"));
}

#[test]
fn unknown_mounts_are_command_failures() {
    let c = FsCmds::new();
    let mut fs = one_mount();
    let mut out = Vec::new();
    assert_eq!(c.cmd_mount(&mut fs, &args(&[b"mount", b"/nope"]), &mut out), 1);
    assert_eq!(c.cmd_mkdir(&mut fs, &args(&[b"mkdir", b"/nope/d"]), &mut out), 1);
}

#[test]
fn happy_paths_succeed() {
    let c = FsCmds::new();
    let mut fs = one_mount();
    let mut out = Vec::new();
    assert_eq!(c.cmd_mount(&mut fs, &args(&[b"mount", b"/flash"]), &mut out), 0);
    assert_eq!(c.cmd_sync(&mut fs, &mut out), 0);
    assert_eq!(c.cmd_mkdir(&mut fs, &args(&[b"mkdir", b"/flash/d"]), &mut out), 0);
    assert_eq!(c.cmd_rm(&mut fs, &args(&[b"rm", b"/flash/d"]), &mut out), 0);
    assert_eq!(
        c.cmd_mv(&mut fs, &args(&[b"mv", b"/flash/a", b"/flash/b"]), &mut out),
        0
    );
    assert_eq!(c.cmd_touch(&mut fs, &args(&[b"touch", b"/flash/f"]), &mut out), 0);
}

#[test]
fn pwd_prints_the_working_directory() {
    let c = FsCmds::new();
    let mut fs = one_mount();
    let mut out = Vec::new();
    assert_eq!(c.cmd_pwd(&mut fs, &mut out), 0);
    assert_eq!(out, b"/\r\n".to_vec());
    out.clear();
    assert_eq!(c.cmd_cd(&mut fs, &args(&[b"cd", b"/flash/d"]), &mut out), 0);
    assert_eq!(c.cmd_pwd(&mut fs, &mut out), 0);
    assert_eq!(out, b"/flash/d\r\n".to_vec());
}

#[test]
fn ls_lists_directories_then_files() {
    let c = FsCmds::new();
    let mut fs = one_mount();
    let mut out = Vec::new();
    assert_eq!(c.cmd_ls(&mut fs, &args(&[b"ls", b"/flash"]), &mut out), 0);
    assert_eq!(out, b"DIR\t-\tdocs\r\nFILE\t5\tnote\r\n".to_vec());
}

#[test]
fn cat_streams_the_file() {
    let c = FsCmds::new();
    let mut fs = one_mount();
    let mut out = Vec::new();
    assert_eq!(c.cmd_cat(&mut fs, &args(&[b"cat", b"/flash/note"]), &mut out), 0);
    assert_eq!(out, b"hello\r\n".to_vec());
}

#[test]
fn write_then_cat_round_trips() {
    let c = FsCmds::new();
    let mut fs = one_mount();
    let mut out = Vec::new();
    assert_eq!(
        c.cmd_write(&mut fs, &args(&[b"write", b"/flash/note", b"fresh"]), &mut out),
        0
    );
    out.clear();
    assert_eq!(c.cmd_cat(&mut fs, &args(&[b"cat", b"/flash/note"]), &mut out), 0);
    assert_eq!(out, b"fresh\r\n".to_vec());
}

#[test]
fn df_and_info_render_capacities() {
    let c = FsCmds::new();
    let mut fs = one_mount();
    let mut out = Vec::new();
    assert_eq!(c.cmd_df(&mut fs, &mut out), 0);
    let text = out.clone();
    assert!(text.starts_with(b"Mount Point\tTotal\tUsed\tFree\r\n"));
    assert!(text.ends_with(b"/flash\t4096\t1024\t3072\r\n"));
    out.clear();
    assert_eq!(c.cmd_info(&mut fs, &args(&[b"info", b"/flash"]), &mut out), 0);
    assert_eq!(out, b"Total: 4096 Used: 1024 Free: 3072\r\n".to_vec());
}

#[test]
fn dispatch_answers_not_found_for_foreign_verbs() {
    let c = FsCmds::new();
    let mut fs = one_mount();
    let mut out = Vec::new();
    assert_eq!(c.parse_fs(&mut fs, &args(&[b"ps"]), &mut out), 127);
    assert_eq!(c.parse_fs(&mut fs, &args(&[]), &mut out), 127);
    assert_eq!(c.parse_fs(&mut fs, &args(&[b"pwd"]), &mut out), 0);
}

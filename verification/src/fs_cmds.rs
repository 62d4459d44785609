//! The filesystem shell commands: `df`, `mount`, `unmount`, `format`,
//! `info`, `mkdir`, `rm`, `mv`, `sync`, `ls`, `cd`, `pwd`, `touch`, `cat`
//! and `write`, each a thin decision layer over the [`Fs`] facade that
//! validates its arguments, runs the operation, and renders its output as
//! bytes. Exit codes: 0 success, 1 command failure, 2 usage error, 127 not a
//! filesystem command.

use vstd::prelude::*;

use crate::bytes::{append_bytes, append_dec_i64, append_dec_u64, bytes_eq, clone_bytes};
use crate::executor::ExitCode;
use crate::fs::{File, Fs, FsHandle};

verus! {

/// The verbs the filesystem command set owns.
#[derive(Clone, Copy, Debug, PartialEq, Eq, Structural)]
pub enum FsVerb {
    /// `df`.
    Df,
    /// `mount`.
    Mount,
    /// `unmount`.
    Unmount,
    /// `format`.
    Format,
    /// `info`.
    Info,
    /// `mkdir`.
    Mkdir,
    /// `rm`.
    Rm,
    /// `mv`.
    Mv,
    /// `sync`.
    Sync,
    /// `ls`.
    Ls,
    /// `cd`.
    Cd,
    /// `pwd`.
    Pwd,
    /// `touch`.
    Touch,
    /// `cat`.
    Cat,
    /// `write`.
    Write,
    /// Anything else: not a filesystem command.
    Unknown,
}

/// The verb a token names.
pub open spec fn fs_verb_of(tok: Seq<u8>) -> FsVerb {
    if tok == seq![100u8, 102u8] {
        FsVerb::Df
    } else if tok == seq![109u8, 111u8, 117u8, 110u8, 116u8] {
        FsVerb::Mount
    } else if tok == seq![117u8, 110u8, 109u8, 111u8, 117u8, 110u8, 116u8] {
        FsVerb::Unmount
    } else if tok == seq![102u8, 111u8, 114u8, 109u8, 97u8, 116u8] {
        FsVerb::Format
    } else if tok == seq![105u8, 110u8, 102u8, 111u8] {
        FsVerb::Info
    } else if tok == seq![109u8, 107u8, 100u8, 105u8, 114u8] {
        FsVerb::Mkdir
    } else if tok == seq![114u8, 109u8] {
        FsVerb::Rm
    } else if tok == seq![109u8, 118u8] {
        FsVerb::Mv
    } else if tok == seq![115u8, 121u8, 110u8, 99u8] {
        FsVerb::Sync
    } else if tok == seq![108u8, 115u8] {
        FsVerb::Ls
    } else if tok == seq![99u8, 100u8] {
        FsVerb::Cd
    } else if tok == seq![112u8, 119u8, 100u8] {
        FsVerb::Pwd
    } else if tok == seq![116u8, 111u8, 117u8, 99u8, 104u8] {
        FsVerb::Touch
    } else if tok == seq![99u8, 97u8, 116u8] {
        FsVerb::Cat
    } else if tok == seq![119u8, 114u8, 105u8, 116u8, 101u8] {
        FsVerb::Write
    } else {
        FsVerb::Unknown
    }
}

/// The filesystem command set.
pub struct FsCmds {}

impl FsCmds {
    /// The command set carries no state; it works on the facade handed in.
    pub fn new() -> (r: FsCmds) {
        FsCmds {}
    }

    /// Recognize the verb of a command's first token.
    pub fn parse_verb(&self, tok: &Vec<u8>) -> (r: FsVerb)
        ensures
            r == fs_verb_of(tok@),
    {
        if bytes_eq(tok, &vec![100u8, 102u8]) {
            FsVerb::Df
        } else if bytes_eq(tok, &vec![109u8, 111u8, 117u8, 110u8, 116u8]) {
            FsVerb::Mount
        } else if bytes_eq(tok, &vec![117u8, 110u8, 109u8, 111u8, 117u8, 110u8, 116u8]) {
            FsVerb::Unmount
        } else if bytes_eq(tok, &vec![102u8, 111u8, 114u8, 109u8, 97u8, 116u8]) {
            FsVerb::Format
        } else if bytes_eq(tok, &vec![105u8, 110u8, 102u8, 111u8]) {
            FsVerb::Info
        } else if bytes_eq(tok, &vec![109u8, 107u8, 100u8, 105u8, 114u8]) {
            FsVerb::Mkdir
        } else if bytes_eq(tok, &vec![114u8, 109u8]) {
            FsVerb::Rm
        } else if bytes_eq(tok, &vec![109u8, 118u8]) {
            FsVerb::Mv
        } else if bytes_eq(tok, &vec![115u8, 121u8, 110u8, 99u8]) {
            FsVerb::Sync
        } else if bytes_eq(tok, &vec![108u8, 115u8]) {
            FsVerb::Ls
        } else if bytes_eq(tok, &vec![99u8, 100u8]) {
            FsVerb::Cd
        } else if bytes_eq(tok, &vec![112u8, 119u8, 100u8]) {
            FsVerb::Pwd
        } else if bytes_eq(tok, &vec![116u8, 111u8, 117u8, 99u8, 104u8]) {
            FsVerb::Touch
        } else if bytes_eq(tok, &vec![99u8, 97u8, 116u8]) {
            FsVerb::Cat
        } else if bytes_eq(tok, &vec![119u8, 114u8, 105u8, 116u8, 101u8]) {
            FsVerb::Write
        } else {
            FsVerb::Unknown
        }
    }

    /// The filesystem help rows: one (syntax, description) pair per verb.
    pub fn help(&self) -> (r: Vec<(Vec<u8>, Vec<u8>)>)
        ensures
            r@.len() == 15,
    {
        let mut r: Vec<(Vec<u8>, Vec<u8>)> = Vec::new();
        r.push((vec![100u8, 102u8], vec![83u8, 104u8, 111u8, 119u8, 32u8, 102u8, 105u8, 108u8, 101u8, 115u8, 121u8, 115u8, 116u8, 101u8, 109u8, 32u8, 100u8, 105u8, 115u8, 107u8, 32u8, 117u8, 115u8, 97u8, 103u8, 101u8]));
        r.push((vec![109u8, 111u8, 117u8, 110u8, 116u8, 32u8, 60u8, 109u8, 111u8, 117u8, 110u8, 116u8, 95u8, 112u8, 111u8, 105u8, 110u8, 116u8, 62u8], vec![77u8, 111u8, 117u8, 110u8, 116u8, 32u8, 116u8, 104u8, 101u8, 32u8, 102u8, 105u8, 108u8, 101u8, 115u8, 121u8, 115u8, 116u8, 101u8, 109u8, 32u8, 97u8, 116u8, 32u8, 109u8, 111u8, 117u8, 110u8, 116u8, 95u8, 112u8, 111u8, 105u8, 110u8, 116u8]));
        r.push((vec![117u8, 110u8, 109u8, 111u8, 117u8, 110u8, 116u8, 32u8, 60u8, 109u8, 111u8, 117u8, 110u8, 116u8, 95u8, 112u8, 111u8, 105u8, 110u8, 116u8, 62u8], vec![85u8, 110u8, 109u8, 111u8, 117u8, 110u8, 116u8, 32u8, 116u8, 104u8, 101u8, 32u8, 102u8, 105u8, 108u8, 101u8, 115u8, 121u8, 115u8, 116u8, 101u8, 109u8, 32u8, 97u8, 116u8, 32u8, 109u8, 111u8, 117u8, 110u8, 116u8, 95u8, 112u8, 111u8, 105u8, 110u8, 116u8]));
        r.push((vec![102u8, 111u8, 114u8, 109u8, 97u8, 116u8, 32u8, 60u8, 109u8, 111u8, 117u8, 110u8, 116u8, 95u8, 112u8, 111u8, 105u8, 110u8, 116u8, 62u8], vec![70u8, 111u8, 114u8, 109u8, 97u8, 116u8, 32u8, 116u8, 104u8, 101u8, 32u8, 102u8, 105u8, 108u8, 101u8, 115u8, 121u8, 115u8, 116u8, 101u8, 109u8, 32u8, 97u8, 116u8, 32u8, 109u8, 111u8, 117u8, 110u8, 116u8, 95u8, 112u8, 111u8, 105u8, 110u8, 116u8]));
        r.push((vec![105u8, 110u8, 102u8, 111u8, 32u8, 60u8, 109u8, 111u8, 117u8, 110u8, 116u8, 95u8, 112u8, 111u8, 105u8, 110u8, 116u8, 62u8], vec![83u8, 104u8, 111u8, 119u8, 32u8, 105u8, 110u8, 102u8, 111u8, 114u8, 109u8, 97u8, 116u8, 105u8, 111u8, 110u8, 32u8, 97u8, 98u8, 111u8, 117u8, 116u8, 32u8, 116u8, 104u8, 101u8, 32u8, 102u8, 105u8, 108u8, 101u8, 115u8, 121u8, 115u8, 116u8, 101u8, 109u8, 32u8, 97u8, 116u8, 32u8, 109u8, 111u8, 117u8, 110u8, 116u8, 95u8, 112u8, 111u8, 105u8, 110u8, 116u8]));
        r.push((vec![109u8, 107u8, 100u8, 105u8, 114u8, 32u8, 60u8, 112u8, 97u8, 116u8, 104u8, 62u8], vec![67u8, 114u8, 101u8, 97u8, 116u8, 101u8, 32u8, 97u8, 32u8, 100u8, 105u8, 114u8, 101u8, 99u8, 116u8, 111u8, 114u8, 121u8, 32u8, 97u8, 116u8, 32u8, 112u8, 97u8, 116u8, 104u8]));
        r.push((vec![114u8, 109u8, 32u8, 60u8, 112u8, 97u8, 116u8, 104u8, 62u8], vec![68u8, 101u8, 108u8, 101u8, 116u8, 101u8, 32u8, 116u8, 104u8, 101u8, 32u8, 102u8, 105u8, 108u8, 101u8, 32u8, 111u8, 114u8, 32u8, 100u8, 105u8, 114u8, 101u8, 99u8, 116u8, 111u8, 114u8, 121u8, 32u8, 97u8, 116u8, 32u8, 112u8, 97u8, 116u8, 104u8]));
        r.push((vec![109u8, 118u8, 32u8, 60u8, 111u8, 108u8, 100u8, 95u8, 112u8, 97u8, 116u8, 104u8, 62u8, 32u8, 60u8, 110u8, 101u8, 119u8, 95u8, 112u8, 97u8, 116u8, 104u8, 62u8], vec![82u8, 101u8, 110u8, 97u8, 109u8, 101u8, 32u8, 97u8, 32u8, 102u8, 105u8, 108u8, 101u8, 32u8, 111u8, 114u8, 32u8, 100u8, 105u8, 114u8, 101u8, 99u8, 116u8, 111u8, 114u8, 121u8]));
        r.push((vec![115u8, 121u8, 110u8, 99u8], vec![83u8, 121u8, 110u8, 99u8, 104u8, 114u8, 111u8, 110u8, 105u8, 122u8, 101u8, 32u8, 97u8, 108u8, 108u8, 32u8, 102u8, 105u8, 108u8, 101u8, 115u8, 121u8, 115u8, 116u8, 101u8, 109u8, 115u8]));
        r.push((vec![108u8, 115u8, 32u8, 60u8, 112u8, 97u8, 116u8, 104u8, 62u8], vec![76u8, 105u8, 115u8, 116u8, 32u8, 100u8, 105u8, 114u8, 101u8, 99u8, 116u8, 111u8, 114u8, 121u8, 32u8, 99u8, 111u8, 110u8, 116u8, 101u8, 110u8, 116u8, 115u8, 32u8, 97u8, 116u8, 32u8, 112u8, 97u8, 116u8, 104u8]));
        r.push((vec![99u8, 100u8, 32u8, 60u8, 112u8, 97u8, 116u8, 104u8, 62u8], vec![67u8, 104u8, 97u8, 110u8, 103u8, 101u8, 32u8, 99u8, 117u8, 114u8, 114u8, 101u8, 110u8, 116u8, 32u8, 100u8, 105u8, 114u8, 101u8, 99u8, 116u8, 111u8, 114u8, 121u8, 32u8, 116u8, 111u8, 32u8, 112u8, 97u8, 116u8, 104u8]));
        r.push((vec![112u8, 119u8, 100u8], vec![80u8, 114u8, 105u8, 110u8, 116u8, 32u8, 99u8, 117u8, 114u8, 114u8, 101u8, 110u8, 116u8, 32u8, 119u8, 111u8, 114u8, 107u8, 105u8, 110u8, 103u8, 32u8, 100u8, 105u8, 114u8, 101u8, 99u8, 116u8, 111u8, 114u8, 121u8]));
        r.push((vec![116u8, 111u8, 117u8, 99u8, 104u8, 32u8, 60u8, 112u8, 97u8, 116u8, 104u8, 62u8], vec![67u8, 114u8, 101u8, 97u8, 116u8, 101u8, 32u8, 97u8, 110u8, 32u8, 101u8, 109u8, 112u8, 116u8, 121u8, 32u8, 102u8, 105u8, 108u8, 101u8, 32u8, 97u8, 116u8, 32u8, 112u8, 97u8, 116u8, 104u8]));
        r.push((vec![99u8, 97u8, 116u8, 32u8, 60u8, 112u8, 97u8, 116u8, 104u8, 62u8], vec![68u8, 105u8, 115u8, 112u8, 108u8, 97u8, 121u8, 32u8, 116u8, 104u8, 101u8, 32u8, 99u8, 111u8, 110u8, 116u8, 101u8, 110u8, 116u8, 115u8, 32u8, 111u8, 102u8, 32u8, 116u8, 104u8, 101u8, 32u8, 102u8, 105u8, 108u8, 101u8, 32u8, 97u8, 116u8, 32u8, 112u8, 97u8, 116u8, 104u8]));
        r.push((vec![119u8, 114u8, 105u8, 116u8, 101u8, 32u8, 60u8, 112u8, 97u8, 116u8, 104u8, 62u8, 32u8, 60u8, 99u8, 111u8, 110u8, 116u8, 101u8, 110u8, 116u8, 62u8], vec![87u8, 114u8, 105u8, 116u8, 101u8, 32u8, 99u8, 111u8, 110u8, 116u8, 101u8, 110u8, 116u8, 32u8, 116u8, 111u8, 32u8, 116u8, 104u8, 101u8, 32u8, 102u8, 105u8, 108u8, 101u8, 32u8, 97u8, 116u8, 32u8, 112u8, 97u8, 116u8, 104u8]));
        r
    }
}


impl FsCmds {
    /// Append `Usage: ` and the syntax of help row `idx`.
    fn usage(&self, idx: usize, out: &mut Vec<u8>)
        requires
            idx < 15,
    {
        let rows = self.help();
        // "Usage: "
        let prefix: Vec<u8> = vec![85u8, 115u8, 97u8, 103u8, 101u8, 58u8, 32u8];
        append_bytes(out, &prefix);
        append_bytes(out, &rows[idx].0);
        out.push(13);
        out.push(10);
    }

    /// `df`: one row per mount point with its capacity report.
    pub fn cmd_df<F: FsHandle>(&self, fs: &mut Fs<F>, out: &mut Vec<u8>) -> (r: ExitCode)
        ensures
            r == 0,
            final(fs).mounts() == old(fs).mounts(),
            final(fs).cwd_view() == old(fs).cwd_view(),
    {
        // "Mount Point    Total       Used        Free"
        let header: Vec<u8> = vec![77u8, 111u8, 117u8, 110u8, 116u8, 32u8, 80u8, 111u8, 105u8, 110u8, 116u8, 9u8, 84u8, 111u8, 116u8, 97u8, 108u8, 9u8, 85u8, 115u8, 101u8, 100u8, 9u8, 70u8, 114u8, 101u8, 101u8];
        append_bytes(out, &header);
        out.push(13);
        out.push(10);
        let mut i: usize = 0;
        let n = fs.fstab_len();
        while i < n
            invariant
                fs.mounts() == old(fs).mounts(),
                fs.cwd_view() == old(fs).cwd_view(),
                fs.tab_len() == old(fs).tab_len(),
                n == fs.tab_len(),
                i <= n,
            decreases n - i,
        {
            let mp = clone_bytes(fs.mount_point_of(i));
            append_bytes(out, &mp);
            let report = fs.info(&mp);
            match report {
                Ok(info) => {
                    out.push(9);
                    append_dec_i64(out, clamp_isize(info.total()));
                    out.push(9);
                    append_dec_i64(out, clamp_isize(info.used()));
                    out.push(9);
                    append_dec_i64(out, clamp_isize(info.free()));
                },
                Err(_) => {
                    // "\tinfo unavailable"
                    let note: Vec<u8> = vec![9u8, 105u8, 110u8, 102u8, 111u8, 32u8, 117u8, 110u8, 97u8, 118u8, 97u8, 105u8, 108u8, 97u8, 98u8, 108u8, 101u8];
                    append_bytes(out, &note);
                },
            }
            out.push(13);
            out.push(10);
            i += 1;
        }
        0
    }

    /// `mount <mount_point>`: usage error without the argument, else the
    /// facade decides.
    pub fn cmd_mount<F: FsHandle>(&self, fs: &mut Fs<F>, args: &Vec<Vec<u8>>, out: &mut Vec<u8>) -> (r:
        ExitCode)
        ensures
            args@.len() < 2 ==> r == 2,
            args@.len() >= 2 ==> r == 0 || r == 1,
            final(fs).mounts() == old(fs).mounts(),
            final(fs).cwd_view() == old(fs).cwd_view(),
    {
        if args.len() < 2 {
            self.usage(1, out);
            return 2;
        }
        match fs.mount(&args[1]) {
            Ok(()) => 0,
            Err(_) => {
                self.complain(&args[1], out);
                1
            },
        }
    }

    /// `unmount <mount_point>`.
    pub fn cmd_unmount<F: FsHandle>(&self, fs: &mut Fs<F>, args: &Vec<Vec<u8>>, out: &mut Vec<
        u8,
    >) -> (r: ExitCode)
        ensures
            args@.len() < 2 ==> r == 2,
            args@.len() >= 2 ==> r == 0 || r == 1,
            final(fs).mounts() == old(fs).mounts(),
            final(fs).cwd_view() == old(fs).cwd_view(),
    {
        if args.len() < 2 {
            self.usage(2, out);
            return 2;
        }
        match fs.unmount(&args[1]) {
            Ok(()) => 0,
            Err(_) => {
                self.complain(&args[1], out);
                1
            },
        }
    }

    /// `format <mount_point>`.
    pub fn cmd_format<F: FsHandle>(&self, fs: &mut Fs<F>, args: &Vec<Vec<u8>>, out: &mut Vec<
        u8,
    >) -> (r: ExitCode)
        ensures
            args@.len() < 2 ==> r == 2,
            args@.len() >= 2 ==> r == 0 || r == 1,
            final(fs).mounts() == old(fs).mounts(),
            final(fs).cwd_view() == old(fs).cwd_view(),
    {
        if args.len() < 2 {
            self.usage(3, out);
            return 2;
        }
        match fs.format(&args[1]) {
            Ok(()) => 0,
            Err(_) => {
                self.complain(&args[1], out);
                1
            },
        }
    }

    /// `info <mount_point>`: the capacity report of one filesystem.
    pub fn cmd_info<F: FsHandle>(&self, fs: &mut Fs<F>, args: &Vec<Vec<u8>>, out: &mut Vec<u8>) -> (r:
        ExitCode)
        ensures
            args@.len() < 2 ==> r == 2,
            args@.len() >= 2 ==> r == 0 || r == 1,
            final(fs).mounts() == old(fs).mounts(),
            final(fs).cwd_view() == old(fs).cwd_view(),
    {
        if args.len() < 2 {
            self.usage(4, out);
            return 2;
        }
        match fs.info(&args[1]) {
            Ok(report) => {
                // "Total: "
                let t: Vec<u8> = vec![84u8, 111u8, 116u8, 97u8, 108u8, 58u8, 32u8];
                append_bytes(out, &t);
                append_dec_i64(out, clamp_isize(report.total()));
                // " Used: "
                let u: Vec<u8> = vec![32u8, 85u8, 115u8, 101u8, 100u8, 58u8, 32u8];
                append_bytes(out, &u);
                append_dec_i64(out, clamp_isize(report.used()));
                // " Free: "
                let f: Vec<u8> = vec![32u8, 70u8, 114u8, 101u8, 101u8, 58u8, 32u8];
                append_bytes(out, &f);
                append_dec_i64(out, clamp_isize(report.free()));
                out.push(13);
                out.push(10);
                0
            },
            Err(_) => {
                self.complain(&args[1], out);
                1
            },
        }
    }

    /// `mkdir <path>`: the path is made absolute against the working
    /// directory first.
    pub fn cmd_mkdir<F: FsHandle>(&self, fs: &mut Fs<F>, args: &Vec<Vec<u8>>, out: &mut Vec<u8>) -> (r:
        ExitCode)
        ensures
            args@.len() < 2 ==> r == 2,
            args@.len() >= 2 ==> r == 0 || r == 1,
            final(fs).mounts() == old(fs).mounts(),
            final(fs).cwd_view() == old(fs).cwd_view(),
    {
        if args.len() < 2 {
            self.usage(5, out);
            return 2;
        }
        let path = fs.to_absolute_path(&args[1]);
        match fs.mkdir(&path) {
            Ok(()) => 0,
            Err(_) => {
                self.complain(&path, out);
                1
            },
        }
    }

    /// `rm <path>`.
    pub fn cmd_rm<F: FsHandle>(&self, fs: &mut Fs<F>, args: &Vec<Vec<u8>>, out: &mut Vec<u8>) -> (r:
        ExitCode)
        ensures
            args@.len() < 2 ==> r == 2,
            args@.len() >= 2 ==> r == 0 || r == 1,
            final(fs).mounts() == old(fs).mounts(),
            final(fs).cwd_view() == old(fs).cwd_view(),
    {
        if args.len() < 2 {
            self.usage(6, out);
            return 2;
        }
        let path = fs.to_absolute_path(&args[1]);
        match fs.unlink(&path) {
            Ok(()) => 0,
            Err(_) => {
                self.complain(&path, out);
                1
            },
        }
    }

    /// `mv <old_path> <new_path>`.
    pub fn cmd_mv<F: FsHandle>(&self, fs: &mut Fs<F>, args: &Vec<Vec<u8>>, out: &mut Vec<u8>) -> (r:
        ExitCode)
        ensures
            args@.len() < 3 ==> r == 2,
            args@.len() >= 3 ==> r == 0 || r == 1,
            final(fs).mounts() == old(fs).mounts(),
            final(fs).cwd_view() == old(fs).cwd_view(),
    {
        if args.len() < 3 {
            self.usage(7, out);
            return 2;
        }
        let old_path = fs.to_absolute_path(&args[1]);
        let new_path = fs.to_absolute_path(&args[2]);
        match fs.rename(&old_path, &new_path) {
            Ok(()) => 0,
            Err(_) => {
                self.complain(&new_path, out);
                1
            },
        }
    }

    /// `sync`: flush every filesystem.
    pub fn cmd_sync<F: FsHandle>(&self, fs: &mut Fs<F>, out: &mut Vec<u8>) -> (r: ExitCode)
        ensures
            r == 0 || r == 1,
            final(fs).mounts() == old(fs).mounts(),
            final(fs).cwd_view() == old(fs).cwd_view(),
    {
        match fs.sync() {
            Ok(()) => {
                // "Filesystem synchronized"
                let msg: Vec<u8> = vec![70u8, 105u8, 108u8, 101u8, 115u8, 121u8, 115u8, 116u8, 101u8, 109u8, 32u8, 115u8, 121u8, 110u8, 99u8, 104u8, 114u8, 111u8, 110u8, 105u8, 122u8, 101u8, 100u8];
                append_bytes(out, &msg);
                out.push(13);
                out.push(10);
                0
            },
            Err(_) => 1,
        }
    }

    /// `ls [path]`: directories first, then files, one per row.
    pub fn cmd_ls<F: FsHandle>(&self, fs: &mut Fs<F>, args: &Vec<Vec<u8>>, out: &mut Vec<u8>) -> (r:
        ExitCode)
        ensures
            r == 0 || r == 1,
            final(fs).mounts() == old(fs).mounts(),
            final(fs).cwd_view() == old(fs).cwd_view(),
    {
        let path = if args.len() >= 2 {
            clone_bytes(&args[1])
        } else {
            fs.cwd()
        };
        let entries = match fs.readdir(&path) {
            Ok(entries) => entries,
            Err(_) => {
                self.complain(&path, out);
                return 1;
            },
        };
        // "DIR\t-\t" rows, then "FILE\t<size>\t" rows.
        let mut i: usize = 0;
        while i < entries.len()
            decreases entries@.len() - i,
        {
            if entries[i].is_dir() {
                let tag: Vec<u8> = vec![68u8, 73u8, 82u8, 9u8, 45u8, 9u8];
                append_bytes(out, &tag);
                append_bytes(out, entries[i].name());
                out.push(13);
                out.push(10);
            }
            i += 1;
        }
        let mut i: usize = 0;
        while i < entries.len()
            decreases entries@.len() - i,
        {
            if entries[i].is_file() {
                let tag: Vec<u8> = vec![70u8, 73u8, 76u8, 69u8, 9u8];
                append_bytes(out, &tag);
                append_dec_u64(out, entries[i].size() as u64);
                out.push(9);
                append_bytes(out, entries[i].name());
                out.push(13);
                out.push(10);
            }
            i += 1;
        }
        0
    }

    /// `cd <path>`: the path is made absolute, then must stat as a directory.
    pub fn cmd_cd<F: FsHandle>(&self, fs: &mut Fs<F>, args: &Vec<Vec<u8>>, out: &mut Vec<u8>) -> (r:
        ExitCode)
        ensures
            args@.len() < 2 ==> r == 2 && final(fs).cwd_view() == old(fs).cwd_view(),
            args@.len() >= 2 ==> r == 0 || r == 1,
            r != 0 ==> final(fs).cwd_view() == old(fs).cwd_view(),
            final(fs).mounts() == old(fs).mounts(),
    {
        if args.len() < 2 {
            self.usage(10, out);
            return 2;
        }
        let path = fs.to_absolute_path(&args[1]);
        match fs.change_dir(&path) {
            Ok(()) => 0,
            Err(_) => {
                self.complain(&path, out);
                1
            },
        }
    }

    /// `pwd`: print the working directory.
    pub fn cmd_pwd<F: FsHandle>(&self, fs: &mut Fs<F>, out: &mut Vec<u8>) -> (r: ExitCode)
        ensures
            r == 0,
            final(out)@ == old(out)@ + old(fs).cwd_view() + seq![13u8, 10u8],
            final(fs).mounts() == old(fs).mounts(),
            final(fs).cwd_view() == old(fs).cwd_view(),
    {
        let cwd = fs.cwd();
        append_bytes(out, &cwd);
        out.push(13);
        out.push(10);
        proof {
            assert(out@ =~= old(out)@ + old(fs).cwd_view() + seq![13u8, 10u8]);
        }
        0
    }

    /// `touch <path>`: create an empty file by opening it for writing and
    /// closing it.
    pub fn cmd_touch<F: FsHandle>(&self, fs: &mut Fs<F>, args: &Vec<Vec<u8>>, out: &mut Vec<u8>) -> (r:
        ExitCode)
        ensures
            args@.len() < 2 ==> r == 2,
            args@.len() >= 2 ==> r == 0 || r == 1,
            final(fs).mounts() == old(fs).mounts(),
            final(fs).cwd_view() == old(fs).cwd_view(),
    {
        if args.len() < 2 {
            self.usage(12, out);
            return 2;
        }
        let path = fs.to_absolute_path(&args[1]);
        let mode: Vec<u8> = vec![119u8];
        let mut file = match File::open(fs, &path, &mode) {
            Ok(file) => file,
            Err(_) => {
                self.complain(&path, out);
                return 1;
            },
        };
        match file.close(fs) {
            Ok(()) => 0,
            Err(_) => {
                self.complain(&path, out);
                1
            },
        }
    }

    /// `cat <path>`: read the file in chunks and emit its bytes. The read
    /// budget is bounded, so a filesystem that never reports an empty read
    /// cannot hold the shell forever.
    pub fn cmd_cat<F: FsHandle>(&self, fs: &mut Fs<F>, args: &Vec<Vec<u8>>, out: &mut Vec<u8>) -> (r:
        ExitCode)
        ensures
            args@.len() < 2 ==> r == 2,
            args@.len() >= 2 ==> r == 0 || r == 1,
            final(fs).mounts() == old(fs).mounts(),
            final(fs).cwd_view() == old(fs).cwd_view(),
    {
        if args.len() < 2 {
            self.usage(13, out);
            return 2;
        }
        let path = fs.to_absolute_path(&args[1]);
        let mode: Vec<u8> = vec![114u8];
        let mut file = match File::open(fs, &path, &mode) {
            Ok(file) => file,
            Err(_) => {
                self.complain(&path, out);
                return 1;
            },
        };
        let mut rounds: u32 = 65536;
        let mut failed = false;
        while rounds > 0
            invariant
                fs.mounts() == old(fs).mounts(),
                fs.cwd_view() == old(fs).cwd_view(),
                file.fs_index_spec() < fs.tab_len(),
                !file.is_closed(),
            decreases rounds,
        {
            rounds -= 1;
            match file.read(fs, 256) {
                Ok(chunk) => {
                    if chunk.len() == 0 {
                        break ;
                    }
                    append_bytes(out, &chunk);
                },
                Err(_) => {
                    failed = true;
                    break ;
                },
            }
        }
        out.push(13);
        out.push(10);
        let closed = file.close(fs);
        if failed || closed.is_err() {
            1
        } else {
            0
        }
    }

    /// `write <path> <content>`: replace the file's contents with the third
    /// token.
    pub fn cmd_write<F: FsHandle>(&self, fs: &mut Fs<F>, args: &Vec<Vec<u8>>, out: &mut Vec<u8>) -> (r:
        ExitCode)
        ensures
            args@.len() < 3 ==> r == 2,
            args@.len() >= 3 ==> r == 0 || r == 1,
            final(fs).mounts() == old(fs).mounts(),
            final(fs).cwd_view() == old(fs).cwd_view(),
    {
        if args.len() < 3 {
            self.usage(14, out);
            return 2;
        }
        let path = fs.to_absolute_path(&args[1]);
        let mode: Vec<u8> = vec![119u8];
        let mut file = match File::open(fs, &path, &mode) {
            Ok(file) => file,
            Err(_) => {
                self.complain(&path, out);
                return 1;
            },
        };
        let wrote = file.write(fs, &args[2]);
        if wrote.is_err() {
            self.complain(&path, out);
            let _ = file.close(fs);
            return 1;
        }
        let flushed = file.flush(fs);
        let closed = file.close(fs);
        if flushed.is_err() || closed.is_err() {
            self.complain(&path, out);
            1
        } else {
            0
        }
    }

    /// Run one filesystem command; 127 exactly when the verb is not one of
    /// this set's.
    pub fn parse_fs<F: FsHandle>(&self, fs: &mut Fs<F>, args: &Vec<Vec<u8>>, out: &mut Vec<u8>) -> (r:
        ExitCode)
        ensures
            r == 127 <==> (args@.len() == 0 || fs_verb_of(args@[0]@) is Unknown),
            final(fs).mounts() == old(fs).mounts(),
    {
        if args.len() == 0 {
            return 127;
        }
        let verb = self.parse_verb(&args[0]);
        match verb {
            FsVerb::Df => self.cmd_df(fs, out),
            FsVerb::Mount => self.cmd_mount(fs, args, out),
            FsVerb::Unmount => self.cmd_unmount(fs, args, out),
            FsVerb::Format => self.cmd_format(fs, args, out),
            FsVerb::Info => self.cmd_info(fs, args, out),
            FsVerb::Mkdir => self.cmd_mkdir(fs, args, out),
            FsVerb::Rm => self.cmd_rm(fs, args, out),
            FsVerb::Mv => self.cmd_mv(fs, args, out),
            FsVerb::Sync => self.cmd_sync(fs, out),
            FsVerb::Ls => self.cmd_ls(fs, args, out),
            FsVerb::Cd => self.cmd_cd(fs, args, out),
            FsVerb::Pwd => self.cmd_pwd(fs, out),
            FsVerb::Touch => self.cmd_touch(fs, args, out),
            FsVerb::Cat => self.cmd_cat(fs, args, out),
            FsVerb::Write => self.cmd_write(fs, args, out),
            FsVerb::Unknown => 127,
        }
    }

    /// Append `cannot access ` and the offending path.
    fn complain(&self, path: &Vec<u8>, out: &mut Vec<u8>) {
        // "cannot access "
        let prefix: Vec<u8> = vec![99u8, 97u8, 110u8, 110u8, 111u8, 116u8, 32u8, 97u8, 99u8, 99u8, 101u8, 115u8, 115u8, 32u8];
        append_bytes(out, &prefix);
        append_bytes(out, path);
        out.push(13);
        out.push(10);
    }
}

/// The largest magnitude the renderer accepts, keeping clear of the one
/// unrepresentable negation.
fn clamp_isize(v: isize) -> (r: i64)
    ensures
        r != i64::MIN,
{
    if v as i64 == i64::MIN {
        i64::MIN + 1
    } else {
        v as i64
    }
}

} // verus!

//! Where a logfile goes once it is rotated, usually by the UNIX `logrotate` process: the
//! directory, name and extension of the archived file.
use vstd::prelude::*;

use crate::logfile::{file_name_of, parent_of, path_file_name, path_parent};
use crate::text::{owned, push_str};

verus! {

/// How a logfile is archived when it is rotated.
#[derive(Debug)]
pub struct LogArchive {
    /// The directory of the archive; the logfile's own directory when not given.
    pub dir: Option<String>,
    /// The extension of the archive; `1` when not given.
    pub extension: Option<String>,
    /// A regex which selects the archive among several.
    pub pattern: Option<String>,
}

/// The standard rotated name of a logfile: `.1` appended to its path.
pub open spec fn spec_rotated(path: Seq<char>) -> Seq<char> {
    path + ".1"@
}

impl Clone for LogArchive {
    fn clone(&self) -> (r: LogArchive)
        ensures
            r == *self,
    {
        LogArchive {
            dir: self.dir.clone(),
            extension: self.extension.clone(),
            pattern: self.pattern.clone(),
        }
    }
}

impl LogArchive {
    /// The standard rotated name of a logfile: `.1` appended to its path.
    pub fn rotated_path(path: &str) -> (r: String)
        ensures
            r@ == spec_rotated(path@),
    {
        let mut s = owned(path);
        push_str(&mut s, ".1");
        s
    }

    /// The archived name of a logfile when no archive is configured: `.1` appended to its path.
    pub fn default_path(path: &str) -> (r: String)
        ensures
            r@ == spec_rotated(path@),
    {
        LogArchive::rotated_path(path)
    }

    /// The archived name of a logfile: `dir/name.ext`, where `dir` is the configured directory
    /// or else the logfile's own one, `name` the logfile's file name and `ext` the configured
    /// extension or else `1`.
    pub open spec fn spec_archived_path(&self, path: Seq<char>) -> Option<Seq<char>> {
        let dir = match self.dir {
            Some(d) => Some(d@),
            None => path_parent(path),
        };
        let ext = match self.extension {
            Some(e) => e@,
            None => "1"@,
        };
        match (dir, path_file_name(path)) {
            (Some(d), Some(f)) => Some(d + "/"@ + f + "."@ + ext),
            _ => None,
        }
    }

    /// The archived name of a logfile: `dir/name.ext`, where `dir` is the configured directory
    /// or else the logfile's own one, `name` the logfile's file name and `ext` the configured
    /// extension or else `1`. `None` when the path has no directory to fall back on or no file
    /// name.
    pub fn archived_path(&self, path: &str) -> (r: Option<String>)
        ensures
            match self.spec_archived_path(path@) {
                Some(a) => r matches Some(s) && s@ == a,
                None => r is None,
            },
    {
        let dir = match &self.dir {
            Some(d) => d.clone(),
            None => match parent_of(path) {
                Some(p) => p,
                None => {
                    return None;
                },
            },
        };
        let file_name = match file_name_of(path) {
            Some(f) => f,
            None => {
                return None;
            },
        };
        let mut s = dir;
        push_str(&mut s, "/");
        push_str(&mut s, file_name.as_str());
        push_str(&mut s, ".");
        match &self.extension {
            Some(e) => push_str(&mut s, e.as_str()),
            None => push_str(&mut s, "1"),
        }
        Some(s)
    }
}

} // verus!

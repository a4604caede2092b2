//! A logfile with the data recorded each time one of its tags is searched: the offset and
//! line reached, and when.
use vstd::prelude::*;

use crate::config::Tag;
use crate::lookup::Counters;
use crate::error::{debug_quoted, quote, AppCustomErrorKind, AppError};
use crate::table::{has_key, key_pos, kept, lookup, unique_keys, Table};
use crate::text::{owned, push_str, str_is};

verus! {

/// The parent directory of a path, as `Path::parent` gives it: `None` for a root or an empty
/// path.
pub uninterp spec fn path_parent(p: Seq<char>) -> Option<Seq<char>>;

/// The extension of a path, as `Path::extension` gives it (without the dot).
pub uninterp spec fn path_extension(p: Seq<char>) -> Option<Seq<char>>;

/// The last component of a path, as `Path::file_name` gives it.
pub uninterp spec fn path_file_name(p: Seq<char>) -> Option<Seq<char>>;

/// Calls `Path::parent`. Its result is named `path_parent`; the path is valid UTF-8, so the
/// conversion back to a string loses nothing.
#[verifier::external_body]
pub(crate) fn parent_of(p: &str) -> (r: Option<String>)
    ensures
        r is Some <==> path_parent(p@) is Some,
        r matches Some(d) ==> path_parent(p@) == Some(d@),
{
    std::path::Path::new(p).parent().map(|d| d.to_string_lossy().to_string())
}

/// Calls `Path::extension`. Its result is named `path_extension`.
#[verifier::external_body]
pub(crate) fn extension_of(p: &str) -> (r: Option<String>)
    ensures
        r is Some <==> path_extension(p@) is Some,
        r matches Some(e) ==> path_extension(p@) == Some(e@),
{
    std::path::Path::new(p).extension().map(|e| e.to_string_lossy().to_string())
}

/// Calls `Path::file_name`. Its result is named `path_file_name`.
#[verifier::external_body]
pub(crate) fn file_name_of(p: &str) -> (r: Option<String>)
    ensures
        r is Some <==> path_file_name(p@) is Some,
        r matches Some(f) ==> path_file_name(p@) == Some(f@),
{
    std::path::Path::new(p).file_name().map(|f| f.to_string_lossy().to_string())
}

/// The data recorded for a tag each time its logfile is searched.
#[derive(Debug)]
pub struct RunData {
    /// The tag name.
    pub tag_name: String,
    /// Position reached by the last run: the next run starts from there.
    pub last_offset: u64,
    /// Line number reached by the last run.
    pub last_line: u64,
    /// When the logfile was last processed, in seconds since the epoch.
    pub last_run: u64,
    /// The counters of the last run.
    pub counters: Counters,
    /// Warning matches counted toward the warning threshold at the end of the last run.
    pub warning_hits: u64,
    /// Critical matches counted toward the critical threshold at the end of the last run.
    pub critical_hits: u64,
}

impl Clone for RunData {
    fn clone(&self) -> (r: RunData)
        ensures
            r == *self,
    {
        RunData {
            tag_name: self.tag_name.clone(),
            last_offset: self.last_offset,
            last_line: self.last_line,
            last_run: self.last_run,
            counters: self.counters,
            warning_hits: self.warning_hits,
            critical_hits: self.critical_hits,
        }
    }
}

/// No counts.
pub open spec fn zero_counters() -> Counters {
    Counters { critical_count: 0, warning_count: 0, ok_count: 0, exec_count: 0 }
}

impl RunData {
    /// Fresh data for a tag: nothing read yet, nothing counted.
    pub fn new(name: &str) -> (r: RunData)
        ensures
            r.tag_name@ == name@,
            r.last_offset == 0,
            r.last_line == 0,
            r.last_run == 0,
            r.counters == zero_counters(),
            r.warning_hits == 0,
            r.critical_hits == 0,
    {
        RunData {
            tag_name: owned(name),
            last_offset: 0,
            last_line: 0,
            last_run: 0,
            counters: Counters { critical_count: 0, warning_count: 0, ok_count: 0, exec_count: 0 },
            warning_hits: 0,
            critical_hits: 0,
        }
    }

    /// The tag name.
    pub fn get_tagname(&self) -> (r: &str)
        ensures
            r@ == self.tag_name@,
    {
        self.tag_name.as_str()
    }

    /// When the logfile was last processed.
    pub fn get_lastrun(&self) -> (r: u64)
        ensures
            r == self.last_run,
    {
        self.last_run
    }
}

/// The extensions of compressed logfiles.
pub open spec fn is_compressed_ext(e: Seq<char>) -> bool {
    e == "gz"@ || e == "zip"@ || e == "xz"@
}

/// A logfile and its attributes, with the run data of each of its tags.
#[derive(Debug)]
pub struct LogFile {
    /// The canonical path of the file.
    pub path: String,
    /// The directory part of the path given, if any.
    pub directory: Option<String>,
    /// The extension of the path given, if any.
    pub extension: Option<String>,
    /// Whether the logfile is compressed, which its extension tells.
    pub compressed: bool,
    /// The inode of the file.
    pub inode: u64,
    /// The device of the file.
    pub dev: u64,
    /// Run data of each tag, keyed by tag name.
    pub rundata: Table<RunData>,
}

/// The option's string contents.
pub open spec fn opt_view(o: Option<String>) -> Option<Seq<char>> {
    match o {
        Some(s) => Some(s@),
        None => None,
    }
}

impl LogFile {
    /// Creates a `LogFile` from the path given, whether that path is usable (it opens, and is a
    /// file), the canonical form of the path and the file's inode and device, the three last as
    /// the system told them. A path which is not usable gives a `FileNotUsable` error;
    /// otherwise the first error met reading the canonical form or the ids is returned.
    pub fn new(
        file_name: &str,
        usable: bool,
        canon: Result<String, AppError>,
        ids: Result<(u64, u64), AppError>,
    ) -> (r: Result<LogFile, AppError>)
        ensures
            !usable ==> (r matches Err(AppError::App { err, msg }) && err
                == AppCustomErrorKind::FileNotUsable && msg@ == "file "@ + debug_quoted(file_name@)
                + " is not usable"@),
            usable ==> (canon matches Err(e) ==> r == Err::<LogFile, AppError>(e)),
            usable && canon is Ok ==> (ids matches Err(e) ==> r == Err::<LogFile, AppError>(e)),
            usable ==> (canon matches Ok(c) ==> (ids matches Ok(ids) ==> r matches Ok(lf) && {
                &&& lf.path@ == c@
                &&& opt_view(lf.directory) == path_parent(file_name@)
                &&& opt_view(lf.extension) == path_extension(file_name@)
                &&& lf.compressed == (path_extension(file_name@) matches Some(e)
                    && is_compressed_ext(e))
                &&& lf.inode == ids.0
                &&& lf.dev == ids.1
                &&& lf.rundata@.len() == 0
                &&& lf.rundata.wf()
            })),
    {
        let directory = parent_of(file_name);
        let extension = extension_of(file_name);
        let compressed = match &extension {
            None => false,
            Some(e) => str_is(e.as_str(), "gz") || str_is(e.as_str(), "zip") || str_is(
                e.as_str(),
                "xz",
            ),
        };
        if !usable {
            let mut msg = owned("file ");
            let q = quote(file_name);
            push_str(&mut msg, q.as_str());
            push_str(&mut msg, " is not usable");
            return Err(AppError::App { err: AppCustomErrorKind::FileNotUsable, msg });
        }
        let path = match canon {
            Ok(c) => c,
            Err(e) => {
                return Err(e);
            },
        };
        let (inode, dev) = match ids {
            Ok(ids) => ids,
            Err(e) => {
                return Err(e);
            },
        };
        Ok(LogFile { path, directory, extension, compressed, inode, dev, rundata: Table::new() })
    }

    /// The tag names of this logfile, in the order in which they were first searched; no name
    /// occurs twice in a well-formed table of run data.
    pub fn tags(&self) -> (r: Vec<&str>)
        ensures
            r@.len() == self.rundata@.len(),
            forall|i: int| 0 <= i < r@.len() ==> (#[trigger] r@[i])@ == self.rundata@[i].0,
            self.rundata.wf() ==> forall|i: int, j: int|
                0 <= i < r@.len() && 0 <= j < r@.len() && i != j ==> (#[trigger] r@[i])@ != (
                #[trigger] r@[j])@,
    {
        proof {
            if self.rundata.wf() {
                crate::table::law_unique_keys_distinct(self.rundata@);
            }
        }
        let mut v: Vec<&str> = Vec::new();
        let mut i: usize = 0;
        while i < self.rundata.len()
            invariant
                    i <= self.rundata@.len(),
                v@.len() == i,
                forall|j: int| 0 <= j < i ==> (#[trigger] v@[j])@ == self.rundata@[j].0,
            decreases self.rundata@.len() - i,
        {
            v.push(self.rundata.key_at(i).as_str());
            i = i + 1;
        }
        v
    }

    /// Whether a tag has run data in this logfile.
    pub fn contains_key(&self, name: &str) -> (r: bool)
        ensures
            r == has_key(self.rundata@, name@),
    {
        self.rundata.contains_key(name)
    }

    /// The run data of a tag, created empty when the tag has none yet.
    pub fn or_insert(&mut self, name: &str) -> (r: &mut RunData)
        ensures
            final(self).path == old(self).path,
            final(self).inode == old(self).inode,
            final(self).dev == old(self).dev,
            has_key(old(self).rundata@, name@) ==> {
                let i = key_pos(old(self).rundata@, name@);
                &&& *r == old(self).rundata@[i].1
                &&& final(self).rundata@ == old(self).rundata@.update(i, (name@, *final(r)))
            },
            !has_key(old(self).rundata@, name@) ==> {
                &&& r.tag_name@ == name@
                &&& r.last_offset == 0 && r.last_line == 0 && r.last_run == 0
                &&& final(self).rundata@ == old(self).rundata@.push((name@, *final(r)))
            },
            old(self).rundata.wf() ==> final(self).rundata.wf(),
    {
        self.rundata.or_insert(name, RunData::new(name))
    }

    /// The run data of all tags.
    pub fn get_mut_rundata(&mut self) -> (r: &mut Table<RunData>)
        ensures
            *r == old(self).rundata,
            final(self).rundata == *final(r),
            final(self).path == old(self).path,
            final(self).inode == old(self).inode,
            final(self).dev == old(self).dev,
    {
        &mut self.rundata
    }

    /// Keeps the run data of the tags named, in order: the configuration may have dropped
    /// tags since the last run.
    pub fn retain_tags(&mut self, names: &[&str])
        ensures
            final(self).rundata@ == kept(
                old(self).rundata@,
                Seq::new(
                    old(self).rundata@.len(),
                    |j: int| exists|i: int| 0 <= i < names@.len() && (#[trigger] names@[i])@ == old(self).rundata@[j].0,
                ),
            ),
            final(self).path == old(self).path,
            final(self).inode == old(self).inode,
            final(self).dev == old(self).dev,
            old(self).rundata.wf() ==> final(self).rundata.wf(),
    {
        let ghost marks = Seq::new(
            self.rundata@.len(),
            |j: int| exists|i: int| 0 <= i < names@.len() && (#[trigger] names@[i])@ == self.rundata@[j].0,
        );
        let mut keep: Vec<bool> = Vec::new();
        let mut j: usize = 0;
        while j < self.rundata.len()
            invariant
                j <= self.rundata@.len(),
                keep@.len() == j,
                marks.len() == self.rundata@.len(),
                forall|k: int| 0 <= k < j ==> keep@[k] == #[trigger] marks[k],
                marks == Seq::new(
                    self.rundata@.len(),
                    |j: int| exists|i: int| 0 <= i < names@.len() && (#[trigger] names@[i])@ == self.rundata@[j].0,
                ),
            decreases self.rundata@.len() - j,
        {
            let key = self.rundata.key_at(j);
            let mut found = false;
            let mut i: usize = 0;
            while i < names.len()
                invariant
                    i <= names@.len(),
                    found == exists|k: int| 0 <= k < i && (#[trigger] names@[k])@ == key@,
                decreases names@.len() - i,
            {
                if str_is(names[i], key.as_str()) {
                    found = true;
                }
                i = i + 1;
            }
            keep.push(found);
            j = j + 1;
        }
        assert(keep@ =~= marks);
        self.rundata.retain_marked(&keep);
    }

    /// Two logfiles are the same when they have the same path, inode and device.
    pub open spec fn spec_same(&self, other: &LogFile) -> bool {
        self.path@ == other.path@ && self.dev == other.dev && self.inode == other.inode
    }

    /// Two logfiles are the same when they have the same path, inode and device.
    pub fn same(&self, other: &LogFile) -> (r: bool)
        ensures
            r == self.spec_same(other),
    {
        str_is(self.path.as_str(), other.path.as_str()) && self.dev == other.dev && self.inode
            == other.inode
    }
}

/// Whether a logfile was rotated since its data was recorded: the file now at its path is
/// another one, with another inode or another device.
pub fn rotated(stored: &LogFile, current: &LogFile) -> (r: bool)
    ensures
        r == !(stored.inode == current.inode && stored.dev == current.dev),
{
    !(stored.inode == current.inode && stored.dev == current.dev)
}

/// Whether the first tag of a name saves its threshold counts, if a tag has that name.
pub open spec fn save_of(tags: Seq<Tag>, name: Seq<char>) -> Option<bool>
    decreases tags.len(),
{
    if tags.len() == 0 {
        None
    } else if tags[0].name@ == name {
        Some(tags[0].options.savethresholdcount)
    } else {
        save_of(tags.drop_first(), name)
    }
}

/// Whether the first tag of a name saves its threshold counts, if a tag has that name.
fn tag_save(tags: &Vec<Tag>, name: &str) -> (r: Option<bool>)
    ensures
        r == save_of(tags@, name@),
{
    let mut i: usize = 0;
    assert(tags@.skip(0) =~= tags@);
    while i < tags.len()
        invariant
            i <= tags@.len(),
            save_of(tags@, name@) == save_of(tags@.skip(i as int), name@),
        decreases tags@.len() - i,
    {
        assert(tags@.skip(i as int)[0] == tags@[i as int]);
        if str_is(tags[i].name.as_str(), name) {
            return Some(tags[i].options.savethresholdcount);
        }
        assert(tags@.skip(i as int).drop_first() =~= tags@.skip(i + 1));
        i = i + 1;
    }
    assert(tags@.skip(i as int).len() == 0);
    None
}

/// The run data of a tag once its logfile was rotated: the new file is read from its start.
/// A tag that saves its threshold counts takes the counters and threshold counts of the
/// archived file's data, when there are some; another tag starts afresh.
pub open spec fn entry_after_rotation(r: RunData, save: bool, archived: Option<RunData>) -> RunData {
    if save {
        match archived {
            Some(a) => RunData {
                last_offset: 0,
                last_line: 0,
                counters: a.counters,
                warning_hits: a.warning_hits,
                critical_hits: a.critical_hits,
                ..r
            },
            None => RunData { last_offset: 0, last_line: 0, ..r },
        }
    } else {
        RunData {
            last_offset: 0,
            last_line: 0,
            last_run: 0,
            counters: zero_counters(),
            warning_hits: 0,
            critical_hits: 0,
            ..r
        }
    }
}

impl LogFile {
    /// The logfile as it was archived by a rotation: the archive's path and identity, with
    /// the run data recorded for the logfile, so that its search goes on where it stopped.
    pub fn for_archive(&self, archive: LogFile) -> (r: LogFile)
        ensures
            r.path == archive.path,
            r.directory == archive.directory,
            r.extension == archive.extension,
            r.compressed == archive.compressed,
            r.inode == archive.inode,
            r.dev == archive.dev,
            r.rundata@ == self.rundata@,
            self.rundata.wf() ==> r.rundata.wf(),
    {
        let rundata = self.rundata.clone();
        assert(rundata@ =~= self.rundata@);
        LogFile { rundata, ..archive }
    }

    /// The data of the logfile once it was rotated and its archive read: it takes the identity
    /// of the file now at its path, and the run data of each tag of `tags` that it holds is
    /// changed as `entry_after_rotation` says, from that of `archived`; the other run data
    /// stay as they are.
    pub fn after_rotation(&mut self, tags: &Vec<Tag>, archived: &LogFile, current: &LogFile)
        ensures
            final(self).path == old(self).path,
            final(self).inode == current.inode,
            final(self).dev == current.dev,
            final(self).rundata@.len() == old(self).rundata@.len(),
            forall|i: int|
                0 <= i < final(self).rundata@.len() ==> (#[trigger] final(self).rundata@[i]).0
                    == old(self).rundata@[i].0 && final(self).rundata@[i].1 == match save_of(
                    tags@,
                    old(self).rundata@[i].0,
                ) {
                    Some(save) => entry_after_rotation(
                        old(self).rundata@[i].1,
                        save,
                        lookup(archived.rundata@, old(self).rundata@[i].0),
                    ),
                    None => old(self).rundata@[i].1,
                },
            old(self).rundata.wf() ==> final(self).rundata.wf(),
    {
        let ghost s0 = self.rundata@;
        self.inode = current.inode;
        self.dev = current.dev;
        let mut i: usize = 0;
        while i < self.rundata.len()
            invariant
                self.rundata@.len() == s0.len(),
                i <= s0.len(),
                self.path == old(self).path,
                self.inode == current.inode,
                self.dev == current.dev,
                s0 == old(self).rundata@,
                forall|j: int|
                    0 <= j < i ==> (#[trigger] self.rundata@[j]).0 == s0[j].0 && self.rundata@[j].1
                        == match save_of(tags@, s0[j].0) {
                        Some(save) => entry_after_rotation(
                            s0[j].1,
                            save,
                            lookup(archived.rundata@, s0[j].0),
                        ),
                        None => s0[j].1,
                    },
                forall|j: int| i <= j < s0.len() ==> #[trigger] self.rundata@[j] == s0[j],
            decreases s0.len() - i,
        {
            let name = self.rundata.key_at(i).clone();
            match tag_save(tags, name.as_str()) {
                None => {},
                Some(save) => {
                    let from_archive = archived.rundata.get(name.as_str());
                    let e = self.rundata.value_mut(i);
                    e.last_offset = 0;
                    e.last_line = 0;
                    if save {
                        match from_archive {
                            Some(a) => {
                                e.counters = a.counters;
                                e.warning_hits = a.warning_hits;
                                e.critical_hits = a.critical_hits;
                            },
                            None => {},
                        }
                    } else {
                        e.last_run = 0;
                        e.counters = Counters {
                            critical_count: 0,
                            warning_count: 0,
                            ok_count: 0,
                            exec_count: 0,
                        };
                        e.warning_hits = 0;
                        e.critical_hits = 0;
                    }
                },
            }
            i = i + 1;
        }
        proof {
            if unique_keys(s0) {
                let t = self.rundata@;
                assert forall|a: int, b: int| 0 <= a < b < t.len() implies #[trigger] t[a].0
                    != #[trigger] t[b].0 by {
                    assert(t[a].0 == s0[a].0 && t[b].0 == s0[b].0);
                }
            }
        }
    }
}

} // verus!

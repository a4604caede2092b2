//! The repository of all logfile searches: for each logfile, the data of its last runs. It is
//! saved between runs, after the tags that did not run for too long are dropped.
use vstd::prelude::*;

use crate::error::AppError;
use crate::logfile::{LogFile, RunData};
use crate::config::{join, join_path};
use crate::logfile::{file_name_of, path_file_name};
use crate::table::{has_key, key_pos, kept, lemma_kept_members, lookup, unique_keys, Table};
use crate::text::owned;

verus! {

/// A path with its extension replaced, as `Path::with_extension` gives it.
pub uninterp spec fn path_with_extension(p: Seq<char>, ext: Seq<char>) -> Seq<char>;

/// Calls `Path::with_extension`, named `path_with_extension`; the path is valid UTF-8, so the
/// conversion back to a string loses nothing. The extension holds no path separator, on which
/// `Path::with_extension` panics.
#[verifier::external_body]
fn with_extension(p: &str, ext: &str) -> (r: String)
    requires
        !ext@.contains('/'),
    ensures
        r@ == path_with_extension(p@, ext@),
{
    std::path::Path::new(p).with_extension(ext).to_string_lossy().to_string()
}

/// The snapshot file built from the configuration file: the same path with a `json`
/// extension, put in `dir` when a directory is given.
pub open spec fn spec_build_name(config_file: Seq<char>, dir: Option<Seq<char>>) -> Option<Seq<char>> {
    let named = path_with_extension(config_file, "json"@);
    match dir {
        None => Some(named),
        Some(d) => match path_file_name(named) {
            Some(f) => Some(join(d, f)),
            None => None,
        },
    }
}

/// Whether a tag's data is recent enough to be kept: it ran less than `retention` seconds
/// before `now`.
pub open spec fn is_recent(r: RunData, now: u64, retention: u64) -> bool {
    now - r.last_run < retention
}

/// Which tags of a logfile are recent enough to be kept.
pub open spec fn recent_marks(s: Seq<(Seq<char>, RunData)>, now: u64, retention: u64) -> Seq<bool> {
    Seq::new(s.len(), |j: int| is_recent(s[j].1, now, retention))
}

/// The tags of a logfile that are recent enough, in order.
pub open spec fn recent(s: Seq<(Seq<char>, RunData)>, now: u64, retention: u64) -> Seq<(Seq<char>, RunData)> {
    kept(s, recent_marks(s, now, retention))
}

/// No tag ran after `now`.
pub open spec fn all_before(s: Seq<(Seq<char>, RunData)>, now: u64) -> bool {
    forall|j: int| 0 <= j < s.len() ==> (#[trigger] s[j]).1.last_run <= now
}

/// A logfile after its old tags are dropped: only its run data changed, and what is left is
/// its recent run data.
pub open spec fn retention_done(before: LogFile, after: LogFile, now: u64, retention: u64) -> bool {
    &&& after.path == before.path
    &&& after.directory == before.directory
    &&& after.extension == before.extension
    &&& after.compressed == before.compressed
    &&& after.inode == before.inode
    &&& after.dev == before.dev
    &&& after.rundata@ == recent(before.rundata@, now, retention)
}

/// Drops the tags of a logfile that did not run in the last `retention` seconds before `now`.
pub fn retain_recent(lf: &mut LogFile, now: u64, retention: u64)
    requires
        all_before(old(lf).rundata@, now),
    ensures
        retention_done(*old(lf), *final(lf), now, retention),
{
    let mut keep: Vec<bool> = Vec::new();
    let mut j: usize = 0;
    while j < lf.rundata.len()
        invariant
            j <= lf.rundata@.len(),
            all_before(lf.rundata@, now),
            keep@.len() == j,
            forall|k: int| 0 <= k < j ==> keep@[k] == is_recent(#[trigger] lf.rundata@[k].1, now, retention),
        decreases lf.rundata@.len() - j,
    {
        let last_run = lf.rundata.value_at(j).last_run;
        assert(lf.rundata@[j as int].1.last_run <= now);
        keep.push(now - last_run < retention);
        j = j + 1;
    }
    assert(keep@ =~= recent_marks(lf.rundata@, now, retention));
    lf.rundata.retain_marked(&keep);
}

/// All run data kept between runs, keyed by logfile path.
#[derive(Debug)]
pub struct Snapshot {
    pub snapshot: Table<LogFile>,
}

impl Snapshot {
    /// The snapshot file built from the configuration file: the same path with a `json`
    /// extension, put in `dir` when a directory is given; `None` when that path has no file
    /// name to put there.
    pub fn build_name(config_file: &str, dir: Option<&str>) -> (r: Option<String>)
        ensures
            match spec_build_name(config_file@, match dir {
                Some(d) => Some(d@),
                None => None,
            }) {
                Some(n) => r matches Some(s) && s@ == n,
                None => r is None,
            },
    {
        proof {
            reveal_strlit("json");
            assert(!"json"@.contains('/'));
        }
        let named = with_extension(config_file, "json");
        match dir {
            None => Some(named),
            Some(d) => match file_name_of(named.as_str()) {
                Some(f) => Some(join_path(d, f.as_str())),
                None => None,
            },
        }
    }

    /// The snapshot file used: the one given on the command line; else the one of the
    /// configuration, or, when that one is a directory, the name built in it; else the name
    /// built from the configuration file.
    pub fn choose_file(cli: Option<&str>, configured: Option<&str>, configured_is_dir: bool, config_file: &str) -> (r: Option<String>)
        ensures
            cli matches Some(c) ==> r matches Some(s) && s@ == c@,
            cli is None ==> match configured {
                Some(f) => if configured_is_dir {
                    match spec_build_name(config_file@, Some(f@)) {
                        Some(n) => r matches Some(s) && s@ == n,
                        None => r is None,
                    }
                } else {
                    r matches Some(s) && s@ == f@
                },
                None => match spec_build_name(config_file@, None) {
                    Some(n) => r matches Some(s) && s@ == n,
                    None => r is None,
                },
            },
    {
        match cli {
            Some(c) => Some(owned(c)),
            None => match configured {
                Some(f) => if configured_is_dir {
                    Snapshot::build_name(config_file, Some(f))
                } else {
                    Some(owned(f))
                },
                None => Snapshot::build_name(config_file, None),
            },
        }
    }

    /// An empty snapshot.
    pub fn new() -> (r: Snapshot)
        ensures
            r.snapshot@.len() == 0,
            r.snapshot.wf(),
    {
        Snapshot { snapshot: Table::new() }
    }

    /// Whether a logfile is in the snapshot.
    pub fn contains_key(&self, path: &str) -> (r: bool)
        ensures
            r == has_key(self.snapshot@, path@),
    {
        self.snapshot.contains_key(path)
    }

    /// The number of logfiles in the snapshot.
    pub fn len(&self) -> (r: usize)
        ensures
            r == self.snapshot@.len(),
    {
        self.snapshot.len()
    }

    /// The logfile of a path. When the snapshot has none, `created` is what building it from
    /// the path gave: it is added, or its error is returned.
    pub fn or_insert(&mut self, path: &str, created: Result<LogFile, AppError>) -> (r: Result<&mut LogFile, AppError>)
        ensures
            has_key(old(self).snapshot@, path@) ==> {
                let i = key_pos(old(self).snapshot@, path@);
                r matches Ok(lf) && *lf == old(self).snapshot@[i].1
                    && final(self).snapshot@ == old(self).snapshot@.update(i, (path@, *final(lf)))
            },
            !has_key(old(self).snapshot@, path@) ==> match created {
                Ok(c) => r matches Ok(lf) && *lf == c && final(self).snapshot@ == old(
                    self,
                ).snapshot@.push((path@, *final(lf))),
                Err(e) => r matches Err(e2) && e2 == e && final(self).snapshot@ == old(
                    self,
                ).snapshot@,
            },
            old(self).snapshot.wf() ==> final(self).snapshot.wf(),
    {
        match self.snapshot.find(path) {
            Some(i) => Ok(self.snapshot.value_mut(i)),
            None => match created {
                Ok(lf) => Ok(self.snapshot.or_insert(path, lf)),
                Err(e) => Err(e),
            },
        }
    }

    /// Drops, from every logfile, the tags that did not run in the last `retention` seconds
    /// before `now`: this is done before the snapshot is saved.
    pub fn apply_retention(&mut self, now: u64, retention: u64)
        requires
            forall|i: int| 0 <= i < old(self).snapshot@.len() ==> all_before(
                (#[trigger] old(self).snapshot@[i]).1.rundata@,
                now,
            ),
        ensures
            final(self).snapshot@.len() == old(self).snapshot@.len(),
            forall|i: int|
                0 <= i < final(self).snapshot@.len() ==> (#[trigger] final(self).snapshot@[i]).0
                    == old(self).snapshot@[i].0 && retention_done(
                    old(self).snapshot@[i].1,
                    final(self).snapshot@[i].1,
                    now,
                    retention,
                ),
            old(self).snapshot.wf() ==> final(self).snapshot.wf(),
    {
        let ghost s0 = self.snapshot@;
        let mut i: usize = 0;
        while i < self.snapshot.len()
            invariant
                self.snapshot@.len() == s0.len(),
                i <= s0.len(),
                forall|j: int| 0 <= j < s0.len() ==> all_before((#[trigger] s0[j]).1.rundata@, now),
                forall|j: int|
                    0 <= j < i ==> (#[trigger] self.snapshot@[j]).0 == s0[j].0 && retention_done(
                        s0[j].1,
                        self.snapshot@[j].1,
                        now,
                        retention,
                    ),
                forall|j: int| i <= j < s0.len() ==> #[trigger] self.snapshot@[j] == s0[j],
            decreases s0.len() - i,
        {
            assert(self.snapshot@[i as int] == s0[i as int]);
            let lf = self.snapshot.value_mut(i);
            retain_recent(lf, now, retention);
            i = i + 1;
        }
        proof {
            if unique_keys(s0) {
                let t = self.snapshot@;
                assert forall|a: int, b: int| 0 <= a < b < t.len() implies #[trigger] t[a].0
                    != #[trigger] t[b].0 by {
                    assert(t[a].0 == s0[a].0 && t[b].0 == s0[b].0);
                }
            }
        }
    }

    /// Removes a logfile from the snapshot; in a well-formed snapshot, no entry of it is left.
    pub fn remove(&mut self, key: &str) -> (r: Option<LogFile>)
        ensures
            r == lookup(old(self).snapshot@, key@),
            has_key(old(self).snapshot@, key@) ==> final(self).snapshot@ == old(self).snapshot@.remove(
                key_pos(old(self).snapshot@, key@),
            ),
            !has_key(old(self).snapshot@, key@) ==> final(self).snapshot@ == old(self).snapshot@,
            old(self).snapshot.wf() ==> final(self).snapshot.wf() && !has_key(
                final(self).snapshot@,
                key@,
            ),
    {
        self.snapshot.remove(key)
    }
}

/// Retention law: once the old tags of a logfile are dropped, a tag's run data is left
/// exactly when it was there before and ran less than `retention` seconds before `now`; no
/// entry is added.
pub proof fn law_retention_keeps_recent(s: Seq<(Seq<char>, RunData)>, now: u64, retention: u64)
    ensures
        forall|x: (Seq<char>, RunData)|
            #[trigger] recent(s, now, retention).contains(x) <==> (s.contains(x) && is_recent(
                x.1,
                now,
                retention,
            )),
        recent(s, now, retention).len() <= s.len(),
{
    let marks = recent_marks(s, now, retention);
    lemma_kept_members(s, marks);
    assert forall|x: (Seq<char>, RunData)| #[trigger] recent(s, now, retention).contains(x) <==> (
    s.contains(x) && is_recent(x.1, now, retention)) by {
        if s.contains(x) && is_recent(x.1, now, retention) {
            let j = choose|j: int| 0 <= j < s.len() && s[j] == x;
            assert(marks[j] && s[j] == x);
        }
        if recent(s, now, retention).contains(x) {
            let j = choose|j: int| 0 <= j < s.len() && marks[j] && #[trigger] s[j] == x;
            assert(s[j] == x);
        }
    }
}

} // verus!

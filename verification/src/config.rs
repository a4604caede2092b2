//! The configuration: global options, and the searches, each of a logfile (or a list of
//! logfiles) with its tags; each tag has its options, patterns and callback.
use vstd::prelude::*;

use crate::archive::{spec_rotated, LogArchive};
use crate::callback::{Callback, CallbackType};
use crate::error::{AppError, IoError, IoErrorKind};
use crate::nagios::NagiosError;
use crate::options::SearchOptions;
use crate::pattern::{re_captures, re_expand, re_is_match, regex_expand, PatternSet, PatternType, Re};
use crate::table::{set_entry, str_entries, Table};
use crate::text::{chars_of, owned, push_str, split, split_chars, string_of};
use crate::variables::prefixed;

verus! {

/// The separator of a list of paths.
pub const SEPARATOR: char = ':';

/// A list of paths, where a script to call is looked for.
#[derive(Debug, Clone)]
pub struct PathList(pub Vec<String>);

impl PathList {
    /// The paths of a `:`-separated list.
    pub open spec fn view(&self) -> Seq<Seq<char>> {
        self.0@.map_values(|s: String| s@)
    }

    /// Splits a `:`-separated list of paths.
    pub fn from(list: String) -> (r: PathList)
        ensures
            r.view() == split(list@, SEPARATOR),
    {
        PathList(PathList::split_at(list.as_str(), SEPARATOR))
    }

    /// The pieces of a text between separators.
    fn split_at(list: &str, sep: char) -> (r: Vec<String>)
        ensures
            r@.map_values(|s: String| s@) == split(list@, sep),
    {
        let cs = chars_of(list);
        let pieces = split_chars(cs.as_slice(), sep);
        let mut v: Vec<String> = Vec::new();
        let mut i: usize = 0;
        while i < pieces.len()
            invariant
                i <= pieces@.len(),
                pieces@.len() == split(list@, sep).len(),
                forall|j: int| 0 <= j < pieces@.len() ==> #[trigger] pieces@[j]@ == split(list@, sep)[j],
                v@.len() == i,
                forall|j: int| 0 <= j < i ==> #[trigger] v@[j]@ == split(list@, sep)[j],
            decreases pieces@.len() - i,
        {
            v.push(string_of(pieces[i].as_slice()));
            i = i + 1;
        }
        assert(v@.map_values(|s: String| s@) =~= split(list@, sep));
        v
    }
}

/// A path is relative when it does not start with `/`.
pub open spec fn is_relative(p: Seq<char>) -> bool {
    p.len() == 0 || p[0] != '/'
}

/// A relative path pushed onto a directory, as `PathBuf::push` does it: a separator is put
/// between them unless the directory is empty or already ends with one.
pub open spec fn join(dir: Seq<char>, name: Seq<char>) -> Seq<char> {
    if dir.len() == 0 {
        name
    } else if dir.last() == '/' {
        dir + name
    } else {
        dir + "/"@ + name
    }
}

/// A relative path pushed onto a directory.
pub fn join_path(dir: &str, name: &str) -> (r: String)
    ensures
        r@ == join(dir@, name@),
{
    let d = chars_of(dir);
    let mut s = owned(dir);
    if d.len() > 0 && d[d.len() - 1] != '/' {
        push_str(&mut s, "/");
    }
    push_str(&mut s, name);
    s
}

/// A script or command run on each match.
#[derive(Debug, Clone)]
pub struct Script {
    /// Name of the script to spawn, with or without its path.
    pub path: String,
    /// Its arguments, if any.
    pub args: Option<Vec<String>>,
    /// Timeout in seconds.
    pub timeout: u64,
}

/// The first position whose file exists, if one does.
pub open spec fn first_true(flags: Seq<bool>) -> Option<int> {
    if exists|i: int| 0 <= i < flags.len() && flags[i] {
        Some(choose|i: int| 0 <= i < flags.len() && flags[i] && forall|j: int| 0 <= j < i ==> !flags[j])
    } else {
        None
    }
}

/// Whether a pattern matches a text and has a capture group beside the whole match.
pub open spec fn has_own_groups(p: Seq<char>, t: Seq<char>) -> bool {
    match re_captures(p, t) {
        Some(g) => g.len() > 1,
        None => false,
    }
}

impl Script {
    /// Where the script may be: for a relative path, in each directory of the list in order;
    /// then the path itself.
    pub open spec fn spec_candidates(&self, pathlist: Seq<Seq<char>>) -> Seq<Seq<char>> {
        (if is_relative(self.path@) {
            pathlist.map_values(|p: Seq<char>| join(p, self.path@))
        } else {
            Seq::empty()
        }) + seq![self.path@]
    }

    /// Where the script may be: for a relative path, in each directory of the list in order;
    /// then the path itself.
    pub fn candidates(&self, pathlist: &[String]) -> (r: Vec<String>)
        ensures
            r@.map_values(|s: String| s@) == self.spec_candidates(pathlist@.map_values(|s: String| s@)),
    {
        let ghost pl = pathlist@.map_values(|s: String| s@);
        let p = chars_of(self.path.as_str());
        let relative = p.len() == 0 || p[0] != '/';
        let mut r: Vec<String> = Vec::new();
        if relative {
            let mut i: usize = 0;
            while i < pathlist.len()
                invariant
                    i <= pathlist@.len(),
                    pl == pathlist@.map_values(|s: String| s@),
                    r@.len() == i,
                    forall|j: int| 0 <= j < i ==> #[trigger] r@[j]@ == join(pl[j], self.path@),
                decreases pathlist@.len() - i,
            {
                r.push(join_path(pathlist[i].as_str(), self.path.as_str()));
                i = i + 1;
            }
        }
        let ghost before = r@;
        r.push(self.path.clone());
        proof {
            if relative {
                assert(before.map_values(|s: String| s@) =~= pl.map_values(|q: Seq<char>| join(q, self.path@)));
            } else {
                assert(before.map_values(|s: String| s@) =~= Seq::<Seq<char>>::empty());
            }
        }
        assert(r@.map_values(|s: String| s@) =~= self.spec_candidates(pl));
        r
    }

    /// The canonical form of the script's path: that of the first candidate (see `candidates`)
    /// which is a file, as `is_file` tells for each, and as `canonical` gives it for each (the
    /// system's canonical form, or the error it gave). When no candidate is a file, the script
    /// is not found.
    pub fn canonicalize(
        &self,
        pathlist: &[String],
        is_file: &[bool],
        canonical: &[Result<String, IoError>],
    ) -> (r: Result<String, IoError>)
        requires
            is_file@.len() == self.spec_candidates(pathlist@.map_values(|s: String| s@)).len(),
            canonical@.len() == is_file@.len(),
        ensures
            match first_true(is_file@) {
                Some(i) => match canonical@[i] {
                    Ok(c) => r matches Ok(p) && p@ == c@,
                    Err(e) => r == Err::<String, IoError>(e),
                },
                None => r matches Err(e) && e.kind == IoErrorKind::NotFound && e.msg@
                    == "script not found"@,
            },
    {
        let c = self.candidates(pathlist);
        let mut i: usize = 0;
        while i < c.len()
            invariant
                i <= c@.len(),
                is_file@.len() == c@.len(),
                canonical@.len() == c@.len(),
                forall|j: int| 0 <= j < i ==> !is_file@[j],
            decreases c@.len() - i,
        {
            if is_file[i] {
                proof {
                    let k = choose|k: int| 0 <= k < is_file@.len() && is_file@[k] && forall|j: int| 0 <= j < k ==> !is_file@[j];
                    if k < i {
                        assert(!is_file@[k]);
                    } else if k > i {
                        assert(!is_file@[i as int]);
                    }
                }
                return match &canonical[i] {
                    Ok(p) => Ok(p.clone()),
                    Err(e) => Err(e.clone()),
                };
            }
            i = i + 1;
        }
        Err(IoError::new(IoErrorKind::NotFound, "script not found"))
    }

    /// The arguments of the script with the capture groups of the first match of `re` in
    /// `text` put in place of `$name`, `${name}` or `$n`, as `Captures::expand` does. There are
    /// none when the script has no arguments, the regex does not match, or it has no group
    /// of its own.
    pub fn replace_args(&self, re: &Re, text: &str) -> (r: Option<Vec<String>>)
        ensures
            r is Some <==> (self.args is Some && has_own_groups(re@, text@)),
            r matches Some(v) ==> v@.len() == self.args->0@.len() && forall|i: int|
                0 <= i < v@.len() ==> #[trigger] v@[i]@ == re_expand(
                    re@,
                    text@,
                    self.args->0@[i]@,
                ),
    {
        match &self.args {
            None => None,
            Some(args) => {
                match re.captures(text) {
                    None => None,
                    Some(groups) => {
                        if groups.len() <= 1 {
                            return None;
                        }
                        let mut out: Vec<String> = Vec::new();
                        let mut i: usize = 0;
                        while i < args.len()
                            invariant
                                i <= args@.len(),
                                re_is_match(re@, text@),
                                out@.len() == i,
                                forall|j: int|
                                    0 <= j < i ==> #[trigger] out@[j]@ == re_expand(
                                        re@,
                                        text@,
                                        args@[j]@,
                                    ),
                            decreases args@.len() - i,
                        {
                            out.push(regex_expand(re, text, args[i].as_str()));
                            i = i + 1;
                        }
                        Some(out)
                    },
                }
            },
        }
    }
}

/// Where the logfiles of a search come from: a file, or the files that a command lists.
#[derive(Debug)]
pub enum LogSource {
    /// A single logfile.
    LogFile(String),
    /// A command and its arguments, whose output lists the logfiles.
    LogList(Vec<String>),
    /// A shell command whose output lists the logfiles.
    LogCommand(String),
}

/// Whether two sources are the same file, command and arguments, or shell command.
pub open spec fn same_source(a: LogSource, b: LogSource) -> bool {
    match (a, b) {
        (LogSource::LogFile(x), LogSource::LogFile(y)) => x@ == y@,
        (LogSource::LogList(x), LogSource::LogList(y)) => x@.map_values(|s: String| s@) == y@.map_values(
            |s: String| s@,
        ),
        (LogSource::LogCommand(x), LogSource::LogCommand(y)) => x@ == y@,
        _ => false,
    }
}

impl Clone for LogSource {
    fn clone(&self) -> (r: LogSource)
        ensures
            same_source(r, *self),
    {
        match self {
            LogSource::LogFile(p) => LogSource::LogFile(p.clone()),
            LogSource::LogList(v) => {
                let c = v.clone();
                assert(c@.map_values(|s: String| s@) =~= v@.map_values(|s: String| s@));
                LogSource::LogList(c)
            },
            LogSource::LogCommand(c) => LogSource::LogCommand(c.clone()),
        }
    }
}

impl Default for LogSource {
    fn default() -> (r: LogSource)
        ensures
            r matches LogSource::LogFile(p) && p@.len() == 0,
    {
        LogSource::LogFile(String::new())
    }
}

impl LogSource {
    /// The path of a single logfile, as text; the other sources are not shown.
    pub fn to_string(&self) -> (r: String)
        requires
            *self is LogFile,
        ensures
            *self matches LogSource::LogFile(p) && r@ == p@,
    {
        match self {
            LogSource::LogFile(p) => p.clone(),
            _ => vstd::pervasive::unreached(),
        }
    }

    /// Whether the source is a single logfile.
    pub fn is_logfile(&self) -> (r: bool)
        ensures
            r == (*self is LogFile),
    {
        matches!(self, LogSource::LogFile(_))
    }

    /// Whether the source is a single logfile.
    pub fn is_path(&self) -> (r: bool)
        ensures
            r == (*self is LogFile),
    {
        matches!(self, LogSource::LogFile(_))
    }
}

impl LogSource {
    /// The logfiles of the source: the file itself, or the lines of the listing command's
    /// output (split at each `\n`, the last piece included).
    pub fn get_files(&self, output: &str) -> (r: Vec<String>)
        ensures
            match self {
                LogSource::LogFile(s) => r@.len() == 1 && r@[0]@ == s@,
                _ => r@.map_values(|x: String| x@) == split(output@, '\n'),
            },
    {
        match self {
            LogSource::LogFile(s) => {
                let mut v: Vec<String> = Vec::new();
                v.push(s.clone());
                v
            },
            _ => PathList::split_at(output, '\n'),
        }
    }
}

/// The format of a logfile.
#[allow(non_camel_case_types)]
#[derive(Debug, Clone, Copy, PartialEq, Eq, Structural)]
pub enum LogFileFormat {
    plain,
    json,
}

impl Default for LogFileFormat {
    fn default() -> (r: LogFileFormat)
        ensures
            r == LogFileFormat::plain,
    {
        LogFileFormat::plain
    }
}

/// The definition of the logfile of a search.
#[derive(Debug)]
pub struct LogFileDef {
    /// Where the logfiles come from.
    pub path: LogSource,
    /// Their format.
    pub format: LogFileFormat,
    /// Lines matching this regex are skipped.
    pub exclude: Option<Re>,
    /// Where the logfile goes when it is rotated; the same path with `.1` when not given.
    pub archive: Option<LogArchive>,
    /// What is reported when the logfile cannot be read.
    pub logfilemissing: NagiosError,
}

impl LogFileDef {
    /// The path of a single logfile.
    pub fn path(&self) -> (r: &String)
        requires
            self.path is LogFile,
        ensures
            self.path == LogSource::LogFile(*r),
    {
        match &self.path {
            LogSource::LogFile(p) => p,
            _ => vstd::pervasive::unreached(),
        }
    }

    /// Where a single logfile is once rotated: as its archive settings say, or the same path
    /// with `.1` when there are none. `None` when the path has no file name to archive.
    pub fn archive_path(&self) -> (r: Option<String>)
        requires
            self.path is LogFile,
        ensures
            self.path matches LogSource::LogFile(p) && match self.archive {
                Some(a) => match a.spec_archived_path(p@) {
                    Some(x) => r matches Some(s) && s@ == x,
                    None => r is None,
                },
                None => r matches Some(s) && s@ == spec_rotated(p@),
            },
    {
        let p = self.path();
        match &self.archive {
            Some(a) => a.archived_path(p.as_str()),
            None => Some(LogArchive::default_path(p.as_str())),
        }
    }

    /// The command of a list of logfiles.
    pub fn list(&self) -> (r: &Vec<String>)
        requires
            self.path is LogList,
        ensures
            self.path == LogSource::LogList(*r),
    {
        match &self.path {
            LogSource::LogList(l) => l,
            _ => vstd::pervasive::unreached(),
        }
    }
}

/// A tag: what to search for in a logfile, and what to do on a match.
#[derive(Debug)]
pub struct Tag {
    /// The tag's name.
    pub name: String,
    /// Whether the tag is processed.
    pub process: bool,
    /// Options of the search.
    pub options: SearchOptions,
    /// What is called on a match.
    pub callback: Option<Callback>,
    /// The patterns searched for.
    pub patterns: PatternSet,
}

/// The settings of an optional callback.
pub open spec fn opt_callback_view(c: Option<Callback>) -> Option<(CallbackType, Option<Seq<Seq<char>>>, u64)> {
    match c {
        Some(c) => Some(c.view()),
        None => None,
    }
}

/// Whether two tags have the same name, options, callback and patterns.
pub open spec fn same_tag(a: Tag, b: Tag) -> bool {
    &&& a.name@ == b.name@
    &&& a.process == b.process
    &&& a.options == b.options
    &&& opt_callback_view(a.callback) == opt_callback_view(b.callback)
    &&& a.patterns.view() == b.patterns.view()
}

impl Clone for Tag {
    fn clone(&self) -> (r: Tag)
        ensures
            same_tag(r, *self),
    {
        let callback = match &self.callback {
            Some(c) => Some(c.clone()),
            None => None,
        };
        Tag {
            name: self.name.clone(),
            process: self.process,
            options: self.options,
            callback,
            patterns: self.patterns.clone(),
        }
    }
}

/// Copies a list of tags.
fn clone_tags(tags: &Vec<Tag>) -> (r: Vec<Tag>)
    ensures
        r@.len() == tags@.len(),
        forall|i: int| 0 <= i < r@.len() ==> same_tag(#[trigger] r@[i], tags@[i]),
{
    let mut v: Vec<Tag> = Vec::new();
    let mut i: usize = 0;
    while i < tags.len()
        invariant
            i <= tags@.len(),
            v@.len() == i,
            forall|j: int| 0 <= j < i ==> same_tag(#[trigger] v@[j], tags@[j]),
        decreases tags@.len() - i,
    {
        v.push(tags[i].clone());
        i = i + 1;
    }
    v
}

impl Tag {
    /// The tag's name.
    pub fn name(&self) -> (r: &str)
        ensures
            r@ == self.name@,
    {
        self.name.as_str()
    }

    /// Whether the tag is processed.
    pub fn process(&self) -> (r: bool)
        ensures
            r == self.process,
    {
        self.process
    }

    /// The tag's callback.
    pub fn callback(&self) -> (r: &Option<Callback>)
        ensures
            *r == self.callback,
    {
        &self.callback
    }

    /// Tags are processed unless told otherwise.
    pub fn default_process() -> (r: bool)
        ensures
            r,
    {
        true
    }

    /// Tags are processed unless told otherwise.
    pub fn process_default() -> (r: bool)
        ensures
            r,
    {
        true
    }

    /// The pattern type and the regex which match a text, if any.
    pub fn is_match(&self, text: &str) -> (r: Option<(PatternType, &Re)>)
        ensures
            match self.patterns.spec_match(text@) {
                Some((pt, src)) => r matches Some(m) && m.0 == pt && m.1@ == src,
                None => r is None,
            },
    {
        self.patterns.is_match(text)
    }
}

/// A search: a logfile definition and its tags.
#[derive(Debug)]
pub struct Search {
    /// The logfile, or the list of logfiles.
    pub logfile: LogFileDef,
    /// The tags searched for in it.
    pub tags: Vec<Tag>,
}

/// The pattern of an optional regex.
pub open spec fn opt_re_view(r: Option<Re>) -> Option<Seq<char>> {
    match r {
        Some(r) => Some(r@),
        None => None,
    }
}

/// Whether two searches have the same settings and tags, wherever their logfiles are.
pub open spec fn same_settings(a: Search, b: Search) -> bool {
    &&& a.logfile.format == b.logfile.format
    &&& opt_re_view(a.logfile.exclude) == opt_re_view(b.logfile.exclude)
    &&& a.logfile.archive == b.logfile.archive
    &&& a.logfile.logfilemissing == b.logfile.logfilemissing
    &&& a.tags@.len() == b.tags@.len()
    &&& forall|i: int| 0 <= i < a.tags@.len() ==> same_tag(#[trigger] a.tags@[i], b.tags@[i])
}

/// The logfile of a search, when it is a single one.
pub open spec fn path_of(s: Search) -> Option<Seq<char>> {
    match s.logfile.path {
        LogSource::LogFile(p) => Some(p@),
        _ => None,
    }
}

impl Clone for Search {
    fn clone(&self) -> (r: Search)
        ensures
            same_source(r.logfile.path, self.logfile.path),
            same_settings(r, *self),
    {
        let exclude = match &self.logfile.exclude {
            Some(re) => Some(re.clone()),
            None => None,
        };
        Search {
            logfile: LogFileDef {
                path: self.logfile.path.clone(),
                format: self.logfile.format,
                exclude,
                archive: self.logfile.archive.clone(),
                logfilemissing: self.logfile.logfilemissing,
            },
            tags: clone_tags(&self.tags),
        }
    }
}

impl Search {
    /// The names of the tags, in order.
    pub fn tag_names(&self) -> (r: Vec<&str>)
        ensures
            r@.len() == self.tags@.len(),
            forall|i: int| 0 <= i < r@.len() ==> (#[trigger] r@[i])@ == self.tags@[i].name@,
    {
        let mut v: Vec<&str> = Vec::new();
        let mut i: usize = 0;
        while i < self.tags.len()
            invariant
                i <= self.tags@.len(),
                v@.len() == i,
                forall|j: int| 0 <= j < i ==> (#[trigger] v@[j])@ == self.tags@[j].name@,
            decreases self.tags@.len() - i,
        {
            v.push(self.tags[i].name.as_str());
            i = i + 1;
        }
        v
    }

    /// The path of the logfile, when it is a single one.
    pub fn logfile(&self) -> (r: &String)
        requires
            self.logfile.path is LogFile,
        ensures
            path_of(*self) == Some(r@),
    {
        self.logfile.path()
    }

    /// The same search on another logfile.
    pub fn on_logfile(&self, file: &str) -> (r: Search)
        ensures
            path_of(r) == Some(file@),
            same_settings(r, *self),
    {
        let exclude = match &self.logfile.exclude {
            Some(re) => Some(re.clone()),
            None => None,
        };
        Search {
            logfile: LogFileDef {
                path: LogSource::LogFile(owned(file)),
                format: self.logfile.format,
                exclude,
                archive: self.logfile.archive.clone(),
                logfilemissing: self.logfile.logfilemissing,
            },
            tags: clone_tags(&self.tags),
        }
    }
}

/// The files that a command listed, or `None` when it failed.
pub open spec fn listed_view(l: Result<Vec<String>, AppError>) -> Option<Seq<Seq<char>>> {
    match l {
        Ok(v) => Some(v@.map_values(|s: String| s@)),
        Err(_) => None,
    }
}

/// What each command listed, or `None` for one that failed.
pub open spec fn listed_views(l: Seq<Result<Vec<String>, AppError>>) -> Seq<Option<Seq<Seq<char>>>> {
    l.map_values(|x: Result<Vec<String>, AppError>| listed_view(x))
}

/// The position of the first search of a list whose command failed, if any.
pub open spec fn first_failed(searches: Seq<Search>, lists: Seq<Option<Seq<Seq<char>>>>) -> Option<int> {
    if exists|i: int| 0 <= i < searches.len() && path_of(#[trigger] searches[i]) is None && lists[i] is None {
        Some(choose|i: int| 0 <= i < searches.len() && path_of(searches[i]) is None && lists[i] is None
            && forall|j: int| 0 <= j < i ==> !(path_of(#[trigger] searches[j]) is None && lists[j] is None))
    } else {
        None
    }
}

/// Where a search of a list has a failed command and none before it has, it is the first.
proof fn lemma_first_failed(searches: Seq<Search>, lists: Seq<Option<Seq<Seq<char>>>>, i: int)
    requires
        0 <= i < searches.len(),
        path_of(searches[i]) is None && lists[i] is None,
        forall|j: int| 0 <= j < i ==> !(path_of(#[trigger] searches[j]) is None && lists[j] is None),
    ensures
        first_failed(searches, lists) == Some(i),
{
    let c = first_failed(searches, lists)->0;
    assert(first_failed(searches, lists) is Some);
    if c < i {
        assert(!(path_of(searches[c]) is None && lists[c] is None));
    } else if c > i {
        assert(!(path_of(searches[i]) is None && lists[i] is None));
    }
}

/// The paths of the searches of single logfiles, in order.
pub open spec fn single_paths(searches: Seq<Search>) -> Seq<Seq<char>>
    decreases searches.len(),
{
    if searches.len() == 0 {
        Seq::empty()
    } else {
        match path_of(searches.last()) {
            Some(p) => single_paths(searches.drop_last()).push(p),
            None => single_paths(searches.drop_last()),
        }
    }
}

/// The files listed for the searches of lists, in the order of the searches, then of the files.
pub open spec fn listed_paths(searches: Seq<Search>, lists: Seq<Option<Seq<Seq<char>>>>) -> Seq<Seq<char>>
    decreases searches.len(),
{
    if searches.len() == 0 {
        Seq::empty()
    } else {
        let rest = listed_paths(searches.drop_last(), lists.take(searches.len() - 1));
        match (path_of(searches.last()), lists[searches.len() - 1]) {
            (None, Some(f)) => rest + f,
            _ => rest,
        }
    }
}

/// The searches of single logfiles, in order.
pub open spec fn single_searches(searches: Seq<Search>) -> Seq<Search>
    decreases searches.len(),
{
    if searches.len() == 0 {
        Seq::empty()
    } else {
        match path_of(searches.last()) {
            Some(_) => single_searches(searches.drop_last()).push(searches.last()),
            None => single_searches(searches.drop_last()),
        }
    }
}

/// For each listed file, in the order of `listed_paths`, the search of the list it comes from.
pub open spec fn listed_origins(searches: Seq<Search>, lists: Seq<Option<Seq<Seq<char>>>>) -> Seq<Search>
    decreases searches.len(),
{
    if searches.len() == 0 {
        Seq::empty()
    } else {
        let rest = listed_origins(searches.drop_last(), lists.take(searches.len() - 1));
        match (path_of(searches.last()), lists[searches.len() - 1]) {
            (None, Some(f)) => rest + Seq::new(f.len(), |_i: int| searches.last()),
            _ => rest,
        }
    }
}

/// Whether each search of a list has the settings and tags of the search at the same place
/// of another list of the same length.
pub open spec fn all_same_settings(a: Seq<Search>, b: Seq<Search>) -> bool {
    &&& a.len() == b.len()
    &&& forall|k: int| 0 <= k < a.len() ==> same_settings(#[trigger] a[k], b[k])
}

/// Expands the lists of logfiles: `lists` holds, for each search of a list, what its command
/// listed (the entries of the other searches are not read). The searches of single logfiles
/// come first, in order, then one search per listed file, in the order of the lists and of their
/// files, with the tags of its list. A command that failed makes the expansion fail with its
/// error, the first one in order.
pub fn fill_logdef(searches: &Vec<Search>, lists: &Vec<Result<Vec<String>, AppError>>) -> (r: Result<Vec<Search>, AppError>)
    requires
        lists@.len() == searches@.len(),
    ensures
        ({
            let lv = listed_views(lists@);
            match first_failed(searches@, lv) {
                Some(i) => r matches Err(e) && lists@[i] == Err::<Vec<String>, AppError>(e),
                None => r matches Ok(v) && v@.map_values(|s: Search| path_of(s)) == (single_paths(searches@)
                    + listed_paths(searches@, lv)).map_values(|p: Seq<char>| Some(p)) && all_same_settings(
                    v@,
                    single_searches(searches@) + listed_origins(searches@, lv),
                ),
            }
        }),
{
    let ghost lv = listed_views(lists@);
    let ghost lists0 = lists@;
    // first, the first failed command, if any
    let mut i: usize = 0;
    while i < searches.len()
        invariant
            i <= searches@.len(),
            lists@ == lists0,
            lists0.len() == searches@.len(),
            lv == listed_views(lists0),
            forall|j: int| 0 <= j < i ==> !(path_of(#[trigger] searches@[j]) is None && lv[j] is None),
        decreases searches@.len() - i,
    {
        if !searches[i].logfile.path.is_path() && lists[i].is_err() {
            proof {
                assert(path_of(searches@[i as int]) is None && lv[i as int] is None);
                lemma_first_failed(searches@, lv, i as int);
            }
            match &lists[i] {
                Err(e) => {
                    return Err(e.clone());
                },
                Ok(_) => {
                    return vstd::pervasive::unreached();
                },
            }
        }
        i = i + 1;
    }
    assert(first_failed(searches@, lv) is None);
    // the searches of single logfiles
    let mut out: Vec<Search> = Vec::new();
    let mut j: usize = 0;
    assert(searches@.take(0) =~= Seq::<Search>::empty());
    while j < searches.len()
        invariant
            j <= searches@.len(),
            out@.map_values(|s: Search| path_of(s)) == single_paths(searches@.take(j as int)).map_values(
                |p: Seq<char>| Some(p),
            ),
            all_same_settings(out@, single_searches(searches@.take(j as int))),
        decreases searches@.len() - j,
    {
        let ghost before = out@;
        assert(searches@.take(j + 1).drop_last() =~= searches@.take(j as int));
        assert(searches@.take(j + 1).last() == searches@[j as int]);
        if let LogSource::LogFile(p) = &searches[j].logfile.path {
            let s = searches[j].on_logfile(p.as_str());
            out.push(s);
            assert(out@.map_values(|s: Search| path_of(s)) =~= before.map_values(|s: Search| path_of(s)).push(Some(p@)));
            assert(single_paths(searches@.take(j + 1)) == single_paths(searches@.take(j as int)).push(p@));
            assert(single_paths(searches@.take(j + 1)).map_values(|p: Seq<char>| Some(p)) =~= single_paths(
                searches@.take(j as int),
            ).map_values(|p: Seq<char>| Some(p)).push(Some(p@)));
            assert(single_searches(searches@.take(j + 1)) == single_searches(searches@.take(j as int)).push(
                searches@[j as int],
            ));
            assert forall|k: int| 0 <= k < out@.len() implies same_settings(
                #[trigger] out@[k],
                single_searches(searches@.take(j + 1))[k],
            ) by {
                if k < before.len() {
                    assert(out@[k] == before[k]);
                }
            }
        }
        j = j + 1;
    }
    assert(searches@.take(searches@.len() as int) =~= searches@);
    let ghost singles = out@.map_values(|s: Search| path_of(s));
    let ghost single_orig = single_searches(searches@);
    // then one search per listed file
    let mut k: usize = 0;
    assert(lv.take(0) =~= Seq::<Option<Seq<Seq<char>>>>::empty());
    assert(single_orig + listed_origins(searches@.take(0), lv.take(0)) =~= single_orig);
    while k < searches.len()
        invariant
            k <= searches@.len(),
            lists@ == lists0,
            lists0.len() == searches@.len(),
            lv == listed_views(lists0),
            singles == single_paths(searches@).map_values(|p: Seq<char>| Some(p)),
            single_orig == single_searches(searches@),
            out@.map_values(|s: Search| path_of(s)) == singles + listed_paths(
                searches@.take(k as int),
                lv.take(k as int),
            ).map_values(|p: Seq<char>| Some(p)),
            all_same_settings(out@, single_orig + listed_origins(searches@.take(k as int), lv.take(k as int))),
        decreases searches@.len() - k,
    {
        assert(searches@.take(k + 1).drop_last() =~= searches@.take(k as int));
        assert(lv.take(k + 1).take(k as int) =~= lv.take(k as int));
        assert(lv.take(k + 1)[k as int] == lv[k as int]);
        assert(searches@.take(k + 1).last() == searches@[k as int]);
        let ghost base = out@.map_values(|s: Search| path_of(s));
        let ghost base_orig = single_orig + listed_origins(searches@.take(k as int), lv.take(k as int));
        if !searches[k].logfile.path.is_path() {
            if let Ok(files) = &lists[k] {
                let ghost fv = files@.map_values(|s: String| s@);
                assert(lv[k as int] == Some(fv));
                let mut f: usize = 0;
                assert(fv.take(0) =~= Seq::<Seq<char>>::empty());
                assert(base_orig + Seq::new(0, |_i: int| searches@[k as int]) =~= base_orig);
                while f < files.len()
                    invariant
                        k < searches@.len(),
                        f <= files@.len(),
                        fv == files@.map_values(|s: String| s@),
                        out@.map_values(|s: Search| path_of(s)) == base + fv.take(f as int).map_values(
                            |p: Seq<char>| Some(p),
                        ),
                        all_same_settings(out@, base_orig + Seq::new(f as nat, |_i: int| searches@[k as int])),
                    decreases files@.len() - f,
                {
                    let ghost b2 = out@;
                    let s = searches[k].on_logfile(files[f].as_str());
                    out.push(s);
                    assert(out@.map_values(|s: Search| path_of(s)) =~= b2.map_values(|s: Search| path_of(s)).push(Some(fv[f as int])));
                    assert(fv.take(f + 1).map_values(|p: Seq<char>| Some(p)) =~= fv.take(f as int).map_values(
                        |p: Seq<char>| Some(p),
                    ).push(Some(fv[f as int])));
                    assert(base_orig + Seq::new((f + 1) as nat, |_i: int| searches@[k as int]) =~= (base_orig
                        + Seq::new(f as nat, |_i: int| searches@[k as int])).push(searches@[k as int]));
                    assert forall|q: int| 0 <= q < out@.len() implies same_settings(
                        #[trigger] out@[q],
                        (base_orig + Seq::new((f + 1) as nat, |_i: int| searches@[k as int]))[q],
                    ) by {
                        if q < b2.len() {
                            assert(out@[q] == b2[q]);
                        }
                    }
                    f = f + 1;
                }
                assert(fv.take(files@.len() as int) =~= fv);
                assert(listed_paths(searches@.take(k + 1), lv.take(k + 1)) == listed_paths(
                    searches@.take(k as int),
                    lv.take(k as int),
                ) + fv);
                assert((listed_paths(searches@.take(k as int), lv.take(k as int)) + fv).map_values(
                    |p: Seq<char>| Some(p),
                ) =~= listed_paths(searches@.take(k as int), lv.take(k as int)).map_values(
                    |p: Seq<char>| Some(p),
                ) + fv.map_values(|p: Seq<char>| Some(p)));
                assert(listed_origins(searches@.take(k + 1), lv.take(k + 1)) == listed_origins(
                    searches@.take(k as int),
                    lv.take(k as int),
                ) + Seq::new(fv.len(), |_i: int| searches@[k as int]));
                assert(single_orig + listed_origins(searches@.take(k + 1), lv.take(k + 1)) =~= base_orig
                    + Seq::new(fv.len(), |_i: int| searches@[k as int]));
            } else {
                assert(listed_paths(searches@.take(k + 1), lv.take(k + 1)) == listed_paths(
                    searches@.take(k as int),
                    lv.take(k as int),
                ));
                assert(listed_origins(searches@.take(k + 1), lv.take(k + 1)) == listed_origins(
                    searches@.take(k as int),
                    lv.take(k as int),
                ));
            }
        } else {
            assert(listed_paths(searches@.take(k + 1), lv.take(k + 1)) == listed_paths(
                searches@.take(k as int),
                lv.take(k as int),
            ));
            assert(listed_origins(searches@.take(k + 1), lv.take(k + 1)) == listed_origins(
                searches@.take(k as int),
                lv.take(k as int),
            ));
        }
        k = k + 1;
    }
    assert(lv.take(searches@.len() as int) =~= lv);
    assert((single_paths(searches@) + listed_paths(searches@, lv)).map_values(|p: Seq<char>| Some(p))
        =~= single_paths(searches@).map_values(|p: Seq<char>| Some(p)) + listed_paths(searches@, lv).map_values(
        |p: Seq<char>| Some(p),
    ));
    Ok(out)
}

/// The global options, which apply to all searches.
#[derive(Debug, Clone)]
pub struct GlobalOptions {
    /// A `:`-separated list of paths where a script is looked for.
    pub path: String,
    /// A directory where matched lines are stored.
    pub output_dir: String,
    /// The snapshot file name, if given.
    pub snapshot_file: Option<String>,
    /// Retention time for tags, in seconds.
    pub snapshot_retention: u64,
    /// User variables, if any.
    pub user_vars: Option<Table<String>>,
    /// Global variables handed to the callbacks.
    pub global_vars: Table<String>,
}

impl GlobalOptions {
    /// The default options: the script path is the `PATH` of the environment (or a standard
    /// one when it is not set), matched lines go to the temporary directory, no snapshot file
    /// is set, tags are kept a week, and there are no variables.
    pub fn with_defaults(env_path: Option<String>, temp_dir: String) -> (r: GlobalOptions)
        ensures
            r.path@ == match env_path {
                Some(p) => p@,
                None => "/usr/sbin:/usr/bin:/sbin:/bin"@,
            },
            r.output_dir@ == temp_dir@,
            r.snapshot_file is None,
            r.snapshot_retention == 604800,
            r.user_vars is None,
            r.global_vars@.len() == 0,
    {
        let path = match env_path {
            Some(p) => p,
            None => owned("/usr/sbin:/usr/bin:/sbin:/bin"),
        };
        GlobalOptions {
            path,
            output_dir: temp_dir,
            snapshot_file: None,
            snapshot_retention: 7 * 24 * 3600,
            user_vars: None,
            global_vars: Table::new(),
        }
    }

    /// The list of paths where a script is looked for.
    pub fn path(&self) -> (r: &str)
        ensures
            r@ == self.path@,
    {
        self.path.as_str()
    }

    /// The user variables, if any.
    pub fn user_vars(&self) -> (r: &Option<Table<String>>)
        ensures
            *r == self.user_vars,
    {
        &self.user_vars
    }

    /// Adds the variables which do not depend on a logfile: the configuration file, the user,
    /// the host name and the platform, as found on this machine.
    pub fn insert_process_env(&mut self, config_file: &str, user: &str, hostname: &str, platform: &str)
        ensures
            str_entries(final(self).global_vars@) == set_entry(
                set_entry(
                    set_entry(
                        set_entry(
                            str_entries(old(self).global_vars@),
                            prefixed("CONFIG_FILE"@),
                            config_file@,
                        ),
                        prefixed("USER"@),
                        user@,
                    ),
                    prefixed("HOSTNAME"@),
                    hostname@,
                ),
                prefixed("PLATFORM"@),
                platform@,
            ),
    {
        self.set_global(crate::vars::prefix_var("CONFIG_FILE"), owned(config_file));
        self.set_global(crate::vars::prefix_var("USER"), owned(user));
        self.set_global(crate::vars::prefix_var("HOSTNAME"), owned(hostname));
        self.set_global(crate::vars::prefix_var("PLATFORM"), owned(platform));
    }

    /// Sets a global variable by its full name.
    fn set_global(&mut self, name: String, value: String)
        ensures
            str_entries(final(self).global_vars@) == set_entry(
                str_entries(old(self).global_vars@),
                name@,
                value@,
            ),
    {
        proof {
            crate::table::lemma_set_entry_str(self.global_vars@, name@, value);
        }
        let _ = self.global_vars.insert(name, value);
    }

    /// Adds the extra global variables given on the command line, each as `name:value`; a
    /// variable not of that form (not exactly one `:`) is skipped.
    pub fn insert_extra_vars(&mut self, vars: &Option<Vec<String>>)
        ensures
            vars is None ==> final(self).global_vars@ == old(self).global_vars@,
            vars matches Some(v) ==> str_entries(final(self).global_vars@) == crate::table::insert_all(
                str_entries(old(self).global_vars@),
                extra_vars(v@.map_values(|s: String| s@)),
            ),
    {
        if let Some(v) = vars {
            let ghost vv = v@.map_values(|s: String| s@);
            let ghost g0 = str_entries(self.global_vars@);
            let mut i: usize = 0;
            assert(vv.take(0) =~= Seq::<Seq<char>>::empty());
            while i < v.len()
                invariant
                    i <= v@.len(),
                    vv == v@.map_values(|s: String| s@),
                    str_entries(self.global_vars@) == crate::table::insert_all(g0, extra_vars(vv.take(i as int))),
                decreases v@.len() - i,
            {
                assert(vv.take(i + 1).drop_last() =~= vv.take(i as int));
                assert(vv.take(i + 1).last() == v@[i as int]@);
                let cs = chars_of(v[i].as_str());
                let parts = split_chars(cs.as_slice(), ':');
                if parts.len() == 2 {
                    let name = crate::vars::prefix_var(string_of(parts[0].as_slice()).as_str());
                    let value = string_of(parts[1].as_slice());
                    proof {
                        let xs = extra_vars(vv.take(i as int));
                        assert(extra_vars(vv.take(i + 1)) == xs.push((name@, value@)));
                        assert(xs.push((name@, value@)).drop_last() =~= xs);
                    }
                    self.set_global(name, value);
                }
                i = i + 1;
            }
            assert(vv.take(v@.len() as int) =~= vv);
        }
    }
}

/// The variables given on the command line: `name:value` gives `CLF_name` set to `value`;
/// anything not of that form is skipped.
pub open spec fn extra_vars(vars: Seq<Seq<char>>) -> Seq<(Seq<char>, Seq<char>)>
    decreases vars.len(),
{
    if vars.len() == 0 {
        Seq::empty()
    } else {
        let parts = split(vars.last(), ':');
        let rest = extra_vars(vars.drop_last());
        if parts.len() == 2 {
            rest.push((prefixed(parts[0]), parts[1]))
        } else {
            rest
        }
    }
}

/// The global part of a configuration file.
#[derive(Debug, Clone)]
pub struct Global {
    /// The paths where a script is looked for.
    pub pathlist: Option<PathList>,
    /// A directory where matched lines are stored.
    pub outputdir: String,
    /// A directory where the snapshot file is kept.
    pub snapshotdir: String,
}

/// The whole configuration.
#[derive(Debug, Clone)]
pub struct Config {
    /// The global options.
    pub global: GlobalOptions,
    /// The searches.
    pub searches: Vec<Search>,
}

impl Config {
    /// The global options.
    pub fn global(&self) -> (r: &GlobalOptions)
        ensures
            *r == self.global,
    {
        &self.global
    }

    /// Sets the snapshot file.
    pub fn set_snapshot_file(&mut self, snapfile: &str)
        ensures
            final(self).global.snapshot_file matches Some(f) && f@ == snapfile@,
            final(self).global.snapshot_retention == old(self).global.snapshot_retention,
            final(self).searches == old(self).searches,
    {
        self.global.snapshot_file = Some(owned(snapfile));
    }

    /// The snapshot file, if set.
    pub fn snapshot_file(&self) -> (r: &Option<String>)
        ensures
            *r == self.global.snapshot_file,
    {
        &self.global.snapshot_file
    }

    /// The snapshot retention, in seconds.
    pub fn snapshot_retention(&self) -> (r: u64)
        ensures
            r == self.global.snapshot_retention,
    {
        self.global.snapshot_retention
    }

    /// The global options.
    pub fn get_global(&self) -> (r: &GlobalOptions)
        ensures
            *r == self.global,
    {
        &self.global
    }

    /// The snapshot retention, in seconds.
    pub fn get_snapshot_retention(&self) -> (r: u64)
        ensures
            r == self.global.snapshot_retention,
    {
        self.global.snapshot_retention
    }

    /// A copy of the user variables, if any.
    pub fn get_user_vars(&self) -> (r: Option<Table<String>>)
        ensures
            r is Some <==> self.global.user_vars is Some,
            r matches Some(t) ==> str_entries(t@) == str_entries(self.global.user_vars->0@),
    {
        match &self.global.user_vars {
            Some(t) => {
                let c = t.clone();
                assert(str_entries(c@) =~= str_entries(t@));
                Some(c)
            },
            None => None,
        }
    }
}

} // verus!

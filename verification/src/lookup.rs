//! The search of a logfile for the patterns of a tag, line by line. Reading the lines and
//! calling the callbacks is left to the caller: this module decides, for each line read, what
//! the line gives (a hit or not, a callback to run or not) and keeps the counters and offsets.
use vstd::prelude::*;

use crate::error::{AppCustomErrorKind, AppError};
use crate::logfile::RunData;
use crate::options::SearchOptions;
use crate::pattern::{re_captures, re_is_match, PatternSet, PatternType, Re};
use crate::text::{chars_of, decimal, owned, push_str, str_is, string_of, u64_to_decimal};
use crate::table::{insert_all, law_lookup_after_set, lookup, set_entry};
use crate::variables::{cg_texts, prefixed, Variables};

verus! {

/// How a logfile is read: decompressed with gzip, or as it is.
#[derive(Debug, Clone, Copy, PartialEq, Eq, Structural)]
pub enum ReaderKind {
    Gzip,
    Plain,
}

/// How a logfile is read: a `gz` extension means gzip; any other, or none, plain.
pub fn reader_kind(extension: &Option<String>) -> (r: ReaderKind)
    ensures
        r == (if extension matches Some(e) && e@ == "gz"@ {
            ReaderKind::Gzip
        } else {
            ReaderKind::Plain
        }),
{
    match extension {
        Some(e) => if str_is(e.as_str(), "gz") {
            ReaderKind::Gzip
        } else {
            ReaderKind::Plain
        },
        None => ReaderKind::Plain,
    }
}

/// The result of moving a decompressed stream to an offset by reading the bytes before it:
/// nothing to read for offset 0; otherwise the offset is reached when the byte before it
/// could be read, and a stream which ends before is an error.
pub fn skip_result(offset: u64, reached: bool) -> (r: Result<u64, AppError>)
    ensures
        offset == 0 || reached ==> r == Ok::<u64, AppError>(offset),
        offset != 0 && !reached ==> (r matches Err(AppError::App { err, msg }) && err
            == AppCustomErrorKind::SeekPosBeyondEof && msg@ == "tried to set offset beyond EOF, at offset: "@
            + decimal(offset as nat)),
{
    if offset == 0 || reached {
        Ok(offset)
    } else {
        let mut msg = owned("tried to set offset beyond EOF, at offset: ");
        push_str(&mut msg, u64_to_decimal(offset).as_str());
        Err(AppError::App { err: AppCustomErrorKind::SeekPosBeyondEof, msg })
    }
}

/// The counters of a search, as they are reported.
#[derive(Debug, Clone, Copy, PartialEq, Eq, Structural)]
pub struct Counters {
    /// Number of critical hits.
    pub critical_count: u64,
    /// Number of warning hits.
    pub warning_count: u64,
    /// Number of ok matches.
    pub ok_count: u64,
    /// Number of callbacks run.
    pub exec_count: u64,
}

/// Where a search of a logfile for a tag stands.
#[derive(Debug, Clone, Copy, PartialEq, Eq, Structural)]
pub struct Scan {
    /// Bytes read so far, counted from the start of the file.
    pub bytes_count: u64,
    /// Number of the last line read.
    pub line_number: u64,
    /// Warning matches met since the last ok match, compared with the warning threshold.
    pub warning_hits: u64,
    /// Critical matches met since the last ok match, compared with the critical threshold.
    pub critical_hits: u64,
    /// The counters of the search.
    pub counters: Counters,
    /// Whether the lines are only counted, up to the end of the file, with nothing matched:
    /// the `fastforward` option on a logfile that the tag has not searched before.
    pub fast_forward: bool,
}

/// What a line read gives, when it is a hit: its pattern type and whether the callback is to
/// be run for it.
#[derive(Debug, Clone, Copy, PartialEq, Eq, Structural)]
pub struct Verdict {
    pub pattern_type: PatternType,
    pub run_callback: bool,
}

/// The text that the patterns are matched against: the line cut to `truncate` characters
/// when that option is set (0: not cut).
pub open spec fn truncated(line: Seq<char>, truncate: usize) -> Seq<char> {
    if truncate > 0 && line.len() > truncate {
        line.take(truncate as int)
    } else {
        line
    }
}

/// Whether a search may read one more line without its counters overflowing.
pub open spec fn can_step(s: Scan, bytes_read: u64) -> bool {
    &&& s.bytes_count + bytes_read <= u64::MAX
    &&& s.line_number < u64::MAX
    &&& s.warning_hits < u64::MAX
    &&& s.critical_hits < u64::MAX
    &&& s.counters.critical_count < u64::MAX
    &&& s.counters.warning_count < u64::MAX
    &&& s.counters.ok_count < u64::MAX
    &&& s.counters.exec_count < u64::MAX
}

/// The search state after a line of `bytes_read` bytes whose text matched a pattern of type
/// `m` (or none), and what that line gives:
/// - a critical or warning match counts toward its threshold, and is a hit once the threshold
///   is reached; the callback is run for a hit when `runcallback` is set, at most `runlimit`
///   times;
/// - an ok match is a hit and resets both threshold counts; it runs the callback only when
///   `runcallback` and `runifok` are both set, within `runlimit`;
/// - a line that matches nothing gives nothing, and so does any line while the search moves
///   fast forward.
pub open spec fn step(s: Scan, o: SearchOptions, m: Option<PatternType>, bytes_read: u64) -> (Scan, Option<Verdict>) {
    let base = Scan {
        bytes_count: (s.bytes_count + bytes_read) as u64,
        line_number: (s.line_number + 1) as u64,
        ..s
    };
    let m = if s.fast_forward { None } else { m };
    match m {
        None => (base, None),
        Some(PatternType::ok) => {
            let run = o.runcallback && o.runifok && s.counters.exec_count < o.runlimit;
            (
                Scan {
                    warning_hits: 0,
                    critical_hits: 0,
                    counters: Counters {
                        ok_count: (s.counters.ok_count + 1) as u64,
                        exec_count: if run {
                            (s.counters.exec_count + 1) as u64
                        } else {
                            s.counters.exec_count
                        },
                        ..s.counters
                    },
                    ..base
                },
                Some(Verdict { pattern_type: PatternType::ok, run_callback: run }),
            )
        },
        Some(PatternType::warning) => {
            let hits = (s.warning_hits + 1) as u64;
            if hits < o.warningthreshold {
                (Scan { warning_hits: hits, ..base }, None)
            } else {
                let run = o.runcallback && s.counters.exec_count < o.runlimit;
                (
                    Scan {
                        warning_hits: hits,
                        counters: Counters {
                            warning_count: (s.counters.warning_count + 1) as u64,
                            exec_count: if run {
                                (s.counters.exec_count + 1) as u64
                            } else {
                                s.counters.exec_count
                            },
                            ..s.counters
                        },
                        ..base
                    },
                    Some(Verdict { pattern_type: PatternType::warning, run_callback: run }),
                )
            }
        },
        Some(PatternType::critical) => {
            let hits = (s.critical_hits + 1) as u64;
            if hits < o.criticalthreshold {
                (Scan { critical_hits: hits, ..base }, None)
            } else {
                let run = o.runcallback && s.counters.exec_count < o.runlimit;
                (
                    Scan {
                        critical_hits: hits,
                        counters: Counters {
                            critical_count: (s.counters.critical_count + 1) as u64,
                            exec_count: if run {
                                (s.counters.exec_count + 1) as u64
                            } else {
                                s.counters.exec_count
                            },
                            ..s.counters
                        },
                        ..base
                    },
                    Some(Verdict { pattern_type: PatternType::critical, run_callback: run }),
                )
            }
        },
    }
}

/// Whether a line is to be ignored: the logfile's `exclude` regex, when there is one, matches it.
pub open spec fn is_excluded(exclude: Option<Re>, line: Seq<char>) -> bool {
    match exclude {
        Some(r) => re_is_match(r@, line),
        None => false,
    }
}

/// The pattern type of what a pattern set matches.
pub open spec fn match_type(p: PatternSet, t: Seq<char>) -> Option<PatternType> {
    match p.spec_match(t) {
        Some((pt, _)) => Some(pt),
        None => None,
    }
}

impl Scan {
    /// Where a search starts: from the offset and line recorded by the last run, or from the
    /// beginning of the file with the `rewind` option. The threshold counts go on from those
    /// of the last run with the `savethresholdcount` option, and start at 0 otherwise.
    pub open spec fn spec_start(rundata: RunData, o: SearchOptions, fresh: bool) -> Scan {
        Scan {
            bytes_count: if o.rewind { 0 } else { rundata.last_offset },
            line_number: if o.rewind { 0 } else { rundata.last_line },
            warning_hits: if o.savethresholdcount { rundata.warning_hits } else { 0 },
            critical_hits: if o.savethresholdcount { rundata.critical_hits } else { 0 },
            counters: Counters { critical_count: 0, warning_count: 0, ok_count: 0, exec_count: 0 },
            fast_forward: o.fastforward && fresh,
        }
    }

    /// Where a search starts: from the offset and line recorded by the last run, or from the
    /// beginning of the file with the `rewind` option. The caller seeks to `bytes_count`.
    /// `fresh` tells that the tag has no run data yet for this logfile: with the `fastforward`
    /// option, such a search only moves to the end of the file. The threshold counts go on
    /// from those of the last run with the `savethresholdcount` option.
    pub fn start(rundata: &RunData, options: &SearchOptions, fresh: bool) -> (r: Scan)
        ensures
            r == Scan::spec_start(*rundata, *options, fresh),
    {
        Scan {
            bytes_count: if options.rewind { 0 } else { rundata.last_offset },
            line_number: if options.rewind { 0 } else { rundata.last_line },
            warning_hits: if options.savethresholdcount { rundata.warning_hits } else { 0 },
            critical_hits: if options.savethresholdcount { rundata.critical_hits } else { 0 },
            counters: Counters { critical_count: 0, warning_count: 0, ok_count: 0, exec_count: 0 },
            fast_forward: options.fastforward && fresh,
        }
    }

    /// Whether one more line of `bytes_read` bytes can be taken into account without a
    /// counter overflowing.
    pub fn can_step(&self, bytes_read: u64) -> (r: bool)
        ensures
            r == can_step(*self, bytes_read),
    {
        self.bytes_count <= u64::MAX - bytes_read && self.line_number < u64::MAX
            && self.warning_hits < u64::MAX && self.critical_hits < u64::MAX
            && self.counters.critical_count < u64::MAX && self.counters.warning_count < u64::MAX
            && self.counters.ok_count < u64::MAX && self.counters.exec_count < u64::MAX
    }

    /// Whether the search is over before the next line: the `stopat` option (0: never) stops
    /// it once that line number is reached.
    pub fn is_stopped(&self, options: &SearchOptions) -> (r: bool)
        ensures
            r == (options.stopat > 0 && self.line_number >= options.stopat),
    {
        options.stopat > 0 && self.line_number >= options.stopat
    }

    /// Takes a line of `bytes_read` bytes (its end of line included) into account, and tells
    /// what it gives: a hit, with its pattern type, the regex that matched and whether the
    /// callback is to be run; or nothing. A line that the logfile's `exclude` regex matches is
    /// counted and otherwise ignored.
    pub fn on_line<'a>(
        &mut self,
        options: &SearchOptions,
        patterns: &'a PatternSet,
        exclude: &Option<Re>,
        line: &str,
        bytes_read: u64,
    ) -> (r: Option<(Verdict, &'a Re)>)
        requires
            can_step(*old(self), bytes_read),
        ensures
            ({
                let t = truncated(line@, options.truncate);
                let m = if is_excluded(*exclude, line@) {
                    None
                } else {
                    match_type(*patterns, t)
                };
                let (s2, v) = step(*old(self), *options, m, bytes_read);
                &&& *final(self) == s2
                &&& match v {
                    Some(v) => r matches Some(h) && h.0 == v && (patterns.spec_match(t) matches Some(
                        m,
                    ) && h.1@ == m.1),
                    None => r is None,
                }
            }),
    {
        let text = chars_of(line);
        let cut = if options.truncate > 0 && text.len() > options.truncate {
            let mut v: Vec<char> = Vec::new();
            let mut i: usize = 0;
            while i < options.truncate
                invariant
                    i <= options.truncate,
                    options.truncate < text@.len(),
                    v@ == text@.take(i as int),
                decreases options.truncate - i,
            {
                v.push(text[i]);
                i = i + 1;
                assert(v@ == text@.take(i as int));
            }
            v
        } else {
            text
        };
        let t = string_of(cut.as_slice());
        assert(t@ == truncated(line@, options.truncate));
        self.bytes_count = self.bytes_count + bytes_read;
        self.line_number = self.line_number + 1;
        if self.fast_forward {
            return None;
        }
        if let Some(ex) = exclude {
            if ex.is_match(line) {
                return None;
            }
        }
        match patterns.is_match(t.as_str()) {
            None => None,
            Some((pt, re)) => {
                match pt {
                    PatternType::ok => {
                        self.warning_hits = 0;
                        self.critical_hits = 0;
                        self.counters.ok_count = self.counters.ok_count + 1;
                        let run = options.runcallback && options.runifok && self.counters.exec_count
                            < options.runlimit;
                        if run {
                            self.counters.exec_count = self.counters.exec_count + 1;
                        }
                        Some((Verdict { pattern_type: PatternType::ok, run_callback: run }, re))
                    },
                    PatternType::warning => {
                        self.warning_hits = self.warning_hits + 1;
                        if self.warning_hits < options.warningthreshold {
                            None
                        } else {
                            let run = options.runcallback && self.counters.exec_count
                                < options.runlimit;
                            self.counters.warning_count = self.counters.warning_count + 1;
                            if run {
                                self.counters.exec_count = self.counters.exec_count + 1;
                            }
                            Some(
                                (Verdict { pattern_type: PatternType::warning, run_callback: run }, re),
                            )
                        }
                    },
                    PatternType::critical => {
                        self.critical_hits = self.critical_hits + 1;
                        if self.critical_hits < options.criticalthreshold {
                            None
                        } else {
                            let run = options.runcallback && self.counters.exec_count
                                < options.runlimit;
                            self.counters.critical_count = self.counters.critical_count + 1;
                            if run {
                                self.counters.exec_count = self.counters.exec_count + 1;
                            }
                            Some(
                                (Verdict { pattern_type: PatternType::critical, run_callback: run }, re),
                            )
                        }
                    },
                }
            },
        }
    }

    /// Records where the search ended, and when, in the tag's run data, with its counters and
    /// threshold counts.
    pub fn finish(&self, rundata: &mut RunData, now: u64)
        ensures
            final(rundata).tag_name == old(rundata).tag_name,
            final(rundata).last_offset == self.bytes_count,
            final(rundata).last_line == self.line_number,
            final(rundata).last_run == now,
            final(rundata).counters == self.counters,
            final(rundata).warning_hits == self.warning_hits,
            final(rundata).critical_hits == self.critical_hits,
    {
        rundata.last_offset = self.bytes_count;
        rundata.last_line = self.line_number;
        rundata.last_run = now;
        rundata.counters = self.counters;
        rundata.warning_hits = self.warning_hits;
        rundata.critical_hits = self.critical_hits;
    }
}

/// The runtime variables after a hit: `CLF_LINE_NUMBER`, `CLF_LINE`, `CLF_MATCHED_RE`,
/// `CLF_MATCHED_RE_TYPE`, `CLF_TAG`, then the counts so far `CLF_OK_COUNT`,
/// `CLF_WARNING_COUNT` and `CLF_CRITICAL_COUNT`, set in that order; then, when the regex
/// matches the line, the variables of its capture groups (`CLF_CG_i`, `CLF_CG_name`) and
/// `CLF_NB_CG`, the number of groups.
pub open spec fn hit_vars(
    v: Seq<(Seq<char>, Seq<char>)>,
    tag_name: Seq<char>,
    line: Seq<char>,
    s: Scan,
    verdict: Verdict,
    re: Seq<char>,
) -> Seq<(Seq<char>, Seq<char>)> {
    let v1 = set_entry(v, prefixed("LINE_NUMBER"@), decimal(s.line_number as nat));
    let v2 = set_entry(v1, prefixed("LINE"@), line);
    let v3 = set_entry(v2, prefixed("MATCHED_RE"@), re);
    let v4 = set_entry(v3, prefixed("MATCHED_RE_TYPE"@), verdict.pattern_type.spec_name());
    let v5 = set_entry(v4, prefixed("TAG"@), tag_name);
    let v6 = set_entry(v5, prefixed("OK_COUNT"@), decimal(s.counters.ok_count as nat));
    let v7 = set_entry(v6, prefixed("WARNING_COUNT"@), decimal(s.counters.warning_count as nat));
    let v8 = set_entry(v7, prefixed("CRITICAL_COUNT"@), decimal(s.counters.critical_count as nat));
    if re_is_match(re, line) {
        set_entry(
            insert_all(v8, cg_texts(re_captures(re, line)->0)),
            prefixed("NB_CG"@),
            decimal(re_captures(re, line)->0.len()),
        )
    } else {
        v8
    }
}

/// Sets the variables of a hit, for the callback: the line, its number, the regex, its type,
/// the tag's name and the counts of the search so far, then the capture groups of the regex
/// in the line and their number.
pub fn set_hit_vars(vars: &mut Variables, tag_name: &str, line: &str, scan: &Scan, verdict: &Verdict, re: &Re)
    ensures
        final(vars).runtime_view() == hit_vars(
            old(vars).runtime_view(),
            tag_name@,
            line@,
            *scan,
            *verdict,
            re@,
        ),
        final(vars).user_vars == old(vars).user_vars,
{
    vars.insert("LINE_NUMBER", u64_to_decimal(scan.line_number).as_str());
    vars.insert("LINE", line);
    vars.insert("MATCHED_RE", re.as_str());
    vars.insert("MATCHED_RE_TYPE", verdict.pattern_type.name());
    vars.insert("TAG", tag_name);
    vars.insert("OK_COUNT", u64_to_decimal(scan.counters.ok_count).as_str());
    vars.insert("WARNING_COUNT", u64_to_decimal(scan.counters.warning_count).as_str());
    vars.insert("CRITICAL_COUNT", u64_to_decimal(scan.counters.critical_count).as_str());
    match vars.insert_cg_captures(re, line) {
        Some(n) => vars.insert("NB_CG", u64_to_decimal(n as u64).as_str()),
        None => (),
    }
}

/// The search state after lines, each given by the pattern type it matched (or none) and
/// its size in bytes, in order.
pub open spec fn scan_all(s: Scan, o: SearchOptions, lines: Seq<(Option<PatternType>, u64)>) -> Scan
    decreases lines.len(),
{
    if lines.len() == 0 {
        s
    } else {
        step(scan_all(s, o, lines.drop_last()), o, lines.last().0, lines.last().1).0
    }
}

/// Each line read moves the search forward by one line and by the line's size.
pub proof fn law_step_advances(s: Scan, o: SearchOptions, m: Option<PatternType>, bytes_read: u64)
    requires
        can_step(s, bytes_read),
    ensures
        step(s, o, m, bytes_read).0.bytes_count == s.bytes_count + bytes_read,
        step(s, o, m, bytes_read).0.line_number == s.line_number + 1,
{
}

/// An ok match resets both threshold counts, and runs no callback unless `runifok` is set
/// (while the search moves fast forward, nothing is matched at all).
pub proof fn law_ok_resets_thresholds(s: Scan, o: SearchOptions, bytes_read: u64)
    requires
        !s.fast_forward,
    ensures
        step(s, o, Some(PatternType::ok), bytes_read).0.warning_hits == 0,
        step(s, o, Some(PatternType::ok), bytes_read).0.critical_hits == 0,
        step(s, o, Some(PatternType::ok), bytes_read).1 matches Some(v) && (v.run_callback
            ==> o.runifok),
{
}

/// A critical or warning hit is only given once its threshold is reached, and a line that
/// matches nothing gives nothing.
pub proof fn law_hits_reach_threshold(s: Scan, o: SearchOptions, m: Option<PatternType>, bytes_read: u64)
    ensures
        step(s, o, m, bytes_read).1 matches Some(v) ==> m == Some(v.pattern_type),
        step(s, o, m, bytes_read).1 matches Some(v) && v.pattern_type == PatternType::critical
            ==> step(s, o, m, bytes_read).0.critical_hits >= o.criticalthreshold,
        step(s, o, m, bytes_read).1 matches Some(v) && v.pattern_type == PatternType::warning
            ==> step(s, o, m, bytes_read).0.warning_hits >= o.warningthreshold,
        m is None ==> step(s, o, m, bytes_read).1 is None,
{
}

/// A callback is run only with the `runcallback` option, and at most `runlimit` times in a
/// search: whatever lines are read, the number of callbacks run never goes beyond it.
pub proof fn law_runlimit(o: SearchOptions, rundata: RunData, fresh: bool, lines: Seq<(Option<PatternType>, u64)>)
    ensures
        scan_all(Scan::spec_start(rundata, o, fresh), o, lines).counters.exec_count <= o.runlimit,
        !o.runcallback ==> scan_all(Scan::spec_start(rundata, o, fresh), o, lines).counters.exec_count
            == 0,
    decreases lines.len(),
{
    if lines.len() > 0 {
        law_runlimit(o, rundata, fresh, lines.drop_last());
    }
}

/// A search that moves fast forward matches nothing and runs no callback: whatever lines it
/// reads, its counters stay as they were.
pub proof fn law_fast_forward(s: Scan, o: SearchOptions, lines: Seq<(Option<PatternType>, u64)>)
    requires
        s.fast_forward,
    ensures
        scan_all(s, o, lines).fast_forward,
        scan_all(s, o, lines).counters == s.counters,
        scan_all(s, o, lines).warning_hits == s.warning_hits,
        scan_all(s, o, lines).critical_hits == s.critical_hits,
    decreases lines.len(),
{
    if lines.len() > 0 {
        law_fast_forward(s, o, lines.drop_last());
    }
}

/// The number of bytes of lines.
pub open spec fn bytes_of(lines: Seq<(Option<PatternType>, u64)>) -> int
    decreases lines.len(),
{
    if lines.len() == 0 {
        0
    } else {
        bytes_of(lines.drop_last()) + lines.last().1
    }
}

/// Reading lines moves the search forward by their number and by their size, whatever they
/// match, as long as the counts stay within a `u64`.
pub proof fn law_scan_counts(s: Scan, o: SearchOptions, lines: Seq<(Option<PatternType>, u64)>)
    requires
        s.line_number + lines.len() <= u64::MAX,
        s.bytes_count + bytes_of(lines) <= u64::MAX,
    ensures
        scan_all(s, o, lines).line_number == s.line_number + lines.len(),
        scan_all(s, o, lines).bytes_count == s.bytes_count + bytes_of(lines),
    decreases lines.len(),
{
    if lines.len() > 0 {
        law_scan_counts(s, o, lines.drop_last());
    }
}

/// A search with the `rewind` option starts from the beginning of the file; otherwise from
/// where the last run ended. It moves fast forward exactly when the `fastforward` option is
/// set and the tag has no run data yet for the logfile.
pub proof fn law_start(rundata: RunData, o: SearchOptions, fresh: bool)
    ensures
        o.rewind ==> Scan::spec_start(rundata, o, fresh).bytes_count == 0 && Scan::spec_start(
            rundata,
            o,
            fresh,
        ).line_number == 0,
        !o.rewind ==> Scan::spec_start(rundata, o, fresh).bytes_count == rundata.last_offset
            && Scan::spec_start(rundata, o, fresh).line_number == rundata.last_line,
        Scan::spec_start(rundata, o, fresh).fast_forward == (o.fastforward && fresh),
        o.savethresholdcount ==> Scan::spec_start(rundata, o, fresh).warning_hits
            == rundata.warning_hits && Scan::spec_start(rundata, o, fresh).critical_hits
            == rundata.critical_hits,
        !o.savethresholdcount ==> Scan::spec_start(rundata, o, fresh).warning_hits == 0
            && Scan::spec_start(rundata, o, fresh).critical_hits == 0,
        Scan::spec_start(rundata, o, fresh).counters.critical_count == 0
            && Scan::spec_start(rundata, o, fresh).counters.warning_count == 0
            && Scan::spec_start(rundata, o, fresh).counters.ok_count == 0
            && Scan::spec_start(rundata, o, fresh).counters.exec_count == 0,
{
}

/// The threshold counts of a search: a critical match counts one more toward the critical
/// threshold and leaves the warning count as it is; a warning match counts one more toward
/// the warning threshold and leaves the critical count as it is; only an ok match resets them,
/// and a line that matches nothing leaves both. A critical or warning match is a hit exactly
/// when its count reaches its threshold. While the search moves fast forward, nothing changes.
pub proof fn law_threshold_counts(s: Scan, o: SearchOptions, bytes_read: u64)
    requires
        can_step(s, bytes_read),
    ensures
        !s.fast_forward ==> step(s, o, Some(PatternType::critical), bytes_read).0.critical_hits
            == s.critical_hits + 1,
        step(s, o, Some(PatternType::critical), bytes_read).0.warning_hits == s.warning_hits,
        !s.fast_forward ==> step(s, o, Some(PatternType::warning), bytes_read).0.warning_hits
            == s.warning_hits + 1,
        step(s, o, Some(PatternType::warning), bytes_read).0.critical_hits == s.critical_hits,
        step(s, o, None, bytes_read).0.warning_hits == s.warning_hits,
        step(s, o, None, bytes_read).0.critical_hits == s.critical_hits,
        step(s, o, None, bytes_read).1 is None,
        !s.fast_forward ==> (step(s, o, Some(PatternType::critical), bytes_read).1 is Some <==> s.critical_hits
            + 1 >= o.criticalthreshold),
        !s.fast_forward ==> (step(s, o, Some(PatternType::warning), bytes_read).1 is Some <==> s.warning_hits
            + 1 >= o.warningthreshold),
        !s.fast_forward ==> (step(s, o, Some(PatternType::critical), bytes_read).1 matches Some(v)
            ==> v.pattern_type == PatternType::critical),
        !s.fast_forward ==> (step(s, o, Some(PatternType::warning), bytes_read).1 matches Some(v)
            ==> v.pattern_type == PatternType::warning),
        s.fast_forward ==> step(s, o, Some(PatternType::critical), bytes_read).1 is None
            && step(s, o, Some(PatternType::warning), bytes_read).1 is None && step(
            s,
            o,
            Some(PatternType::ok),
            bytes_read,
        ).1 is None,
{
}

/// Whether a hit runs the callback: a critical or warning hit runs it exactly when the
/// `runcallback` option is set and fewer than `runlimit` callbacks ran so far in the search; an
/// ok match also needs `runifok`. Each callback run counts one, and nothing else does.
pub proof fn law_callback_runs(s: Scan, o: SearchOptions, m: PatternType, bytes_read: u64)
    requires
        can_step(s, bytes_read),
        !s.fast_forward,
    ensures
        step(s, o, Some(m), bytes_read).1 matches Some(v) ==> (v.run_callback <==> (o.runcallback
            && s.counters.exec_count < o.runlimit && (m == PatternType::ok ==> o.runifok))),
        step(s, o, Some(m), bytes_read).1 matches Some(v) ==> step(
            s,
            o,
            Some(m),
            bytes_read,
        ).0.counters.exec_count == s.counters.exec_count + (if v.run_callback {
            1int
        } else {
            0int
        }),
        step(s, o, Some(m), bytes_read).1 is None ==> step(s, o, Some(m), bytes_read).0.counters
            == s.counters,
{
}

/// The text the patterns are matched against: a line longer than a non-zero `truncate` is cut
/// to its first `truncate` characters; any other line is matched whole.
pub proof fn law_truncated(line: Seq<char>, truncate: usize)
    ensures
        truncate > 0 && line.len() > truncate ==> truncated(line, truncate).len() == truncate
            && truncated(line, truncate) == line.subrange(0, truncate as int),
        !(truncate > 0 && line.len() > truncate) ==> truncated(line, truncate) == line,
{
}

/// What a callback is given for a hit: whatever the variables held before, looking up
/// `CLF_LINE_NUMBER`, `CLF_LINE`, `CLF_MATCHED_RE`, `CLF_MATCHED_RE_TYPE` and `CLF_TAG` after
/// the hit gives the line's number in decimal, the line, the regex, its type's name and the
/// tag's name; the counts give those of the search so far; and `CLF_NB_CG`, when the regex
/// matches the line, the number of its groups. The capture groups' variables never hide them.
pub proof fn law_hit_vars(
    v: Seq<(Seq<char>, Seq<char>)>,
    tag_name: Seq<char>,
    line: Seq<char>,
    s: Scan,
    verdict: Verdict,
    re: Seq<char>,
)
    ensures
        lookup(hit_vars(v, tag_name, line, s, verdict, re), prefixed("LINE_NUMBER"@)) == Some(decimal(s.line_number as nat)),
        lookup(hit_vars(v, tag_name, line, s, verdict, re), prefixed("LINE"@)) == Some(line),
        lookup(hit_vars(v, tag_name, line, s, verdict, re), prefixed("MATCHED_RE"@)) == Some(re),
        lookup(hit_vars(v, tag_name, line, s, verdict, re), prefixed("MATCHED_RE_TYPE"@)) == Some(verdict.pattern_type.spec_name()),
        lookup(hit_vars(v, tag_name, line, s, verdict, re), prefixed("TAG"@)) == Some(tag_name),
        lookup(hit_vars(v, tag_name, line, s, verdict, re), prefixed("OK_COUNT"@)) == Some(decimal(s.counters.ok_count as nat)),
        lookup(hit_vars(v, tag_name, line, s, verdict, re), prefixed("WARNING_COUNT"@)) == Some(decimal(s.counters.warning_count as nat)),
        lookup(hit_vars(v, tag_name, line, s, verdict, re), prefixed("CRITICAL_COUNT"@)) == Some(decimal(s.counters.critical_count as nat)),
        re_is_match(re, line) ==> lookup(hit_vars(v, tag_name, line, s, verdict, re), prefixed(
            "NB_CG"@,
        )) == Some(decimal(re_captures(re, line)->0.len())),
{
    reveal_strlit("CLF_");
    reveal_strlit("LINE_NUMBER");
    reveal_strlit("LINE");
    reveal_strlit("MATCHED_RE");
    reveal_strlit("MATCHED_RE_TYPE");
    reveal_strlit("TAG");
    reveal_strlit("OK_COUNT");
    reveal_strlit("WARNING_COUNT");
    reveal_strlit("CRITICAL_COUNT");
    reveal_strlit("NB_CG");
    assert("CLF_"@.len() == 4);
    assert(prefixed("LINE_NUMBER"@).len() == 15);
    assert(prefixed("LINE"@).len() == 8);
    assert(prefixed("MATCHED_RE"@).len() == 14);
    assert(prefixed("MATCHED_RE_TYPE"@).len() == 19);
    assert(prefixed("TAG"@).len() == 7);
    assert(prefixed("OK_COUNT"@).len() == 12);
    assert(prefixed("WARNING_COUNT"@).len() == 17);
    assert(prefixed("CRITICAL_COUNT"@).len() == 18);
    assert(prefixed("NB_CG"@).len() == 9);
    let v1 = set_entry(v, prefixed("LINE_NUMBER"@), decimal(s.line_number as nat));
    let v2 = set_entry(v1, prefixed("LINE"@), line);
    let v3 = set_entry(v2, prefixed("MATCHED_RE"@), re);
    let v4 = set_entry(v3, prefixed("MATCHED_RE_TYPE"@), verdict.pattern_type.spec_name());
    let v5 = set_entry(v4, prefixed("TAG"@), tag_name);
    let v6 = set_entry(v5, prefixed("OK_COUNT"@), decimal(s.counters.ok_count as nat));
    let v7 = set_entry(v6, prefixed("WARNING_COUNT"@), decimal(s.counters.warning_count as nat));
    let v8 = set_entry(v7, prefixed("CRITICAL_COUNT"@), decimal(s.counters.critical_count as nat));
    law_lookup_after_set(v, prefixed("LINE_NUMBER"@), decimal(s.line_number as nat), prefixed("LINE_NUMBER"@).push('x'));
    law_lookup_after_set(v1, prefixed("LINE"@), line, prefixed("LINE_NUMBER"@));
    law_lookup_after_set(v2, prefixed("MATCHED_RE"@), re, prefixed("LINE_NUMBER"@));
    law_lookup_after_set(v3, prefixed("MATCHED_RE_TYPE"@), verdict.pattern_type.spec_name(), prefixed("LINE_NUMBER"@));
    law_lookup_after_set(v4, prefixed("TAG"@), tag_name, prefixed("LINE_NUMBER"@));
    law_lookup_after_set(v5, prefixed("OK_COUNT"@), decimal(s.counters.ok_count as nat), prefixed("LINE_NUMBER"@));
    law_lookup_after_set(v6, prefixed("WARNING_COUNT"@), decimal(s.counters.warning_count as nat), prefixed("LINE_NUMBER"@));
    law_lookup_after_set(v7, prefixed("CRITICAL_COUNT"@), decimal(s.counters.critical_count as nat), prefixed("LINE_NUMBER"@));
    law_lookup_after_set(v1, prefixed("LINE"@), line, prefixed("LINE"@).push('x'));
    law_lookup_after_set(v2, prefixed("MATCHED_RE"@), re, prefixed("LINE"@));
    law_lookup_after_set(v3, prefixed("MATCHED_RE_TYPE"@), verdict.pattern_type.spec_name(), prefixed("LINE"@));
    law_lookup_after_set(v4, prefixed("TAG"@), tag_name, prefixed("LINE"@));
    law_lookup_after_set(v5, prefixed("OK_COUNT"@), decimal(s.counters.ok_count as nat), prefixed("LINE"@));
    law_lookup_after_set(v6, prefixed("WARNING_COUNT"@), decimal(s.counters.warning_count as nat), prefixed("LINE"@));
    law_lookup_after_set(v7, prefixed("CRITICAL_COUNT"@), decimal(s.counters.critical_count as nat), prefixed("LINE"@));
    law_lookup_after_set(v2, prefixed("MATCHED_RE"@), re, prefixed("MATCHED_RE"@).push('x'));
    law_lookup_after_set(v3, prefixed("MATCHED_RE_TYPE"@), verdict.pattern_type.spec_name(), prefixed("MATCHED_RE"@));
    law_lookup_after_set(v4, prefixed("TAG"@), tag_name, prefixed("MATCHED_RE"@));
    law_lookup_after_set(v5, prefixed("OK_COUNT"@), decimal(s.counters.ok_count as nat), prefixed("MATCHED_RE"@));
    law_lookup_after_set(v6, prefixed("WARNING_COUNT"@), decimal(s.counters.warning_count as nat), prefixed("MATCHED_RE"@));
    law_lookup_after_set(v7, prefixed("CRITICAL_COUNT"@), decimal(s.counters.critical_count as nat), prefixed("MATCHED_RE"@));
    law_lookup_after_set(v3, prefixed("MATCHED_RE_TYPE"@), verdict.pattern_type.spec_name(), prefixed("MATCHED_RE_TYPE"@).push('x'));
    law_lookup_after_set(v4, prefixed("TAG"@), tag_name, prefixed("MATCHED_RE_TYPE"@));
    law_lookup_after_set(v5, prefixed("OK_COUNT"@), decimal(s.counters.ok_count as nat), prefixed("MATCHED_RE_TYPE"@));
    law_lookup_after_set(v6, prefixed("WARNING_COUNT"@), decimal(s.counters.warning_count as nat), prefixed("MATCHED_RE_TYPE"@));
    law_lookup_after_set(v7, prefixed("CRITICAL_COUNT"@), decimal(s.counters.critical_count as nat), prefixed("MATCHED_RE_TYPE"@));
    law_lookup_after_set(v4, prefixed("TAG"@), tag_name, prefixed("TAG"@).push('x'));
    law_lookup_after_set(v5, prefixed("OK_COUNT"@), decimal(s.counters.ok_count as nat), prefixed("TAG"@));
    law_lookup_after_set(v6, prefixed("WARNING_COUNT"@), decimal(s.counters.warning_count as nat), prefixed("TAG"@));
    law_lookup_after_set(v7, prefixed("CRITICAL_COUNT"@), decimal(s.counters.critical_count as nat), prefixed("TAG"@));
    law_lookup_after_set(v5, prefixed("OK_COUNT"@), decimal(s.counters.ok_count as nat), prefixed("OK_COUNT"@).push('x'));
    law_lookup_after_set(v6, prefixed("WARNING_COUNT"@), decimal(s.counters.warning_count as nat), prefixed("OK_COUNT"@));
    law_lookup_after_set(v7, prefixed("CRITICAL_COUNT"@), decimal(s.counters.critical_count as nat), prefixed("OK_COUNT"@));
    law_lookup_after_set(v6, prefixed("WARNING_COUNT"@), decimal(s.counters.warning_count as nat), prefixed("WARNING_COUNT"@).push('x'));
    law_lookup_after_set(v7, prefixed("CRITICAL_COUNT"@), decimal(s.counters.critical_count as nat), prefixed("WARNING_COUNT"@));
    law_lookup_after_set(v7, prefixed("CRITICAL_COUNT"@), decimal(s.counters.critical_count as nat), prefixed("CRITICAL_COUNT"@).push('x'));
    let v8 = v8;
    let g = re_captures(re, line)->0;
    crate::variables::lemma_cg_names(g);
    assert forall|j: int| 0 <= j < cg_texts(g).len() implies (#[trigger] cg_texts(g)[j]).0 != prefixed("LINE_NUMBER"@) by {
        assert(cg_texts(g)[j].0[4] == 'C' && cg_texts(g)[j].0[5] == 'G');
        assert(prefixed("LINE_NUMBER"@)[4] != 'C' || prefixed("LINE_NUMBER"@)[5] != 'G');
    }
    crate::table::lemma_lookup_insert_all_other(v8, cg_texts(g), prefixed("LINE_NUMBER"@));
    law_lookup_after_set(insert_all(v8, cg_texts(g)), prefixed("NB_CG"@), decimal(g.len()), prefixed("LINE_NUMBER"@));
    assert forall|j: int| 0 <= j < cg_texts(g).len() implies (#[trigger] cg_texts(g)[j]).0 != prefixed("LINE"@) by {
        assert(cg_texts(g)[j].0[4] == 'C' && cg_texts(g)[j].0[5] == 'G');
        assert(prefixed("LINE"@)[4] != 'C' || prefixed("LINE"@)[5] != 'G');
    }
    crate::table::lemma_lookup_insert_all_other(v8, cg_texts(g), prefixed("LINE"@));
    law_lookup_after_set(insert_all(v8, cg_texts(g)), prefixed("NB_CG"@), decimal(g.len()), prefixed("LINE"@));
    assert forall|j: int| 0 <= j < cg_texts(g).len() implies (#[trigger] cg_texts(g)[j]).0 != prefixed("MATCHED_RE"@) by {
        assert(cg_texts(g)[j].0[4] == 'C' && cg_texts(g)[j].0[5] == 'G');
        assert(prefixed("MATCHED_RE"@)[4] != 'C' || prefixed("MATCHED_RE"@)[5] != 'G');
    }
    crate::table::lemma_lookup_insert_all_other(v8, cg_texts(g), prefixed("MATCHED_RE"@));
    law_lookup_after_set(insert_all(v8, cg_texts(g)), prefixed("NB_CG"@), decimal(g.len()), prefixed("MATCHED_RE"@));
    assert forall|j: int| 0 <= j < cg_texts(g).len() implies (#[trigger] cg_texts(g)[j]).0 != prefixed("MATCHED_RE_TYPE"@) by {
        assert(cg_texts(g)[j].0[4] == 'C' && cg_texts(g)[j].0[5] == 'G');
        assert(prefixed("MATCHED_RE_TYPE"@)[4] != 'C' || prefixed("MATCHED_RE_TYPE"@)[5] != 'G');
    }
    crate::table::lemma_lookup_insert_all_other(v8, cg_texts(g), prefixed("MATCHED_RE_TYPE"@));
    law_lookup_after_set(insert_all(v8, cg_texts(g)), prefixed("NB_CG"@), decimal(g.len()), prefixed("MATCHED_RE_TYPE"@));
    assert forall|j: int| 0 <= j < cg_texts(g).len() implies (#[trigger] cg_texts(g)[j]).0 != prefixed("TAG"@) by {
        assert(cg_texts(g)[j].0[4] == 'C' && cg_texts(g)[j].0[5] == 'G');
        assert(prefixed("TAG"@)[4] != 'C' || prefixed("TAG"@)[5] != 'G');
    }
    crate::table::lemma_lookup_insert_all_other(v8, cg_texts(g), prefixed("TAG"@));
    law_lookup_after_set(insert_all(v8, cg_texts(g)), prefixed("NB_CG"@), decimal(g.len()), prefixed("TAG"@));
    assert forall|j: int| 0 <= j < cg_texts(g).len() implies (#[trigger] cg_texts(g)[j]).0 != prefixed("OK_COUNT"@) by {
        assert(cg_texts(g)[j].0[4] == 'C' && cg_texts(g)[j].0[5] == 'G');
        assert(prefixed("OK_COUNT"@)[4] != 'C' || prefixed("OK_COUNT"@)[5] != 'G');
    }
    crate::table::lemma_lookup_insert_all_other(v8, cg_texts(g), prefixed("OK_COUNT"@));
    law_lookup_after_set(insert_all(v8, cg_texts(g)), prefixed("NB_CG"@), decimal(g.len()), prefixed("OK_COUNT"@));
    assert forall|j: int| 0 <= j < cg_texts(g).len() implies (#[trigger] cg_texts(g)[j]).0 != prefixed("WARNING_COUNT"@) by {
        assert(cg_texts(g)[j].0[4] == 'C' && cg_texts(g)[j].0[5] == 'G');
        assert(prefixed("WARNING_COUNT"@)[4] != 'C' || prefixed("WARNING_COUNT"@)[5] != 'G');
    }
    crate::table::lemma_lookup_insert_all_other(v8, cg_texts(g), prefixed("WARNING_COUNT"@));
    law_lookup_after_set(insert_all(v8, cg_texts(g)), prefixed("NB_CG"@), decimal(g.len()), prefixed("WARNING_COUNT"@));
    assert forall|j: int| 0 <= j < cg_texts(g).len() implies (#[trigger] cg_texts(g)[j]).0 != prefixed("CRITICAL_COUNT"@) by {
        assert(cg_texts(g)[j].0[4] == 'C' && cg_texts(g)[j].0[5] == 'G');
        assert(prefixed("CRITICAL_COUNT"@)[4] != 'C' || prefixed("CRITICAL_COUNT"@)[5] != 'G');
    }
    crate::table::lemma_lookup_insert_all_other(v8, cg_texts(g), prefixed("CRITICAL_COUNT"@));
    law_lookup_after_set(insert_all(v8, cg_texts(g)), prefixed("NB_CG"@), decimal(g.len()), prefixed("CRITICAL_COUNT"@));
    law_lookup_after_set(
        insert_all(v8, cg_texts(g)),
        prefixed("NB_CG"@),
        decimal(g.len()),
        prefixed("NB_CG"@).push('x'),
    );
}

} // verus!

//! Nagios plugin states, and the counters from which the plugin output and exit code come.
use vstd::prelude::*;

use crate::error::AppError;
use crate::table::{has_key, key_pos, Table};
use crate::text::{decimal, push_str, str_is, u64_to_decimal};

verus! {

/// The Nagios plugin states.
#[allow(non_camel_case_types)]
#[derive(Debug, Clone, Copy, PartialEq, Eq, Structural)]
pub enum NagiosError {
    OK,
    WARNING,
    CRITICAL,
    UNKNOWN,
}

/// The upper case of a string, as `str::to_uppercase` computes it from the Unicode tables.
pub uninterp spec fn uppercase(s: Seq<char>) -> Seq<char>;

/// Calls `str::to_uppercase`. Its result is named `uppercase`: nothing more is stated of it,
/// as it comes from the Unicode case tables.
#[verifier::external_body]
fn to_uppercase(s: &str) -> (r: String)
    ensures
        r@ == uppercase(s@),
{
    s.to_uppercase()
}

impl NagiosError {
    /// The state named by an upper-case string; any other string names `UNKNOWN`.
    pub open spec fn spec_from_upper(u: Seq<char>) -> NagiosError {
        if u == "OK"@ {
            NagiosError::OK
        } else if u == "WARNING"@ {
            NagiosError::WARNING
        } else if u == "CRITICAL"@ {
            NagiosError::CRITICAL
        } else {
            NagiosError::UNKNOWN
        }
    }

    /// The state named by an upper-case string; any other string names `UNKNOWN`.
    pub fn from_upper(u: &str) -> (r: NagiosError)
        ensures
            r == NagiosError::spec_from_upper(u@),
    {
        if str_is(u, "OK") {
            NagiosError::OK
        } else if str_is(u, "WARNING") {
            NagiosError::WARNING
        } else if str_is(u, "CRITICAL") {
            NagiosError::CRITICAL
        } else {
            NagiosError::UNKNOWN
        }
    }

    /// Simple conversion from a string, regardless of its case. It never fails: a string which
    /// names no state gives `UNKNOWN`.
    pub fn from_str(s: &str) -> (r: Result<NagiosError, ()>)
        ensures
            r == Ok::<NagiosError, ()>(NagiosError::spec_from_upper(uppercase(s@))),
    {
        let u = to_uppercase(s);
        Ok(NagiosError::from_upper(u.as_str()))
    }

    /// The state's name.
    pub open spec fn spec_name(self) -> Seq<char> {
        match self {
            NagiosError::OK => "OK"@,
            NagiosError::WARNING => "WARNING"@,
            NagiosError::CRITICAL => "CRITICAL"@,
            NagiosError::UNKNOWN => "UNKNOWN"@,
        }
    }

    /// The state's name.
    pub fn name(&self) -> (r: &'static str)
        ensures
            r@ == self.spec_name(),
    {
        match self {
            NagiosError::OK => "OK",
            NagiosError::WARNING => "WARNING",
            NagiosError::CRITICAL => "CRITICAL",
            NagiosError::UNKNOWN => "UNKNOWN",
        }
    }

    /// The plugin exit code of the state.
    pub open spec fn spec_code(self) -> i32 {
        match self {
            NagiosError::OK => 0,
            NagiosError::WARNING => 1,
            NagiosError::CRITICAL => 2,
            NagiosError::UNKNOWN => 3,
        }
    }

    /// The plugin exit code of the state.
    pub fn code(&self) -> (r: i32)
        ensures
            r == self.spec_code(),
    {
        match self {
            NagiosError::OK => 0,
            NagiosError::WARNING => 1,
            NagiosError::CRITICAL => 2,
            NagiosError::UNKNOWN => 3,
        }
    }
}

/// The default state is `UNKNOWN`.
impl Default for NagiosError {
    fn default() -> (r: NagiosError)
        ensures
            r == NagiosError::UNKNOWN,
    {
        NagiosError::UNKNOWN
    }
}

/// The Nagios NRPE protocol version.
#[derive(Debug, Clone, Copy, PartialEq, Eq, Structural)]
pub enum NagiosVersion {
    NagiosNrpe2,
    NagiosNrpe3,
}

impl NagiosVersion {
    /// Reads a version from the command line: `"2"` or `"3"`.
    pub fn from_str(s: &str) -> (r: Result<NagiosVersion, ()>)
        requires
            s@ == "2"@ || s@ == "3"@,
        ensures
            s@ == "2"@ ==> r == Ok::<NagiosVersion, ()>(NagiosVersion::NagiosNrpe2),
            s@ == "3"@ ==> r == Ok::<NagiosVersion, ()>(NagiosVersion::NagiosNrpe3),
    {
        proof {
            reveal_strlit("2");
            reveal_strlit("3");
            assert("2"@[0] != "3"@[0]);
        }
        if str_is(s, "2") {
            Ok(NagiosVersion::NagiosNrpe2)
        } else {
            Ok(NagiosVersion::NagiosNrpe3)
        }
    }
}

/// Counts critical and warning matches, and the unknowns due to errors reading a logfile.
#[derive(Debug)]
pub struct MatchCounter {
    /// Number of matches triggered by a critical pattern.
    pub critical_count: u16,
    /// Number of matches triggered by a warning pattern.
    pub warning_count: u16,
    /// Number of unknowns due to errors reading logfiles.
    pub unknown_count: u16,
    /// The error met reading the logfile, if any.
    pub logfile_error: Option<AppError>,
}

impl MatchCounter {
    /// No counts and no error.
    pub open spec fn spec_default() -> MatchCounter {
        MatchCounter {
            critical_count: 0,
            warning_count: 0,
            unknown_count: 0,
            logfile_error: None,
        }
    }

    /// The plugin state that the counters give: critical as soon as there is a critical
    /// match, then warning, then unknown, and OK when everything is zero.
    pub open spec fn spec_state(&self) -> NagiosError {
        if self.critical_count == 0 && self.warning_count == 0 && self.unknown_count == 0 {
            NagiosError::OK
        } else if self.critical_count == 0 && self.warning_count == 0 {
            NagiosError::UNKNOWN
        } else if self.critical_count == 0 {
            NagiosError::WARNING
        } else {
            NagiosError::CRITICAL
        }
    }

    /// Counts one more critical match.
    pub fn inc_critical(&mut self)
        requires
            old(self).critical_count < u16::MAX,
        ensures
            *final(self) == (MatchCounter {
                critical_count: (old(self).critical_count + 1) as u16,
                ..*old(self)
            }),
    {
        self.critical_count = self.critical_count + 1;
    }

    /// Counts one more warning match.
    pub fn inc_warning(&mut self)
        requires
            old(self).warning_count < u16::MAX,
        ensures
            *final(self) == (MatchCounter { warning_count: (old(self).warning_count + 1) as u16, ..*old(self) }),
    {
        self.warning_count = self.warning_count + 1;
    }

    /// The plugin state that the counters give.
    pub fn state(&self) -> (r: NagiosError)
        ensures
            r == self.spec_state(),
    {
        if self.critical_count == 0 && self.warning_count == 0 && self.unknown_count == 0 {
            NagiosError::OK
        } else if self.critical_count == 0 && self.warning_count == 0 {
            NagiosError::UNKNOWN
        } else if self.critical_count == 0 {
            NagiosError::WARNING
        } else {
            NagiosError::CRITICAL
        }
    }

    /// The plugin output line: `STATE - (errors:C, warnings:W, unknowns:U)`.
    pub open spec fn spec_to_string(&self) -> Seq<char> {
        self.spec_state().spec_name() + " - (errors:"@ + decimal(self.critical_count as nat)
            + ", warnings:"@ + decimal(self.warning_count as nat) + ", unknowns:"@ + decimal(
            self.unknown_count as nat,
        ) + ")"@
    }

    /// The plugin output line: `STATE - (errors:C, warnings:W, unknowns:U)`.
    pub fn to_string(&self) -> (r: String)
        ensures
            r@ == self.spec_to_string(),
    {
        let mut s = String::new();
        push_str(&mut s, self.state().name());
        push_str(&mut s, " - (errors:");
        push_str(&mut s, u64_to_decimal(self.critical_count as u64).as_str());
        push_str(&mut s, ", warnings:");
        push_str(&mut s, u64_to_decimal(self.warning_count as u64).as_str());
        push_str(&mut s, ", unknowns:");
        push_str(&mut s, u64_to_decimal(self.unknown_count as u64).as_str());
        push_str(&mut s, ")");
        s
    }

    /// The short plugin output, from the critical and warning counts only.
    pub open spec fn spec_output(&self) -> Seq<char> {
        let c = decimal(self.critical_count as nat);
        let w = decimal(self.warning_count as nat);
        if self.critical_count == 0 && self.warning_count == 0 {
            "OK - no errors or warnings"@
        } else if self.warning_count == 0 {
            "CRITICAL - ("@ + c + " errors)"@
        } else if self.critical_count == 0 {
            "WARNING - ("@ + w + " warnings)"@
        } else {
            "CRITICAL - ("@ + c + " errors, "@ + w + " warnings)"@
        }
    }

    /// The short plugin output, from the critical and warning counts only.
    pub fn output(&self) -> (r: String)
        ensures
            r@ == self.spec_output(),
    {
        let c = u64_to_decimal(self.critical_count as u64);
        let w = u64_to_decimal(self.warning_count as u64);
        let mut s = String::new();
        if self.critical_count == 0 && self.warning_count == 0 {
            push_str(&mut s, "OK - no errors or warnings");
        } else if self.warning_count == 0 {
            push_str(&mut s, "CRITICAL - (");
            push_str(&mut s, c.as_str());
            push_str(&mut s, " errors)");
        } else if self.critical_count == 0 {
            push_str(&mut s, "WARNING - (");
            push_str(&mut s, w.as_str());
            push_str(&mut s, " warnings)");
        } else {
            push_str(&mut s, "CRITICAL - (");
            push_str(&mut s, c.as_str());
            push_str(&mut s, " errors, ");
            push_str(&mut s, w.as_str());
            push_str(&mut s, " warnings)");
        }
        s
    }
}

impl Default for MatchCounter {
    fn default() -> (r: MatchCounter)
        ensures
            r == MatchCounter::spec_default(),
    {
        MatchCounter { critical_count: 0, warning_count: 0, unknown_count: 0, logfile_error: None }
    }
}

/// The plugin state of a counter.
impl<'a> From<&'a MatchCounter> for NagiosError {
    fn from(m: &'a MatchCounter) -> (r: NagiosError) {
        m.state()
    }
}

impl<'a> vstd::std_specs::convert::FromSpecImpl<&'a MatchCounter> for NagiosError {
    open spec fn obeys_from_spec() -> bool {
        true
    }

    open spec fn from_spec(m: &'a MatchCounter) -> NagiosError {
        m.spec_state()
    }
}

/// A counter for a logfile: either counts, or the message of the error met opening it.
#[derive(Debug)]
pub enum LogfileCounter {
    Stats(MatchCounter),
    ErrorMsg(String),
}

impl LogfileCounter {
    /// Counts one more warning match; an error message is left as it is.
    pub fn inc_warning(&mut self)
        requires
            *old(self) matches LogfileCounter::Stats(c) ==> c.warning_count < u16::MAX,
        ensures
            match *old(self) {
                LogfileCounter::Stats(c) => *final(self) == LogfileCounter::Stats(
                    MatchCounter { warning_count: (c.warning_count + 1) as u16, ..c },
                ),
                LogfileCounter::ErrorMsg(_) => *final(self) == *old(self),
            },
    {
        match self {
            LogfileCounter::Stats(counter) => counter.warning_count = counter.warning_count + 1,
            LogfileCounter::ErrorMsg(_) => {},
        }
    }

    /// Counts one more critical match; an error message is left as it is.
    pub fn inc_critical(&mut self)
        requires
            *old(self) matches LogfileCounter::Stats(c) ==> c.critical_count < u16::MAX,
        ensures
            match *old(self) {
                LogfileCounter::Stats(c) => *final(self) == LogfileCounter::Stats(
                    MatchCounter { critical_count: (c.critical_count + 1) as u16, ..c },
                ),
                LogfileCounter::ErrorMsg(_) => *final(self) == *old(self),
            },
    {
        match self {
            LogfileCounter::Stats(counter) => counter.critical_count = counter.critical_count + 1,
            LogfileCounter::ErrorMsg(_) => {},
        }
    }
}

/// The plugin output line of a logfile: its path, then its counters or the error met.
pub open spec fn logfile_line(path: Seq<char>, c: MatchCounter) -> Seq<char> {
    path + ": "@ + match c.logfile_error {
        None => c.spec_to_string(),
        Some(e) => e.spec_to_string(),
    } + "\n"@
}

/// The plugin output lines of logfiles, in order.
pub open spec fn logfile_lines(s: Seq<(Seq<char>, MatchCounter)>) -> Seq<char>
    decreases s.len(),
{
    if s.len() == 0 {
        Seq::empty()
    } else {
        logfile_lines(s.drop_last()) + logfile_line(s.last().0, s.last().1)
    }
}

/// Adds two counts; the sum stays at the largest count when it would go beyond.
pub open spec fn sat_add(a: u16, b: u16) -> u16 {
    if a + b > u16::MAX {
        u16::MAX
    } else {
        (a + b) as u16
    }
}

/// The counter of a logfile that could not be read: the error met, counted once in the
/// category that the logfile's `logfilemissing` state names (nothing for OK).
pub open spec fn missing_counter(error: AppError, missing: NagiosError) -> MatchCounter {
    MatchCounter {
        critical_count: if missing == NagiosError::CRITICAL { 1 } else { 0 },
        warning_count: if missing == NagiosError::WARNING { 1 } else { 0 },
        unknown_count: if missing == NagiosError::UNKNOWN { 1 } else { 0 },
        logfile_error: Some(error),
    }
}

/// The counts of all logfiles added up.
pub open spec fn total_of(s: Seq<(Seq<char>, MatchCounter)>) -> (u16, u16, u16)
    decreases s.len(),
{
    if s.len() == 0 {
        (0, 0, 0)
    } else {
        let t = total_of(s.drop_last());
        let c = s.last().1;
        (
            sat_add(t.0, c.critical_count),
            sat_add(t.1, c.warning_count),
            sat_add(t.2, c.unknown_count),
        )
    }
}

/// The plugin state of counters: CRITICAL (exit code 2) as soon as there is a critical
/// match, whatever the other counts; otherwise WARNING (1) when there is a warning match;
/// otherwise UNKNOWN (3) when there is an unknown; and OK (0) only when every count is 0.
pub proof fn law_state_by_counts(m: MatchCounter)
    ensures
        m.critical_count > 0 ==> m.spec_state() == NagiosError::CRITICAL
            && m.spec_state().spec_code() == 2,
        m.critical_count == 0 && m.warning_count > 0 ==> m.spec_state() == NagiosError::WARNING
            && m.spec_state().spec_code() == 1,
        m.critical_count == 0 && m.warning_count == 0 && m.unknown_count > 0 ==> m.spec_state()
            == NagiosError::UNKNOWN && m.spec_state().spec_code() == 3,
        m.critical_count == 0 && m.warning_count == 0 && m.unknown_count == 0 ==> m.spec_state()
            == NagiosError::OK && m.spec_state().spec_code() == 0,
        m.spec_state() == NagiosError::UNKNOWN <==> (m.critical_count == 0 && m.warning_count == 0
            && m.unknown_count > 0),
        m.spec_state() == NagiosError::CRITICAL <==> m.critical_count > 0,
{
}

/// A logfile that could not be read puts the plugin in the state its `logfilemissing` setting
/// names: one count in that category (none for OK), the error kept for its output line.
pub proof fn law_missing_state(error: AppError, missing: NagiosError)
    ensures
        missing_counter(error, missing).spec_state() == missing,
        missing_counter(error, missing).logfile_error == Some(error),
        missing_counter(error, missing).critical_count + missing_counter(error, missing).warning_count
            + missing_counter(error, missing).unknown_count == if missing == NagiosError::OK {
            0int
        } else {
            1int
        },
{
}

/// No logfile, no count.
pub proof fn law_total_empty()
    ensures
        total_of(Seq::<(Seq<char>, MatchCounter)>::empty()) == (0u16, 0u16, 0u16),
{
}

/// Totals add up: one more logfile adds each of its counts to the total of the others, the
/// sum held at the largest `u16` when it would go beyond. Whatever the order of the logfiles,
/// a total is thus the sum of their counts: two logfiles with one critical match each total
/// two.
pub proof fn law_total_adds(s: Seq<(Seq<char>, MatchCounter)>, p: Seq<char>, c: MatchCounter)
    ensures
        ({
            let t = total_of(s);
            let u = total_of(s.push((p, c)));
            &&& t.0 + c.critical_count <= u16::MAX ==> u.0 == t.0 + c.critical_count
            &&& t.0 + c.critical_count > u16::MAX ==> u.0 == u16::MAX
            &&& t.1 + c.warning_count <= u16::MAX ==> u.1 == t.1 + c.warning_count
            &&& t.1 + c.warning_count > u16::MAX ==> u.1 == u16::MAX
            &&& t.2 + c.unknown_count <= u16::MAX ==> u.2 == t.2 + c.unknown_count
            &&& t.2 + c.unknown_count > u16::MAX ==> u.2 == u16::MAX
        }),
{
    assert(s.push((p, c)).drop_last() =~= s);
}

/// The counters of each logfile processed, keyed by the logfile's path.
pub struct LogfileMatchCounter(pub Table<MatchCounter>);

impl LogfileMatchCounter {
    /// The counters, in the order in which their logfiles were first met.
    pub open spec fn view(&self) -> Seq<(Seq<char>, MatchCounter)> {
        self.0@
    }

    /// A new empty counter structure.
    pub fn new() -> (r: LogfileMatchCounter)
        ensures
            r.view() == Seq::<(Seq<char>, MatchCounter)>::empty(),
    {
        LogfileMatchCounter(Table::new())
    }

    /// The counter of a logfile, created with zero counts when the logfile has none yet.
    pub fn or_default(&mut self, path: &str) -> (r: &mut MatchCounter)
        ensures
            has_key(old(self).view(), path@) ==> {
                let i = key_pos(old(self).view(), path@);
                &&& *r == old(self).view()[i].1
                &&& final(self).view() == old(self).view().update(i, (path@, *final(r)))
            },
            !has_key(old(self).view(), path@) ==> {
                &&& *r == MatchCounter::spec_default()
                &&& final(self).view() == old(self).view().push((path@, *final(r)))
            },
    {
        self.0.or_insert(path, MatchCounter::default())
    }

    /// The paths and their counters, in order.
    pub fn iter(&self) -> (r: Vec<(&str, &MatchCounter)>)
        ensures
            r@.len() == self.view().len(),
            forall|i: int|
                0 <= i < r@.len() ==> (#[trigger] r@[i]).0@ == self.view()[i].0 && *r@[i].1
                    == self.view()[i].1,
    {
        let mut v: Vec<(&str, &MatchCounter)> = Vec::new();
        let mut i: usize = 0;
        while i < self.0.len()
            invariant
                    i <= self.view().len(),
                v@.len() == i,
                forall|j: int|
                    0 <= j < i ==> (#[trigger] v@[j]).0@ == self.view()[j].0 && *v@[j].1
                        == self.view()[j].1,
            decreases self.view().len() - i,
        {
            v.push((self.0.key_at(i).as_str(), self.0.value_at(i)));
            i = i + 1;
        }
        v
    }

    /// The counts of all logfiles added up, as the first line of the plugin output reports
    /// them; a logfile that could not be read counts in its `logfilemissing` category.
    pub fn total(&self) -> (r: MatchCounter)
        ensures
            (r.critical_count, r.warning_count, r.unknown_count) == total_of(self.view()),
            r.logfile_error is None,
    {
        let ghost v = self.view();
        let mut c: u16 = 0;
        let mut w: u16 = 0;
        let mut u: u16 = 0;
        let mut i: usize = 0;
        assert(v.take(0) =~= Seq::<(Seq<char>, MatchCounter)>::empty());
        while i < self.0.len()
            invariant
                i <= v.len(),
                v == self.view(),
                (c, w, u) == total_of(v.take(i as int)),
            decreases v.len() - i,
        {
            assert(v.take(i + 1).drop_last() =~= v.take(i as int));
            let m = self.0.value_at(i);
            c = c.saturating_add(m.critical_count);
            w = w.saturating_add(m.warning_count);
            u = u.saturating_add(m.unknown_count);
            i = i + 1;
        }
        assert(v.take(v.len() as int) =~= v);
        MatchCounter { critical_count: c, warning_count: w, unknown_count: u, logfile_error: None }
    }

    /// Whether the counter of some logfile holds an error.
    pub fn is_error(&self) -> (r: bool)
        ensures
            r == exists|i: int|
                0 <= i < self.view().len() && (#[trigger] self.view()[i]).1.logfile_error is Some,
    {
        let mut i: usize = 0;
        while i < self.0.len()
            invariant
                    i <= self.view().len(),
                forall|j: int| 0 <= j < i ==> (#[trigger] self.view()[j]).1.logfile_error is None,
            decreases self.view().len() - i,
        {
            if self.0.value_at(i).logfile_error.is_some() {
                assert(self.view()[i as int].1.logfile_error is Some);
                return true;
            }
            i = i + 1;
        }
        false
    }

    /// The plugin output lines, one per logfile: its path, then its counters or the error met.
    pub fn to_string(&self) -> (r: String)
        ensures
            r@ == logfile_lines(self.view()),
    {
        let ghost v = self.view();
        let mut s = String::new();
        let mut i: usize = 0;
        assert(v.take(0) =~= Seq::<(Seq<char>, MatchCounter)>::empty());
        while i < self.0.len()
            invariant
                i <= v.len(),
                v == self.view(),
                s@ == logfile_lines(v.take(i as int)),
            decreases v.len() - i,
        {
            assert(v.take(i + 1).drop_last() =~= v.take(i as int));
            let path = self.0.key_at(i);
            let c = self.0.value_at(i);
            let ghost before = s@;
            push_str(&mut s, path.as_str());
            push_str(&mut s, ": ");
            match &c.logfile_error {
                None => push_str(&mut s, c.to_string().as_str()),
                Some(e) => push_str(&mut s, e.to_string().as_str()),
            }
            push_str(&mut s, "\n");
            assert(s@ =~= before + logfile_line(v[i as int].0, v[i as int].1));
            i = i + 1;
        }
        assert(v.take(v.len() as int) =~= v);
        s
    }

    /// Sets the counter of a logfile to the error met opening it: its counts are replaced by
    /// one count in the category that `missing` (the logfile's `logfilemissing` state) names.
    pub fn set_error(&mut self, path: &str, error: AppError, missing: NagiosError)
        ensures
            ({
                let c = missing_counter(error, missing);
                &&& has_key(old(self).view(), path@) ==> final(self).view() == old(
                    self,
                ).view().update(key_pos(old(self).view(), path@), (path@, c))
                &&& !has_key(old(self).view(), path@) ==> final(self).view() == old(
                    self,
                ).view().push((path@, c))
            }),
    {
        let c = MatchCounter {
            critical_count: if missing == NagiosError::CRITICAL { 1 } else { 0 },
            warning_count: if missing == NagiosError::WARNING { 1 } else { 0 },
            unknown_count: if missing == NagiosError::UNKNOWN { 1 } else { 0 },
            logfile_error: Some(error),
        };
        let _ = self.0.insert(crate::text::owned(path), c);
    }
}

} // verus!

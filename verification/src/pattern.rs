//! Patterns which are searched for in a logfile: lists of regexes, each list with an optional
//! set of exceptions, grouped into critical, warning and ok patterns.
use vstd::prelude::*;

use crate::error::{AppCustomErrorKind, AppError};
use crate::text::{owned, push_str, str_is};

verus! {

#[verifier::external_type_specification]
#[verifier::external_body]
pub struct ExRegex(regex::Regex);

#[verifier::external_type_specification]
#[verifier::external_body]
pub struct ExRegexSet(regex::RegexSet);

/// Whether `Regex::new` accepts a pattern.
pub uninterp spec fn regex_compiles(p: Seq<char>) -> bool;

/// The message of the error that `Regex::new` gives for a pattern it refuses.
pub uninterp spec fn regex_error(p: Seq<char>) -> Seq<char>;

/// Whether `Regex::is_match` finds a match of a pattern anywhere in a text.
pub uninterp spec fn re_is_match(p: Seq<char>, t: Seq<char>) -> bool;

/// The capture groups of the first match of a pattern in a text, as `Regex::captures` and
/// `Regex::capture_names` give them: for each group, its name if it has one and the text it
/// matched if it took part in the match.
pub uninterp spec fn re_captures(p: Seq<char>, t: Seq<char>) -> Option<
    Seq<(Option<Seq<char>>, Option<Seq<char>>)>,
>;

/// Whether `RegexSet::new` accepts a list of patterns.
pub uninterp spec fn set_compiles(ps: Seq<Seq<char>>) -> bool;

/// The message of the error that `RegexSet::new` gives for a list it refuses.
pub uninterp spec fn set_error(ps: Seq<Seq<char>>) -> Seq<char>;

/// A compiled regex, with the pattern it was compiled from.
#[derive(Debug)]
pub struct Re {
    source: String,
    compiled: regex::Regex,
}

impl View for Re {
    type V = Seq<char>;

    closed spec fn view(&self) -> Seq<char> {
        self.source@
    }
}

/// Calls `Regex::clone`; nothing is stated of the copy here, as the regex is opaque: the
/// pattern kept beside it says what it matches.
#[verifier::external_body]
fn clone_regex(re: &regex::Regex) -> (r: regex::Regex) {
    re.clone()
}

/// Calls `RegexSet::clone`; nothing is stated of the copy here, as the set is opaque: the
/// patterns kept beside it say what it matches.
#[verifier::external_body]
fn clone_regex_set(set: &regex::RegexSet) -> (r: regex::RegexSet) {
    set.clone()
}

impl Clone for Re {
    fn clone(&self) -> (r: Re)
        ensures
            r@ == self@,
    {
        Re { source: self.source.clone(), compiled: clone_regex(&self.compiled) }
    }
}

impl Clone for RegexBundle {
    fn clone(&self) -> (r: RegexBundle)
        ensures
            r.view() == self.view(),
    {
        RegexBundle { sources: self.sources.clone(), set: clone_regex_set(&self.set) }
    }
}

/// Calls `Regex::new`. Whether it succeeds, and the message of its error, are named
/// `regex_compiles` and `regex_error`; on success the regex keeps its pattern.
#[verifier::external_body]
fn compile(source: &str) -> (r: Result<Re, String>)
    ensures
        r is Ok <==> regex_compiles(source@),
        r matches Ok(re) ==> re@ == source@,
        r matches Err(m) ==> m@ == regex_error(source@),
{
    match regex::Regex::new(source) {
        Ok(compiled) => Ok(Re { source: source.to_string(), compiled }),
        Err(e) => Err(e.to_string()),
    }
}

/// Calls `Regex::is_match`, named `re_is_match`.
#[verifier::external_body]
fn regex_is_match(re: &Re, text: &str) -> (r: bool)
    ensures
        r == re_is_match(re@, text@),
{
    re.compiled.is_match(text)
}

/// Calls `Regex::captures` and `Regex::capture_names`, named `re_captures`. As their
/// documentation says, there are captures exactly when there is a match, and then the first
/// group is the unnamed group of the whole match, which always takes part in it.
#[verifier::external_body]
fn regex_captures(re: &Re, text: &str) -> (r: Option<Vec<(Option<String>, Option<String>)>>)
    ensures
        r is Some <==> re_is_match(re@, text@),
        r is Some <==> re_captures(re@, text@) is Some,
        r matches Some(g) ==> re_captures(re@, text@) == Some(groups_view(g@)),
        r matches Some(g) ==> g@.len() >= 1 && g@[0].0 is None && g@[0].1 is Some,
{
    re.compiled.captures(text).map(
        |caps|
            re.compiled.capture_names().enumerate().map(
                |(i, n)| (n.map(|s| s.to_string()), caps.get(i).map(|m| m.as_str().to_string())),
            ).collect()
    )
}

/// What `Captures::expand` writes for a template, given the captures of the first match of a
/// pattern in a text: each `$name`, `${name}` or `$n` replaced by what that group matched.
pub uninterp spec fn re_expand(p: Seq<char>, t: Seq<char>, template: Seq<char>) -> Seq<char>;

/// Calls `Regex::captures`, then `Captures::expand` on the template, named `re_expand`. The
/// captures exist since the regex matches the text.
#[verifier::external_body]
pub(crate) fn regex_expand(re: &Re, text: &str, template: &str) -> (r: String)
    requires
        re_is_match(re@, text@),
    ensures
        r@ == re_expand(re@, text@, template@),
{
    let mut dst = String::new();
    re.compiled.captures(text).unwrap().expand(template, &mut dst);
    dst
}

/// The string contents of capture groups.
pub open spec fn groups_view(g: Seq<(Option<String>, Option<String>)>) -> Seq<
    (Option<Seq<char>>, Option<Seq<char>>),
> {
    g.map_values(
        |p: (Option<String>, Option<String>)|
            (
                match p.0 {
                    Some(s) => Some(s@),
                    None => None,
                },
                match p.1 {
                    Some(s) => Some(s@),
                    None => None,
                },
            ),
    )
}

impl Re {
    /// Compiles a regex; a pattern that `Regex::new` refuses gives a `Regex` error with its
    /// message.
    pub fn new(source: &str) -> (r: Result<Re, AppError>)
        ensures
            r is Ok <==> regex_compiles(source@),
            r matches Ok(re) ==> re@ == source@,
            r matches Err(e) ==> e matches AppError::Regex(m) && m@ == regex_error(source@),
    {
        match compile(source) {
            Ok(re) => Ok(re),
            Err(m) => Err(AppError::Regex(m)),
        }
    }

    /// The pattern the regex was compiled from.
    pub fn as_str(&self) -> (r: &str)
        ensures
            r@ == self@,
    {
        self.source.as_str()
    }

    /// Whether the regex matches anywhere in the text.
    pub fn is_match(&self, text: &str) -> (r: bool)
        ensures
            r == re_is_match(self@, text@),
    {
        regex_is_match(self, text)
    }

    /// The capture groups of the first match in the text, if there is one.
    pub fn captures(&self, text: &str) -> (r: Option<Vec<(Option<String>, Option<String>)>>)
        ensures
            r is Some <==> re_is_match(self@, text@),
            r is Some <==> re_captures(self@, text@) is Some,
            r matches Some(g) ==> re_captures(self@, text@) == Some(groups_view(g@)) && g@.len()
                >= 1 && g@[0].0 is None && g@[0].1 is Some,
    {
        regex_captures(self, text)
    }
}

/// Whether `i` is the position of the first pattern that matches a text.
pub open spec fn is_first_match(ps: Seq<Seq<char>>, t: Seq<char>, i: int) -> bool {
    &&& 0 <= i < ps.len()
    &&& re_is_match(ps[i], t)
    &&& forall|j: int| 0 <= j < i ==> !re_is_match(#[trigger] ps[j], t)
}

/// The position of the first pattern that matches a text, if one does.
pub open spec fn first_match(ps: Seq<Seq<char>>, t: Seq<char>) -> Option<int> {
    if exists|i: int| 0 <= i < ps.len() && re_is_match(#[trigger] ps[i], t) {
        Some(choose|i: int| is_first_match(ps, t, i))
    } else {
        None
    }
}

/// A pattern that matches has a first matching one before or at it.
proof fn lemma_first_exists(ps: Seq<Seq<char>>, t: Seq<char>, k: int)
    requires
        0 <= k < ps.len(),
        re_is_match(ps[k], t),
    ensures
        exists|i: int| is_first_match(ps, t, i),
    decreases k,
{
    if exists|j: int| 0 <= j < k && re_is_match(#[trigger] ps[j], t) {
        let j = choose|j: int| 0 <= j < k && re_is_match(#[trigger] ps[j], t);
        lemma_first_exists(ps, t, j);
    } else {
        assert(is_first_match(ps, t, k));
    }
}

/// The regex a list gives for a text is the first of the list that matches the text: none
/// before it matches; and it gives none exactly when no regex of the list matches.
pub proof fn law_first_match(ps: Seq<Seq<char>>, t: Seq<char>)
    ensures
        first_match(ps, t) matches Some(i) ==> 0 <= i < ps.len() && re_is_match(ps[i], t) && (
        forall|j: int| 0 <= j < i ==> !re_is_match(#[trigger] ps[j], t)),
        first_match(ps, t) is None <==> forall|j: int| 0 <= j < ps.len() ==> !re_is_match(
            #[trigger] ps[j],
            t,
        ),
{
    if exists|k: int| 0 <= k < ps.len() && re_is_match(#[trigger] ps[k], t) {
        let k = choose|k: int| 0 <= k < ps.len() && re_is_match(#[trigger] ps[k], t);
        lemma_first_exists(ps, t, k);
        let i = choose|i: int| is_first_match(ps, t, i);
        assert(is_first_match(ps, t, i));
    }
}

proof fn lemma_first_match(ps: Seq<Seq<char>>, t: Seq<char>, i: int)
    requires
        is_first_match(ps, t, i),
    ensures
        first_match(ps, t) == Some(i),
{
    assert(re_is_match(ps[i], t));
    let c = choose|k: int| is_first_match(ps, t, k);
    assert(is_first_match(ps, t, c));
    if c < i {
        assert(!re_is_match(ps[c], t));
    } else if c > i {
        assert(!re_is_match(ps[i], t));
    }
}

/// The patterns of a list of regexes.
pub open spec fn sources(v: Seq<Re>) -> Seq<Seq<char>> {
    v.map_values(|r: Re| r@)
}

/// A list of compiled regexes.
#[derive(Debug)]
pub struct RegexVec(pub Vec<Re>);

impl Clone for RegexVec {
    fn clone(&self) -> (r: RegexVec)
        ensures
            r.view() == self.view(),
    {
        let mut v: Vec<Re> = Vec::new();
        let mut i: usize = 0;
        while i < self.0.len()
            invariant
                i <= self.0@.len(),
                v@.len() == i,
                forall|j: int| 0 <= j < i ==> (#[trigger] v@[j])@ == self.0@[j]@,
            decreases self.0@.len() - i,
        {
            v.push(self.0[i].clone());
            i = i + 1;
        }
        let r = RegexVec(v);
        assert(r.view() =~= self.view());
        r
    }
}

impl RegexVec {
    /// The patterns, in order.
    pub open spec fn view(&self) -> Seq<Seq<char>> {
        sources(self.0@)
    }

    /// Compiles each pattern of a list, in order; the first one that does not compile gives
    /// its error.
    pub fn try_from(list: Vec<String>) -> (r: Result<RegexVec, AppError>)
        ensures
            r is Ok <==> forall|i: int| 0 <= i < list@.len() ==> regex_compiles(#[trigger] list@[i]@),
            r matches Ok(v) ==> v.view() == list@.map_values(|s: String| s@),
            r matches Err(e) ==> exists|i: int|
                0 <= i < list@.len() && !regex_compiles(#[trigger] list@[i]@) && (forall|j: int|
                    0 <= j < i ==> regex_compiles(#[trigger] list@[j]@)) && (e matches AppError::Regex(m)
                    && m@ == regex_error(list@[i]@)),
    {
        let mut v: Vec<Re> = Vec::new();
        let mut i: usize = 0;
        while i < list.len()
            invariant
                i <= list@.len(),
                v@.len() == i,
                forall|j: int| 0 <= j < i ==> regex_compiles(#[trigger] list@[j]@),
                forall|j: int| 0 <= j < i ==> (#[trigger] v@[j])@ == list@[j]@,
            decreases list@.len() - i,
        {
            match Re::new(list[i].as_str()) {
                Ok(re) => v.push(re),
                Err(e) => {
                    return Err(e);
                },
            }
            i = i + 1;
        }
        let r = RegexVec(v);
        assert(r.view() =~= list@.map_values(|s: String| s@));
        Ok(r)
    }

    /// The number of regexes.
    pub fn len(&self) -> (r: usize)
        ensures
            r == self.view().len(),
    {
        self.0.len()
    }

    /// The first regex that matches the text, with its position, if one does.
    pub fn first_match(&self, text: &str) -> (r: Option<(usize, &Re)>)
        ensures
            match first_match(self.view(), text@) {
                Some(i) => r matches Some(p) && p.0 == i && p.1@ == self.view()[i],
                None => r is None,
            },
    {
        let mut i: usize = 0;
        while i < self.0.len()
            invariant
                i <= self.0@.len(),
                forall|j: int| 0 <= j < i ==> !re_is_match(#[trigger] self.view()[j], text@),
            decreases self.0@.len() - i,
        {
            assert(self.view()[i as int] == self.0@[i as int]@);
            if self.0[i].is_match(text) {
                proof {
                    lemma_first_match(self.view(), text@, i as int);
                }
                return Some((i, &self.0[i]));
            }
            i = i + 1;
        }
        proof {
            if exists|k: int| 0 <= k < self.view().len() && re_is_match(#[trigger] self.view()[k], text@) {
                let k = choose|k: int| 0 <= k < self.view().len() && re_is_match(#[trigger] self.view()[k], text@);
                assert(!re_is_match(self.view()[k], text@));
            }
        }
        None
    }
}

/// A set of regexes, of which it only matters whether one matches.
#[derive(Debug)]
pub struct RegexBundle {
    sources: Vec<String>,
    set: regex::RegexSet,
}

/// Calls `RegexSet::new`. Whether it succeeds, and the message of its error, are named
/// `set_compiles` and `set_error`; on success the set keeps its patterns.
#[verifier::external_body]
fn compile_set(list: Vec<String>) -> (r: Result<RegexBundle, String>)
    ensures
        r is Ok <==> set_compiles(list@.map_values(|s: String| s@)),
        r matches Ok(b) ==> b.view() == list@.map_values(|s: String| s@),
        r matches Err(m) ==> m@ == set_error(list@.map_values(|s: String| s@)),
{
    match regex::RegexSet::new(&list) {
        Ok(set) => Ok(RegexBundle { sources: list, set }),
        Err(e) => Err(e.to_string()),
    }
}

/// Calls `RegexSet::is_match`, which, as its documentation says, tells whether one of the
/// regexes of the set matches the text.
#[verifier::external_body]
fn set_is_match(b: &RegexBundle, text: &str) -> (r: bool)
    ensures
        r == (exists|i: int| 0 <= i < b.view().len() && re_is_match(#[trigger] b.view()[i], text@)),
{
    b.set.is_match(text)
}

impl RegexBundle {
    /// The patterns of the set.
    pub closed spec fn view(&self) -> Seq<Seq<char>> {
        self.sources@.map_values(|s: String| s@)
    }

    /// Compiles a set of patterns; a list that `RegexSet::new` refuses gives a `Regex` error
    /// with its message.
    pub fn try_from(list: Vec<String>) -> (r: Result<RegexBundle, AppError>)
        ensures
            r is Ok <==> set_compiles(list@.map_values(|s: String| s@)),
            r matches Ok(b) ==> b.view() == list@.map_values(|s: String| s@),
            r matches Err(e) ==> e matches AppError::Regex(m) && m@ == set_error(
                list@.map_values(|s: String| s@),
            ),
    {
        match compile_set(list) {
            Ok(b) => Ok(b),
            Err(m) => Err(AppError::Regex(m)),
        }
    }

    /// The number of patterns in the set.
    pub fn len(&self) -> (r: usize)
        ensures
            r == self.view().len(),
    {
        self.sources.len()
    }

    /// Whether one of the patterns matches the text.
    pub fn is_match(&self, text: &str) -> (r: bool)
        ensures
            r == exists|i: int| 0 <= i < self.view().len() && re_is_match(#[trigger] self.view()[i], text@),
    {
        set_is_match(self, text)
    }
}

/// A list of regexes which trigger a match, unless one of the exceptions matches too.
#[derive(Debug)]
pub struct Pattern {
    /// The regexes, tried in order.
    pub regexes: RegexVec,
    /// Regexes which, when one matches, dismiss the match.
    pub exceptions: Option<RegexBundle>,
}

/// The patterns of an optional set of exceptions.
pub open spec fn opt_bundle_view(b: Option<RegexBundle>) -> Option<Seq<Seq<char>>> {
    match b {
        Some(b) => Some(b.view()),
        None => None,
    }
}

impl Clone for Pattern {
    fn clone(&self) -> (r: Pattern)
        ensures
            r.view() == self.view(),
    {
        let exceptions = match &self.exceptions {
            Some(b) => Some(b.clone()),
            None => None,
        };
        Pattern { regexes: self.regexes.clone(), exceptions }
    }
}

impl Pattern {
    /// The regexes and the exceptions, by their patterns.
    pub open spec fn view(&self) -> (Seq<Seq<char>>, Option<Seq<Seq<char>>>) {
        (self.regexes.view(), opt_bundle_view(self.exceptions))
    }

    /// Whether one of the exceptions matches the text.
    pub open spec fn spec_is_exception(&self, t: Seq<char>) -> bool {
        match self.exceptions {
            Some(b) => exists|i: int| 0 <= i < b.view().len() && re_is_match(#[trigger] b.view()[i], t),
            None => false,
        }
    }

    /// The position of the regex which matches the text, if no exception matches.
    pub open spec fn spec_match(&self, t: Seq<char>) -> Option<int> {
        if self.spec_is_exception(t) {
            None
        } else {
            first_match(self.regexes.view(), t)
        }
    }

    /// Whether one of the exceptions matches the text.
    pub fn is_exception(&self, text: &str) -> (r: bool)
        ensures
            r == self.spec_is_exception(text@),
    {
        match &self.exceptions {
            Some(b) => b.is_match(text),
            None => false,
        }
    }

    /// The first regex which matches the text, provided no exception matches it.
    pub fn is_match(&self, text: &str) -> (r: Option<&Re>)
        ensures
            match self.spec_match(text@) {
                Some(i) => r matches Some(re) && re@ == self.regexes.view()[i],
                None => r is None,
            },
    {
        if self.is_exception(text) {
            return None;
        }
        match self.regexes.first_match(text) {
            Some((_, re)) => Some(re),
            None => None,
        }
    }
}

/// The qualification of a pattern.
#[allow(non_camel_case_types)]
#[derive(Debug, Clone, Copy, PartialEq, Eq, Hash, Structural)]
pub enum PatternType {
    critical,
    warning,
    ok,
}

impl PatternType {
    /// The name of the pattern type.
    pub open spec fn spec_name(self) -> Seq<char> {
        match self {
            PatternType::critical => "critical"@,
            PatternType::warning => "warning"@,
            PatternType::ok => "ok"@,
        }
    }

    /// The name of the pattern type.
    pub fn name(&self) -> (r: &'static str)
        ensures
            r@ == self.spec_name(),
    {
        match self {
            PatternType::critical => "critical",
            PatternType::warning => "warning",
            PatternType::ok => "ok",
        }
    }

    /// The name of the pattern type, as a `String`.
    pub fn to_string(&self) -> (r: String)
        ensures
            r@ == self.spec_name(),
    {
        owned(self.name())
    }

    /// Reads a pattern type: `critical`, `warning` or `ok`; anything else is refused.
    pub fn try_from(s: &str) -> (r: Result<PatternType, AppError>)
        ensures
            s@ == "critical"@ ==> r == Ok::<PatternType, AppError>(PatternType::critical),
            s@ == "warning"@ ==> r == Ok::<PatternType, AppError>(PatternType::warning),
            s@ == "ok"@ ==> r == Ok::<PatternType, AppError>(PatternType::ok),
            !(s@ == "critical"@ || s@ == "warning"@ || s@ == "ok"@) ==> (r matches Err(
                AppError::App { err, msg },
            ) && err == AppCustomErrorKind::UnsupportedPatternType && msg@ == s@
                + " pattern type is not supported"@),
    {
        proof {
            reveal_strlit("critical");
            reveal_strlit("warning");
            reveal_strlit("ok");
            assert("critical"@[0] != "warning"@[0]);
            assert("critical"@[0] != "ok"@[0]);
            assert("warning"@[0] != "ok"@[0]);
        }
        if str_is(s, "critical") {
            Ok(PatternType::critical)
        } else if str_is(s, "warning") {
            Ok(PatternType::warning)
        } else if str_is(s, "ok") {
            Ok(PatternType::ok)
        } else {
            let mut msg = owned(s);
            push_str(&mut msg, " pattern type is not supported");
            Err(AppError::App { err: AppCustomErrorKind::UnsupportedPatternType, msg })
        }
    }
}

/// Patterns grouped into three categories: critical, warning and ok.
#[derive(Debug)]
pub struct PatternSet {
    pub critical: Option<Pattern>,
    pub warning: Option<Pattern>,
    pub ok: Option<Pattern>,
}

/// The position of the regex of an optional pattern which matches a text.
pub open spec fn opt_match(p: Option<Pattern>, t: Seq<char>) -> Option<int> {
    match p {
        Some(p) => p.spec_match(t),
        None => None,
    }
}

/// The regexes of an optional pattern.
pub open spec fn opt_regexes(p: Option<Pattern>) -> Seq<Seq<char>> {
    match p {
        Some(p) => p.regexes.view(),
        None => Seq::empty(),
    }
}

/// A pattern gives nothing for a text that one of its exceptions matches; otherwise it gives
/// the first of its regexes that matches the text, if one does.
pub proof fn law_pattern_match(p: Pattern, t: Seq<char>)
    ensures
        p.spec_is_exception(t) ==> p.spec_match(t) is None,
        p.exceptions matches Some(b) ==> (p.spec_is_exception(t) <==> exists|k: int|
            0 <= k < b.view().len() && re_is_match(#[trigger] b.view()[k], t)),
        p.exceptions is None ==> !p.spec_is_exception(t),
        !p.spec_is_exception(t) ==> p.spec_match(t) == first_match(p.regexes.view(), t),
{
}

/// Patterns are tried by category, critical first, then warning, then ok: a text that a
/// critical pattern matches (its exceptions aside) gives that critical regex, whatever the
/// warning and ok patterns match; a warning one is given only when no critical pattern
/// matches, an ok one only when neither a critical nor a warning pattern matches, and nothing
/// when no category matches.
pub proof fn law_category_order(ps: PatternSet, t: Seq<char>)
    ensures
        opt_match(ps.critical, t) matches Some(i) ==> ps.spec_match(t) == Some(
            (PatternType::critical, opt_regexes(ps.critical)[i]),
        ),
        opt_match(ps.critical, t) is None ==> (opt_match(ps.warning, t) matches Some(i)
            ==> ps.spec_match(t) == Some((PatternType::warning, opt_regexes(ps.warning)[i]))),
        opt_match(ps.critical, t) is None && opt_match(ps.warning, t) is None ==> (opt_match(
            ps.ok,
            t,
        ) matches Some(i) ==> ps.spec_match(t) == Some((PatternType::ok, opt_regexes(ps.ok)[i]))),
        opt_match(ps.critical, t) is None && opt_match(ps.warning, t) is None && opt_match(
            ps.ok,
            t,
        ) is None ==> ps.spec_match(t) is None,
        ps.spec_match(t) matches Some(m) && m.0 == PatternType::warning ==> opt_match(
            ps.critical,
            t,
        ) is None,
        ps.spec_match(t) matches Some(m) && m.0 == PatternType::ok ==> opt_match(ps.critical, t)
            is None && opt_match(ps.warning, t) is None,
        ps.critical is None ==> opt_match(ps.critical, t) is None,
        ps.critical matches Some(p) ==> opt_match(ps.critical, t) == p.spec_match(t),
{
}

/// Patterns with the same regexes and exceptions match each text in the same way.
proof fn lemma_same_pattern(a: Option<Pattern>, b: Option<Pattern>, t: Seq<char>)
    requires
        opt_pattern_view(a) == opt_pattern_view(b),
    ensures
        opt_match(a, t) == opt_match(b, t),
        opt_regexes(a) == opt_regexes(b),
{
    if let (Some(pa), Some(pb)) = (a, b) {
        assert(pa.regexes.view() == pb.regexes.view());
        assert(opt_bundle_view(pa.exceptions) == opt_bundle_view(pb.exceptions));
        assert(pa.spec_is_exception(t) == pb.spec_is_exception(t));
    }
}

/// Pattern sets with the same patterns match each text in the same way: a copy of a set
/// matches what the set matches, with the same category and regex.
pub proof fn law_same_patterns_same_match(a: PatternSet, b: PatternSet, t: Seq<char>)
    requires
        a.view() == b.view(),
    ensures
        a.spec_match(t) == b.spec_match(t),
{
    lemma_same_pattern(a.critical, b.critical, t);
    lemma_same_pattern(a.warning, b.warning, t);
    lemma_same_pattern(a.ok, b.ok, t);
}

/// The regexes and exceptions of an optional pattern.
pub open spec fn opt_pattern_view(p: Option<Pattern>) -> Option<(Seq<Seq<char>>, Option<Seq<Seq<char>>>)> {
    match p {
        Some(p) => Some(p.view()),
        None => None,
    }
}

/// Clones an optional pattern.
fn clone_opt_pattern(p: &Option<Pattern>) -> (r: Option<Pattern>)
    ensures
        opt_pattern_view(r) == opt_pattern_view(*p),
{
    match p {
        Some(p) => Some(p.clone()),
        None => None,
    }
}

impl Clone for PatternSet {
    fn clone(&self) -> (r: PatternSet)
        ensures
            r.view() == self.view(),
    {
        PatternSet {
            critical: clone_opt_pattern(&self.critical),
            warning: clone_opt_pattern(&self.warning),
            ok: clone_opt_pattern(&self.ok),
        }
    }
}

impl PatternSet {
    /// The patterns of each category.
    pub open spec fn view(&self) -> (
        Option<(Seq<Seq<char>>, Option<Seq<Seq<char>>>)>,
        Option<(Seq<Seq<char>>, Option<Seq<Seq<char>>>)>,
        Option<(Seq<Seq<char>>, Option<Seq<Seq<char>>>)>,
    ) {
        (opt_pattern_view(self.critical), opt_pattern_view(self.warning), opt_pattern_view(self.ok))
    }

    /// The category and the regex which match a text: critical patterns are tried first,
    /// then warning ones, then ok ones.
    pub open spec fn spec_match(&self, t: Seq<char>) -> Option<(PatternType, Seq<char>)> {
        if let Some(i) = opt_match(self.critical, t) {
            Some((PatternType::critical, opt_regexes(self.critical)[i]))
        } else if let Some(i) = opt_match(self.warning, t) {
            Some((PatternType::warning, opt_regexes(self.warning)[i]))
        } else if let Some(i) = opt_match(self.ok, t) {
            Some((PatternType::ok, opt_regexes(self.ok)[i]))
        } else {
            None
        }
    }

    /// The category and the regex which match a text, provided no exception of that category
    /// matches: critical patterns are tried first, then warning ones, then ok ones.
    pub fn is_match(&self, text: &str) -> (r: Option<(PatternType, &Re)>)
        ensures
            match self.spec_match(text@) {
                Some((pt, src)) => r matches Some(m) && m.0 == pt && m.1@ == src,
                None => r is None,
            },
    {
        if let Some(critical) = &self.critical {
            if let Some(re) = critical.is_match(text) {
                return Some((PatternType::critical, re));
            }
        }
        if let Some(warning) = &self.warning {
            if let Some(re) = warning.is_match(text) {
                return Some((PatternType::warning, re));
            }
        }
        if let Some(ok) = &self.ok {
            if let Some(re) = ok.is_match(text) {
                return Some((PatternType::ok, re));
            }
        }
        None
    }
}

} // verus!

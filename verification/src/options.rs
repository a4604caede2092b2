//! Configuration options which apply only to a search: a comma-separated list such as
//! `"runcallback, criticalthreshold=10"`.
use vstd::prelude::*;

use crate::error::{AppCustomErrorKind, AppError};
use crate::text::{
    chars_eq, chars_of, contains, contains_chars, has_char, parse_bounded, parse_unsigned_chars,
    push_str, split, split_chars, string_of, trim, trim_chars,
};

verus! {

/// A list of options which are specific to a search. If an option is not present, it's deemed
/// false; the limits `runlimit`, `truncate` and `stopat` are the largest value of their types
/// by default, like `sticky`; the thresholds are 0.
#[derive(Debug, Clone, Copy, PartialEq, Eq, Structural)]
pub struct SearchOptions {
    /// If `true`, the defined callback is run on a match.
    pub runcallback: bool,
    /// If `true`, the matching line will be saved in an output file.
    pub keepoutput: bool,
    /// If `true`, the logfile will be searched from the beginning, regardless of any saved offset.
    pub rewind: bool,
    /// How many lines have to match a critical pattern until they are considered a critical error.
    pub criticalthreshold: u64,
    /// How many lines have to match a warning pattern until they are considered a warning.
    pub warningthreshold: u64,
    /// Whether the matching lines are written to a protocol file.
    pub protocol: bool,
    /// Whether the threshold counts are saved between runs (`savethresholdcount`, or
    /// `savethresholds`).
    pub savethresholdcount: bool,
    /// Whether an error is propagated through successive runs.
    pub sticky: u16,
    /// Moves to the end of the file for the first read, if the file has not been read yet.
    pub fastforward: bool,
    /// The number of times a callback will be called, at most.
    pub runlimit: u64,
    /// Truncate the read line at this length before lookup (0: no truncation).
    pub truncate: usize,
    /// Stop processing the logfile at this line number (0: never).
    pub stopat: u64,
    /// If `true`, together with `runcallback`, the callback is also run on an ok match.
    pub runifok: bool,
}

impl SearchOptions {
    /// All options off; the limits (`runlimit`, `truncate`, `stopat`) at the largest value of
    /// their types, so that they limit nothing.
    pub open spec fn spec_default() -> SearchOptions {
        SearchOptions {
            runcallback: false,
            keepoutput: false,
            rewind: false,
            criticalthreshold: 0,
            warningthreshold: 0,
            protocol: false,
            savethresholdcount: false,
            sticky: u16::MAX,
            fastforward: false,
            runlimit: u64::MAX,
            truncate: usize::MAX,
            stopat: u64::MAX,
            runifok: false,
        }
    }
}

impl Default for SearchOptions {
    fn default() -> (r: SearchOptions)
        ensures
            r == SearchOptions::spec_default(),
    {
        SearchOptions {
            runcallback: false,
            keepoutput: false,
            rewind: false,
            criticalthreshold: 0,
            warningthreshold: 0,
            protocol: false,
            savethresholdcount: false,
            sticky: u16::MAX,
            fastforward: false,
            runlimit: u64::MAX,
            truncate: usize::MAX,
            stopat: u64::MAX,
            runifok: false,
        }
    }
}

/// The options of a list: the comma-separated pieces, trimmed.
pub open spec fn option_items(s: Seq<char>) -> Seq<Seq<char>> {
    split(s, ',').map_values(|p: Seq<char>| trim(p))
}

/// An option is known when one of the option names occurs in it.
pub open spec fn is_known_option(item: Seq<char>) -> bool {
    ||| contains(item, "runcallback"@)
    ||| contains(item, "keepoutput"@)
    ||| contains(item, "rewind"@)
    ||| contains(item, "criticalthreshold"@)
    ||| contains(item, "warningthreshold"@)
    ||| contains(item, "protocol"@)
    ||| contains(item, "savethresholdcount"@)
    ||| contains(item, "sticky"@)
    ||| contains(item, "fastforward"@)
    ||| contains(item, "runlimit"@)
    ||| contains(item, "truncate"@)
    ||| contains(item, "stopat"@)
    ||| contains(item, "runifok"@)
    ||| contains(item, "savethresholds"@)
}

/// The first option that is not known, if any.
pub open spec fn first_unknown(items: Seq<Seq<char>>) -> Option<Seq<char>>
    decreases items.len(),
{
    if items.len() == 0 {
        None
    } else if !is_known_option(items[0]) {
        Some(items[0])
    } else {
        first_unknown(items.drop_first())
    }
}

/// A `key=value` option.
pub open spec fn is_kv(item: Seq<char>) -> bool {
    item.contains('=')
}

/// The key of a `key=value` option.
pub open spec fn kv_key(item: Seq<char>) -> Seq<char> {
    trim(split(item, '=')[0])
}

/// The value of a `key=value` option: what stands between the first and the second `=`.
pub open spec fn kv_value(item: Seq<char>) -> Seq<char> {
    trim(split(item, '=')[1])
}

/// The value of the last `key=value` option with this key.
pub open spec fn last_value(items: Seq<Seq<char>>, key: Seq<char>) -> Option<Seq<char>>
    decreases items.len(),
{
    if items.len() == 0 {
        None
    } else if is_kv(items.last()) && kv_key(items.last()) == key {
        Some(kv_value(items.last()))
    } else {
        last_value(items.drop_last(), key)
    }
}

/// The value of an integer option: the last one given, or `dflt` when it is absent.
pub open spec fn int_option(items: Seq<Seq<char>>, key: Seq<char>, max: nat, dflt: nat) -> nat {
    match last_value(items, key) {
        Some(v) => match parse_bounded(v, max) {
            Some(n) => n,
            None => dflt,
        },
        None => dflt,
    }
}

/// Whether an option sets `key`.
pub open spec fn sets_key(item: Seq<char>, key: Seq<char>) -> bool {
    is_kv(item) && kv_key(item) == key
}

/// The value an option list gives a key is that of the last option setting the key: no later
/// option sets it; and there is none exactly when no option sets the key.
pub proof fn law_last_value_wins(items: Seq<Seq<char>>, key: Seq<char>)
    ensures
        last_value(items, key) matches Some(v) ==> exists|i: int|
            0 <= i < items.len() && sets_key(#[trigger] items[i], key) && v == kv_value(items[i])
                && forall|j: int| i < j < items.len() ==> !sets_key(#[trigger] items[j], key),
        last_value(items, key) is None <==> forall|i: int|
            0 <= i < items.len() ==> !sets_key(#[trigger] items[i], key),
    decreases items.len(),
{
    if items.len() > 0 {
        let p = items.drop_last();
        law_last_value_wins(p, key);
        let n = items.len() - 1;
        if sets_key(items[n], key) {
            assert(sets_key(items[n], key) && forall|j: int| n < j < items.len() ==> !sets_key(
                #[trigger] items[j],
                key,
            ));
        } else {
            if last_value(p, key) is Some {
                let i = choose|i: int|
                    0 <= i < p.len() && sets_key(#[trigger] p[i], key) && last_value(p, key)->0
                        == kv_value(p[i]) && forall|j: int|
                        i < j < p.len() ==> !sets_key(#[trigger] p[j], key);
                assert(items[i] == p[i]);
                assert forall|j: int| i < j < items.len() implies !sets_key(#[trigger] items[j], key) by {
                    if j < n {
                        assert(items[j] == p[j]);
                    }
                }
            } else {
                assert forall|i: int| 0 <= i < items.len() implies !sets_key(#[trigger] items[i], key) by {
                    if i < n {
                        assert(items[i] == p[i]);
                    }
                }
            }
            if forall|i: int| 0 <= i < items.len() ==> !sets_key(#[trigger] items[i], key) {
                assert forall|i: int| 0 <= i < p.len() implies !sets_key(#[trigger] p[i], key) by {
                    assert(items[i] == p[i]);
                }
            }
        }
    }
}

/// What an option list sets: each flag is on exactly when named; an integer option takes the
/// value of the last option setting it when that value reads as an integer of its type, and
/// when no option sets it, the largest value of its type, but for the thresholds, which are 0.
pub proof fn law_option_values(items: Seq<Seq<char>>)
    ensures
        options_of(items).runcallback == items.contains("runcallback"@),
        options_of(items).rewind == items.contains("rewind"@),
        options_of(items).fastforward == items.contains("fastforward"@),
        options_of(items).runifok == items.contains("runifok"@),
        last_value(items, "runlimit"@) is None ==> options_of(items).runlimit == u64::MAX,
        last_value(items, "truncate"@) is None ==> options_of(items).truncate == usize::MAX,
        last_value(items, "stopat"@) is None ==> options_of(items).stopat == u64::MAX,
        last_value(items, "sticky"@) is None ==> options_of(items).sticky == u16::MAX,
        last_value(items, "criticalthreshold"@) is None ==> options_of(items).criticalthreshold
            == 0,
        last_value(items, "warningthreshold"@) is None ==> options_of(items).warningthreshold
            == 0,
        last_value(items, "runlimit"@) matches Some(v) ==> (parse_bounded(v, u64::MAX as nat)
            matches Some(n) ==> options_of(items).runlimit == n),
        last_value(items, "criticalthreshold"@) matches Some(v) ==> (parse_bounded(
            v,
            u64::MAX as nat,
        ) matches Some(n) ==> options_of(items).criticalthreshold == n),
        last_value(items, "warningthreshold"@) matches Some(v) ==> (parse_bounded(
            v,
            u64::MAX as nat,
        ) matches Some(n) ==> options_of(items).warningthreshold == n),
        last_value(items, "stopat"@) matches Some(v) ==> (parse_bounded(v, u64::MAX as nat)
            matches Some(n) ==> options_of(items).stopat == n),
        last_value(items, "truncate"@) matches Some(v) ==> (parse_bounded(v, usize::MAX as nat)
            matches Some(n) ==> options_of(items).truncate == n),
{
}

/// Each integer option that is given has a value that reads as an integer of its type.
pub open spec fn value_ok(item: Seq<char>) -> bool {
    is_kv(item) ==> {
        let k = kv_key(item);
        let v = kv_value(item);
        &&& (k == "criticalthreshold"@ || k == "warningthreshold"@ || k == "runlimit"@ || k
            == "stopat"@) ==> parse_bounded(v, u64::MAX as nat) is Some
        &&& k == "sticky"@ ==> parse_bounded(v, u16::MAX as nat) is Some
        &&& k == "truncate"@ ==> parse_bounded(v, usize::MAX as nat) is Some
    }
}

/// All integer options of a list read as integers of their types.
pub open spec fn values_ok(items: Seq<Seq<char>>) -> bool {
    forall|i: int| 0 <= i < items.len() ==> value_ok(#[trigger] items[i])
}

/// The options that a list of known options sets. An integer option that is not given takes
/// the largest value of its type (`runlimit`, `truncate`, `stopat`, `sticky`), so that it
/// limits nothing. The thresholds are the exception: a threshold not given is 0, so that every
/// critical or warning match is a hit and `runcallback` runs the callback for each of them; at
/// the largest value a threshold would never be reached and no match would ever count.
pub open spec fn options_of(items: Seq<Seq<char>>) -> SearchOptions {
    SearchOptions {
        runcallback: items.contains("runcallback"@),
        keepoutput: items.contains("keepoutput"@),
        rewind: items.contains("rewind"@),
        criticalthreshold: int_option(items, "criticalthreshold"@, u64::MAX as nat, 0) as u64,
        warningthreshold: int_option(items, "warningthreshold"@, u64::MAX as nat, 0) as u64,
        protocol: items.contains("protocol"@),
        savethresholdcount: items.contains("savethresholdcount"@) || items.contains(
            "savethresholds"@,
        ),
        sticky: int_option(items, "sticky"@, u16::MAX as nat, u16::MAX as nat) as u16,
        fastforward: items.contains("fastforward"@),
        runlimit: int_option(items, "runlimit"@, u64::MAX as nat, u64::MAX as nat) as u64,
        truncate: int_option(items, "truncate"@, usize::MAX as nat, usize::MAX as nat) as usize,
        stopat: int_option(items, "stopat"@, u64::MAX as nat, u64::MAX as nat) as u64,
        runifok: items.contains("runifok"@),
    }
}


/// The character sequences held by a vector of character vectors.
pub open spec fn views(v: Seq<Vec<char>>) -> Seq<Seq<char>> {
    v.map_values(|x: Vec<char>| x@)
}

/// The trimmed comma-separated pieces of an option list.
fn items_of(list: &str) -> (r: Vec<Vec<char>>)
    ensures
        views(r@) == option_items(list@),
{
    let cs = chars_of(list);
    let pieces = split_chars(cs.as_slice(), ',');
    let mut r: Vec<Vec<char>> = Vec::new();
    let mut i: usize = 0;
    while i < pieces.len()
        invariant
            i <= pieces@.len(),
            pieces@.len() == split(list@, ',').len(),
            forall|j: int| 0 <= j < pieces@.len() ==> #[trigger] pieces@[j]@ == split(list@, ',')[j],
            r@.len() == i,
            forall|j: int| 0 <= j < i ==> #[trigger] r@[j]@ == trim(split(list@, ',')[j]),
        decreases pieces@.len() - i,
    {
        let t = trim_chars(pieces[i].as_slice());
        r.push(t);
        i = i + 1;
    }
    assert(views(r@) == option_items(list@));
    r
}

/// Whether a name occurs in an option.
fn mentions(item: &[char], name: &str) -> (r: bool)
    ensures
        r == contains(item@, name@),
{
    let n = chars_of(name);
    contains_chars(item, n.as_slice())
}

/// Whether an option is known.
fn is_known(item: &[char]) -> (r: bool)
    ensures
        r == is_known_option(item@),
{
    mentions(item, "runcallback") || mentions(item, "keepoutput") || mentions(item, "rewind")
        || mentions(item, "criticalthreshold") || mentions(item, "warningthreshold") || mentions(
        item,
        "protocol",
    ) || mentions(item, "savethresholdcount") || mentions(item, "sticky") || mentions(
        item,
        "fastforward",
    ) || mentions(item, "runlimit") || mentions(item, "truncate") || mentions(item, "stopat")
        || mentions(item, "runifok") || mentions(item, "savethresholds")
}

/// Whether one of the options is exactly `name`.
fn has_item(items: &Vec<Vec<char>>, name: &str) -> (r: bool)
    ensures
        r == views(items@).contains(name@),
{
    let n = chars_of(name);
    let mut i: usize = 0;
    while i < items.len()
        invariant
            i <= items@.len(),
            n@ == name@,
            forall|j: int| 0 <= j < i ==> #[trigger] items@[j]@ != name@,
        decreases items@.len() - i,
    {
        if chars_eq(items[i].as_slice(), n.as_slice()) {
            assert(views(items@)[i as int] == name@);
            return true;
        }
        i = i + 1;
    }
    proof {
        if views(items@).contains(name@) {
            let k = choose|k: int| 0 <= k < views(items@).len() && views(items@)[k] == name@;
            assert(items@[k]@ == name@);
        }
    }
    false
}

proof fn lemma_split_two(item: Seq<char>)
    requires
        item.contains('='),
    ensures
        split(item, '=').len() >= 2,
    decreases item.len(),
{
    let p = item.drop_last();
    if item.last() == '=' {
        lemma_split_at_least_one(p);
    } else {
        let k = choose|k: int| 0 <= k < item.len() && item[k] == '=';
        assert(p[k] == '=');
        lemma_split_two(p);
    }
}

proof fn lemma_split_at_least_one(s: Seq<char>)
    ensures
        split(s, '=').len() >= 1,
    decreases s.len(),
{
    if s.len() > 0 {
        lemma_split_at_least_one(s.drop_last());
    }
}

/// The trimmed key and value of a `key=value` option; `None` for an option without `=`.
fn key_value(item: &Vec<char>) -> (r: Option<(Vec<char>, Vec<char>)>)
    ensures
        r is Some <==> is_kv(item@),
        r matches Some(kv) ==> kv.0@ == kv_key(item@) && kv.1@ == kv_value(item@),
{
    if !has_char(item.as_slice(), '=') {
        return None;
    }
    proof {
        lemma_split_two(item@);
    }
    let parts = split_chars(item.as_slice(), '=');
    let key = trim_chars(parts[0].as_slice());
    let value = trim_chars(parts[1].as_slice());
    assert(parts@[0]@ == split(item@, '=')[0]);
    assert(parts@[1]@ == split(item@, '=')[1]);
    Some((key, value))
}

/// Whether an option, if it has the form `key=value` with an integer key, has a value that
/// reads as an integer of the key's type.
fn item_value_ok(item: &Vec<char>) -> (r: bool)
    ensures
        r == value_ok(item@),
{
    match key_value(item) {
        None => true,
        Some((key, value)) => {
            let k = key.as_slice();
            let is64 = chars_eq(k, chars_of("criticalthreshold").as_slice()) || chars_eq(
                k,
                chars_of("warningthreshold").as_slice(),
            ) || chars_eq(k, chars_of("runlimit").as_slice()) || chars_eq(
                k,
                chars_of("stopat").as_slice(),
            );
            let is16 = chars_eq(k, chars_of("sticky").as_slice());
            let issize = chars_eq(k, chars_of("truncate").as_slice());
            let ok64 = !is64 || parse_unsigned_chars(value.as_slice(), u64::MAX).is_some();
            let max16: u64 = 65535;
            let ok16 = !is16 || parse_unsigned_chars(value.as_slice(), max16).is_some();
            let maxsize: u64 = usize::MAX as u64;
            let oksize = !issize || parse_unsigned_chars(value.as_slice(), maxsize).is_some();
            assert(u16::MAX as nat == max16 as nat);
            assert(usize::MAX as nat == maxsize as nat);
            ok64 && ok16 && oksize
        },
    }
}

/// The value of the last `key=value` option with this key.
fn last_value_of(items: &Vec<Vec<char>>, key: &str) -> (r: Option<Vec<char>>)
    ensures
        r is Some <==> last_value(views(items@), key@) is Some,
        r matches Some(v) ==> last_value(views(items@), key@) == Some(v@),
{
    let ghost iv = views(items@);
    let k = chars_of(key);
    let mut cur: Option<Vec<char>> = None;
    let mut i: usize = 0;
    assert(iv.take(0) == Seq::<Seq<char>>::empty());
    while i < items.len()
        invariant
            i <= items@.len(),
            iv == views(items@),
            k@ == key@,
            cur is Some <==> last_value(iv.take(i as int), key@) is Some,
            cur matches Some(v) ==> last_value(iv.take(i as int), key@) == Some(v@),
        decreases items@.len() - i,
    {
        assert(iv.take(i + 1).drop_last() == iv.take(i as int));
        assert(iv.take(i + 1).last() == items@[i as int]@);
        match key_value(&items[i]) {
            Some((kk, vv)) => {
                if chars_eq(kk.as_slice(), k.as_slice()) {
                    cur = Some(vv);
                }
            },
            None => {},
        }
        i = i + 1;
    }
    assert(iv.take(items@.len() as int) == iv);
    cur
}

/// The value of an integer option: the last one given, or `dflt` when it is absent.
fn int_value(items: &Vec<Vec<char>>, key: &str, max: u64, dflt: u64) -> (r: u64)
    requires
        dflt <= max,
    ensures
        r as nat == int_option(views(items@), key@, max as nat, dflt as nat),
        r <= max,
{
    match last_value_of(items, key) {
        Some(v) => match parse_unsigned_chars(v.as_slice(), max) {
            Some(n) => n,
            None => dflt,
        },
        None => dflt,
    }
}

impl SearchOptions {
    /// Whether every integer option of a list reads as an integer of its type: when it does not,
    /// building the options from that list is refused by the `requires` of `try_from`.
    pub fn values_parse(option_list: &str) -> (r: bool)
        ensures
            r == values_ok(option_items(option_list@)),
    {
        let items = items_of(option_list);
        let ghost iv = views(items@);
        let mut i: usize = 0;
        while i < items.len()
            invariant
                i <= items@.len(),
                iv == views(items@),
                iv == option_items(option_list@),
                forall|j: int| 0 <= j < i ==> value_ok(#[trigger] iv[j]),
            decreases items@.len() - i,
        {
            assert(iv[i as int] == items@[i as int]@);
            if !item_value_ok(&items[i]) {
                assert(!value_ok(iv[i as int]));
                return false;
            }
            i = i + 1;
        }
        true
    }

    /// Whether every option of a list is known.
    pub fn all_known(option_list: &str) -> (r: bool)
        ensures
            r == (first_unknown(option_items(option_list@)) is None),
    {
        let items = items_of(option_list);
        let ghost iv = views(items@);
        let mut i: usize = 0;
        assert(iv.subrange(0, iv.len() as int) == iv);
        while i < items.len()
            invariant
                i <= items@.len(),
                iv == views(items@),
                iv == option_items(option_list@),
                first_unknown(iv) == first_unknown(iv.subrange(i as int, iv.len() as int)),
            decreases items@.len() - i,
        {
            let ghost rest = iv.subrange(i as int, iv.len() as int);
            assert(rest[0] == items@[i as int]@);
            assert(rest.drop_first() == iv.subrange(i + 1, iv.len() as int));
            if !is_known(items[i].as_slice()) {
                return false;
            }
            i = i + 1;
        }
        assert(iv.subrange(iv.len() as int, iv.len() as int).len() == 0);
        true
    }

    /// Converts a list of options as `try_from` does, when it can: `None` when every option
    /// is known but an integer option's value does not read as an integer of its type.
    pub fn parse_list(option_list: String) -> (r: Option<Result<SearchOptions, AppError>>)
        ensures
            r is None <==> (first_unknown(option_items(option_list@)) is None && !values_ok(
                option_items(option_list@),
            )),
            r matches Some(x) ==> match first_unknown(option_items(option_list@)) {
                Some(u) => x matches Err(AppError::App { err, msg }) && err
                    == AppCustomErrorKind::UnsupportedSearchOption && msg@ == "search option: "@
                    + u + "  is not supported"@,
                None => x matches Ok(o) && o == options_of(option_items(option_list@)),
            },
    {
        if SearchOptions::all_known(option_list.as_str()) && !SearchOptions::values_parse(
            option_list.as_str(),
        ) {
            None
        } else {
            Some(SearchOptions::try_from(option_list))
        }
    }

    /// Converts a list of comma-separated options to a `SearchOptions` structure. An option
    /// in which no option name occurs is refused; bare names set boolean options, and
    /// `key=value` options set integer options (the last one given wins).
    pub fn try_from(option_list: String) -> (r: Result<SearchOptions, AppError>)
        requires
            first_unknown(option_items(option_list@)) is None ==> values_ok(
                option_items(option_list@),
            ),
        ensures
            match first_unknown(option_items(option_list@)) {
                Some(x) => r matches Err(AppError::App { err, msg }) && err
                    == AppCustomErrorKind::UnsupportedSearchOption && msg@ == "search option: "@
                    + x + "  is not supported"@,
                None => r matches Ok(o) && o == options_of(option_items(option_list@)),
            },
    {
        let items = items_of(option_list.as_str());
        let ghost iv = views(items@);
        let mut i: usize = 0;
        assert(iv.subrange(0, iv.len() as int) == iv);
        while i < items.len()
            invariant
                i <= items@.len(),
                iv == views(items@),
                iv == option_items(option_list@),
                first_unknown(iv) == first_unknown(iv.subrange(i as int, iv.len() as int)),
            decreases items@.len() - i,
        {
            let ghost rest = iv.subrange(i as int, iv.len() as int);
            assert(rest[0] == items@[i as int]@);
            assert(rest.drop_first() == iv.subrange(i + 1, iv.len() as int));
            if !is_known(items[i].as_slice()) {
                let mut msg = String::new();
                push_str(&mut msg, "search option: ");
                let item = string_of(items[i].as_slice());
                push_str(&mut msg, item.as_str());
                push_str(&mut msg, "  is not supported");
                return Err(AppError::App { err: AppCustomErrorKind::UnsupportedSearchOption, msg });
            }
            i = i + 1;
        }
        assert(iv.subrange(iv.len() as int, iv.len() as int).len() == 0);
        let maxsize: u64 = usize::MAX as u64;
        let sticky = int_value(&items, "sticky", 65535, 65535);
        let truncate = int_value(&items, "truncate", maxsize, maxsize);
        assert(u16::MAX as nat == 65535);
        assert(usize::MAX as nat == maxsize as nat);
        let opt = SearchOptions {
            runcallback: has_item(&items, "runcallback"),
            keepoutput: has_item(&items, "keepoutput"),
            rewind: has_item(&items, "rewind"),
            criticalthreshold: int_value(&items, "criticalthreshold", u64::MAX, 0),
            warningthreshold: int_value(&items, "warningthreshold", u64::MAX, 0),
            protocol: has_item(&items, "protocol"),
            savethresholdcount: has_item(&items, "savethresholdcount") || has_item(
                &items,
                "savethresholds",
            ),
            sticky: sticky as u16,
            fastforward: has_item(&items, "fastforward"),
            runlimit: int_value(&items, "runlimit", u64::MAX, u64::MAX),
            truncate: truncate as usize,
            stopat: int_value(&items, "stopat", u64::MAX, u64::MAX),
            runifok: has_item(&items, "runifok"),
        };
        Ok(opt)
    }
}

} // verus!

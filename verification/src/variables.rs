//! Variables handed to a callback: the runtime ones, set for each matching line (the line,
//! its number, the capture groups...), and the user-defined ones. Every variable name is
//! prefixed with `CLF_`.
use vstd::prelude::*;

use crate::pattern::{groups_view, re_captures, re_is_match, Re};
use crate::table::{
    has_key, insert_all, kept, lemma_set_entry_str, lookup, set_entry, str_entries, Table,
};
use crate::text::{
    chars_of, decimal, owned, push_str, replace_all, replace_chars, str_is, string_of,
    u64_to_decimal,
};

verus! {

/// Variable name prefix, put in front of each variable.
pub const VAR_PREFIX: &'static str = "CLF_";

/// A variable name with its prefix.
pub open spec fn prefixed(v: Seq<char>) -> Seq<char> {
    "CLF_"@ + v
}

/// A variable name with its prefix.
pub fn prefixed_name(v: &str) -> (r: String)
    ensures
        r@ == prefixed(v@),
{
    let mut s = owned("CLF_");
    push_str(&mut s, v);
    s
}

/// The variables that one capture group gives: `CLF_CAPTUREi` for the unnamed group `i`,
/// `CLF_name` for a named one; a group which took no part in the match gives none.
pub open spec fn capture_var(i: int, g: (Option<Seq<char>>, Option<Seq<char>>)) -> Seq<
    (Seq<char>, Seq<char>),
> {
    match g.1 {
        Some(t) => match g.0 {
            None => seq![(prefixed("CAPTURE"@ + decimal(i as nat)), t)],
            Some(n) => seq![(prefixed(n), t)],
        },
        None => Seq::empty(),
    }
}

/// The variables that the capture groups of a match give, in the order of the groups.
pub open spec fn capture_vars(g: Seq<(Option<Seq<char>>, Option<Seq<char>>)>) -> Seq<
    (Seq<char>, Seq<char>),
>
    decreases g.len(),
{
    if g.len() == 0 {
        Seq::empty()
    } else {
        capture_vars(g.drop_last()) + capture_var(g.len() - 1, g.last())
    }
}

/// The variables that one capture group gives to a callback: `CLF_CG_i` for the unnamed group
/// `i`, `CLF_CG_name` for a named one; a group which took no part in the match gives none.
pub open spec fn cg_text(i: int, g: (Option<Seq<char>>, Option<Seq<char>>)) -> Seq<
    (Seq<char>, Seq<char>),
> {
    match g.1 {
        Some(t) => match g.0 {
            None => seq![(prefixed("CG_"@ + decimal(i as nat)), t)],
            Some(n) => seq![(prefixed("CG_"@ + n), t)],
        },
        None => Seq::empty(),
    }
}

/// The variables that the capture groups of a match give to a callback, in the order of the
/// groups.
pub open spec fn cg_texts(g: Seq<(Option<Seq<char>>, Option<Seq<char>>)>) -> Seq<
    (Seq<char>, Seq<char>),
>
    decreases g.len(),
{
    if g.len() == 0 {
        Seq::empty()
    } else {
        cg_texts(g.drop_last()) + cg_text(g.len() - 1, g.last())
    }
}

/// Every variable of the capture groups is named `CLF_CG_...`.
pub proof fn lemma_cg_names(g: Seq<(Option<Seq<char>>, Option<Seq<char>>)>)
    ensures
        forall|j: int|
            0 <= j < cg_texts(g).len() ==> (#[trigger] cg_texts(g)[j]).0.len() >= 7 && cg_texts(
                g,
            )[j].0[4] == 'C' && cg_texts(g)[j].0[5] == 'G' && cg_texts(g)[j].0[6] == '_',
    decreases g.len(),
{
    reveal_strlit("CLF_");
    reveal_strlit("CG_");
    if g.len() > 0 {
        lemma_cg_names(g.drop_last());
        let a = cg_texts(g.drop_last());
        let b = cg_text(g.len() - 1, g.last());
        assert(cg_texts(g) == a + b);
        assert forall|j: int| 0 <= j < cg_texts(g).len() implies (#[trigger] cg_texts(g)[j]).0.len()
            >= 7 && cg_texts(g)[j].0[4] == 'C' && cg_texts(g)[j].0[5] == 'G' && cg_texts(g)[j].0[6]
            == '_' by {
            if j >= a.len() {
                assert(cg_texts(g)[j] == b[j - a.len()]);
            } else {
                assert(cg_texts(g)[j] == a[j]);
            }
        }
    }
}

/// The text matches, and each named group took part in the match.
pub open spec fn captures_complete(c: Option<Seq<(Option<Seq<char>>, Option<Seq<char>>)>>) -> bool {
    &&& c is Some
    &&& forall|i: int|
        0 <= i < c->0.len() ==> ((#[trigger] c->0[i]).0 is Some ==> c->0[i].1 is Some)
}

/// Each variable of the list replaced, in the list's order, by its value.
pub open spec fn replace_vars(vars: Seq<(Seq<char>, Seq<char>)>, s: Seq<char>) -> Seq<char>
    decreases vars.len(),
{
    if vars.len() == 0 {
        s
    } else {
        replace_all(replace_vars(vars.drop_last(), s), vars.last().0, vars.last().1)
    }
}

/// The user variables as they are stored: each name prefixed.
pub open spec fn prefixed_all(s: Seq<(Seq<char>, Seq<char>)>) -> Seq<(Seq<char>, Seq<char>)> {
    s.map_values(|p: (Seq<char>, Seq<char>)| (prefixed(p.0), p.1))
}

/// Setting one more key after several is setting them all.
proof fn lemma_insert_all_push(s: Seq<(Seq<char>, Seq<char>)>, xs: Seq<(Seq<char>, Seq<char>)>, p: (Seq<char>, Seq<char>))
    ensures
        insert_all(s, xs.push(p)) == set_entry(insert_all(s, xs), p.0, p.1),
{
    assert(xs.push(p).drop_last() =~= xs);
}

/// All variables, runtime and user ones, which are handed to a callback.
#[derive(Debug)]
pub struct Variables {
    /// Variables set while a logfile is searched.
    pub runtime_vars: Table<String>,
    /// Variables defined by the user in the configuration, if any.
    pub user_vars: Option<Table<String>>,
}

impl Variables {
    /// The runtime variables and their values, in the order they were first set.
    pub open spec fn runtime_view(&self) -> Seq<(Seq<char>, Seq<char>)> {
        str_entries(self.runtime_vars@)
    }

    /// The user variables and their values, if any.
    pub open spec fn user_view(&self) -> Option<Seq<(Seq<char>, Seq<char>)>> {
        match self.user_vars {
            Some(t) => Some(str_entries(t@)),
            None => None,
        }
    }

    /// No variables.
    pub fn new() -> (r: Variables)
        ensures
            r.runtime_view() == Seq::<(Seq<char>, Seq<char>)>::empty(),
            r.user_vars is None,
    {
        let r = Variables { runtime_vars: Table::new(), user_vars: None };
        assert(r.runtime_view() =~= Seq::<(Seq<char>, Seq<char>)>::empty());
        r
    }

    /// The runtime variables.
    pub fn runtime_vars(&self) -> (r: &Table<String>)
        ensures
            *r == self.runtime_vars,
    {
        &self.runtime_vars
    }

    /// The user variables.
    pub fn user_vars(&self) -> (r: &Option<Table<String>>)
        ensures
            *r == self.user_vars,
    {
        &self.user_vars
    }

    /// The value of a runtime variable, by its full name.
    pub fn get(&self, name: &str) -> (r: Option<&String>)
        ensures
            r matches Some(v) ==> lookup(self.runtime_vars@, name@) == Some(*v),
            r is None ==> !has_key(self.runtime_vars@, name@),
    {
        self.runtime_vars.get(name)
    }

    /// Whether a runtime variable is set, by its full name.
    pub fn contains_key(&self, name: &str) -> (r: bool)
        ensures
            r == has_key(self.runtime_vars@, name@),
    {
        self.runtime_vars.contains_key(name)
    }

    /// Sets a runtime variable by its full name.
    fn set(&mut self, name: String, value: String)
        ensures
            final(self).runtime_view() == set_entry(old(self).runtime_view(), name@, value@),
            final(self).user_vars == old(self).user_vars,
    {
        proof {
            lemma_set_entry_str(self.runtime_vars@, name@, value);
        }
        let _ = self.runtime_vars.insert(name, value);
    }

    /// Sets a runtime variable: its name is prefixed.
    pub fn insert(&mut self, var: &str, value: &str)
        ensures
            final(self).runtime_view() == set_entry(old(self).runtime_view(), prefixed(var@), value@),
            final(self).user_vars == old(self).user_vars,
    {
        self.set(prefixed_name(var), owned(value));
    }

    /// Keeps only the runtime variables whose full names are in `vars`.
    pub fn retain(&mut self, vars: &[&str])
        ensures
            final(self).runtime_vars@ == kept(
                old(self).runtime_vars@,
                Seq::new(
                    old(self).runtime_vars@.len(),
                    |j: int| exists|i: int| 0 <= i < vars@.len() && (#[trigger] vars@[i])@ == old(self).runtime_vars@[j].0,
                ),
            ),
            final(self).user_vars == old(self).user_vars,
    {
        let ghost marks = Seq::new(
            self.runtime_vars@.len(),
            |j: int| exists|i: int| 0 <= i < vars@.len() && (#[trigger] vars@[i])@ == self.runtime_vars@[j].0,
        );
        let mut keep: Vec<bool> = Vec::new();
        let mut j: usize = 0;
        while j < self.runtime_vars.len()
            invariant
                j <= self.runtime_vars@.len(),
                keep@.len() == j,
                marks.len() == self.runtime_vars@.len(),
                forall|k: int| 0 <= k < j ==> keep@[k] == #[trigger] marks[k],
                marks == Seq::new(
                    self.runtime_vars@.len(),
                    |j: int| exists|i: int| 0 <= i < vars@.len() && (#[trigger] vars@[i])@ == self.runtime_vars@[j].0,
                ),
            decreases self.runtime_vars@.len() - j,
        {
            let key = self.runtime_vars.key_at(j);
            let mut found = false;
            let mut i: usize = 0;
            while i < vars.len()
                invariant
                    i <= vars@.len(),
                    found == exists|k: int| 0 <= k < i && (#[trigger] vars@[k])@ == key@,
                decreases vars@.len() - i,
            {
                if str_is(vars[i], key.as_str()) {
                    found = true;
                }
                i = i + 1;
            }
            keep.push(found);
            j = j + 1;
        }
        assert(keep@ =~= marks);
        self.runtime_vars.retain_marked(&keep);
    }

    /// Each runtime variable replaced, in the order they were first set, by its value.
    pub fn replace(&self, s: &str) -> (r: String)
        ensures
            r@ == replace_vars(self.runtime_view(), s@),
    {
        let ghost view = self.runtime_view();
        let mut acc = chars_of(s);
        let mut i: usize = 0;
        assert(view.take(0) =~= Seq::<(Seq<char>, Seq<char>)>::empty());
        while i < self.runtime_vars.len()
            invariant
                i <= view.len(),
                view == self.runtime_view(),
                view.len() == self.runtime_vars@.len(),
                acc@ == replace_vars(view.take(i as int), s@),
            decreases view.len() - i,
        {
            let k = chars_of(self.runtime_vars.key_at(i).as_str());
            let v = chars_of(self.runtime_vars.value_at(i).as_str());
            assert(view.take(i + 1).drop_last() =~= view.take(i as int));
            assert(view.take(i + 1).last() == (k@, v@));
            acc = replace_chars(acc.as_slice(), k.as_slice(), v.as_slice());
            i = i + 1;
        }
        assert(view.take(view.len() as int) =~= view);
        string_of(acc.as_slice())
    }

    /// Each argument with the runtime variables replaced by their values.
    pub fn substitute(&self, old_args: &[&str]) -> (r: Vec<String>)
        ensures
            r@.len() == old_args@.len(),
            forall|i: int|
                0 <= i < r@.len() ==> (#[trigger] r@[i])@ == replace_vars(
                    self.runtime_view(),
                    old_args@[i]@,
                ),
    {
        let mut r: Vec<String> = Vec::new();
        let mut i: usize = 0;
        while i < old_args.len()
            invariant
                i <= old_args@.len(),
                r@.len() == i,
                forall|k: int|
                    0 <= k < i ==> (#[trigger] r@[k])@ == replace_vars(
                        self.runtime_view(),
                        old_args@[k]@,
                    ),
            decreases old_args@.len() - i,
        {
            r.push(self.replace(old_args[i]));
            i = i + 1;
        }
        r
    }

    /// Sets the variables of the capture groups of the first match of a regex in a text:
    /// `CLF_CAPTUREi` for the unnamed group `i`, `CLF_name` for a named one. The text must
    /// match, and each named group take part in the match.
    pub fn insert_captures(&mut self, re: &Re, text: &str)
        requires
            captures_complete(re_captures(re@, text@)),
        ensures
            final(self).runtime_view() == insert_all(
                old(self).runtime_view(),
                capture_vars(re_captures(re@, text@)->0),
            ),
            final(self).user_vars == old(self).user_vars,
    {
        let groups = match re.captures(text) {
            Some(g) => g,
            None => {
                proof {
                    assert(false);
                }
                return ;
            },
        };
        let ghost gv = groups_view(groups@);
        let ghost v0 = self.runtime_view();
        let mut i: usize = 0;
        assert(gv.take(0) =~= Seq::<(Option<Seq<char>>, Option<Seq<char>>)>::empty());
        while i < groups.len()
            invariant
                i <= groups@.len(),
                gv == groups_view(groups@),
                gv == re_captures(re@, text@)->0,
                captures_complete(re_captures(re@, text@)),
                self.runtime_view() == insert_all(v0, capture_vars(gv.take(i as int))),
                self.user_vars == old(self).user_vars,
            decreases groups@.len() - i,
        {
            let ghost before = capture_vars(gv.take(i as int));
            assert(gv.take(i + 1).drop_last() =~= gv.take(i as int));
            assert(gv.take(i + 1).last() == gv[i as int]);
            assert(capture_vars(gv.take(i + 1)) == before + capture_var(i as int, gv[i as int]));
            match &groups[i].1 {
                Some(t) => {
                    let name = match &groups[i].0 {
                        None => {
                            let mut n = owned("CAPTURE");
                            push_str(&mut n, u64_to_decimal(i as u64).as_str());
                            n
                        },
                        Some(n) => n.clone(),
                    };
                    let key = prefixed_name(name.as_str());
                    let value = t.clone();
                    proof {
                        lemma_insert_all_push(v0, before, (key@, value@));
                        assert(before + capture_var(i as int, gv[i as int]) =~= before.push(
                            (key@, value@),
                        ));
                    }
                    self.set(key, value);
                },
                None => {
                    assert(before + capture_var(i as int, gv[i as int]) =~= before);
                },
            }
            i = i + 1;
        }
        assert(gv.take(groups@.len() as int) =~= gv);
    }

    /// Sets the variables that a callback is given for the capture groups of the first match of
    /// a regex in a text: `CLF_CG_i` for the unnamed group `i`, `CLF_CG_name` for a named one,
    /// none for a group which took no part in the match. Gives the number of groups, or `None`,
    /// with nothing changed, when the text does not match.
    pub fn insert_cg_captures(&mut self, re: &Re, text: &str) -> (r: Option<usize>)
        ensures
            r is Some <==> re_is_match(re@, text@),
            r matches Some(n) ==> n == re_captures(re@, text@)->0.len()
                && final(self).runtime_view() == insert_all(
                old(self).runtime_view(),
                cg_texts(re_captures(re@, text@)->0),
            ),
            r is None ==> final(self).runtime_view() == old(self).runtime_view(),
            final(self).user_vars == old(self).user_vars,
    {
        let groups = match re.captures(text) {
            Some(g) => g,
            None => {
                return None;
            },
        };
        let ghost gv = groups_view(groups@);
        let ghost v0 = self.runtime_view();
        let mut i: usize = 0;
        assert(gv.take(0) =~= Seq::<(Option<Seq<char>>, Option<Seq<char>>)>::empty());
        while i < groups.len()
            invariant
                i <= groups@.len(),
                gv == groups_view(groups@),
                gv == re_captures(re@, text@)->0,
                self.runtime_view() == insert_all(v0, cg_texts(gv.take(i as int))),
                self.user_vars == old(self).user_vars,
            decreases groups@.len() - i,
        {
            let ghost before = cg_texts(gv.take(i as int));
            assert(gv.take(i + 1).drop_last() =~= gv.take(i as int));
            assert(gv.take(i + 1).last() == gv[i as int]);
            assert(cg_texts(gv.take(i + 1)) == before + cg_text(i as int, gv[i as int]));
            match &groups[i].1 {
                Some(t) => {
                    let mut name = owned("CG_");
                    match &groups[i].0 {
                        None => push_str(&mut name, u64_to_decimal(i as u64).as_str()),
                        Some(n) => push_str(&mut name, n.as_str()),
                    }
                    let key = prefixed_name(name.as_str());
                    let value = t.clone();
                    proof {
                        lemma_insert_all_push(v0, before, (key@, value@));
                        assert(before + cg_text(i as int, gv[i as int]) =~= before.push(
                            (key@, value@),
                        ));
                    }
                    self.set(key, value);
                },
                None => {
                    assert(before + cg_text(i as int, gv[i as int]) =~= before);
                },
            }
            i = i + 1;
        }
        assert(gv.take(groups@.len() as int) =~= gv);
        Some(groups.len())
    }

    /// Sets the variables of the capture groups when the text matches and each named group
    /// took part in the match, and tells whether it did; otherwise nothing changes.
    pub fn insert_captures_checked(&mut self, re: &Re, text: &str) -> (r: bool)
        ensures
            r == captures_complete(re_captures(re@, text@)),
            r ==> final(self).runtime_view() == insert_all(
                old(self).runtime_view(),
                capture_vars(re_captures(re@, text@)->0),
            ),
            !r ==> final(self).runtime_view() == old(self).runtime_view(),
            final(self).user_vars == old(self).user_vars,
    {
        let complete = match re.captures(text) {
            None => false,
            Some(g) => {
                let ghost gv = groups_view(g@);
                let mut ok = true;
                let mut i: usize = 0;
                while i < g.len()
                    invariant
                        i <= g@.len(),
                        gv == groups_view(g@),
                        ok == forall|k: int| 0 <= k < i ==> ((#[trigger] gv[k]).0 is Some ==> gv[k].1 is Some),
                    decreases g@.len() - i,
                {
                    assert(gv[i as int].0 is Some <==> g@[i as int].0 is Some);
                    assert(gv[i as int].1 is Some <==> g@[i as int].1 is Some);
                    if g[i].0.is_some() && g[i].1.is_none() {
                        ok = false;
                    }
                    i = i + 1;
                }
                ok
            },
        };
        if complete {
            self.insert_captures(re, text);
        }
        complete
    }

    /// Sets the user variables, each name prefixed; `None` leaves them as they are.
    pub fn insert_uservars(&mut self, user_vars: Option<&Table<String>>)
        ensures
            final(self).runtime_vars == old(self).runtime_vars,
            user_vars is None ==> final(self).user_vars == old(self).user_vars,
            user_vars matches Some(t) ==> final(self).user_view() == Some(
                insert_all(Seq::empty(), prefixed_all(str_entries(t@))),
            ),
    {
        if let Some(t) = user_vars {
            let ghost src = prefixed_all(str_entries(t@));
            let mut table: Table<String> = Table::new();
            let mut i: usize = 0;
            assert(src.take(0) =~= Seq::<(Seq<char>, Seq<char>)>::empty());
            while i < t.len()
                invariant
                    i <= t@.len(),
                    src == prefixed_all(str_entries(t@)),
                    str_entries(table@) == insert_all(Seq::empty(), src.take(i as int)),
                decreases t@.len() - i,
            {
                let key = prefixed_name(t.key_at(i).as_str());
                let value = t.value_at(i).clone();
                proof {
                    assert(src.take(i + 1) =~= src.take(i as int).push((key@, value@)));
                    lemma_insert_all_push(Seq::empty(), src.take(i as int), (key@, value@));
                    lemma_set_entry_str(table@, key@, value);
                }
                let _ = table.insert(key, value);
                i = i + 1;
            }
            assert(src.take(t@.len() as int) =~= src);
            self.user_vars = Some(table);
        }
    }
}

impl Default for Variables {
    fn default() -> (r: Variables)
        ensures
            r.runtime_view() == Seq::<(Seq<char>, Seq<char>)>::empty(),
            r.user_vars is None,
    {
        Variables::new()
    }
}

/// User variables, defined in the global part of the configuration.
#[derive(Debug)]
pub struct UserVars(pub Table<String>);

} // verus!

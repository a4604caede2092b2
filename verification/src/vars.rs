//! Variables as they are sent to a callback in JSON: a value is either a string or an integer.
//! Runtime variables are set for each matched line; the capture groups give `CLF_CG_` ones.
use vstd::prelude::*;

use crate::pattern::{groups_view, re_captures, re_is_match, Re};
use crate::table::{has_key, insert_all, lookup, set_entry, Table};
use crate::text::{decimal, owned, push_str, u64_to_decimal};
use crate::variables::prefixed;

verus! {

/// A variable name with the `CLF_` prefix.
pub fn prefix_var(name: &str) -> (r: String)
    ensures
        r@ == prefixed(name@),
{
    let mut s = owned("CLF_");
    push_str(&mut s, name);
    s
}

/// A variable name with the `CLF_` prefix and an index: `CLF_CAPTURE2`.
pub fn prefix_var_index(name: &str, i: usize) -> (r: String)
    ensures
        r@ == prefixed(name@ + decimal(i as nat)),
{
    let mut s = prefix_var(name);
    push_str(&mut s, u64_to_decimal(i as u64).as_str());
    assert(s@ =~= prefixed(name@ + decimal(i as nat)));
    s
}

/// A variable's value: a string or an integer.
#[derive(Debug, Clone, PartialEq, Eq)]
pub enum VarType<T> {
    Str(T),
    Int(u64),
}

impl<T> VarType<T> {
    /// The string of a string value.
    pub fn as_t(&self) -> (r: &T)
        requires
            *self is Str,
        ensures
            *self == VarType::<T>::Str(*r),
    {
        match self {
            VarType::Str(s) => s,
            VarType::Int(_) => vstd::pervasive::unreached(),
        }
    }
}

impl VarType<String> {
    /// The value as text: the string, or the integer in decimal.
    pub open spec fn spec_to_string(&self) -> Seq<char> {
        match self {
            VarType::Str(s) => s@,
            VarType::Int(i) => decimal(*i as nat),
        }
    }

    /// The value as text: the string, or the integer in decimal.
    pub fn to_string(&self) -> (r: String)
        ensures
            r@ == self.spec_to_string(),
    {
        match self {
            VarType::Str(s) => s.clone(),
            VarType::Int(i) => u64_to_decimal(*i),
        }
    }
}

/// The value's text, for a string value.
pub open spec fn var_view(v: VarType<String>) -> VarType<Seq<char>> {
    match v {
        VarType::Str(s) => VarType::Str(s@),
        VarType::Int(i) => VarType::Int(i),
    }
}

/// The variables that one capture group gives: `CLF_CG_i` for the unnamed group `i`,
/// `CLF_CG_name` for a named one; a group which took no part in the match gives none.
pub open spec fn cg_var(i: int, g: (Option<Seq<char>>, Option<Seq<char>>)) -> Seq<
    (Seq<char>, VarType<Seq<char>>),
> {
    match g.1 {
        Some(t) => match g.0 {
            None => seq![(prefixed("CG_"@ + decimal(i as nat)), VarType::Str(t))],
            Some(n) => seq![(prefixed("CG_"@ + n), VarType::Str(t))],
        },
        None => Seq::empty(),
    }
}

/// The variables that the capture groups of a match give, in the order of the groups.
pub open spec fn cg_vars(g: Seq<(Option<Seq<char>>, Option<Seq<char>>)>) -> Seq<
    (Seq<char>, VarType<Seq<char>>),
>
    decreases g.len(),
{
    if g.len() == 0 {
        Seq::empty()
    } else {
        cg_vars(g.drop_last()) + cg_var(g.len() - 1, g.last())
    }
}

/// The entries with the values' text.
pub open spec fn var_entries(s: Seq<(Seq<char>, VarType<String>)>) -> Seq<(Seq<char>, VarType<Seq<char>>)> {
    s.map_values(|p: (Seq<char>, VarType<String>)| (p.0, var_view(p.1)))
}

proof fn lemma_set_entry_var(s: Seq<(Seq<char>, VarType<String>)>, k: Seq<char>, v: VarType<String>)
    ensures
        var_entries(set_entry(s, k, v)) == set_entry(var_entries(s), k, var_view(v)),
{
    let t = var_entries(s);
    crate::table::lemma_same_keys(s, t, k);
    if has_key(s, k) {
        crate::table::lemma_first_pos_exists(s, k);
        let i = crate::table::key_pos(s, k);
        assert(var_entries(s.update(i, (k, v))) =~= t.update(i, (k, var_view(v))));
    } else {
        assert(var_entries(s.push((k, v))) =~= t.push((k, var_view(v))));
    }
}

proof fn lemma_insert_all_push(s: Seq<(Seq<char>, VarType<Seq<char>>)>, xs: Seq<(Seq<char>, VarType<Seq<char>>)>, p: (Seq<char>, VarType<Seq<char>>))
    ensures
        insert_all(s, xs.push(p)) == set_entry(insert_all(s, xs), p.0, p.1),
{
    assert(xs.push(p).drop_last() =~= xs);
}

/// The text of a value: the string, or the integer in decimal.
pub open spec fn var_text(v: VarType<Seq<char>>) -> Seq<char> {
    match v {
        VarType::Str(s) => s,
        VarType::Int(i) => decimal(i as nat),
    }
}

/// The text of variables: each name, a colon and the value's text, one after the other.
pub open spec fn vars_text(s: Seq<(Seq<char>, VarType<Seq<char>>)>) -> Seq<char>
    decreases s.len(),
{
    if s.len() == 0 {
        Seq::empty()
    } else {
        vars_text(s.drop_last()) + s.last().0 + ":"@ + var_text(s.last().1)
    }
}

/// Runtime variables, keyed by their full names.
#[derive(Debug)]
pub struct Vars {
    inner: Table<VarType<String>>,
}

impl Vars {
    /// The variables, with their values' text, in the order they were first set.
    pub closed spec fn view(&self) -> Seq<(Seq<char>, VarType<Seq<char>>)> {
        var_entries(self.inner@)
    }

    /// No variables.
    pub fn new() -> (r: Vars)
        ensures
            r.view() == Seq::<(Seq<char>, VarType<Seq<char>>)>::empty(),
    {
        let r = Vars { inner: Table::new() };
        assert(r.view() =~= Seq::<(Seq<char>, VarType<Seq<char>>)>::empty());
        r
    }

    /// The variables.
    pub fn inner(&self) -> (r: &Table<VarType<String>>)
        ensures
            var_entries(r@) == self.view(),
    {
        &self.inner
    }

    /// The value of a variable, by its full name.
    pub fn get(&self, name: &str) -> (r: Option<&VarType<String>>)
        ensures
            r matches Some(v) ==> lookup(self.view(), name@) == Some(var_view(*v)),
            r is None ==> !has_key(self.view(), name@),
    {
        proof {
            crate::table::lemma_same_keys(self.inner@, self.view(), name@);
            if has_key(self.inner@, name@) {
                crate::table::lemma_first_pos_exists(self.inner@, name@);
            }
        }
        self.inner.get(name)
    }

    /// Whether a variable is set, by its full name.
    pub fn contains_key(&self, name: &str) -> (r: bool)
        ensures
            r == has_key(self.view(), name@),
    {
        proof {
            crate::table::lemma_same_keys(self.inner@, self.view(), name@);
        }
        self.inner.contains_key(name)
    }

    /// The variables as text: each name, a colon and the value's text, one after the other,
    /// in the order they were first set.
    pub fn to_string(&self) -> (r: String)
        ensures
            r@ == vars_text(self.view()),
    {
        let ghost v = self.view();
        let mut s = String::new();
        let mut i: usize = 0;
        assert(v.take(0) =~= Seq::<(Seq<char>, VarType<Seq<char>>)>::empty());
        while i < self.inner.len()
            invariant
                i <= self.inner@.len(),
                v == self.view(),
                v.len() == self.inner@.len(),
                s@ == vars_text(v.take(i as int)),
            decreases self.inner@.len() - i,
        {
            proof {
                reveal_strlit(":");
            }
            let ghost before = s@;
            push_str(&mut s, self.inner.key_at(i).as_str());
            push_str(&mut s, ":");
            let t = self.inner.value_at(i).to_string();
            push_str(&mut s, t.as_str());
            assert(v.take(i + 1).drop_last() =~= v.take(i as int));
            assert(v.take(i + 1).last() == v[i as int]);
            assert(v[i as int] == (self.inner@[i as int].0, var_view(self.inner@[i as int].1)));
            assert(var_text(var_view(self.inner@[i as int].1)) == self.inner@[i as int].1.spec_to_string());
            assert(s@ =~= before + v[i as int].0 + ":"@ + var_text(v[i as int].1));
            i = i + 1;
        }
        assert(v.take(v.len() as int) =~= v);
        s
    }

    /// Sets a variable by its full name.
    pub fn insert_runtime_var(&mut self, name: &str, value: VarType<String>)
        ensures
            final(self).view() == set_entry(old(self).view(), name@, var_view(value)),
    {
        proof {
            lemma_set_entry_var(self.inner@, name@, value);
        }
        let _ = self.inner.insert(owned(name), value);
    }

    /// Sets the variables of the capture groups of the first match of a regex in a text, and
    /// returns the number of groups. The text must match.
    pub fn insert_captures(&mut self, re: &Re, text: &str) -> (r: usize)
        requires
            re_is_match(re@, text@),
        ensures
            re_captures(re@, text@) is Some,
            r == re_captures(re@, text@)->0.len(),
            final(self).view() == insert_all(old(self).view(), cg_vars(re_captures(re@, text@)->0)),
    {
        let groups = match re.captures(text) {
            Some(g) => g,
            None => {
                proof {
                    assert(false);
                }
                return 0;
            },
        };
        let ghost gv = groups_view(groups@);
        let ghost v0 = self.view();
        let mut i: usize = 0;
        assert(gv.take(0) =~= Seq::<(Option<Seq<char>>, Option<Seq<char>>)>::empty());
        while i < groups.len()
            invariant
                i <= groups@.len(),
                gv == groups_view(groups@),
                gv == re_captures(re@, text@)->0,
                self.view() == insert_all(v0, cg_vars(gv.take(i as int))),
            decreases groups@.len() - i,
        {
            let ghost before = cg_vars(gv.take(i as int));
            assert(gv.take(i + 1).drop_last() =~= gv.take(i as int));
            assert(gv.take(i + 1).last() == gv[i as int]);
            assert(cg_vars(gv.take(i + 1)) == before + cg_var(i as int, gv[i as int]));
            match &groups[i].1 {
                Some(t) => {
                    let key = match &groups[i].0 {
                        None => prefix_var_index("CG_", i),
                        Some(n) => {
                            let mut k = owned("CG_");
                            push_str(&mut k, n.as_str());
                            prefix_var(k.as_str())
                        },
                    };
                    let value = VarType::Str(t.clone());
                    proof {
                        lemma_insert_all_push(v0, before, (key@, var_view(value)));
                        assert(before + cg_var(i as int, gv[i as int]) =~= before.push(
                            (key@, var_view(value)),
                        ));
                    }
                    self.insert_runtime_var(key.as_str(), value);
                },
                None => {
                    assert(before + cg_var(i as int, gv[i as int]) =~= before);
                },
            }
            i = i + 1;
        }
        assert(gv.take(groups@.len() as int) =~= gv);
        groups.len()
    }

    /// Sets the variables of the capture groups when the text matches, and returns the number
    /// of groups; `None`, with nothing changed, when it does not match.
    pub fn insert_captures_checked(&mut self, re: &Re, text: &str) -> (r: Option<usize>)
        ensures
            r is Some <==> re_is_match(re@, text@),
            r matches Some(n) ==> n == re_captures(re@, text@)->0.len() && final(self).view()
                == insert_all(old(self).view(), cg_vars(re_captures(re@, text@)->0)),
            r is None ==> final(self).view() == old(self).view(),
    {
        if re.is_match(text) {
            Some(self.insert_captures(re, text))
        } else {
            None
        }
    }
}

} // verus!

//! The environment: a mapping from names to `(optional value, declared type)`
//! pairs, passed and returned by value so that each execution step is a pure
//! function from one environment to the next.
//!
//! The store is an association list with distinct keys; its specification
//! view is the finite map from name (as a character sequence) to the
//! spec-level image of the stored pair.

use crate::ast::{dup_value, val_of, value_wf, EnvValue, Type, Val};
use vstd::prelude::*;
use vstd::string::StrSliceExecFns;

verus! {

/// The spec-level image of a stored pair.
pub open spec fn entry_val(p: (Option<EnvValue>, Type)) -> (Option<Val>, Type) {
    (
        match p.0 {
            Some(v) => Some(val_of(v)),
            None => None,
        },
        p.1,
    )
}

/// A stored pair is well formed when its value part is.
pub open spec fn entry_wf(p: (Option<EnvValue>, Type)) -> bool {
    match p.0 {
        Some(v) => value_wf(v),
        None => true,
    }
}

/// The map denoted by an association list, later entries shadowing earlier
/// ones (with distinct keys no shadowing occurs).
pub open spec fn entries_map(s: Seq<(String, (Option<EnvValue>, Type))>) -> Map<
    Seq<char>,
    (Option<Val>, Type),
>
    decreases s.len(),
{
    if s.len() == 0 {
        Map::empty()
    } else {
        entries_map(s.drop_last()).insert(s.last().0@, entry_val(s.last().1))
    }
}

/// The variable store.
#[derive(Debug, PartialEq)]
pub struct Environment {
    pub entries: Vec<(String, (Option<EnvValue>, Type))>,
}

impl View for Environment {
    type V = Map<Seq<char>, (Option<Val>, Type)>;

    open spec fn view(&self) -> Map<Seq<char>, (Option<Val>, Type)> {
        entries_map(self.entries@)
    }
}

impl Environment {
    /// Keys are pairwise distinct and every stored value is well formed.
    pub open spec fn wf(&self) -> bool {
        &&& forall|i: int, j: int|
            0 <= i < j < self.entries@.len() ==> self.entries@[i].0@ != self.entries@[j].0@
        &&& forall|i: int| 0 <= i < self.entries@.len() ==> entry_wf(#[trigger] self.entries@[i].1)
    }

    /// The empty environment.
    pub fn new() -> (r: Environment)
        ensures
            r@ == Map::<Seq<char>, (Option<Val>, Type)>::empty(),
            r.wf(),
            r.entries@.len() == 0,
    {
        Environment { entries: Vec::new() }
    }

    /// The stored pair under `name`, if any.
    pub fn get(&self, name: &str) -> (r: Option<&(Option<EnvValue>, Type)>)
        requires
            self.wf(),
        ensures
            match r {
                Some(p) => self@.contains_key(name@) && self@[name@] == entry_val(*p) && entry_wf(
                    *p,
                ),
                None => !self@.contains_key(name@),
            },
    {
        let n = self.entries.len();
        let mut i: usize = 0;
        while i < n
            invariant
                self.wf(),
                n == self.entries@.len(),
                i <= n,
                forall|j: int| 0 <= j < i ==> self.entries@[j].0@ != name@,
            decreases n - i,
        {
            if str_eq(self.entries[i].0.as_str(), name) {
                proof {
                    lemma_entries_map_get(self.entries@, i as int);
                }
                return Some(&self.entries[i].1);
            }
            i = i + 1;
        }
        proof {
            lemma_entries_map_absent(self.entries@, name@);
        }
        None
    }

    /// Bind `name` to the pair, replacing any existing binding.
    pub fn insert(&mut self, name: String, value: (Option<EnvValue>, Type))
        requires
            old(self).wf(),
            entry_wf(value),
        ensures
            final(self).wf(),
            final(self)@ == old(self)@.insert(name@, entry_val(value)),
    {
        let n = self.entries.len();
        let mut i: usize = 0;
        while i < n
            invariant
                self.wf(),
                self.entries@ == old(self).entries@,
                n == self.entries@.len(),
                i <= n,
                forall|j: int| 0 <= j < i ==> self.entries@[j].0@ != name@,
                entry_wf(value),
            decreases n - i,
        {
            if str_eq(self.entries[i].0.as_str(), name.as_str()) {
                proof {
                    lemma_entries_map_update(self.entries@, i as int, name, value);
                }
                self.entries.set(i, (name, value));
                return ;
            }
            i = i + 1;
        }
        proof {
            lemma_entries_map_absent(self.entries@, name@);
            assert(self.entries@.push((name, value)).drop_last() =~= self.entries@);
        }
        self.entries.push((name, value));
    }

    /// An owned environment with the same bindings.
    pub fn duplicate(&self) -> (r: Environment)
        requires
            self.wf(),
        ensures
            r.entries@ == self.entries@,
            r@ == self@,
            r.wf(),
    {
        let n = self.entries.len();
        let mut out: Vec<(String, (Option<EnvValue>, Type))> = Vec::new();
        let mut i: usize = 0;
        while i < n
            invariant
                self.wf(),
                n == self.entries@.len(),
                i <= n,
                out@.len() == i,
                forall|j: int| 0 <= j < i ==> out@[j] == self.entries@[j],
            decreases n - i,
        {
            let name = self.entries[i].0.clone();
            let value = match &self.entries[i].1.0 {
                Some(v) => Some(dup_value(v)),
                None => None,
            };
            out.push((name, (value, self.entries[i].1.1)));
            i = i + 1;
        }
        proof {
            assert(out@ =~= self.entries@);
        }
        Environment { entries: out }
    }
}

/// Whether two string slices hold the same characters.
pub fn str_eq(a: &str, b: &str) -> (r: bool)
    ensures
        r == (a@ == b@),
{
    let n = a.unicode_len();
    if n != b.unicode_len() {
        return false;
    }
    let mut i: usize = 0;
    while i < n
        invariant
            n == a@.len(),
            n == b@.len(),
            i <= n,
            forall|j: int| 0 <= j < i ==> a@[j] == b@[j],
        decreases n - i,
    {
        if a.get_char(i) != b.get_char(i) {
            return false;
        }
        i = i + 1;
    }
    proof {
        assert(a@ =~= b@);
    }
    true
}

/// A key that stands at position `i` of a distinct-key list is in the map,
/// bound to that entry's value.
proof fn lemma_entries_map_get(s: Seq<(String, (Option<EnvValue>, Type))>, i: int)
    requires
        0 <= i < s.len(),
        forall|p: int, q: int| 0 <= p < q < s.len() ==> s[p].0@ != s[q].0@,
    ensures
        entries_map(s).contains_key(s[i].0@),
        entries_map(s)[s[i].0@] == entry_val(s[i].1),
    decreases s.len(),
{
    if i == s.len() - 1 {
    } else {
        assert(s.drop_last()[i] == s[i]);
        lemma_entries_map_get(s.drop_last(), i);
    }
}

/// A key that stands nowhere in the list is not in the map.
proof fn lemma_entries_map_absent(s: Seq<(String, (Option<EnvValue>, Type))>, key: Seq<char>)
    requires
        forall|j: int| 0 <= j < s.len() ==> s[j].0@ != key,
    ensures
        !entries_map(s).contains_key(key),
    decreases s.len(),
{
    if s.len() > 0 {
        lemma_entries_map_absent(s.drop_last(), key);
    }
}

/// Replacing the entry that holds a key denotes the map with that key
/// re-bound.
proof fn lemma_entries_map_update(
    s: Seq<(String, (Option<EnvValue>, Type))>,
    i: int,
    name: String,
    value: (Option<EnvValue>, Type),
)
    requires
        0 <= i < s.len(),
        forall|p: int, q: int| 0 <= p < q < s.len() ==> s[p].0@ != s[q].0@,
        s[i].0@ == name@,
    ensures
        entries_map(s.update(i, (name, value))) == entries_map(s).insert(name@, entry_val(value)),
    decreases s.len(),
{
    let s2 = s.update(i, (name, value));
    if i == s.len() - 1 {
        assert(s2.drop_last() =~= s.drop_last());
        assert(entries_map(s2) =~= entries_map(s).insert(name@, entry_val(value)));
    } else {
        assert(s2.drop_last() =~= s.drop_last().update(i, (name, value)));
        lemma_entries_map_update(s.drop_last(), i, name, value);
        assert(s2.last() == s.last());
        assert(s.last().0@ != name@);
        assert(entries_map(s2) =~= entries_map(s).insert(name@, entry_val(value)));
    }
}

} // verus!

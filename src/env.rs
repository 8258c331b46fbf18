use vstd::prelude::*;
use crate::token::{Token, copy_tokens};

verus! {

/// What a user-defined function holds: its parameter names and its body.
pub struct FunModel {
    pub params: Seq<String>,
    pub body: Seq<Token>,
}

/// The bindings of one scope, as sequences of (name, value) entries.
/// A name is bound by its first entry; insertion overwrites that entry or
/// appends a new one, which keeps the names unique (`names_unique`).
pub struct EnvModel {
    pub vars: Seq<(String, i32)>,
    pub funs: Seq<(String, FunModel)>,
}

/// The environment with no bindings.
pub open spec fn empty_env() -> EnvModel {
    EnvModel { vars: Seq::empty(), funs: Seq::empty() }
}

/// The names of a table's entries, in order.
pub open spec fn keys_of<V>(entries: Seq<(String, V)>) -> Seq<Seq<char>> {
    entries.map_values(|e: (String, V)| e.0@)
}

/// No name occurs twice.
pub open spec fn unique_keys(keys: Seq<Seq<char>>) -> bool {
    forall|i: int, j: int| 0 <= i < j < keys.len() ==> keys[i] != keys[j]
}

/// Each variable and each function has at most one entry.
pub open spec fn names_unique(env: EnvModel) -> bool {
    unique_keys(keys_of(env.vars)) && unique_keys(keys_of(env.funs))
}

/// The first index at or after `i` whose key is `name`.
pub open spec fn slot_from(keys: Seq<Seq<char>>, name: Seq<char>, i: int) -> Option<int>
    decreases keys.len() - i,
{
    if i < 0 || i >= keys.len() {
        None
    } else if keys[i] == name {
        Some(i)
    } else {
        slot_from(keys, name, i + 1)
    }
}

/// The index of the entry that binds `name`, if any.
pub open spec fn slot<V>(entries: Seq<(String, V)>, name: Seq<char>) -> Option<int> {
    slot_from(keys_of(entries), name, 0)
}

/// The value bound to `name`.
pub open spec fn lookup<V>(entries: Seq<(String, V)>, name: Seq<char>) -> Option<V> {
    match slot(entries, name) {
        Some(i) => Some(entries[i].1),
        None => None,
    }
}

/// The table after binding `name` to `v`: the existing entry is overwritten,
/// or a new one is appended.
pub open spec fn bind<V>(entries: Seq<(String, V)>, name: String, v: V) -> Seq<(String, V)> {
    match slot(entries, name@) {
        Some(i) => entries.update(i, (entries[i].0, v)),
        None => entries.push((name, v)),
    }
}

proof fn lemma_slot_from_bounds(keys: Seq<Seq<char>>, name: Seq<char>, i: int)
    ensures
        slot_from(keys, name, i) matches Some(j) ==> i <= j < keys.len() && keys[j] == name
            && forall|k: int| i <= k < j ==> keys[k] != name,
        slot_from(keys, name, i) is None ==> forall|k: int| i <= k < keys.len() && 0 <= i ==> keys[k] != name,
    decreases keys.len() - i,
{
    if 0 <= i < keys.len() && keys[i] != name {
        lemma_slot_from_bounds(keys, name, i + 1);
    }
}

/// The slot of a name, when there is one, indexes an entry with that name.
pub proof fn lemma_slot_in_range<V>(entries: Seq<(String, V)>, name: Seq<char>)
    ensures
        slot(entries, name) matches Some(i) ==> 0 <= i < entries.len() && entries[i].0@ == name,
{
    lemma_slot_from_bounds(keys_of(entries), name, 0);
}

/// Binding keeps the names of a table unique.
pub proof fn lemma_bind_unique<V>(entries: Seq<(String, V)>, name: String, v: V)
    requires
        unique_keys(keys_of(entries)),
    ensures
        unique_keys(keys_of(bind(entries, name, v))),
{
    let keys = keys_of(entries);
    let nkeys = keys_of(bind(entries, name, v));
    lemma_slot_from_bounds(keys, name@, 0);
    match slot(entries, name@) {
        Some(i) => {
            assert(nkeys =~= keys);
        },
        None => {
            assert(nkeys =~= keys.push(name@));
            assert forall|i: int, j: int| 0 <= i < j < nkeys.len() implies nkeys[i] != nkeys[j] by {
                if j == keys.len() {
                    assert(keys[i] != name@);
                } else {
                    assert(keys[i] != keys[j]);
                }
            }
        },
    }
}

/// Binding a name makes it denote the new value and leaves every other name as it was.
pub proof fn lemma_bind_lookup<V>(entries: Seq<(String, V)>, name: String, v: V, other: Seq<char>)
    ensures
        lookup(bind(entries, name, v), name@) == Some(v),
        other != name@ ==> lookup(bind(entries, name, v), other) == lookup(entries, other),
{
    let keys = keys_of(entries);
    let nb = bind(entries, name, v);
    let nkeys = keys_of(nb);
    lemma_slot_from_bounds(keys, name@, 0);
    lemma_slot_from_bounds(keys, other, 0);
    lemma_slot_from_bounds(nkeys, name@, 0);
    lemma_slot_from_bounds(nkeys, other, 0);
    match slot(entries, name@) {
        Some(i) => {
            assert(nkeys =~= keys);
            if other != name@ {
                if let Some(j) = slot(entries, other) {
                    assert(keys[j] == other);
                    assert(j != i);
                }
            }
        },
        None => {
            assert(nkeys =~= keys.push(name@));
            assert(nkeys[keys.len() as int] == name@);
            if other != name@ {
                if let Some(j) = slot(entries, other) {
                    assert(nkeys[j] == other);
                    if let Some(j2) = slot(nb, other) {
                        assert(j2 <= j);
                        assert(keys[j2] == other);
                    }
                } else {
                    if let Some(j2) = slot(nb, other) {
                        assert(j2 < keys.len());
                        assert(keys[j2] == other);
                    }
                }
            }
        },
    }
}

/// A user-defined function: parameter names and the body's tokens.
pub struct Function {
    pub params: Vec<String>,
    pub body: Vec<Token>,
}

impl View for Function {
    type V = FunModel;

    open spec fn view(&self) -> FunModel {
        FunModel { params: self.params@, body: self.body@ }
    }
}

/// A copy of a list of names.
fn copy_names(v: &Vec<String>) -> (r: Vec<String>)
    ensures
        r@ == v@,
{
    let mut r: Vec<String> = Vec::new();
    let mut i: usize = 0;
    while i < v.len()
        invariant
            i <= v.len(),
            r@ == v@.subrange(0, i as int),
        decreases v.len() - i,
    {
        r.push(v[i].clone());
        i += 1;
    }
    assert(r@ =~= v@);
    r
}

impl Function {
    /// A copy of this function.
    pub fn copy(&self) -> (r: Function)
        ensures
            r@ == self@,
    {
        Function { params: copy_names(&self.params), body: copy_tokens(&self.body) }
    }
}

/// Variable and function bindings of one scope.
///
/// Each table is a `Vec` of (name, entry) pairs searched by name, not a
/// `HashMap`: vstd's map specification proves lookups only for keys whose
/// hashing and equality it models, which `String` keys are not, so a
/// `HashMap<String, _>` would leave every lookup and update unproved. The
/// tables keep each name once (`names_unique`), and binding a name
/// overwrites its entry, as a map would.
pub struct Env {
    vars: Vec<(String, i32)>,
    funs: Vec<(String, Function)>,
}

pub open spec fn fun_entries(funs: Seq<(String, Function)>) -> Seq<(String, FunModel)> {
    funs.map_values(|e: (String, Function)| (e.0, e.1@))
}

impl View for Env {
    type V = EnvModel;

    closed spec fn view(&self) -> EnvModel {
        EnvModel { vars: self.vars@, funs: fun_entries(self.funs@) }
    }
}

/// The index of the first entry named `name`.
fn find_slot<V>(entries: &Vec<(String, V)>, name: &String) -> (r: Option<usize>)
    ensures
        r matches Some(i) ==> i < entries@.len() && slot(entries@, name@) == Some(i as int),
        r is None ==> slot(entries@, name@) is None,
{
    let ghost keys = keys_of(entries@);
    let mut i: usize = 0;
    while i < entries.len()
        invariant
            i <= entries.len(),
            keys == keys_of(entries@),
            slot_from(keys, name@, 0) == slot_from(keys, name@, i as int),
        decreases entries.len() - i,
    {
        if entries[i].0 == *name {
            return Some(i);
        }
        i += 1;
    }
    None
}

impl Env {
    /// An environment with no bindings.
    pub fn new() -> (r: Self)
        ensures
            r@ == empty_env(),
            names_unique(r@),
    {
        let r = Self { vars: Vec::new(), funs: Vec::new() };
        assert(r@.funs =~= Seq::<(String, FunModel)>::empty());
        r
    }

    /// The value of variable `name`.
    pub fn get_var(&self, name: &String) -> (r: Option<i32>)
        ensures
            r == lookup(self@.vars, name@),
    {
        match find_slot(&self.vars, name) {
            Some(i) => Some(self.vars[i].1),
            None => None,
        }
    }

    /// Binds variable `name` to `v`.
    pub fn set_var(&mut self, name: String, v: i32)
        ensures
            final(self)@ == (EnvModel { vars: bind(old(self)@.vars, name, v), ..old(self)@ }),
            names_unique(old(self)@) ==> names_unique(final(self)@),
    {
        proof {
            if names_unique(self@) {
                lemma_bind_unique(self@.vars, name, v);
            }
        }
        match find_slot(&self.vars, &name) {
            Some(i) => {
                let key = self.vars[i].0.clone();
                self.vars.set(i, (key, v));
            },
            None => {
                self.vars.push((name, v));
            },
        }
    }

    /// A copy of the function named `name`.
    pub fn get_fun(&self, name: &String) -> (r: Option<Function>)
        ensures
            r matches Some(f) ==> lookup(self@.funs, name@) == Some(f@),
            r is None ==> lookup(self@.funs, name@) is None,
    {
        proof {
            let a = keys_of(self.funs@);
            let b = keys_of(self@.funs);
            assert(a =~= b);
        }
        match find_slot(&self.funs, name) {
            Some(i) => Some(self.funs[i].1.copy()),
            None => None,
        }
    }

    /// Defines (or redefines) the function `name`.
    pub fn set_fun(&mut self, name: String, f: Function)
        ensures
            final(self)@ == (EnvModel { funs: bind(old(self)@.funs, name, f@), ..old(self)@ }),
            names_unique(old(self)@) ==> names_unique(final(self)@),
    {
        proof {
            if names_unique(self@) {
                lemma_bind_unique(self@.funs, name, f@);
            }
        }
        proof {
            let a = keys_of(self.funs@);
            let b = keys_of(self@.funs);
            assert(a =~= b);
        }
        match find_slot(&self.funs, &name) {
            Some(i) => {
                let key = self.funs[i].0.clone();
                self.funs.set(i, (key, f));
            },
            None => {
                self.funs.push((name, f));
            },
        }
        proof {
            let fv = f@;
            assert(self@.funs =~= bind(old(self)@.funs, name, fv));
        }
    }

    /// Replaces this scope's functions by a copy of those of `other`.
    pub fn adopt_funs(&mut self, other: &Env)
        ensures
            final(self)@ == (EnvModel { funs: other@.funs, ..old(self)@ }),
            names_unique(old(self)@) && names_unique(other@) ==> names_unique(final(self)@),
    {
        let mut r: Vec<(String, Function)> = Vec::new();
        let mut i: usize = 0;
        while i < other.funs.len()
            invariant
                i <= other.funs.len(),
                r@.len() == i,
                forall|k: int| 0 <= k < i ==> r@[k].0 == other.funs@[k].0 && r@[k].1@ == other.funs@[k].1@,
            decreases other.funs.len() - i,
        {
            let e = (other.funs[i].0.clone(), other.funs[i].1.copy());
            r.push(e);
            i += 1;
        }
        assert(fun_entries(r@) =~= fun_entries(other.funs@));
        self.funs = r;
    }
}

} // verus!

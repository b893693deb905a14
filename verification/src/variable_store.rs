//! A store of run variables (JSON texts) in which large values are held behind a
//! shared pointer, so that copies of a variable do not copy the value.

use std::sync::Arc;
use vstd::prelude::*;
use crate::code_executor::var_value;
use crate::execution::str_eq;
use crate::rest::{is_first_key, pair_views, upsert};
use crate::rest_response::{json_shape, json_shape_of, shape_view, JsonShape, JsonShapeView};
use crate::template::{json_kind, json_kind_of, JsonKind};
use crate::text::{byte_len, str_byte_len};

verus! {

broadcast use vstd::string::group_string_axioms;

/// Values whose estimated size is at least this many bytes are shared.
pub const LARGE_VALUE_THRESHOLD: usize = 1024;

/// `Arc::strong_count`. Nothing is promised beyond the handle itself being counted: the
/// count depends on the other handles alive at the time.
#[verifier::external_body]
fn arc_strong_count(a: &Arc<String>) -> (r: usize)
    ensures
        r >= 1,
{
    Arc::strong_count(a)
}

/// `Arc::clone`: a second handle to the same value.
#[verifier::external_body]
fn arc_clone(a: &Arc<String>) -> (r: Arc<String>)
    ensures
        r == *a,
{
    Arc::clone(a)
}

/// `Arc::try_unwrap`: the value when this is the only handle, else the handle back.
#[verifier::external_body]
fn arc_try_unwrap(a: Arc<String>) -> (r: Result<String, Arc<String>>)
    ensures
        match r {
            Ok(t) => t == a,
            Err(e) => e == a,
        },
{
    Arc::try_unwrap(a)
}

/// A number, or `usize::MAX` when it is larger.
pub open spec fn sat(x: int) -> int {
    if x > usize::MAX {
        usize::MAX as int
    } else {
        x
    }
}

/// Add, staying at `usize::MAX` instead of overflowing.
pub open spec fn sat_add(a: int, b: int) -> int {
    if a + b > usize::MAX {
        usize::MAX as int
    } else {
        a + b
    }
}

/// The estimated size in bytes of a JSON value: nothing for `null`, one for a boolean,
/// eight for a number, its bytes for a string, and for an array or object the sizes of
/// its parts plus eight per item or sixteen per member (with the key's bytes). Nested
/// values deeper than `fuel` count as nothing; sums stop at `usize::MAX`.
pub open spec fn value_size(text: Seq<char>, fuel: nat) -> int
    decreases fuel, 0nat,
{
    if fuel == 0 {
        0
    } else {
        match json_shape_of(text) {
            JsonShapeView::Str(s) => byte_len(s) as int,
            JsonShapeView::Array(items) => sat_add(items_size(items, (fuel - 1) as nat), sat((items.len() * 8) as int)),
            JsonShapeView::Object(members) => sat_add(members_size(members, (fuel - 1) as nat), sat((members.len() * 16) as int)),
            JsonShapeView::Other => match json_kind_of(text) {
                Some(JsonKind::Bool) => 1,
                Some(JsonKind::Integer) => 8,
                Some(JsonKind::Float) => 8,
                _ => 0,
            },
        }
    }
}

/// The summed sizes of array items.
pub open spec fn items_size(items: Seq<Seq<char>>, fuel: nat) -> int
    decreases fuel, items.len(),
{
    if items.len() == 0 {
        0
    } else {
        sat_add(items_size(items.drop_last(), fuel), value_size(items.last(), fuel))
    }
}

/// The summed key bytes and value sizes of object members.
pub open spec fn members_size(members: Seq<(Seq<char>, Seq<char>)>, fuel: nat) -> int
    decreases fuel, members.len(),
{
    if members.len() == 0 {
        0
    } else {
        sat_add(
            members_size(members.drop_last(), fuel),
            sat_add(byte_len(members.last().0) as int, value_size(members.last().1, fuel)),
        )
    }
}

proof fn lemma_sizes_bounded(text: Seq<char>, fuel: nat)
    ensures
        0 <= value_size(text, fuel) <= usize::MAX,
    decreases fuel, 0nat,
{
    if fuel > 0 {
        match json_shape_of(text) {
            JsonShapeView::Array(items) => lemma_items_bounded(items, (fuel - 1) as nat),
            JsonShapeView::Object(members) => lemma_members_bounded(members, (fuel - 1) as nat),
            _ => {},
        }
    }
}

proof fn lemma_items_bounded(items: Seq<Seq<char>>, fuel: nat)
    ensures
        0 <= items_size(items, fuel) <= usize::MAX,
    decreases fuel, items.len(),
{
    if items.len() > 0 {
        lemma_items_bounded(items.drop_last(), fuel);
        lemma_sizes_bounded(items.last(), fuel);
    }
}

proof fn lemma_members_bounded(members: Seq<(Seq<char>, Seq<char>)>, fuel: nat)
    ensures
        0 <= members_size(members, fuel) <= usize::MAX,
    decreases fuel, members.len(),
{
    if members.len() > 0 {
        lemma_members_bounded(members.drop_last(), fuel);
        lemma_sizes_bounded(members.last().1, fuel);
    }
}

fn sat_add_exec(a: usize, b: usize) -> (r: usize)
    ensures
        r == sat_add(a as int, b as int),
{
    a.saturating_add(b)
}

fn sat_mul_exec(a: usize, k: usize) -> (r: usize)
    requires
        k <= 16,
    ensures
        r == sat(a * k),
{
    match a.checked_mul(k) {
        Some(x) => x,
        None => usize::MAX,
    }
}

/// The estimated size of a JSON value (see [`value_size`]).
pub fn estimate_size(text: &str, fuel: usize) -> (r: usize)
    ensures
        r == value_size(text@, fuel as nat),
    decreases fuel,
{
    if fuel == 0 {
        return 0;
    }
    proof {
        lemma_sizes_bounded(text@, fuel as nat);
    }
    let f = fuel - 1;
    match json_shape(text) {
        JsonShape::Str(s) => str_byte_len(s.as_str()),
        JsonShape::Array(items) => {
            let ghost iv = items@.map_values(|x: String| x@);
            let mut total: usize = 0;
            let mut k: usize = 0;
            assert(iv.take(0) =~= Seq::<Seq<char>>::empty());
            while k < items.len()
                invariant
                    k <= items@.len(),
                    iv == items@.map_values(|x: String| x@),
                    f == fuel - 1,
                    total == items_size(iv.take(k as int), f as nat),
                decreases items.len() - k,
            {
                assert(iv.take(k + 1).drop_last() =~= iv.take(k as int));
                assert(iv.take(k + 1).last() == items@[k as int]@);
                let s = estimate_size(items[k].as_str(), f);
                total = sat_add_exec(total, s);
                k = k + 1;
            }
            assert(iv.take(iv.len() as int) =~= iv);
            let per = sat_mul_exec(items.len(), 8);
            sat_add_exec(total, per)
        },
        JsonShape::Object(members) => {
            let ghost mv = pair_views(members@);
            let mut total: usize = 0;
            let mut k: usize = 0;
            assert(mv.take(0) =~= Seq::<(Seq<char>, Seq<char>)>::empty());
            while k < members.len()
                invariant
                    k <= members@.len(),
                    mv == pair_views(members@),
                    f == fuel - 1,
                    total == members_size(mv.take(k as int), f as nat),
                decreases members.len() - k,
            {
                assert(mv.take(k + 1).drop_last() =~= mv.take(k as int));
                assert(mv.take(k + 1).last() == (members@[k as int].0@, members@[k as int].1@));
                let kl = str_byte_len(members[k].0.as_str());
                let s = estimate_size(members[k].1.as_str(), f);
                total = sat_add_exec(total, sat_add_exec(kl, s));
                k = k + 1;
            }
            assert(mv.take(mv.len() as int) =~= mv);
            let per = sat_mul_exec(members.len(), 16);
            sat_add_exec(total, per)
        },
        JsonShape::Other => match json_kind(text) {
            Some(JsonKind::Bool) => 1,
            Some(JsonKind::Integer) => 8,
            Some(JsonKind::Float) => 8,
            _ => 0,
        },
    }
}

/// The estimated size of a JSON value, nesting followed as deep as the text is long.
pub fn estimate_value_size(value: &str) -> (r: usize)
    ensures
        r == value_size(value@, value@.len()),
{
    estimate_size(value, value.unicode_len())
}

/// A variable: small values held directly, large ones behind a shared pointer.
#[derive(Debug, Clone)]
pub enum Variable {
    Inline(String),
    Shared(Arc<String>),
}

/// The value a variable holds.
pub open spec fn variable_value(v: Variable) -> Seq<char> {
    match v {
        Variable::Inline(s) => s@,
        Variable::Shared(a) => (*a)@,
    }
}

impl Variable {
    /// A variable for a value, shared when its estimated size reaches the threshold.
    pub fn new(value: String) -> (r: Self)
        ensures
            variable_value(r) == value@,
            (r is Shared) == (value_size(value@, value@.len()) >= LARGE_VALUE_THRESHOLD),
    {
        let size = estimate_value_size(value.as_str());
        if size >= LARGE_VALUE_THRESHOLD {
            Variable::Shared(Arc::new(value))
        } else {
            Variable::Inline(value)
        }
    }

    /// A shared variable, whatever its size.
    pub fn shared(value: String) -> (r: Self)
        ensures
            variable_value(r) == value@,
            r is Shared,
    {
        Variable::Shared(Arc::new(value))
    }

    /// The value.
    pub fn as_value(&self) -> (r: &String)
        ensures
            r@ == variable_value(*self),
    {
        match self {
            Variable::Inline(v) => v,
            Variable::Shared(a) => &**a,
        }
    }

    /// The value, taken out (copied when other handles still share it).
    pub fn into_value(self) -> (r: String)
        ensures
            r@ == variable_value(self),
    {
        match self {
            Variable::Inline(v) => v,
            Variable::Shared(a) => match arc_try_unwrap(a) {
                Ok(v) => v,
                Err(a) => (*a).clone(),
            },
        }
    }

    /// The number of handles to the value: one for an inline value.
    pub fn strong_count(&self) -> (r: usize)
        ensures
            r >= 1,
            self is Inline ==> r == 1,
    {
        match self {
            Variable::Inline(_) => 1,
            Variable::Shared(a) => arc_strong_count(a),
        }
    }

    /// Whether the value is shared.
    pub fn is_shared(&self) -> (r: bool)
        ensures
            r == (*self is Shared),
    {
        match self {
            Variable::Inline(_) => false,
            Variable::Shared(_) => true,
        }
    }

    /// Another handle to the same value (an inline value is copied).
    pub fn duplicate(&self) -> (r: Self)
        ensures
            variable_value(r) == variable_value(*self),
            (r is Shared) == (*self is Shared),
    {
        match self {
            Variable::Inline(v) => Variable::Inline(v.clone()),
            Variable::Shared(a) => Variable::Shared(arc_clone(a)),
        }
    }
}

/// Counts of a store's variables.
#[derive(Debug, Clone, Copy, PartialEq, Eq, Default)]
pub struct VariableStoreStats {
    pub total_variables: usize,
    pub inline_variables: usize,
    pub shared_variables: usize,
    /// The handles to the shared values, counted together.
    pub total_arc_refs: usize,
}

/// The names and values of the variables.
pub open spec fn store_view(s: Seq<(String, Variable)>) -> Seq<(Seq<char>, Seq<char>)> {
    s.map_values(|e: (String, Variable)| (e.0@, variable_value(e.1)))
}

/// The number of shared variables.
pub open spec fn shared_count(s: Seq<(String, Variable)>) -> nat
    decreases s.len(),
{
    if s.len() == 0 {
        0
    } else {
        shared_count(s.drop_last()) + if s.last().1 is Shared { 1nat } else { 0nat }
    }
}

/// No name occurs twice.
pub open spec fn names_unique(s: Seq<(String, Variable)>) -> bool {
    forall|i: int, j: int| 0 <= i < j < s.len() ==> (#[trigger] s[i]).0@ != (#[trigger] s[j]).0@
}

/// Position `i` holds the first variable named `key`.
pub open spec fn first_name_at(s: Seq<(String, Variable)>, key: Seq<char>, i: int) -> bool {
    0 <= i < s.len() && s[i].0@ == key && forall|j: int| 0 <= j < i ==> s[j].0@ != key
}

/// Variables by name, each name once.
#[derive(Debug, Clone)]
pub struct VariableStore {
    pub variables: Vec<(String, Variable)>,
}

fn find_name(s: &Vec<(String, Variable)>, key: &str) -> (r: Option<usize>)
    ensures
        match r {
            Some(i) => i < s@.len() && s@[i as int].0@ == key@ && forall|j: int| 0 <= j < i ==> s@[j].0@ != key@,
            None => forall|j: int| 0 <= j < s@.len() ==> s@[j].0@ != key@,
        },
{
    let mut i: usize = 0;
    while i < s.len()
        invariant
            i <= s@.len(),
            forall|j: int| 0 <= j < i ==> s@[j].0@ != key@,
        decreases s.len() - i,
    {
        if str_eq(s[i].0.as_str(), key) {
            return Some(i);
        }
        i = i + 1;
    }
    None
}

proof fn lemma_first_key_at(s: Seq<(String, Variable)>, key: Seq<char>, i: int)
    requires
        0 <= i < s.len(),
        s[i].0@ == key,
        forall|j: int| 0 <= j < i ==> s[j].0@ != key,
    ensures
        var_value(store_view(s), key) == Some(variable_value(s[i].1)),
{
    let v = store_view(s);
    assert(is_first_key(v, key, i));
    let c = choose|c: int| #[trigger] is_first_key(v, key, c);
    assert(is_first_key(v, key, c));
    if c < i {
        assert(v[c].0 == s[c].0@);
    } else if c > i {
        assert(v[i].0 == s[i].0@);
    }
}

proof fn lemma_no_key(s: Seq<(String, Variable)>, key: Seq<char>)
    requires
        forall|j: int| 0 <= j < s.len() ==> s[j].0@ != key,
    ensures
        var_value(store_view(s), key) is None,
{
    let v = store_view(s);
    if exists|c: int| #[trigger] is_first_key(v, key, c) {
        let c = choose|c: int| #[trigger] is_first_key(v, key, c);
        assert(v[c].0 == s[c].0@);
    }
}

impl VariableStore {
    /// An empty store.
    pub fn new() -> (r: Self)
        ensures
            r.variables@.len() == 0,
    {
        VariableStore { variables: Vec::new() }
    }

    /// Set a variable (replacing one of that name).
    pub fn insert_variable(&mut self, key: String, var: Variable)
        ensures
            store_view(final(self).variables@) == upsert(store_view(old(self).variables@), key@, variable_value(var)),
            names_unique(old(self).variables@) ==> names_unique(final(self).variables@),
    {
        let ghost v = store_view(self.variables@);
        let ghost val = variable_value(var);
        match find_name(&self.variables, key.as_str()) {
            Some(i) => {
                proof {
                    assert(is_first_key(v, key@, i as int));
                    let c = choose|c: int| #[trigger] is_first_key(v, key@, c);
                    assert(is_first_key(v, key@, c));
                    if c < i {
                        assert(v[c].0 == self.variables@[c].0@);
                    } else if c > i {
                        assert(v[i as int].0 == self.variables@[i as int].0@);
                    }
                }
                self.variables.set(i, (key, var));
                assert(store_view(self.variables@) =~= v.update(i as int, (key@, val)));
            },
            None => {
                proof {
                    if exists|c: int| #[trigger] is_first_key(v, key@, c) {
                        let c = choose|c: int| #[trigger] is_first_key(v, key@, c);
                        assert(v[c].0 == self.variables@[c].0@);
                    }
                }
                self.variables.push((key, var));
                assert(store_view(self.variables@) =~= v.push((key@, val)));
            },
        }
    }

    /// Set a variable, sharing its value when large.
    pub fn insert(&mut self, key: String, value: String)
        ensures
            store_view(final(self).variables@) == upsert(store_view(old(self).variables@), key@, value@),
            names_unique(old(self).variables@) ==> names_unique(final(self).variables@),
    {
        self.insert_variable(key, Variable::new(value));
    }

    /// Set a variable with a shared value.
    pub fn insert_shared(&mut self, key: String, value: String)
        ensures
            store_view(final(self).variables@) == upsert(store_view(old(self).variables@), key@, value@),
            names_unique(old(self).variables@) ==> names_unique(final(self).variables@),
    {
        self.insert_variable(key, Variable::shared(value));
    }

    /// The value of the variable of that name.
    pub fn get(&self, key: &str) -> (r: Option<&String>)
        ensures
            match r {
                Some(v) => var_value(store_view(self.variables@), key@) == Some(v@),
                None => var_value(store_view(self.variables@), key@) is None,
            },
    {
        match find_name(&self.variables, key) {
            Some(i) => {
                proof {
                    lemma_first_key_at(self.variables@, key@, i as int);
                }
                Some(self.variables[i].1.as_value())
            },
            None => {
                proof {
                    lemma_no_key(self.variables@, key@);
                }
                None
            },
        }
    }

    /// Another handle to the variable of that name.
    pub fn get_variable(&self, key: &str) -> (r: Option<Variable>)
        ensures
            match r {
                Some(v) => var_value(store_view(self.variables@), key@) == Some(variable_value(v)),
                None => var_value(store_view(self.variables@), key@) is None,
            },
    {
        match find_name(&self.variables, key) {
            Some(i) => {
                proof {
                    lemma_first_key_at(self.variables@, key@, i as int);
                }
                Some(self.variables[i].1.duplicate())
            },
            None => {
                proof {
                    lemma_no_key(self.variables@, key@);
                }
                None
            },
        }
    }

    /// Remove the variable of that name and return it.
    pub fn remove(&mut self, key: &str) -> (r: Option<Variable>)
        ensures
            match r {
                Some(v) => var_value(store_view(old(self).variables@), key@) == Some(variable_value(v)),
                None => var_value(store_view(old(self).variables@), key@) is None && final(self).variables@ == old(
                    self,
                ).variables@,
            },
            r is Some ==> exists|i: int|
                #[trigger] first_name_at(old(self).variables@, key@, i) && final(self).variables@ == old(
                    self,
                ).variables@.remove(i),
            names_unique(old(self).variables@) ==> var_value(store_view(final(self).variables@), key@) is None,
            names_unique(old(self).variables@) ==> names_unique(final(self).variables@),
            final(self).variables@.len() <= old(self).variables@.len(),
    {
        match find_name(&self.variables, key) {
            Some(i) => {
                proof {
                    lemma_first_key_at(self.variables@, key@, i as int);
                }
                let ghost before = self.variables@;
                let (_, v) = self.variables.remove(i);
                proof {
                    assert(first_name_at(before, key@, i as int));
                    if names_unique(before) {
                        assert forall|a: int, b: int| 0 <= a < b < self.variables@.len() implies (#[trigger] self.variables@[a]).0@
                            != (#[trigger] self.variables@[b]).0@ by {
                            let a0 = if a < i { a } else { a + 1 };
                            let b0 = if b < i { b } else { b + 1 };
                            assert(self.variables@[a] == before[a0]);
                            assert(self.variables@[b] == before[b0]);
                        }
                        assert forall|j: int| 0 <= j < self.variables@.len() implies self.variables@[j].0@ != key@ by {
                            if j < i {
                                assert(self.variables@[j] == before[j]);
                            } else {
                                assert(self.variables@[j] == before[j + 1]);
                                assert(before[i as int].0@ != before[j + 1].0@);
                            }
                        }
                        lemma_no_key(self.variables@, key@);
                    }
                }
                Some(v)
            },
            None => {
                proof {
                    lemma_no_key(self.variables@, key@);
                }
                None
            },
        }
    }

    /// Whether a variable of that name exists.
    pub fn contains_key(&self, key: &str) -> (r: bool)
        ensures
            r == (var_value(store_view(self.variables@), key@) is Some),
    {
        self.get(key).is_some()
    }

    /// The number of variables.
    pub fn len(&self) -> (r: usize)
        ensures
            r == self.variables@.len(),
    {
        self.variables.len()
    }

    /// Whether there is no variable.
    pub fn is_empty(&self) -> (r: bool)
        ensures
            r == (self.variables@.len() == 0),
    {
        self.variables.len() == 0
    }

    /// Remove every variable.
    pub fn clear(&mut self)
        ensures
            final(self).variables@.len() == 0,
    {
        self.variables.clear();
    }

    /// The names of the variables, in order.
    pub fn keys(&self) -> (r: Vec<&String>)
        ensures
            r@.len() == self.variables@.len(),
            forall|i: int| 0 <= i < r@.len() ==> *r@[i] == self.variables@[i].0,
    {
        let mut out: Vec<&String> = Vec::new();
        let mut i: usize = 0;
        while i < self.variables.len()
            invariant
                i <= self.variables@.len(),
                out@.len() == i,
                forall|k: int| 0 <= k < i ==> *out@[k] == self.variables@[k].0,
            decreases self.variables.len() - i,
        {
            out.push(&self.variables[i].0);
            i = i + 1;
        }
        out
    }

    /// The names and values, in order.
    pub fn to_hashmap(&self) -> (r: Vec<(String, String)>)
        ensures
            pair_views(r@) == store_view(self.variables@),
    {
        let ghost sv = store_view(self.variables@);
        let mut out: Vec<(String, String)> = Vec::new();
        let mut i: usize = 0;
        while i < self.variables.len()
            invariant
                i <= self.variables@.len(),
                sv == store_view(self.variables@),
                pair_views(out@) == sv.take(i as int),
            decreases self.variables.len() - i,
        {
            let v = self.variables[i].1.as_value().clone();
            let ghost before = pair_views(out@);
            assert(sv[i as int] == (self.variables@[i as int].0@, variable_value(self.variables@[i as int].1)));
            out.push((self.variables[i].0.clone(), v));
            assert(pair_views(out@) =~= before.push(sv[i as int]));
            assert(sv.take(i + 1) =~= sv.take(i as int).push(sv[i as int]));
            i = i + 1;
        }
        assert(sv.take(sv.len() as int) =~= sv);
        out
    }

    /// A store of the given names and values, later ones replacing earlier ones of the
    /// same name.
    pub fn from_hashmap(map: Vec<(String, String)>) -> (r: Self)
        ensures
            names_unique(r.variables@),
            store_view(r.variables@) == upsert_all(pair_views(map@)),
    {
        let mut store = VariableStore::new();
        let ghost mv = pair_views(map@);
        let mut i: usize = 0;
        assert(store_view(store.variables@) =~= upsert_all(mv.take(0)));
        while i < map.len()
            invariant
                i <= map@.len(),
                mv == pair_views(map@),
                names_unique(store.variables@),
                store_view(store.variables@) == upsert_all(mv.take(i as int)),
            decreases map.len() - i,
        {
            assert(mv.take(i + 1).drop_last() =~= mv.take(i as int));
            assert(mv.take(i + 1).last() == (map@[i as int].0@, map@[i as int].1@));
            store.insert(map[i].0.clone(), map[i].1.clone());
            i = i + 1;
        }
        assert(mv.take(mv.len() as int) =~= mv);
        store
    }

    /// The counts of variables, inline and shared, and the handles to shared values
    /// (summed, stopping at `usize::MAX`).
    pub fn stats(&self) -> (r: VariableStoreStats)
        ensures
            r.total_variables == self.variables@.len(),
            r.shared_variables == shared_count(self.variables@),
            r.inline_variables == self.variables@.len() - shared_count(self.variables@),
            r.total_arc_refs >= r.shared_variables || r.total_arc_refs == usize::MAX,
    {
        let ghost s = self.variables@;
        let mut shared: usize = 0;
        let mut refs: usize = 0;
        let mut i: usize = 0;
        assert(s.take(0) =~= Seq::<(String, Variable)>::empty());
        while i < self.variables.len()
            invariant
                i <= s.len(),
                s == self.variables@,
                shared == shared_count(s.take(i as int)),
                shared <= i,
                refs >= shared || refs == usize::MAX,
            decreases self.variables.len() - i,
        {
            assert(s.take(i + 1).drop_last() =~= s.take(i as int));
            assert(s.take(i + 1).last() == s[i as int]);
            match &self.variables[i].1 {
                Variable::Inline(_) => {},
                Variable::Shared(a) => {
                    shared = shared + 1;
                    let c = arc_strong_count(a);
                    refs = refs.saturating_add(c);
                },
            }
            i = i + 1;
        }
        assert(s.take(s.len() as int) =~= s);
        VariableStoreStats {
            total_variables: self.variables.len(),
            inline_variables: self.variables.len() - shared,
            shared_variables: shared,
            total_arc_refs: refs,
        }
    }
}

/// The variables set one after the other, each replacing one of its name.
pub open spec fn upsert_all(s: Seq<(Seq<char>, Seq<char>)>) -> Seq<(Seq<char>, Seq<char>)>
    decreases s.len(),
{
    if s.len() == 0 {
        Seq::empty()
    } else {
        upsert(upsert_all(s.drop_last()), s.last().0, s.last().1)
    }
}

} // verus!

//! Runtime values and the chained lexical-scope variable store.
//!
//! The store is a stack of scopes, outermost (global) first. Entering a
//! block or a call pushes one scope; leaving pops it. `define` writes the
//! innermost scope, shadowing any binding further out; `push` (assignment)
//! overwrites the nearest existing binding and never creates one; `get`
//! walks outwards and stops at the first scope that binds the name.
//!
//! Contracts see the store as a sequence of maps from names (character
//! sequences) to value views; the spec functions `lookup_scopes`,
//! `define_scopes` and `assign_scopes` are the whole story of the store.

use vstd::prelude::*;

use crate::ast::{ast_view, asts_view, clone_ast_vec, AstType, AstV};

verus! {

/// A runtime value: a number, text, a boolean, the absence-of-value
/// marker, a user-defined callable (parameter list and body), or a
/// host-provided callable known by an opaque handle.
#[derive(Debug, PartialEq)]
pub enum Value {
    Num(i64),
    Str(String),
    Bool(bool),
    Nil,
    UserFunc(Vec<AstType>, AstType),
    NativeFunc(u64),
}

/// The mathematical shape of a runtime value.
pub enum ValueV {
    Num(i64),
    Str(Seq<char>),
    Bool(bool),
    Nil,
    Fun(Seq<AstV>, AstV),
    Native(u64),
}

impl View for Value {
    type V = ValueV;

    open spec fn view(&self) -> ValueV {
        match self {
            Value::Num(n) => ValueV::Num(*n),
            Value::Str(s) => ValueV::Str(s@),
            Value::Bool(b) => ValueV::Bool(*b),
            Value::Nil => ValueV::Nil,
            Value::UserFunc(ps, b) => ValueV::Fun(asts_view(ps@), ast_view(*b)),
            Value::NativeFunc(h) => ValueV::Native(*h),
        }
    }
}

impl Clone for Value {
    /// A copy with the same view as the original.
    fn clone(&self) -> (r: Self)
        ensures
            r@ == self@,
    {
        match self {
            Value::Num(n) => Value::Num(*n),
            Value::Str(s) => Value::Str(s.clone()),
            Value::Bool(b) => Value::Bool(*b),
            Value::Nil => Value::Nil,
            Value::UserFunc(ps, b) => Value::UserFunc(clone_ast_vec(ps), b.clone()),
            Value::NativeFunc(h) => Value::NativeFunc(*h),
        }
    }
}

/// One scope as a map, later entries overriding earlier ones (a
/// well-formed scope has no repeated name, so the direction is moot).
pub open spec fn scope_map(s: Seq<(String, Value)>) -> Map<Seq<char>, ValueV>
    decreases s.len(),
{
    if s.len() == 0 {
        Map::empty()
    } else {
        scope_map(s.drop_last()).insert(s.last().0@, s.last().1@)
    }
}

/// No two entries of the scope bind the same name.
pub open spec fn scope_wf(s: Seq<(String, Value)>) -> bool {
    forall|i: int, j: int| 0 <= i < j < s.len() ==> s[i].0@ != s[j].0@
}

/// The value bound to `name`, searching from the innermost scope (the
/// last of the sequence) outwards.
pub open spec fn lookup_scopes(
    scopes: Seq<Map<Seq<char>, ValueV>>,
    name: Seq<char>,
) -> Option<ValueV>
    decreases scopes.len(),
{
    if scopes.len() == 0 {
        None
    } else if scopes.last().contains_key(name) {
        Some(scopes.last()[name])
    } else {
        lookup_scopes(scopes.drop_last(), name)
    }
}

/// The store after binding `name` in the innermost scope.
pub open spec fn define_scopes(
    scopes: Seq<Map<Seq<char>, ValueV>>,
    name: Seq<char>,
    v: ValueV,
) -> Seq<Map<Seq<char>, ValueV>> {
    scopes.update(scopes.len() - 1, scopes.last().insert(name, v))
}

/// The store after overwriting the nearest existing binding of `name`;
/// the store is unchanged when no scope binds the name.
pub open spec fn assign_scopes(
    scopes: Seq<Map<Seq<char>, ValueV>>,
    name: Seq<char>,
    v: ValueV,
) -> Seq<Map<Seq<char>, ValueV>>
    decreases scopes.len(),
{
    if scopes.len() == 0 {
        scopes
    } else if scopes.last().contains_key(name) {
        scopes.update(scopes.len() - 1, scopes.last().insert(name, v))
    } else {
        assign_scopes(scopes.drop_last(), name, v).push(scopes.last())
    }
}

/// The chained variable store.
#[derive(Debug)]
pub struct Environment {
    scopes: Vec<Vec<(String, Value)>>,
}

impl View for Environment {
    type V = Seq<Map<Seq<char>, ValueV>>;

    closed spec fn view(&self) -> Seq<Map<Seq<char>, ValueV>> {
        Seq::new(
            self.scopes@.len(),
            |i: int|
                if 0 <= i < self.scopes@.len() {
                    scope_map(self.scopes@[i]@)
                } else {
                    Map::empty()
                },
        )
    }
}

/// A name bound by no entry of a scope is not in its map.
proof fn lemma_scope_map_absent(s: Seq<(String, Value)>, name: Seq<char>)
    requires
        forall|i: int| 0 <= i < s.len() ==> (#[trigger] s[i]).0@ != name,
    ensures
        !scope_map(s).contains_key(name),
    decreases s.len(),
{
    if s.len() > 0 {
        lemma_scope_map_absent(s.drop_last(), name);
    }
}

/// In a well-formed scope, the map agrees with the entry that binds the
/// name.
proof fn lemma_scope_map_found(s: Seq<(String, Value)>, i: int)
    requires
        scope_wf(s),
        0 <= i < s.len(),
    ensures
        scope_map(s).contains_key(s[i].0@),
        scope_map(s)[s[i].0@] == s[i].1@,
    decreases s.len(),
{
    if i < s.len() - 1 {
        lemma_scope_map_found(s.drop_last(), i);
    }
}

/// Replacing the entry that binds a name is, on maps, an insert.
proof fn lemma_scope_map_update(s: Seq<(String, Value)>, i: int, p: (String, Value))
    requires
        scope_wf(s),
        0 <= i < s.len(),
        s[i].0@ == p.0@,
    ensures
        scope_map(s.update(i, p)) == scope_map(s).insert(p.0@, p.1@),
        scope_wf(s.update(i, p)),
    decreases s.len(),
{
    let su = s.update(i, p);
    if i == s.len() - 1 {
        assert(su.drop_last() =~= s.drop_last());
        assert(scope_map(su) =~= scope_map(s).insert(p.0@, p.1@));
    } else {
        assert(su.drop_last() =~= s.drop_last().update(i, p));
        lemma_scope_map_update(s.drop_last(), i, p);
        assert(s.last().0@ != p.0@);
        assert(scope_map(su) =~= scope_map(s).insert(p.0@, p.1@));
    }
}

/// Appending a fresh name is, on maps, an insert, and keeps the scope
/// well formed.
proof fn lemma_scope_map_push(s: Seq<(String, Value)>, p: (String, Value))
    requires
        scope_wf(s),
        forall|i: int| 0 <= i < s.len() ==> (#[trigger] s[i]).0@ != p.0@,
    ensures
        scope_map(s.push(p)) == scope_map(s).insert(p.0@, p.1@),
        scope_wf(s.push(p)),
{
    assert(s.push(p).drop_last() =~= s);
    assert(scope_map(s.push(p)) =~= scope_map(s).insert(p.0@, p.1@));
}

/// A name no scope of the store binds looks up to nothing.
proof fn lemma_lookup_scopes_absent(scopes: Seq<Map<Seq<char>, ValueV>>, name: Seq<char>)
    requires
        forall|t: int| 0 <= t < scopes.len() ==> !(#[trigger] scopes[t]).contains_key(name),
    ensures
        lookup_scopes(scopes, name) is None,
    decreases scopes.len(),
{
    if scopes.len() > 0 {
        lemma_lookup_scopes_absent(scopes.drop_last(), name);
    }
}

/// When scope `i` binds the name and no scope inside it does, the lookup
/// answers from scope `i`.
proof fn lemma_lookup_scopes_at(scopes: Seq<Map<Seq<char>, ValueV>>, name: Seq<char>, i: int)
    requires
        0 <= i < scopes.len(),
        scopes[i].contains_key(name),
        forall|t: int| i < t < scopes.len() ==> !(#[trigger] scopes[t]).contains_key(name),
    ensures
        lookup_scopes(scopes, name) == Some(scopes[i][name]),
    decreases scopes.len(),
{
    if i < scopes.len() - 1 {
        lemma_lookup_scopes_at(scopes.drop_last(), name, i);
    }
}

/// When scope `i` binds the name and no scope inside it does, assignment
/// updates exactly scope `i`.
proof fn lemma_assign_scopes_at(
    scopes: Seq<Map<Seq<char>, ValueV>>,
    name: Seq<char>,
    v: ValueV,
    i: int,
)
    requires
        0 <= i < scopes.len(),
        scopes[i].contains_key(name),
        forall|t: int| i < t < scopes.len() ==> !(#[trigger] scopes[t]).contains_key(name),
    ensures
        assign_scopes(scopes, name, v) == scopes.update(i, scopes[i].insert(name, v)),
    decreases scopes.len(),
{
    if i == scopes.len() - 1 {
        assert(assign_scopes(scopes, name, v) =~= scopes.update(i, scopes[i].insert(name, v)));
    } else {
        lemma_assign_scopes_at(scopes.drop_last(), name, v, i);
        assert(assign_scopes(scopes, name, v) =~= scopes.update(i, scopes[i].insert(name, v)));
    }
}

/// A name no scope binds leaves assignment with nothing to change.
proof fn lemma_assign_scopes_absent(
    scopes: Seq<Map<Seq<char>, ValueV>>,
    name: Seq<char>,
    v: ValueV,
)
    requires
        forall|t: int| 0 <= t < scopes.len() ==> !(#[trigger] scopes[t]).contains_key(name),
    ensures
        assign_scopes(scopes, name, v) == scopes,
    decreases scopes.len(),
{
    if scopes.len() > 0 {
        lemma_assign_scopes_absent(scopes.drop_last(), name, v);
        assert(assign_scopes(scopes, name, v) =~= scopes);
    }
}

impl Environment {
    /// Every scope binds each name at most once.
    pub closed spec fn scopes_distinct(&self) -> bool {
        forall|i: int| 0 <= i < self.scopes@.len() ==> scope_wf((#[trigger] self.scopes@[i])@)
    }

    /// The store is well formed: the global scope is always there, and
    /// every scope binds each name at most once.
    pub open spec fn wf(&self) -> bool {
        &&& self@.len() >= 1
        &&& self.scopes_distinct()
    }

    /// A store with one empty global scope.
    pub fn new() -> (r: Self)
        ensures
            r.wf(),
            r@ == seq![Map::<Seq<char>, ValueV>::empty()],
    {
        let mut scopes: Vec<Vec<(String, Value)>> = Vec::new();
        scopes.push(Vec::new());
        let r = Environment { scopes };
        proof {
            assert(r@ =~= seq![Map::<Seq<char>, ValueV>::empty()]);
        }
        r
    }

    /// A store whose innermost scope is new and empty and whose outer
    /// scopes are those of `enclosing`.
    pub fn with_enclosing(enclosing: Environment) -> (r: Self)
        ensures
            r@ == enclosing@.push(Map::<Seq<char>, ValueV>::empty()),
            enclosing.wf() ==> r.wf(),
    {
        let ghost e0 = enclosing@;
        let mut r = enclosing;
        r.scopes.push(Vec::new());
        proof {
            assert(r@ =~= e0.push(Map::<Seq<char>, ValueV>::empty()));
        }
        r
    }

    /// Opens one child scope.
    pub fn push_scope(&mut self)
        ensures
            final(self)@ == old(self)@.push(Map::<Seq<char>, ValueV>::empty()),
            old(self).wf() ==> final(self).wf(),
    {
        self.scopes.push(Vec::new());
        proof {
            assert(self@ =~= old(self)@.push(Map::<Seq<char>, ValueV>::empty()));
        }
    }

    /// Discards the innermost scope.
    pub fn pop_scope(&mut self)
        requires
            old(self)@.len() >= 2,
        ensures
            final(self)@ == old(self)@.drop_last(),
            old(self).wf() ==> final(self).wf(),
    {
        let _ = self.scopes.pop();
        proof {
            assert(self@ =~= old(self)@.drop_last());
        }
    }

    /// Binds `key` in the innermost scope, shadowing any binding further
    /// out, and hands back the value this scope held for the name before.
    pub fn define(&mut self, key: String, value: Value) -> (r: Option<Value>)
        requires
            old(self).wf(),
        ensures
            final(self).wf(),
            final(self)@.len() == old(self)@.len(),
            final(self)@ == define_scopes(old(self)@, key@, value@),
            match r {
                Some(v) => old(self)@.last().contains_key(key@) && v@ == old(self)@.last()[key@],
                None => !old(self)@.last().contains_key(key@),
            },
    {
        let ghost scopes0 = self@;
        let ghost key0 = key@;
        let ghost value0 = value@;
        let mut scope = self.scopes.pop().unwrap();
        let ghost s0 = scope@;
        let ghost outer = self.scopes@;
        proof {
            assert(scope_wf(s0));
            assert(scopes0.last() == scope_map(s0));
        }
        let n = scope.len();
        let mut j: usize = 0;
        while j < n
            invariant
                n == scope@.len(),
                j <= n,
                scope@ == s0,
                self.scopes@ == outer,
                forall|t: int| 0 <= t < j ==> (#[trigger] s0[t]).0@ != key0,
            decreases n - j,
        {
            if scope[j].0 == key {
                let (k0, old_v) = scope.remove(j);
                scope.insert(j, (k0, value));
                self.scopes.push(scope);
                proof {
                    let ju = j as int;
                    assert(self.scopes@.last()@ =~= s0.update(ju, (s0[ju].0, value)));
                    lemma_scope_map_update(s0, ju, (s0[ju].0, value));
                    lemma_scope_map_found(s0, ju);
                    assert(self@ =~= define_scopes(scopes0, key0, value0));
                }
                return Some(old_v);
            }
            j += 1;
        }
        proof {
            lemma_scope_map_absent(s0, key0);
        }
        scope.push((key, value));
        self.scopes.push(scope);
        proof {
            lemma_scope_map_push(s0, (key, value));
            assert(self.scopes@.last()@ == s0.push((key, value)));
            assert(self@ =~= define_scopes(scopes0, key0, value0));
        }
        None
    }

    /// Overwrites the nearest existing binding of `key`, searching from
    /// the innermost scope outwards; a name no reachable scope binds is
    /// left unbound and `None` says so. Assignment never creates a
    /// binding.
    pub fn push(&mut self, key: String, value: Value) -> (r: Option<Value>)
        requires
            old(self).wf(),
        ensures
            final(self).wf(),
            final(self)@.len() == old(self)@.len(),
            final(self)@ == assign_scopes(old(self)@, key@, value@),
            match r {
                Some(v) => lookup_scopes(old(self)@, key@) == Some(v@),
                None => lookup_scopes(old(self)@, key@) is None,
            },
    {
        let ghost scopes0 = self@;
        let ghost key0 = key@;
        let ghost value0 = value@;
        let mut si = self.scopes.len();
        while si > 0
            invariant
                old(self).wf(),
                self@ == scopes0,
                self.wf(),
                si <= self@.len(),
                scopes0 == old(self)@,
                key0 == key@,
                value0 == value@,
                forall|t: int| si <= t < scopes0.len() ==> !(#[trigger] scopes0[t]).contains_key(
                    key0,
                ),
            decreases si,
        {
            si -= 1;
            let n = self.scopes[si].len();
            let mut j: usize = 0;
            let mut hit: Option<usize> = None;
            while j < n
                invariant
                    self@ == scopes0,
                    si < self@.len(),
                    n == self.scopes@[si as int]@.len(),
                    j <= n,
                    match hit {
                        Some(h) => h < n && self.scopes@[si as int]@[h as int].0@ == key0,
                        None => forall|t: int|
                            0 <= t < j ==> (#[trigger] self.scopes@[si as int]@[t]).0@ != key0,
                    },
                    key0 == key@,
                decreases n - j,
            {
                if hit.is_none() {
                    if self.scopes[si][j].0 == key {
                        hit = Some(j);
                    }
                }
                j += 1;
            }
            match hit {
                Some(h) => {
                    let mut found_scope = self.scopes.remove(si);
                    let ghost s0 = found_scope@;
                    let (k0, old_v) = found_scope.remove(h);
                    found_scope.insert(h, (k0, value));
                    self.scopes.insert(si, found_scope);
                    proof {
                        let hu = h as int;
                        let siu = si as int;
                        assert(self.scopes@[siu]@ =~= s0.update(hu, (s0[hu].0, value)));
                        lemma_scope_map_update(s0, hu, (s0[hu].0, value));
                        lemma_scope_map_found(s0, hu);
                        lemma_lookup_scopes_at(scopes0, key0, siu);
                        lemma_assign_scopes_at(scopes0, key0, value0, siu);
                        assert(self@ =~= scopes0.update(
                            siu,
                            scopes0[siu].insert(key0, value0),
                        ));
                    }
                    return Some(old_v);
                },
                None => {
                    proof {
                        lemma_scope_map_absent(self.scopes@[si as int]@, key0);
                    }
                },
            }
        }
        proof {
            lemma_assign_scopes_absent(scopes0, key0, value0);
            lemma_lookup_scopes_absent(scopes0, key0);
        }
        None
    }

    /// The value bound to `key` in the nearest scope that binds it.
    pub fn get(&self, key: &String) -> (r: Option<&Value>)
        requires
            self.wf(),
        ensures
            match r {
                Some(v) => lookup_scopes(self@, key@) == Some(v@),
                None => lookup_scopes(self@, key@) is None,
            },
    {
        let mut si = self.scopes.len();
        while si > 0
            invariant
                self.wf(),
                si <= self@.len(),
                forall|t: int| si <= t < self@.len() ==> !(#[trigger] self@[t]).contains_key(
                    key@,
                ),
            decreases si,
        {
            si -= 1;
            let scope = &self.scopes[si];
            let n = scope.len();
            let mut j: usize = 0;
            while j < n
                invariant
                    self.wf(),
                    si < self@.len(),
                    scope == &self.scopes@[si as int],
                    n == scope@.len(),
                    j <= n,
                    forall|t: int| 0 <= t < j ==> (#[trigger] scope@[t]).0@ != key@,
                decreases n - j,
            {
                if scope[j].0 == *key {
                    proof {
                        lemma_scope_map_found(scope@, j as int);
                        lemma_lookup_scopes_at(self@, key@, si as int);
                    }
                    return Some(&scope[j].1);
                }
                j += 1;
            }
            proof {
                lemma_scope_map_absent(scope@, key@);
            }
        }
        proof {
            lemma_lookup_scopes_absent(self@, key@);
        }
        None
    }
}

} // verus!

verus! {

/// Entrywise equal views make equal scope maps, and keep distinctness.
proof fn lemma_scope_map_congruent(a: Seq<(String, Value)>, b: Seq<(String, Value)>)
    requires
        a.len() == b.len(),
        forall|i: int| 0 <= i < a.len() ==> (#[trigger] b[i]).0@ == a[i].0@ && b[i].1@ == a[i].1@,
    ensures
        scope_map(b) == scope_map(a),
        scope_wf(a) ==> scope_wf(b),
    decreases a.len(),
{
    if a.len() > 0 {
        lemma_scope_map_congruent(a.drop_last(), b.drop_last());
        assert(scope_map(b) =~= scope_map(a));
    }
}

/// Clones one scope, entry by entry, preserving every entry's view.
fn clone_scope(s: &Vec<(String, Value)>) -> (r: Vec<(String, Value)>)
    ensures
        scope_map(r@) == scope_map(s@),
        scope_wf(s@) ==> scope_wf(r@),
{
    let mut r: Vec<(String, Value)> = Vec::new();
    let n = s.len();
    let mut i: usize = 0;
    while i < n
        invariant
            n == s@.len(),
            i <= n,
            r@.len() == i,
            forall|t: int|
                0 <= t < i ==> (#[trigger] r@[t]).0@ == s@[t].0@ && r@[t].1@ == s@[t].1@,
        decreases n - i,
    {
        let name = s[i].0.clone();
        let value = s[i].1.clone();
        r.push((name, value));
        i += 1;
    }
    proof {
        lemma_scope_map_congruent(s@, r@);
    }
    r
}

impl Clone for Environment {
    /// A copy of the store with the same view as the original.
    fn clone(&self) -> (r: Self)
        ensures
            r@ == self@,
            self.wf() ==> r.wf(),
    {
        let mut scopes: Vec<Vec<(String, Value)>> = Vec::new();
        let n = self.scopes.len();
        let mut i: usize = 0;
        while i < n
            invariant
                n == self.scopes@.len(),
                i <= n,
                scopes@.len() == i,
                forall|t: int|
                    0 <= t < i ==> scope_map((#[trigger] scopes@[t])@) == scope_map(
                        self.scopes@[t]@,
                    ),
                forall|t: int|
                    0 <= t < i ==> (scope_wf(self.scopes@[t]@) ==> scope_wf(
                        (#[trigger] scopes@[t])@,
                    )),
            decreases n - i,
        {
            let sc = clone_scope(&self.scopes[i]);
            scopes.push(sc);
            i += 1;
        }
        let r = Environment { scopes };
        proof {
            assert(r@ =~= self@);
        }
        r
    }
}

} // verus!

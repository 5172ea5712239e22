//! Environments: a tree of scopes rooted at the global scope, held in one
//! arena. Each scope maps names to values and optionally points at an
//! outer scope with a smaller index, so lookup chains always terminate.
//! Function calls extend the scope a function value captured — not the
//! caller's — which realizes lexical scoping.

use vstd::prelude::*;
use crate::object::{ObjV, Object, object_view};
use crate::text::str_eq;

verus! {

/// One scope: its local bindings and the index of its outer scope, if any.
#[derive(Debug)]
pub struct Scope {
    pub bindings: Vec<(String, Object)>,
    pub outer: Option<usize>,
}

/// Mathematical model of a scope: a finite map from names to values and
/// the optional outer index.
pub ghost struct ScopeV {
    pub bindings: Map<Seq<char>, ObjV>,
    pub outer: Option<int>,
}

/// Whether some binding of `s` has the name `k`.
pub open spec fn bindings_has(s: Seq<(String, Object)>, k: Seq<char>) -> bool {
    exists|i: int| 0 <= i < s.len() && s[i].0@ == k
}

/// The index of the binding named `k`; meaningful only when names are
/// distinct and `k` is bound.
pub open spec fn bindings_index(s: Seq<(String, Object)>, k: Seq<char>) -> int {
    choose|i: int| 0 <= i < s.len() && s[i].0@ == k
}

/// The map a binding list denotes.
pub open spec fn bindings_map(s: Seq<(String, Object)>) -> Map<Seq<char>, ObjV> {
    Map::new(|k: Seq<char>| bindings_has(s, k), |k: Seq<char>| object_view(s[bindings_index(s, k)].1))
}

/// Names within one scope are pairwise distinct.
pub open spec fn bindings_unique(s: Seq<(String, Object)>) -> bool {
    forall|i: int, j: int| 0 <= i < j < s.len() ==> (#[trigger] s[i]).0@ != (#[trigger] s[j]).0@
}

impl View for Scope {
    type V = ScopeV;

    open spec fn view(&self) -> ScopeV {
        ScopeV {
            bindings: bindings_map(self.bindings@),
            outer: match self.outer {
                Some(j) => Some(j as int),
                None => None,
            },
        }
    }
}

/// The scope tree. Scope 0 is the global scope.
#[derive(Debug)]
pub struct Environment {
    pub scopes: Vec<Scope>,
}

/// The models of a sequence of scopes, in order.
pub open spec fn scopes_view(s: Seq<Scope>) -> Seq<ScopeV>
    decreases s.len(),
{
    if s.len() == 0 {
        Seq::empty()
    } else {
        scopes_view(s.subrange(0, s.len() - 1)).push(s[s.len() - 1]@)
    }
}

/// `scopes_view` maps the sequence elementwise.
pub broadcast proof fn lemma_scopes_view(s: Seq<Scope>)
    ensures
        (#[trigger] scopes_view(s)).len() == s.len(),
        forall|i: int| 0 <= i < s.len() ==> scopes_view(s)[i] == s[i]@,
    decreases s.len(),
{
    if s.len() > 0 {
        lemma_scopes_view(s.subrange(0, s.len() - 1));
    }
}

impl View for Environment {
    type V = Seq<ScopeV>;

    open spec fn view(&self) -> Seq<ScopeV> {
        scopes_view(self.scopes@)
    }
}

/// Every scope's outer link points strictly downward.
pub open spec fn env_wf(env: Seq<ScopeV>) -> bool {
    forall|i: int|
        0 <= i < env.len() ==> ((#[trigger] env[i]).outer matches Some(j) ==> 0 <= j < i)
}

/// The value bound to `name`, looked up along the scope chain from
/// `scope`: the nearest scope that binds the name wins.
pub open spec fn env_lookup(env: Seq<ScopeV>, scope: int, name: Seq<char>) -> Option<ObjV>
    decreases scope,
    when 0 <= scope < env.len() && env_wf(env)
{
    if env[scope].bindings.dom().contains(name) {
        Some(env[scope].bindings[name])
    } else {
        match env[scope].outer {
            Some(j) => env_lookup(env, j, name),
            None => None,
        }
    }
}

impl Environment {
    /// Representation invariant: names distinct within each scope and
    /// outer links strictly downward.
    pub open spec fn wf(&self) -> bool {
        forall|i: int|
            0 <= i < self.scopes@.len() ==> {
                &&& bindings_unique((#[trigger] self.scopes@[i]).bindings@)
                &&& (self.scopes@[i].outer matches Some(j) ==> j < i)
            }
    }

    /// An environment with one empty global scope and no outer reference.
    pub fn new() -> (e: Environment)
        ensures
            e.wf(),
            env_wf(e@),
            e@ =~= seq![
                ScopeV { bindings: Map::<Seq<char>, ObjV>::empty(), outer: None::<int> },
            ],
    {
        broadcast use lemma_scopes_view;

        let mut scopes: Vec<Scope> = Vec::new();
        scopes.push(Scope { bindings: Vec::new(), outer: None });
        let e = Environment { scopes };
        proof {
            assert(e@[0].bindings =~= Map::<Seq<char>, ObjV>::empty());
        }
        e
    }

    /// The number of scopes.
    pub fn len(&self) -> (n: usize)
        ensures
            n == self@.len(),
    {
        broadcast use lemma_scopes_view;

        self.scopes.len()
    }

    /// A new empty scope extending the scope `outer`; returns its index.
    pub fn new_extended(&mut self, outer: usize) -> (id: usize)
        requires
            old(self).wf(),
            outer < old(self)@.len(),
        ensures
            final(self).wf(),
            env_wf(old(self)@) ==> env_wf(final(self)@),
            id == old(self)@.len(),
            final(self)@ =~= old(self)@.push(
                ScopeV { bindings: Map::<Seq<char>, ObjV>::empty(), outer: Some(outer as int) },
            ),
    {
        broadcast use lemma_scopes_view;

        let id = self.scopes.len();
        self.scopes.push(Scope { bindings: Vec::new(), outer: Some(outer) });
        proof {
            assert(self.scopes@.subrange(0, self.scopes@.len() - 1) =~= old(self).scopes@);
            assert(self@[id as int].bindings =~= Map::<Seq<char>, ObjV>::empty());
            assert(self@ =~= old(self)@.push(self@[id as int]));
        }
        id
    }

    /// The value bound to `name`, starting at scope `scope` and following
    /// outer links; `None` when no scope on the chain binds it.
    #[verifier::loop_isolation(false)]
    pub fn get(&self, scope: usize, name: &str) -> (r: Option<Object>)
        requires
            self.wf(),
            scope < self@.len(),
        ensures
            (match r {
                Some(o) => Some(o@),
                None => None::<ObjV>,
            }) == env_lookup(self@, scope as int, name@),
    {
        broadcast use lemma_scopes_view;

        proof {
            assert(env_wf(self@));
        }
        let mut cur: usize = scope;
        loop
            invariant
                self.wf(),
                cur < self@.len(),
                env_lookup(self@, cur as int, name@) == env_lookup(self@, scope as int, name@),
            decreases cur,
        {
            let sc = &self.scopes[cur];
            let n = sc.bindings.len();
            let mut i: usize = 0;
            while i < n
                invariant
                    n == sc.bindings@.len(),
                    i <= n,
                    forall|j: int| 0 <= j < i ==> (#[trigger] sc.bindings@[j]).0@ != name@,
                decreases n - i,
            {
                if str_eq(name, sc.bindings[i].0.as_str()) {
                    let r = Some(sc.bindings[i].1.clone());
                    proof {
                        assert(bindings_unique(sc.bindings@));
                        assert(bindings_has(sc.bindings@, name@));
                        let j = bindings_index(sc.bindings@, name@);
                        assert(0 <= j < sc.bindings@.len() && sc.bindings@[j].0@ == name@);
                        assert(j == i as int);
                        assert(env_lookup(self@, cur as int, name@) == Some(
                            sc.bindings@[i as int].1@,
                        ));
                    }
                    return r;
                }
                i = i + 1;
            }
            proof {
                assert(!bindings_has(sc.bindings@, name@));
                assert(!self@[cur as int].bindings.dom().contains(name@));
            }
            match sc.outer {
                Some(j) => {
                    proof {
                        assert(env_lookup(self@, cur as int, name@) == env_lookup(
                            self@,
                            j as int,
                            name@,
                        ));
                    }
                    cur = j;
                },
                None => {
                    return None;
                },
            }
        }
    }

    /// Binds `name` to `v` in scope `scope` only, returning the value the
    /// name was previously bound to there, if any.
    pub fn insert(&mut self, scope: usize, name: String, v: Object) -> (prev: Option<Object>)
        requires
            old(self).wf(),
            scope < old(self)@.len(),
        ensures
            final(self).wf(),
            final(self)@ =~= old(self)@.update(
                scope as int,
                ScopeV {
                    bindings: old(self)@[scope as int].bindings.insert(name@, v@),
                    outer: old(self)@[scope as int].outer,
                },
            ),
            (match prev {
                Some(p) => old(self)@[scope as int].bindings.dom().contains(name@) && p@ == old(
                    self,
                )@[scope as int].bindings[name@],
                None => !old(self)@[scope as int].bindings.dom().contains(name@),
            }),
    {
        broadcast use lemma_scopes_view;

        let ghost old_scopes = self.scopes@;
        let mut sc = self.scopes.remove(scope);
        let ghost s = sc.bindings@;
        let ghost old_outer = sc.outer;
        let n = sc.bindings.len();
        let mut idx: usize = 0;
        let mut found: bool = false;
        while idx < n && !found
            invariant
                n == sc.bindings@.len(),
                sc.bindings@ == s,
                idx <= n,
                !found ==> forall|j: int| 0 <= j < idx ==> (#[trigger] s[j]).0@ != name@,
                found ==> idx < n && s[idx as int].0@ == name@,
            decreases n - idx, (if found { 0int } else { 1int }),
        {
            if str_eq(name.as_str(), sc.bindings[idx].0.as_str()) {
                found = true;
            } else {
                idx = idx + 1;
            }
        }
        let prev: Option<Object>;
        if found {
            let (_old_name, old_v) = sc.bindings.remove(idx);
            sc.bindings.push((name, v));
            prev = Some(old_v);
        } else {
            sc.bindings.push((name, v));
            prev = None;
        }
        proof {
            assert(bindings_unique(s));
            lemma_insert_bindings(s, sc.bindings@, idx as int, found);
        }
        self.scopes.insert(scope, sc);
        proof {
            assert(self.scopes@ =~= old_scopes.update(scope as int, self.scopes@[scope as int]));
            assert(self@ =~= old(self)@.update(
                scope as int,
                ScopeV {
                    bindings: old(self)@[scope as int].bindings.insert(name@, v@),
                    outer: old(self)@[scope as int].outer,
                },
            ));
        }
        prev
    }
}

/// After removing any old binding of a name and pushing a new pair with
/// that name, the denoted map is the old map with the name rebound, and
/// names stay pairwise distinct.
proof fn lemma_insert_bindings(
    s: Seq<(String, Object)>,
    t: Seq<(String, Object)>,
    idx: int,
    found: bool,
)
    requires
        bindings_unique(s),
        t.len() >= 1,
        found ==> 0 <= idx < s.len() && s[idx].0@ == t[t.len() - 1].0@ && t =~= s.remove(
            idx,
        ).push(t.last()),
        !found ==> t =~= s.push(t.last()) && !bindings_has(s, t[t.len() - 1].0@),
    ensures
        bindings_unique(t),
        bindings_map(t) =~= bindings_map(s).insert(t[t.len() - 1].0@, object_view(
            t[t.len() - 1].1,
        )),
        found ==> bindings_has(s, t[t.len() - 1].0@) && bindings_map(s)[t[t.len() - 1].0@]
            == object_view(s[idx].1),
        !found ==> !bindings_map(s).dom().contains(t[t.len() - 1].0@),
{
    let len = t.len() as int;
    let name = t[len - 1].0@;
    let vv = object_view(t[len - 1].1);
    if found {
        s.remove_ensures(idx);
        assert(len == s.len());
        assert(forall|j: int| 0 <= j < idx ==> #[trigger] t[j] == s[j]);
        assert(forall|j: int| idx <= j < len - 1 ==> #[trigger] t[j] == s[j + 1]);
        assert forall|a: int, b: int| 0 <= a < b < len implies (#[trigger] t[a]).0@ != (
        #[trigger] t[b]).0@ by {
            let sa = if a < idx { a } else { a + 1 };
            if b == len - 1 {
                assert(t[a] == s[sa]);
                if sa != idx {
                    assert(s[sa].0@ != s[idx].0@);
                }
            } else {
                let sb = if b < idx { b } else { b + 1 };
                assert(t[a] == s[sa] && t[b] == s[sb]);
                assert(sa < sb);
            }
        }
        assert(bindings_has(s, name)) by {
            assert(s[idx].0@ == name);
        }
        assert(bindings_map(s)[name] == object_view(s[idx].1)) by {
            let j = bindings_index(s, name);
            assert(0 <= j < s.len() && s[j].0@ == name);
            assert(j == idx);
        }
    } else {
        assert(len == s.len() + 1);
        assert(forall|j: int| 0 <= j < len - 1 ==> #[trigger] t[j] == s[j]);
        assert forall|a: int, b: int| 0 <= a < b < len implies (#[trigger] t[a]).0@ != (
        #[trigger] t[b]).0@ by {
            if b == len - 1 {
                assert(t[a] == s[a]);
                assert(!(s[a].0@ == name)) by {
                    if s[a].0@ == name {
                        assert(bindings_has(s, name));
                    }
                }
            }
        }
    }
    let m1 = bindings_map(t);
    let m2 = bindings_map(s).insert(name, vv);
    assert forall|k: Seq<char>| #[trigger] m1.dom().contains(k) implies m2.dom().contains(k)
        && m1[k] == m2[k] by {
        let i = bindings_index(t, k);
        assert(0 <= i < t.len() && t[i].0@ == k) by {
            assert(bindings_has(t, k));
        }
        if k == name {
            assert(i == len - 1);
            assert(m1[k] == vv);
        } else {
            assert(i < len - 1);
            if found {
                let si = if i < idx { i } else { i + 1 };
                assert(t[i] == s[si]);
                assert(bindings_has(s, k)) by {
                    assert(s[si].0@ == k);
                }
                let j = bindings_index(s, k);
                assert(0 <= j < s.len() && s[j].0@ == k);
                assert(j == si);
                assert(m1[k] == object_view(t[i].1));
                assert(m2[k] == object_view(s[si].1));
            } else {
                assert(t[i] == s[i]);
                assert(bindings_has(s, k)) by {
                    assert(s[i].0@ == k);
                }
                let j = bindings_index(s, k);
                assert(0 <= j < s.len() && s[j].0@ == k);
                assert(j == i);
            }
        }
    }
    assert forall|k: Seq<char>| #[trigger] m2.dom().contains(k) implies m1.dom().contains(k) by {
        if k == name {
            assert(t[len - 1].0@ == k);
            assert(bindings_has(t, k));
        } else {
            assert(bindings_map(s).dom().contains(k));
            assert(bindings_has(s, k));
            let j = bindings_index(s, k);
            assert(0 <= j < s.len() && s[j].0@ == k);
            if found {
                assert(j != idx);
                let ti = if j < idx { j } else { j - 1 };
                assert(t[ti] == s[j]);
                assert(bindings_has(t, k));
            } else {
                assert(t[j] == s[j]);
                assert(bindings_has(t, k));
            }
        }
    }
    assert(m1 =~= m2);
}

} // verus!

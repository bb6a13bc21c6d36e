//! The environment: a name-to-value mapping per scope, with outward
//! chaining. All scopes live in one arena owned by the interpreter; a
//! scope is identified by its index, and each scope except the global one
//! links to the enclosing scope it was created under. Lookup walks
//! outward; insertion always lands in the named scope.

use vstd::prelude::*;

use crate::object::{Object, ObjectModel, view_object};

verus! {

/// Mathematical image of one scope: its bindings and its enclosing scope.
pub struct ScopeModel {
    pub variables: Map<Seq<char>, ObjectModel>,
    pub outer: Option<int>,
}

/// One scope record: its enclosing scope, and how many bindings the arena
/// held when the scope was created (bindings of this scope can only come
/// after that point).
struct Scope {
    outer: Option<usize>,
    start: usize,
}

/// The arena of scopes. Scope `0` is the global scope; every other scope
/// was created under an enclosing scope with a smaller index. Bindings of
/// all scopes live in one insertion-ordered list, each tagged with its
/// scope.
pub struct Enviroment {
    scopes: Vec<Scope>,
    bindings: Vec<(usize, String, Object)>,
}

/// The bindings tagged with scope `j`: later entries for the same name
/// shadow earlier ones.
pub open spec fn bindings_map(bs: Seq<(usize, String, Object)>, j: int) -> Map<
    Seq<char>,
    ObjectModel,
>
    decreases bs,
{
    if bs.len() == 0 {
        Map::empty()
    } else {
        let m = bindings_map(bs.drop_last(), j);
        if bs.last().0 == j {
            m.insert(bs.last().1@, view_object(bs.last().2))
        } else {
            m
        }
    }
}

impl View for Enviroment {
    type V = Seq<ScopeModel>;

    closed spec fn view(&self) -> Seq<ScopeModel> {
        let bs = self.bindings@;
        let scopes = self.scopes@;
        Seq::new(
            scopes.len(),
            |j: int|
                ScopeModel {
                    variables: bindings_map(
                        bs.skip(
                            if scopes[j].start as int <= bs.len() {
                                scopes[j].start as int
                            } else {
                                bs.len() as int
                            },
                        ),
                        j,
                    ),
                    outer: match scopes[j].outer {
                        Some(o) => Some(o as int),
                        None => None,
                    },
                },
        )
    }
}

/// Scopes only ever link outward to scopes created before them; the
/// global scope links nowhere.
pub open spec fn env_wf(env: Seq<ScopeModel>) -> bool {
    &&& env.len() >= 1
    &&& env[0].outer is None
    &&& forall|j: int|
        #![trigger env[j]]
        0 <= j < env.len() ==> match env[j].outer {
            Some(o) => 0 <= o < j,
            None => true,
        }
}

/// The value bound to `name`, looked up in `scope` and then outward along
/// the scope chain.
pub open spec fn lookup(env: Seq<ScopeModel>, scope: int, name: Seq<char>) -> Option<ObjectModel>
    decreases scope,
{
    if !(0 <= scope < env.len()) {
        None
    } else if env[scope].variables.contains_key(name) {
        Some(env[scope].variables[name])
    } else {
        match env[scope].outer {
            Some(o) => if 0 <= o < scope {
                lookup(env, o, name)
            } else {
                None
            },
            None => None,
        }
    }
}

impl Enviroment {
    /// Every scope's starting point lies within the binding list: no
    /// scope was created after the bindings that follow it.
    pub closed spec fn inv(&self) -> bool {
        forall|j: int|
            0 <= j < self.scopes@.len() ==> (#[trigger] self.scopes@[j].start as int)
                <= self.bindings@.len()
    }

    /// A fresh arena holding only the empty global scope.
    pub fn new() -> (env: Enviroment)
        ensures
            env.inv(),
            env@.len() == 1,
            env@[0].variables == Map::<Seq<char>, ObjectModel>::empty(),
            env@[0].outer is None,
            env_wf(env@),
    {
        let env = Enviroment { scopes: vec![Scope { outer: None, start: 0 }], bindings: Vec::new() };
        proof {
            assert(env.bindings@.skip(0) =~= env.bindings@);
        }
        env
    }

    /// How many scopes the arena holds.
    pub fn scope_count(&self) -> (n: usize)
        ensures
            n == self@.len(),
    {
        self.scopes.len()
    }

    /// A new, empty scope enclosed by `outer`; its index is returned.
    pub fn push_scope(&mut self, outer: usize) -> (id: usize)
        requires
            old(self).inv(),
            outer < old(self)@.len(),
        ensures
            final(self).inv(),
            id == old(self)@.len(),
            final(self)@.len() == old(self)@.len() + 1,
            forall|j: int| 0 <= j < old(self)@.len() ==> final(self)@[j] == old(self)@[j],
            final(self)@[id as int].variables == Map::<Seq<char>, ObjectModel>::empty(),
            final(self)@[id as int].outer == Some(outer as int),
            env_wf(old(self)@) ==> env_wf(final(self)@),
    {
        let id = self.scopes.len();
        let start = self.bindings.len();
        self.scopes.push(Scope { outer: Some(outer), start });
        proof {
            let bs = self.bindings@;
            assert(bs.skip(bs.len() as int) =~= Seq::<(usize, String, Object)>::empty());
            assert(forall|j: int| 0 <= j < old(self)@.len() ==> final(self)@[j] == old(self)@[j]);
        }
        id
    }

    /// Bind `key` to `value` in scope `scope`, shadowing any same-named
    /// binding there; other scopes are untouched.
    pub fn insert(&mut self, scope: usize, key: String, value: Object)
        requires
            old(self).inv(),
            scope < old(self)@.len(),
        ensures
            final(self).inv(),
            final(self)@.len() == old(self)@.len(),
            forall|j: int|
                0 <= j < old(self)@.len() && j != scope ==> final(self)@[j] == old(self)@[j],
            final(self)@[scope as int].variables == old(self)@[scope as int].variables.insert(
                key@,
                value@,
            ),
            final(self)@[scope as int].outer == old(self)@[scope as int].outer,
            env_wf(old(self)@) ==> env_wf(final(self)@),
    {
        let ghost bs = self.bindings@;
        self.bindings.push((scope, key, value));
        proof {
            assert forall|j: int, c: int| 0 <= c <= bs.len() implies bindings_map(
                self.bindings@.skip(c),
                j,
            ) == (if j == scope {
                bindings_map(bs.skip(c), j).insert(self.bindings@.last().1@, view_object(
                    self.bindings@.last().2,
                ))
            } else {
                bindings_map(bs.skip(c), j)
            }) by {
                assert(self.bindings@.skip(c).drop_last() =~= bs.skip(c));
                assert(self.bindings@.skip(c).last() == self.bindings@.last());
            }
            assert(forall|j: int|
                0 <= j < old(self)@.len() && j != scope ==> final(self)@[j] == old(self)@[j]);
        }
    }

    /// The value bound to `key`, looked up in `scope` and then outward
    /// along the scope chain; absent when no scope on the chain binds it.
    pub fn get(&self, scope: usize, key: &String) -> (r: Option<Object>)
        requires
            self.inv(),
            scope < self@.len(),
        ensures
            match lookup(self@, scope as int, key@) {
                Some(v) => r matches Some(o) && o@ == v,
                None => r is None,
            },
    {
        let mut cur = scope;
        loop
            invariant
                self.inv(),
                cur < self@.len(),
                lookup(self@, scope as int, key@) == lookup(self@, cur as int, key@),
            decreases cur,
        {
            let found = self.get_in_scope(cur, key);
            match found {
                Some(o) => {
                    return Some(o);
                },
                None => {
                    match self.outer_of(cur) {
                        Some(o) => {
                            if o < cur {
                                cur = o;
                            } else {
                                return None;
                            }
                        },
                        None => {
                            return None;
                        },
                    }
                },
            }
        }
    }

    /// The enclosing scope of `scope`, if it has one.
    fn outer_of(&self, scope: usize) -> (r: Option<usize>)
        requires
            scope < self@.len(),
        ensures
            match self@[scope as int].outer {
                Some(o) => r matches Some(u) && u as int == o,
                None => r is None,
            },
    {
        self.scopes[scope].outer
    }

    /// The value bound to `key` in scope `scope` itself, ignoring the
    /// chain.
    fn get_in_scope(&self, scope: usize, key: &String) -> (r: Option<Object>)
        requires
            self.inv(),
            scope < self@.len(),
        ensures
            match r {
                Some(o) => self@[scope as int].variables.contains_key(key@)
                    && o@ == self@[scope as int].variables[key@],
                None => !self@[scope as int].variables.contains_key(key@),
            },
    {
        let ghost bs = self.bindings@;
        let n = self.bindings.len();
        let mut start = self.scopes[scope].start;
        if start > n {
            start = n;
        }
        let ghost c = start as int;
        let ghost tail = bs.skip(c);
        let ghost target = bindings_map(tail, scope as int);
        proof {
            assert(self@[scope as int].variables == target);
        }
        proof {
            assert(bs.skip(c).take(n - c) =~= tail);
        }
        let mut i = n;
        while i > start
            invariant
                c <= i <= bs.len(),
                start == c,
                n == bs.len(),
                bs == self.bindings@,
                tail == bs.skip(c),
                target == bindings_map(tail, scope as int),
                scope < self@.len(),
                self@[scope as int].variables == target,
                bindings_map(bs.skip(c).take(i - c), scope as int).contains_key(key@)
                    == target.contains_key(key@),
                target.contains_key(key@) ==> target[key@] == bindings_map(
                    bs.skip(c).take(i - c),
                    scope as int,
                )[key@],
            decreases i,
        {
            let ghost before = tail.take(i - c);
            proof {
                assert(before.drop_last() =~= tail.take(i - 1 - c));
                assert(before.last() == bs[i - 1]);
            }
            i = i - 1;
            let entry_scope = self.bindings[i].0;
            if entry_scope == scope && self.bindings[i].1 == *key {
                return Some(self.bindings[i].2.duplicate());
            }
        }
        proof {
            assert(tail.take(0) =~= Seq::<(usize, String, Object)>::empty());
            assert(tail =~= bs.skip(c).take(bs.len() - c));
        }
        None
    }
}

/// Bind parameter names to argument values, in order; a repeated name
/// keeps the value of its last occurrence.
pub open spec fn params_map(ps: Seq<Seq<char>>, vs: Seq<ObjectModel>) -> Map<Seq<char>, ObjectModel>
    decreases ps,
{
    if ps.len() == 0 || vs.len() == 0 {
        Map::empty()
    } else {
        params_map(ps.drop_last(), vs.drop_last()).insert(ps.last(), vs.last())
    }
}

} // verus!

//! Variable names and the stores that map them to formulas.

use vstd::prelude::*;

use std::sync::Arc;

use crate::expr::{eval_expr, grounded, ExprV, VarsV};
use crate::formulas::{
    spec_eval_outcome, Evaluate, EvaluationError, NoVariableError, RootFormula,
};

verus! {

/// The key a variable store is indexed by: a variable's name.
#[derive(Debug)]
pub struct Variable(pub String);

impl View for Variable {
    type V = Seq<char>;

    open spec fn view(&self) -> Seq<char> {
        self.0@
    }
}

impl Variable {
    /// Creates a new `Variable` with the given name.
    pub fn new(value: &str) -> (r: Self)
        ensures
            r@ == value@,
    {
        Self(value.to_owned())
    }

    /// The variable's name, as text.
    pub fn as_str(&self) -> (r: &str)
        ensures
            r@ == self@,
    {
        self.0.as_str()
    }
}

impl Clone for Variable {
    fn clone(&self) -> (r: Self)
        ensures
            r@ == self@,
    {
        Self(self.0.clone())
    }
}

impl PartialEq for Variable {
    fn eq(&self, other: &Self) -> (r: bool) {
        self.0 == other.0
    }
}

impl vstd::std_specs::cmp::PartialEqSpecImpl for Variable {
    open spec fn obeys_eq_spec() -> bool {
        true
    }

    open spec fn eq_spec(&self, other: &Variable) -> bool {
        self@ == other@
    }
}

/// Read access to a variable store: the store views into a map from
/// name to the stored formula's tree.
pub trait GetVariable {
    /// The map the store holds, as contracts see it.
    spec fn variables(&self) -> VarsV;

    /// Returns a reference to the formula stored under the name, if any.
    fn get(&self, name: &Variable) -> (r: Option<&Arc<RootFormula>>)
        ensures
            match r {
                Some(f) => self.variables().contains_key(name@) && (**f)@
                    == self.variables()[name@],
                None => !self.variables().contains_key(name@),
            },
    ;

}

/// Evaluation of a named variable through a store; every store has it.
pub trait EvaluateVariable: GetVariable + Sized {
    /// Evaluates the named variable, with this store as the context for
    /// the stored formula's own variables.
    fn eval(&self, name: &Variable) -> (r: Result<u64, EvaluationError>)
        requires
            grounded(ExprV::Var(name@), self.variables()),
        ensures
            spec_eval_outcome(r, eval_expr(ExprV::Var(name@), self.variables())),
    ;
}

impl<T: GetVariable> EvaluateVariable for T {
    fn eval(&self, name: &Variable) -> (r: Result<u64, EvaluationError>) {
        match self.get(name) {
            None => Err(EvaluationError::NoVariableError(NoVariableError::new(name.clone()))),
            Some(f) => {
                proof {
                    crate::expr::lemma_eval_expr_var(name@, self.variables());
                }
                let inner: &RootFormula = &**f;
                inner.eval(self)
            },
        }
    }
}

/// Write access to a variable store.
pub trait SetVariable: GetVariable {
    /// Stores a formula under a name, replacing what the name held.
    fn set(&mut self, name: Variable, value: RootFormula)
        ensures
            final(self).variables() == old(self).variables().insert(name@, value@),
    ;
}

/// Removal access to a variable store.
pub trait PopVariable: GetVariable {
    /// Removes the formula stored under a name and hands it out.
    fn pop(&mut self, variable: &Variable) -> (r: Option<Arc<RootFormula>>)
        ensures
            final(self).variables() == old(self).variables().remove(variable@),
            match r {
                Some(f) => old(self).variables().contains_key(variable@) && (*f)@ == old(
                    self,
                ).variables()[variable@],
                None => !old(self).variables().contains_key(variable@),
            },
    ;
}

/// The store that holds no variables.
#[derive(Debug, Clone, Copy)]
pub struct EmptyVariableStore;

impl GetVariable for EmptyVariableStore {
    open spec fn variables(&self) -> VarsV {
        Map::empty()
    }

    fn get(&self, name: &Variable) -> (r: Option<&Arc<RootFormula>>) {
        None
    }
}

impl EmptyVariableStore {
    /// Accepts and drops a binding: the empty store keeps nothing.
    pub fn set(&mut self, name: Variable, value: RootFormula)
        ensures
            final(self).variables() == Map::<Seq<char>, crate::expr::ExprV>::empty(),
    {
    }
}

impl PopVariable for EmptyVariableStore {
    fn pop(&mut self, variable: &Variable) -> (r: Option<Arc<RootFormula>>) {
        proof {
            assert(self.variables() =~= self.variables().remove(variable@));
        }
        None
    }
}

/// The map a list of bindings stands for; an earlier binding wins.
pub open spec fn store_map(es: Seq<(Variable, Arc<RootFormula>)>) -> VarsV
    decreases es,
{
    if es.len() == 0 {
        Map::empty()
    } else {
        store_map(es.drop_first()).insert(es.first().0@, es.first().1@)
    }
}

/// A first matching binding decides what the map holds under its name.
proof fn lemma_store_map_first(es: Seq<(Variable, Arc<RootFormula>)>, n: Seq<char>, i: int)
    requires
        0 <= i < es.len(),
        es[i].0@ == n,
        forall|j: int| 0 <= j < i ==> (#[trigger] es[j]).0@ != n,
    ensures
        store_map(es).contains_key(n),
        store_map(es)[n] == es[i].1@,
    decreases es.len(),
{
    if i > 0 {
        assert forall|j: int| 0 <= j < i - 1 implies (#[trigger] es.drop_first()[j]).0@ != n by {
            assert(es.drop_first()[j] == es[j + 1]);
        }
        assert(es.drop_first()[i - 1] == es[i]);
        lemma_store_map_first(es.drop_first(), n, i - 1);
    }
}

/// A name no binding carries is not in the map.
proof fn lemma_store_map_absent(es: Seq<(Variable, Arc<RootFormula>)>, n: Seq<char>)
    requires
        forall|j: int| 0 <= j < es.len() ==> (#[trigger] es[j]).0@ != n,
    ensures
        !store_map(es).contains_key(n),
    decreases es.len(),
{
    if es.len() > 0 {
        assert forall|j: int| 0 <= j < es.len() - 1 implies (#[trigger] es.drop_first()[j]).0@
            != n by {
            assert(es.drop_first()[j] == es[j + 1]);
        }
        lemma_store_map_absent(es.drop_first(), n);
    }
}

/// Replacing the first binding of a name updates the map under it.
proof fn lemma_store_map_update(
    es: Seq<(Variable, Arc<RootFormula>)>,
    i: int,
    p: (Variable, Arc<RootFormula>),
)
    requires
        0 <= i < es.len(),
        p.0@ == es[i].0@,
        forall|j: int| 0 <= j < i ==> (#[trigger] es[j]).0@ != es[i].0@,
    ensures
        store_map(es.update(i, p)) =~= store_map(es).insert(p.0@, p.1@),
    decreases es.len(),
{
    let n = es[i].0@;
    if i == 0 {
        assert(es.update(0, p).drop_first() =~= es.drop_first());
    } else {
        assert forall|j: int| 0 <= j < i - 1 implies (#[trigger] es.drop_first()[j]).0@
            != es.drop_first()[i - 1].0@ by {
            assert(es.drop_first()[j] == es[j + 1]);
            assert(es.drop_first()[i - 1] == es[i]);
        }
        assert(es.drop_first()[i - 1] == es[i]);
        lemma_store_map_update(es.drop_first(), i - 1, p);
        assert(es.update(i, p).drop_first() =~= es.drop_first().update(i - 1, p));
        assert(es.update(i, p).first() == es.first());
        assert(es[0].0@ != n);
    }
}

/// Appending a binding under a fresh name inserts it into the map.
proof fn lemma_store_map_push(
    es: Seq<(Variable, Arc<RootFormula>)>,
    p: (Variable, Arc<RootFormula>),
)
    requires
        forall|j: int| 0 <= j < es.len() ==> (#[trigger] es[j]).0@ != p.0@,
    ensures
        store_map(es.push(p)) =~= store_map(es).insert(p.0@, p.1@),
    decreases es.len(),
{
    if es.len() == 0 {
        assert(es.push(p).len() == 1);
        assert(es.push(p).drop_first() =~= Seq::<(Variable, Arc<RootFormula>)>::empty());
        assert(es.push(p).first() == p);
        assert(store_map(es.push(p)) == store_map(
            es.push(p).drop_first(),
        ).insert(p.0@, p.1@));
        assert(store_map(Seq::<(Variable, Arc<RootFormula>)>::empty()) == Map::<
            Seq<char>,
            crate::expr::ExprV,
        >::empty());
    } else {
        assert forall|j: int| 0 <= j < es.len() - 1 implies (#[trigger] es.drop_first()[j]).0@
            != p.0@ by {
            assert(es.drop_first()[j] == es[j + 1]);
        }
        lemma_store_map_push(es.drop_first(), p);
        assert(es.push(p).drop_first() =~= es.drop_first().push(p));
        assert(es.push(p).first() == es.first());
        assert(es[0].0@ != p.0@);
    }
}

/// Removing the only binding of a name removes it from the map.
proof fn lemma_store_map_remove(es: Seq<(Variable, Arc<RootFormula>)>, i: int)
    requires
        0 <= i < es.len(),
        forall|j: int| 0 <= j < es.len() && j != i ==> (#[trigger] es[j]).0@ != es[i].0@,
    ensures
        store_map(es.remove(i)) =~= store_map(es).remove(es[i].0@),
    decreases es.len(),
{
    let n = es[i].0@;
    if i == 0 {
        assert(es.remove(0) =~= es.drop_first());
        assert forall|j: int| 0 <= j < es.drop_first().len() implies (#[trigger] es.drop_first()[j]).0@ != n by {
            assert(es.drop_first()[j] == es[j + 1]);
        }
        lemma_store_map_absent(es.drop_first(), n);
    } else {
        assert forall|j: int|
            0 <= j < es.drop_first().len() && j != i - 1 implies (#[trigger] es.drop_first()[j]).0@ != es.drop_first()[i - 1].0@ by {
            assert(es.drop_first()[j] == es[j + 1]);
            assert(es.drop_first()[i - 1] == es[i]);
        }
        assert(es.drop_first()[i - 1] == es[i]);
        lemma_store_map_remove(es.drop_first(), i - 1);
        assert(es.remove(i).drop_first() =~= es.drop_first().remove(i - 1));
        assert(es.remove(i).first() == es.first());
        assert(es[0].0@ != n);
    }
}

/// A variable store backed by a vector of bindings.
#[derive(Debug)]
pub struct VectorVariableStore(Vec<(Variable, Arc<RootFormula>)>);

impl Default for VectorVariableStore {
    /// The default store is empty.
    fn default() -> (r: Self)
        ensures
            r.variables() == VarsV::empty(),
    {
        Self(Vec::new())
    }
}

impl VectorVariableStore {
    /// No two bindings carry the same name.
    #[verifier::type_invariant]
    pub closed spec fn wf(&self) -> bool {
        forall|j: int, k: int|
            0 <= j < k < self.0@.len() ==> (#[trigger] self.0@[j]).0@ != (#[trigger] self.0@[k]).0@
    }

    /// Creates an empty store.
    pub fn new() -> (r: Self)
        ensures
            r.variables() == VarsV::empty(),
    {
        Self(Vec::new())
    }

    /// Creates an empty store with room for the given number of
    /// bindings.
    pub fn with_capacity(capacity: usize) -> (r: Self)
        ensures
            r.variables() == VarsV::empty(),
    {
        Self(Vec::with_capacity(capacity))
    }

    /// The index of the binding carrying the name, if any.
    fn find(&self, name: &Variable) -> (r: Option<usize>)
        ensures
            match r {
                Some(i) => i < self.0@.len() && self.0@[i as int].0@ == name@ && forall|j: int|
                    0 <= j < i ==> (#[trigger] self.0@[j]).0@ != name@,
                None => forall|j: int|
                    0 <= j < self.0@.len() ==> (#[trigger] self.0@[j]).0@ != name@,
            },
    {
        let n = self.0.len();
        for i in 0..n
            invariant
                n == self.0@.len(),
                forall|j: int| 0 <= j < i ==> (#[trigger] self.0@[j]).0@ != name@,
        {
            if self.0[i].0 == *name {
                return Some(i);
            }
        }
        None
    }
}

impl GetVariable for VectorVariableStore {
    closed spec fn variables(&self) -> VarsV {
        store_map(self.0@)
    }

    fn get(&self, name: &Variable) -> (r: Option<&Arc<RootFormula>>) {
        match self.find(name) {
            Some(i) => {
                proof {
                    lemma_store_map_first(self.0@, name@, i as int);
                }
                Some(&self.0[i].1)
            },
            None => {
                proof {
                    lemma_store_map_absent(self.0@, name@);
                }
                None
            },
        }
    }
}

impl SetVariable for VectorVariableStore {
    fn set(&mut self, name: Variable, value: RootFormula) {
        proof {
            use_type_invariant(&*self);
        }
        let arc = Arc::new(value);
        let found = self.find(&name);
        let mut v: Vec<(Variable, Arc<RootFormula>)> = Vec::new();
        core::mem::swap(&mut self.0, &mut v);
        let ghost es = v@;
        match found {
            Some(i) => {
                proof {
                    lemma_store_map_update(es, i as int, (name, arc));
                }
                let elem = &mut v[i];
                *elem = (name, arc);
                proof {
                    assert forall|j: int, k: int| 0 <= j < k < v@.len() implies (
                    #[trigger] v@[j]).0@ != (#[trigger] v@[k]).0@ by {
                        assert(es[j].0@ != es[k].0@);
                    }
                }
            },
            None => {
                proof {
                    lemma_store_map_push(es, (name, arc));
                }
                v.push((name, arc));
                proof {
                    assert forall|j: int, k: int| 0 <= j < k < v@.len() implies (
                    #[trigger] v@[j]).0@ != (#[trigger] v@[k]).0@ by {
                        if k < es.len() {
                            assert(es[j].0@ != es[k].0@);
                        } else {
                            assert(es[j].0@ != name@);
                        }
                    }
                }
            },
        }
        self.0 = v;
    }
}

impl PopVariable for VectorVariableStore {
    fn pop(&mut self, variable: &Variable) -> (r: Option<Arc<RootFormula>>) {
        proof {
            use_type_invariant(&*self);
        }
        let found = self.find(variable);
        match found {
            Some(i) => {
                let mut v: Vec<(Variable, Arc<RootFormula>)> = Vec::new();
                core::mem::swap(&mut self.0, &mut v);
                let ghost es = v@;
                proof {
                    assert forall|j: int|
                        0 <= j < es.len() && j != i implies (#[trigger] es[j]).0@ != es[i as int].0@ by {}
                    lemma_store_map_first(es, variable@, i as int);
                    lemma_store_map_remove(es, i as int);
                }
                let pair = v.remove(i);
                proof {
                    assert forall|j: int, k: int| 0 <= j < k < v@.len() implies (
                    #[trigger] v@[j]).0@ != (#[trigger] v@[k]).0@ by {
                        let j0 = if j < i { j } else { j + 1 };
                        let k0 = if k < i { k } else { k + 1 };
                        assert(v@[j] == es[j0]);
                        assert(v@[k] == es[k0]);
                        assert(es[j0].0@ != es[k0].0@);
                    }
                }
                self.0 = v;
                Some(pair.1)
            },
            None => {
                proof {
                    lemma_store_map_absent(self.0@, variable@);
                    assert(self.variables() =~= self.variables().remove(variable@));
                }
                None
            },
        }
    }
}

/// A variable store keyed like a map; one binding per name.
#[derive(Debug)]
pub struct HashMapVariableStore(VectorVariableStore);

impl Default for HashMapVariableStore {
    /// The default store is empty.
    fn default() -> (r: Self)
        ensures
            r.variables() == VarsV::empty(),
    {
        Self(VectorVariableStore::new())
    }
}

impl HashMapVariableStore {
    /// Creates an empty store.
    pub fn new() -> (r: Self)
        ensures
            r.variables() == VarsV::empty(),
    {
        Self(VectorVariableStore::new())
    }
}

impl GetVariable for HashMapVariableStore {
    closed spec fn variables(&self) -> VarsV {
        self.0.variables()
    }

    fn get(&self, name: &Variable) -> (r: Option<&Arc<RootFormula>>) {
        self.0.get(name)
    }
}

impl SetVariable for HashMapVariableStore {
    fn set(&mut self, name: Variable, value: RootFormula) {
        self.0.set(name, value)
    }
}

} // verus!

//! The scope that expressions are compiled and evaluated against: the
//! variables, each in a numbered slot that may hold a value, and the names
//! that are known as functions.

use vstd::prelude::*;
use crate::number::Number;
use crate::tokens::Identifier;

verus! {

/// A declared variable and the value bound to it, if any.
#[derive(Copy, Clone, Debug, PartialEq, Eq, Structural)]
pub struct Variable {
    pub ident: Identifier,
    pub value: Option<Number>,
}

#[derive(Debug)]
pub struct Scope {
    pub vars: Vec<Variable>,
    pub funcs: Vec<Identifier>,
}

/// The first slot at or after `from` that holds the variable `ident`.
pub open spec fn slot_from(vars: Seq<Variable>, ident: Identifier, from: int) -> Option<usize>
    decreases vars.len() - from,
{
    if from < 0 || from >= vars.len() {
        None
    } else if vars[from].ident == ident {
        Some(from as usize)
    } else {
        slot_from(vars, ident, from + 1)
    }
}

/// The first index at or after `from` at which `ident` stands.
pub open spec fn index_from(names: Seq<Identifier>, ident: Identifier, from: int) -> Option<usize>
    decreases names.len() - from,
{
    if from < 0 || from >= names.len() {
        None
    } else if names[from] == ident {
        Some(from as usize)
    } else {
        index_from(names, ident, from + 1)
    }
}

/// `slot_from` finds the first slot of the variable, and finds nothing only
/// where the variable has no slot.
pub proof fn lemma_slot_from(vars: Seq<Variable>, ident: Identifier, from: int)
    requires
        0 <= from,
        vars.len() <= usize::MAX,
    ensures
        match slot_from(vars, ident, from) {
            Some(i) => from <= i < vars.len() && vars[i as int].ident == ident && forall|j: int|
                from <= j < i ==> vars[j].ident != ident,
            None => forall|j: int| from <= j < vars.len() ==> vars[j].ident != ident,
        },
    decreases vars.len() - from,
{
    if from < vars.len() && vars[from].ident != ident {
        lemma_slot_from(vars, ident, from + 1);
    }
}

/// `index_from` finds the first occurrence, and finds nothing only where
/// there is none.
pub proof fn lemma_index_from(names: Seq<Identifier>, ident: Identifier, from: int)
    requires
        0 <= from,
        names.len() <= usize::MAX,
    ensures
        match index_from(names, ident, from) {
            Some(i) => from <= i < names.len() && names[i as int] == ident && forall|j: int|
                from <= j < i ==> names[j] != ident,
            None => forall|j: int| from <= j < names.len() ==> names[j] != ident,
        },
    decreases names.len() - from,
{
    if from < names.len() && names[from] != ident {
        lemma_index_from(names, ident, from + 1);
    }
}

impl Scope {
    /// The slot of the variable `ident`, if it is declared.
    pub open spec fn spec_var_id(&self, ident: Identifier) -> Option<usize> {
        slot_from(self.vars@, ident, 0)
    }

    /// The value bound in `slot`, if the slot exists and holds one.
    pub open spec fn spec_get_var(&self, slot: usize) -> Option<Number> {
        if slot < self.vars@.len() {
            self.vars@[slot as int].value
        } else {
            None
        }
    }

    /// The number of the function `ident`, if it is known.
    pub open spec fn spec_func_id(&self, ident: Identifier) -> Option<usize> {
        index_from(self.funcs@, ident, 0)
    }

    /// A scope without variables and functions.
    pub fn new() -> (r: Scope)
        ensures
            r.vars@ == Seq::<Variable>::empty(),
            r.funcs@ == Seq::<Identifier>::empty(),
    {
        Scope { vars: Vec::new(), funcs: Vec::new() }
    }

    pub fn var_id(&self, ident: Identifier) -> (r: Option<usize>)
        ensures
            r == self.spec_var_id(ident),
    {
        let mut i: usize = 0;
        while i < self.vars.len()
            invariant
                i <= self.vars.len(),
                self.spec_var_id(ident) == slot_from(self.vars@, ident, i as int),
            decreases self.vars.len() - i,
        {
            if self.vars[i].ident == ident {
                return Some(i);
            }
            i += 1;
        }
        None
    }

    pub fn get_var(&self, slot: usize) -> (r: Option<Number>)
        ensures
            r == self.spec_get_var(slot),
    {
        if slot < self.vars.len() {
            self.vars[slot].value
        } else {
            None
        }
    }

    pub fn func_id(&self, ident: Identifier) -> (r: Option<usize>)
        ensures
            r == self.spec_func_id(ident),
    {
        let mut i: usize = 0;
        while i < self.funcs.len()
            invariant
                i <= self.funcs.len(),
                self.spec_func_id(ident) == index_from(self.funcs@, ident, i as int),
            decreases self.funcs.len() - i,
        {
            if self.funcs[i] == ident {
                return Some(i);
            }
            i += 1;
        }
        None
    }

    /// Declares the variable `ident` and gives its slot: the one it already
    /// has, or a new one without a value.
    pub fn declare_var(&mut self, ident: Identifier) -> (r: usize)
        ensures
            final(self).funcs@ == old(self).funcs@,
            final(self).spec_var_id(ident) == Some(r),
            match old(self).spec_var_id(ident) {
                Some(slot) => r == slot && final(self).vars@ == old(self).vars@,
                None => r == old(self).vars@.len() && final(self).vars@ == old(self).vars@.push(
                    Variable { ident: ident, value: None },
                ),
            },
    {
        match self.var_id(ident) {
            Some(slot) => slot,
            None => {
                let slot = self.vars.len();
                self.vars.push(Variable { ident: ident, value: None });
                let count = self.vars.len();
                proof {
                    lemma_slot_from(old(self).vars@, ident, 0);
                    lemma_slot_from(self.vars@, ident, 0);
                    assert(self.vars@[slot as int].ident == ident);
                    assert(forall|j: int| 0 <= j < slot ==> self.vars@[j] == old(self).vars@[j]);
                }
                slot
            },
        }
    }

    /// Binds `value` in `slot`. Says whether the slot exists; where it does
    /// not, nothing changes.
    pub fn set_var(&mut self, slot: usize, value: Number) -> (r: bool)
        ensures
            final(self).funcs@ == old(self).funcs@,
            r == (slot < old(self).vars@.len()),
            r ==> final(self).vars@ == old(self).vars@.update(
                slot as int,
                Variable { ident: old(self).vars@[slot as int].ident, value: Some(value) },
            ),
            !r ==> final(self).vars@ == old(self).vars@,
    {
        if slot < self.vars.len() {
            let ident = self.vars[slot].ident;
            self.vars.set(slot, Variable { ident: ident, value: Some(value) });
            true
        } else {
            false
        }
    }

    /// Makes `ident` known as a function and gives its number: the one it
    /// already has, or a new one.
    pub fn declare_func(&mut self, ident: Identifier) -> (r: usize)
        ensures
            final(self).vars@ == old(self).vars@,
            final(self).spec_func_id(ident) == Some(r),
            match old(self).spec_func_id(ident) {
                Some(id) => r == id && final(self).funcs@ == old(self).funcs@,
                None => r == old(self).funcs@.len() && final(self).funcs@ == old(
                    self,
                ).funcs@.push(ident),
            },
    {
        match self.func_id(ident) {
            Some(id) => id,
            None => {
                let id = self.funcs.len();
                self.funcs.push(ident);
                let count = self.funcs.len();
                proof {
                    lemma_index_from(old(self).funcs@, ident, 0);
                    lemma_index_from(self.funcs@, ident, 0);
                    assert(self.funcs@[id as int] == ident);
                    assert(forall|j: int| 0 <= j < id ==> self.funcs@[j] == old(self).funcs@[j]);
                }
                id
            },
        }
    }
}

} // verus!

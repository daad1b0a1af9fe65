//! The environment: an ordered, append-only sequence of name-to-value
//! bindings. Extending an environment never mutates the receiver; it yields
//! a fresh environment, so any other in-flight evaluation holding the
//! original still sees it unchanged.
use crate::value::SpecValue;
use crate::value::Value;
use vstd::prelude::*;

verus! {

/// One name-to-value binding, immutable once created.
pub struct Binding {
    pub name: String,
    pub value: Value,
}

/// The mathematical model of a `Binding`.
pub struct SpecBinding {
    pub name: Seq<char>,
    pub value: SpecValue,
}

impl Binding {
    /// The mathematical model of this binding.
    pub open spec fn model(&self) -> SpecBinding {
        SpecBinding { name: self.name@, value: self.value.model() }
    }

    /// Binds a name to an already-built value.
    pub fn value(n: String, v: Value) -> (b: Binding)
        ensures
            b.model() == (SpecBinding { name: n@, value: v.model() }),
    {
        Binding { name: n, value: v }
    }

    /// Binds a name to an integer value.
    pub fn integer(n: String, integerVal: i32) -> (b: Binding)
        ensures
            b.model() == (SpecBinding { name: n@, value: SpecValue::Integer { value: integerVal } }),
    {
        Binding { name: n, value: Value::integer(integerVal) }
    }

    /// Binds a name to a boolean value.
    pub fn boolean(n: String, booleanVal: bool) -> (b: Binding)
        ensures
            b.model() == (SpecBinding { name: n@, value: SpecValue::Boolean { value: booleanVal } }),
    {
        Binding { name: n, value: Value::boolean(booleanVal) }
    }

    /// Binds a name to the absent value.
    pub fn null(n: String) -> (b: Binding)
        ensures
            b.model() == (SpecBinding { name: n@, value: SpecValue::Null }),
    {
        Binding { name: n, value: Value::null() }
    }
}

impl Clone for Binding {
    /// Duplicates a binding, preserving its model.
    fn clone(&self) -> (res: Self)
        ensures
            res.model() == self.model(),
    {
        Binding { name: self.name.clone(), value: self.value.clone() }
    }
}

/// What a name resolves to under a sequence of bindings: the value of the
/// most recently appended binding with that name, scanning newest to oldest,
/// and the absent value when no binding matches. Absence is not an error in
/// this language: lookup is total.
pub open spec fn spec_lookup(env: Seq<SpecBinding>, name: Seq<char>) -> SpecValue
    decreases env.len(),
{
    if env.len() == 0 {
        SpecValue::Null
    } else if env.last().name == name {
        env.last().value
    } else {
        spec_lookup(env.drop_last(), name)
    }
}

/// The set of visible bindings at a point in evaluation: an ordered,
/// append-only sequence, newest binding last.
pub struct Environment {
    pub bindings: Vec<Binding>,
}

impl Environment {
    /// The mathematical model of this environment: its bindings in order,
    /// oldest first.
    pub open spec fn model(&self) -> Seq<SpecBinding> {
        Seq::new(self.bindings@.len(), |i: int| self.bindings@[i].model())
    }

    /// The empty environment.
    pub fn new() -> (e: Environment)
        ensures
            e.model() == Seq::<SpecBinding>::empty(),
    {
        let e = Environment { bindings: Vec::new() };
        proof {
            assert(e.model() =~= Seq::<SpecBinding>::empty());
        }
        e
    }

    /// Returns a new environment equal to the receiver with one binding
    /// appended; the receiver itself is left untouched and remains usable.
    pub fn bind(&self, name: String, value: Value) -> (e: Environment)
        ensures
            e.model() == self.model().push(SpecBinding { name: name@, value: value.model() }),
    {
        let mut newBindings: Vec<Binding> = Vec::new();
        let mut i: usize = 0;
        while i < self.bindings.len()
            invariant
                i <= self.bindings.len(),
                newBindings@.len() == i as int,
                forall|j: int| 0 <= j < i ==> (#[trigger] newBindings@[j].model())
                    == self.bindings@[j].model(),
            decreases self.bindings.len() - i,
        {
            newBindings.push(self.bindings[i].clone());
            i = i + 1;
        }
        newBindings.push(Binding::value(name, value));
        let e = Environment { bindings: newBindings };
        proof {
            assert(e.model() =~= self.model().push(
                SpecBinding { name: name@, value: value.model() },
            ));
        }
        e
    }

    /// Returns the most recently bound value for `name`, scanning newest to
    /// oldest, and the absent value when no binding matches. Never fails.
    pub fn lookup(&self, name: String) -> (v: Value)
        ensures
            v.model() == spec_lookup(self.model(), name@),
    {
        let mut i: usize = self.bindings.len();
        proof {
            assert(self.model().take(i as int) =~= self.model());
        }
        while i > 0
            invariant
                i <= self.bindings.len(),
                spec_lookup(self.model(), name@) == spec_lookup(
                    self.model().take(i as int),
                    name@,
                ),
            decreases i,
        {
            i = i - 1;
            if self.bindings[i].name.eq(&name) {
                proof {
                    assert(self.model().take(i as int + 1).last() == self.model()[i as int]);
                }
                return self.bindings[i].value.clone();
            }
            proof {
                assert(self.model().take(i as int + 1).drop_last() =~= self.model().take(i as int));
            }
        }
        proof {
            assert(self.model().take(0).len() == 0);
        }
        Value::null()
    }
}

impl Clone for Environment {
    /// Duplicates an environment, preserving its model.
    fn clone(&self) -> (res: Self)
        ensures
            res.model() == self.model(),
    {
        let mut newBindings: Vec<Binding> = Vec::new();
        let mut i: usize = 0;
        while i < self.bindings.len()
            invariant
                i <= self.bindings.len(),
                newBindings@.len() == i as int,
                forall|j: int| 0 <= j < i ==> (#[trigger] newBindings@[j].model())
                    == self.bindings@[j].model(),
            decreases self.bindings.len() - i,
        {
            newBindings.push(self.bindings[i].clone());
            i = i + 1;
        }
        let res = Environment { bindings: newBindings };
        proof {
            assert(res.model() =~= self.model());
        }
        res
    }
}

} // verus!

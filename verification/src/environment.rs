//! The environment: the names of a running program and what they hold.

use crate::error::{RuntimeError, RuntimeErrorModel};
use crate::value::{clone_optional, optional_model, Value, ValueModel};
use vstd::prelude::*;

verus! {

/// The mathematical model of an environment: a map from each declared name to
/// what it holds. A declared name that holds `None` was never assigned.
pub type Scope = Map<Seq<char>, Option<ValueModel>>;

/// One name and what it holds.
#[derive(Debug)]
struct Binding {
    name: String,
    value: Option<Value>,
}

/// The map that a list of bindings stands for. A later binding of a name
/// takes the place of an earlier one.
spec fn scope_of(bindings: Seq<Binding>) -> Scope
    decreases bindings.len(),
{
    if bindings.len() == 0 {
        Map::empty()
    } else {
        scope_of(bindings.drop_last()).insert(
            bindings.last().name@,
            optional_model(bindings.last().value),
        )
    }
}

/// Whether `index` is the place of the last binding of `name`.
spec fn last_binding(bindings: Seq<Binding>, name: Seq<char>, index: int) -> bool {
    &&& 0 <= index < bindings.len()
    &&& bindings[index].name@ == name
    &&& forall|later: int| index < later < bindings.len() ==> bindings[later].name@ != name
}

/// A name holds what its last binding holds.
proof fn scope_holds_last_binding(bindings: Seq<Binding>, name: Seq<char>, index: int)
    requires
        last_binding(bindings, name, index),
    ensures
        scope_of(bindings).contains_key(name),
        scope_of(bindings)[name] == optional_model(bindings[index].value),
    decreases bindings.len(),
{
    if index < bindings.len() - 1 {
        scope_holds_last_binding(bindings.drop_last(), name, index);
    }
}

/// A name without a binding is not declared.
proof fn scope_lacks_unbound(bindings: Seq<Binding>, name: Seq<char>)
    requires
        forall|index: int| 0 <= index < bindings.len() ==> bindings[index].name@ != name,
    ensures
        !scope_of(bindings).contains_key(name),
    decreases bindings.len(),
{
    if bindings.len() > 0 {
        scope_lacks_unbound(bindings.drop_last(), name);
    }
}

/// To put a new binding in the place of a name's last binding is to insert
/// it into the map.
proof fn scope_of_replaced(bindings: Seq<Binding>, index: int, binding: Binding)
    requires
        last_binding(bindings, binding.name@, index),
    ensures
        scope_of(bindings.update(index, binding)) == scope_of(bindings).insert(
            binding.name@,
            optional_model(binding.value),
        ),
    decreases bindings.len(),
{
    let replaced = bindings.update(index, binding);
    if index == bindings.len() - 1 {
        assert(replaced.drop_last() =~= bindings.drop_last());
    } else {
        scope_of_replaced(bindings.drop_last(), index, binding);
        assert(replaced.drop_last() =~= bindings.drop_last().update(index, binding));
    }
    assert(scope_of(replaced) =~= scope_of(bindings).insert(
        binding.name@,
        optional_model(binding.value),
    ));
}

/// The names of a running program and what they hold. One environment backs
/// the whole program: a block has no scope of its own.
#[derive(Debug)]
pub struct Environment {
    values: Vec<Binding>,
}

impl View for Environment {
    type V = Scope;

    closed spec fn view(&self) -> Scope {
        scope_of(self.values@)
    }
}

impl Clone for Environment {
    fn clone(&self) -> (copy: Self)
        ensures
            copy@ == self@,
    {
        let mut values: Vec<Binding> = Vec::new();
        let mut i: usize = 0;
        while i < self.values.len()
            invariant
                i <= self.values.len(),
                values@ == self.values@.subrange(0, i as int),
            decreases self.values.len() - i,
        {
            let binding = &self.values[i];
            values.push(Binding { name: binding.name.clone(), value: clone_optional(&binding.value) });
            i += 1;
            assert(values@ =~= self.values@.subrange(0, i as int));
        }
        assert(values@ =~= self.values@);
        Environment { values }
    }
}

impl Environment {
    /// An environment in which no name is declared.
    pub fn new() -> (environment: Environment)
        ensures
            environment@ == Scope::empty(),
    {
        Environment { values: Vec::new() }
    }

    /// The place of the last binding of `name`, if it has one.
    fn find(&self, name: &String) -> (found: Option<usize>)
        ensures
            match found {
                Some(index) => last_binding(self.values@, name@, index as int),
                None => forall|index: int|
                    0 <= index < self.values.len() ==> self.values[index].name@ != name@,
            },
    {
        let mut i: usize = self.values.len();
        while i > 0
            invariant
                i <= self.values.len(),
                forall|later: int| i <= later < self.values.len() ==> self.values[later].name@ != name@,
            decreases i,
        {
            i -= 1;
            if self.values[i].name == *name {
                return Some(i);
            }
        }
        None
    }

    /// Declares `name`, if it is not declared yet, and lets it hold `value`.
    /// What the name held before is lost; every other name holds what it held.
    pub fn set(&mut self, name: String, value: Option<Value>)
        ensures
            final(self)@ == old(self)@.insert(name@, optional_model(value)),
    {
        let binding = Binding { name, value };
        match self.find(&binding.name) {
            Some(index) => {
                proof {
                    scope_of_replaced(self.values@, index as int, binding);
                }
                self.values.set(index, binding);
            },
            None => {
                self.values.push(binding);
                assert(self.values@.drop_last() =~= old(self).values@);
            },
        }
    }

    /// What `name` holds: `None` for a name that was declared and never
    /// assigned. A name that was never declared is an error.
    pub fn get(&self, name: &String) -> (result: Result<Option<Value>, RuntimeError>)
        ensures
            match result {
                Ok(value) => self@.contains_key(name@) && self@[name@] == optional_model(value),
                Err(error) => !self@.contains_key(name@) && error@
                    == RuntimeErrorModel::UndefinedVariable(name@),
            },
    {
        match self.find(name) {
            Some(index) => {
                proof {
                    scope_holds_last_binding(self.values@, name@, index as int);
                }
                Ok(clone_optional(&self.values[index].value))
            },
            None => {
                proof {
                    scope_lacks_unbound(self.values@, name@);
                }
                Err(RuntimeError::UndefinedVariable(name.clone()))
            },
        }
    }

    /// Whether `name` is declared.
    pub fn contains(&self, name: &String) -> (declared: bool)
        ensures
            declared == self@.contains_key(name@),
    {
        match self.find(name) {
            Some(index) => {
                proof {
                    scope_holds_last_binding(self.values@, name@, index as int);
                }
                true
            },
            None => {
                proof {
                    scope_lacks_unbound(self.values@, name@);
                }
                false
            },
        }
    }
}

} // verus!

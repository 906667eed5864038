use vstd::prelude::*;
use vstd::string::*;
use crate::codegen::object::{BuiltIn, Object, ObjectView};

verus! {

/// What a scope binds: a map from names to objects.
pub type Bindings = Map<Seq<char>, ObjectView>;

/// The names of one scope and what they are bound to.
///
/// A later binding of a name hides an earlier one. A copy of an
/// environment is a snapshot: what is bound in the copy afterwards is not
/// bound in the environment that it was made from.
#[derive(Debug)]
pub struct Environment {
    store: Vec<(String, Object)>,
}

/// The bindings that the first `n` entries of a store make.
pub open spec fn bindings_of(entries: Seq<(String, Object)>, n: nat) -> Bindings
    decreases n,
{
    if n == 0 || n > entries.len() {
        Map::empty()
    } else {
        bindings_of(entries, (n - 1) as nat).insert(entries[n - 1].0@, entries[n - 1].1@)
    }
}

/// The bindings of every fresh environment: the built-in names.
pub open spec fn built_ins() -> Bindings {
    Map::<Seq<char>, ObjectView>::empty().insert("null"@, ObjectView::Null).insert(
        "void"@,
        ObjectView::Null,
    ).insert("printf"@, ObjectView::BuiltIn(BuiltIn::Printf)).insert(
        "length"@,
        ObjectView::BuiltIn(BuiltIn::Length),
    )
}

/// The message of the error that a lookup of the unbound name `name` yields.
pub open spec fn not_found(name: Seq<char>) -> Seq<char> {
    name + " is not found. row"@
}

/// What a lookup of `name` yields: the object that the name is bound to, or
/// an error that carries the name.
pub open spec fn lookup(bindings: Bindings, name: Seq<char>) -> ObjectView {
    if bindings.contains_key(name) {
        bindings[name]
    } else {
        ObjectView::Error(not_found(name))
    }
}

impl View for Environment {
    type V = Bindings;

    closed spec fn view(&self) -> Bindings {
        bindings_of(self.store@, self.store@.len())
    }
}

impl Clone for Environment {
    /// A snapshot of the environment.
    fn clone(&self) -> (copy: Self)
        ensures
            copy@ == self@,
            copy@.dom().finite(),
    {
        proof {
            lemma_bindings_finite(self.store@, self.store@.len());
        }
        let mut store: Vec<(String, Object)> = Vec::new();
        let mut i: usize = 0;
        while i < self.store.len()
            invariant
                i <= self.store.len(),
                store.len() == i,
                bindings_of(store@, i as nat) == bindings_of(self.store@, i as nat),
            decreases self.store.len() - i,
        {
            let name = self.store[i].0.clone();
            let value = self.store[i].1.clone();
            let ghost before = store@;
            store.push((name, value));
            proof {
                lemma_bindings_prefix(before, store@, i as nat);
            }
            i += 1;
        }
        Environment { store }
    }
}

/// A new value in the last entry of a name is a new binding of the name.
proof fn lemma_bindings_update(
    entries: Seq<(String, Object)>,
    at: int,
    entry: (String, Object),
    n: nat,
)
    requires
        0 <= at < n <= entries.len(),
        entry.0@ == entries[at].0@,
        forall|j: int| at < j < n ==> (#[trigger] entries[j]).0@ != entry.0@,
    ensures
        bindings_of(entries.update(at, entry), n) == bindings_of(entries, n).insert(
            entry.0@,
            entry.1@,
        ),
    decreases n,
{
    let changed = entries.update(at, entry);
    if n == at + 1 {
        lemma_bindings_prefix(entries, changed, at as nat);
        assert(bindings_of(changed, n) =~= bindings_of(entries, n).insert(entry.0@, entry.1@));
    } else {
        lemma_bindings_update(entries, at, entry, (n - 1) as nat);
        assert(changed[n - 1] == entries[n - 1]);
        assert(entries[n - 1].0@ != entry.0@);
        assert(bindings_of(changed, n) =~= bindings_of(entries, n).insert(entry.0@, entry.1@));
    }
}

/// A store binds finitely many names.
proof fn lemma_bindings_finite(entries: Seq<(String, Object)>, n: nat)
    ensures
        bindings_of(entries, n).dom().finite(),
    decreases n,
{
    if n > 0 && n <= entries.len() {
        lemma_bindings_finite(entries, (n - 1) as nat);
    }
}

/// The bindings of the first `n` entries depend on those entries alone.
proof fn lemma_bindings_prefix(a: Seq<(String, Object)>, b: Seq<(String, Object)>, n: nat)
    requires
        n <= a.len(),
        n <= b.len(),
        forall|i: int| 0 <= i < n ==> a[i] == b[i],
    ensures
        bindings_of(a, n) == bindings_of(b, n),
    decreases n,
{
    if n > 0 {
        lemma_bindings_prefix(a, b, (n - 1) as nat);
    }
}

impl Environment {
    /// An environment that binds the built-in names and nothing else.
    pub fn new() -> (env: Self)
        ensures
            env@ == built_ins(),
            env@.dom().finite(),
    {
        let mut env = Environment { store: Vec::new() };
        env.set("null".to_string(), Object::Null);
        env.set("void".to_string(), Object::Null);
        env.set("printf".to_string(), Object::BuiltIn(BuiltIn::Printf));
        env.set("length".to_string(), Object::BuiltIn(BuiltIn::Length));
        env
    }

    /// The object that `name` is bound to, or an error object that carries
    /// the name where it is not bound.
    pub fn get(&self, name: &str) -> (object: Object)
        ensures
            object@ == lookup(self@, name@),
    {
        let wanted = name.to_owned();
        let mut i: usize = self.store.len();
        while i > 0
            invariant
                i <= self.store.len(),
                wanted@ == name@,
                bindings_of(self.store@, i as nat).contains_key(name@) == self@.contains_key(name@),
                self@.contains_key(name@) ==> bindings_of(self.store@, i as nat)[name@]
                    == self@[name@],
            decreases i,
        {
            if self.store[i - 1].0 == wanted {
                return self.store[i - 1].1.clone();
            }
            i -= 1;
        }
        Object::Error(wanted.concat(" is not found. row"))
    }

    /// Binds `name` to `value`, in place of what it was bound to, and
    /// returns the value. A name that is bound already keeps its entry:
    /// the store does not grow.
    pub fn set(&mut self, name: String, value: Object) -> (stored: Object)
        ensures
            final(self)@ == old(self)@.insert(name@, value@),
            final(self)@.dom().finite(),
            stored@ == value@,
    {
        let copy = value.clone();
        let ghost before = self.store@;
        let ghost key = name@;
        let mut i: usize = self.store.len();
        while i > 0
            invariant
                i <= self.store.len(),
                self.store@ == before,
                before == old(self).store@,
                key == name@,
                copy@ == value@,
                forall|j: int| i <= j < before.len() ==> (#[trigger] before[j]).0@ != name@,
            decreases i,
        {
            if self.store[i - 1].0 == name {
                let ghost entry = (name, copy);
                self.store.set(i - 1, (name, copy));
                proof {
                    assert(self.store@ == before.update(i - 1, entry));
                    assert(entry.0@ == key);
                    assert(entry.0@ == before[i - 1].0@);
                    assert(entry.1@ == value@);
                    lemma_bindings_update(before, (i - 1) as int, entry, before.len());
                    lemma_bindings_finite(self.store@, self.store@.len());
                    assert(self@ == bindings_of(before, before.len()).insert(entry.0@, entry.1@));
                }
                return value;
            }
            i -= 1;
        }
        self.store.push((name, copy));
        proof {
            lemma_bindings_prefix(before, self.store@, before.len());
            lemma_bindings_finite(self.store@, self.store@.len());
        }
        value
    }

    /// An environment binds finitely many names.
    pub proof fn lemma_finite(&self)
        ensures
            self@.dom().finite(),
    {
        lemma_bindings_finite(self.store@, self.store@.len());
    }
}

} // verus!

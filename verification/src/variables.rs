use vstd::prelude::*;

use crate::error::Error;
use crate::value::Value;

verus! {

/// A slot in the variable table.
#[derive(Debug, Clone, Copy, PartialEq, Eq, Structural)]
pub struct VariableIndex(pub usize);

/// The identifier-to-slot interner together with the variables' current
/// values. Slots are handed out in first-seen order and never move, so a
/// compiled expression can be re-evaluated after only the values changed.
#[derive(Debug, Clone)]
pub struct Variables {
    pub names: Vec<String>,
    pub values: Vec<Value>,
}

/// The interned identifiers, as character sequences.
pub open spec fn name_views(names: Seq<String>) -> Seq<Seq<char>> {
    names.map_values(|s: String| s@)
}

/// The table always pairs each interned name with exactly one value.
pub open spec fn variables_wf(v: Variables) -> bool {
    v.names@.len() == v.values@.len()
}

/// The index of the first occurrence of `name` at or after position `i`, or
/// the table length when the name is not interned yet.
pub open spec fn find_from(names: Seq<Seq<char>>, name: Seq<char>, i: int) -> int
    decreases names.len() - i,
{
    if i < 0 || i >= names.len() {
        names.len() as int
    } else if names[i] == name {
        i
    } else {
        find_from(names, name, i + 1)
    }
}

/// What interning `name` does: an already-interned name returns its first
/// slot and leaves the table unchanged; a new name is appended with the
/// default value `Int(0)` and returns the fresh slot.
pub open spec fn intern_spec(names: Seq<Seq<char>>, values: Seq<Value>, name: Seq<char>) -> (
    Seq<Seq<char>>,
    Seq<Value>,
    int,
) {
    let j = find_from(names, name, 0);
    if j < names.len() {
        (names, values, j)
    } else {
        (names.push(name), values.push(Value::Int(0)), j)
    }
}

/// `find_from` returns the first match: everything strictly before the result
/// differs from `name`, and the result is a match unless it is the length.
pub proof fn lemma_find_from_first(names: Seq<Seq<char>>, name: Seq<char>, i: int)
    requires
        0 <= i <= names.len(),
    ensures
        i <= find_from(names, name, i) <= names.len(),
        find_from(names, name, i) < names.len() ==> names[find_from(names, name, i)] == name,
        forall|k: int|
            i <= k < find_from(names, name, i) ==> names[k] != name,
        find_from(names, name, i) == names.len() ==> forall|k: int|
            i <= k < names.len() ==> names[k] != name,
    decreases names.len() - i,
{
    if i < names.len() && names[i] != name {
        lemma_find_from_first(names, name, i + 1);
    }
}

impl Variables {
    /// An empty table with room reserved for `capacity` variables.
    pub fn with_capacity(capacity: usize) -> (r: Variables)
        ensures
            r.names@ == Seq::<String>::empty(),
            r.values@ == Seq::<Value>::empty(),
            variables_wf(r),
    {
        Variables { names: Vec::with_capacity(capacity), values: Vec::with_capacity(capacity) }
    }

    /// An empty table.
    pub fn new() -> (r: Variables)
        ensures
            r.names@ == Seq::<String>::empty(),
            r.values@ == Seq::<Value>::empty(),
            variables_wf(r),
    {
        Variables { names: Vec::new(), values: Vec::new() }
    }

    /// Forget every interned name and every value.
    pub fn clear(&mut self)
        ensures
            final(self).names@ == Seq::<String>::empty(),
            final(self).values@ == Seq::<Value>::empty(),
            variables_wf(*final(self)),
    {
        self.names.clear();
        self.values.clear();
    }

    /// How many variables are interned.
    pub fn len(&self) -> (n: usize)
        ensures
            n == self.names@.len(),
    {
        self.names.len()
    }

    /// Intern `identifier`, exactly as `intern_spec` says: the slot of its
    /// first occurrence, or a fresh slot holding `Int(0)`.
    pub fn find_or_set(&mut self, identifier: &str) -> (r: VariableIndex)
        ensures
            ({
                let (names, values, j) = intern_spec(
                    name_views(old(self).names@),
                    old(self).values@,
                    identifier@,
                );
                name_views(final(self).names@) == names && final(self).values@ == values
                    && r.0 as int == j && 0 <= j <= old(self).names@.len()
            }),
    {
        proof {
            lemma_find_from_first(name_views(self.names@), identifier@, 0);
        }
        let id: String = identifier.to_owned();
        let n = self.names.len();
        let mut i: usize = 0;
        while i < n
            invariant
                *self == *old(self),
                n == self.names@.len(),
                i <= n,
                id@ == identifier@,
                find_from(name_views(self.names@), identifier@, 0) == find_from(
                    name_views(self.names@),
                    identifier@,
                    i as int,
                ),
            decreases n - i,
        {
            let same = self.names[i].eq(&id);
            assert(name_views(self.names@)[i as int] == self.names@[i as int]@);
            if same {
                return VariableIndex(i);
            }
            i = i + 1;
        }
        assert(find_from(name_views(self.names@), identifier@, 0) == n);
        let ghost old_names = name_views(self.names@);
        self.names.push(id);
        self.values.push(Value::Int(0));
        proof {
            assert(name_views(self.names@) =~= old_names.push(identifier@));
        }
        VariableIndex(n)
    }

    /// The current value of a slot, or `None` for an index the table never
    /// handed out.
    pub fn get(&self, index: VariableIndex) -> (r: Option<Value>)
        ensures
            index.0 < self.values@.len() ==> r == Some(self.values@[index.0 as int]),
            index.0 >= self.values@.len() ==> r is None,
    {
        if index.0 < self.values.len() {
            Some(self.values[index.0])
        } else {
            None
        }
    }

    /// Overwrite the value of a slot; an index the table never handed out is
    /// refused.
    pub fn set(&mut self, index: VariableIndex, value: Value) -> (r: Result<(), Error>)
        ensures
            index.0 < old(self).values@.len() ==> r == Ok::<(), Error>(())
                && final(self).values@ == old(self).values@.update(index.0 as int, value)
                && final(self).names@ == old(self).names@,
            index.0 >= old(self).values@.len() ==> r == Err::<(), Error>(Error::InvalidVariable)
                && *final(self) == *old(self),
    {
        if index.0 < self.values.len() {
            self.values[index.0] = value;
            Ok(())
        } else {
            Err(Error::InvalidVariable)
        }
    }
}

/// Interning is stable and first-seen ordered: interning a name a second time
/// returns the same slot and changes nothing, and two distinct names are
/// never given the same slot.
pub proof fn lemma_intern_first_seen(
    names: Seq<Seq<char>>,
    values: Seq<Value>,
    a: Seq<char>,
    b: Seq<char>,
)
    requires
        a != b,
        names.len() == values.len(),
    ensures
        ({
            let (n1, v1, ia) = intern_spec(names, values, a);
            let (n2, v2, ia2) = intern_spec(n1, v1, a);
            let (n3, v3, ib) = intern_spec(n1, v1, b);
            ia2 == ia && n2 == n1 && v2 == v1 && ib != ia
        }),
{
    let (n1, v1, ia) = intern_spec(names, values, a);
    lemma_find_from_first(names, a, 0);
    lemma_find_from_first(names, b, 0);
    lemma_find_from_first(n1, a, 0);
    lemma_find_from_first(n1, b, 0);
    if find_from(names, a, 0) == names.len() {
        assert(n1 == names.push(a));
        assert(n1[names.len() as int] == a);
        assert(find_from(n1, a, 0) < n1.len());
        assert(find_from(n1, a, 0) >= names.len()) by {
            if find_from(n1, a, 0) < names.len() {
                assert(n1[find_from(n1, a, 0)] == names[find_from(n1, a, 0)]);
            }
        }
        assert(find_from(n1, a, 0) == names.len());
    }
    let ib = find_from(n1, b, 0);
    if ib < n1.len() {
        assert(n1[ib] == b);
        if ib == ia {
            assert(n1[ia] == a);
            assert(false);
        }
    } else {
        assert(ib == n1.len());
        assert(ia < n1.len());
    }
}

} // verus!

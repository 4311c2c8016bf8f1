//! The symbol table of one compilation: which names are bound, with what kind and in which
//! storage slot.

use vstd::prelude::*;

verus! {

/// The kind of a bound name: what its storage slot holds.
#[derive(Clone, Copy, Debug, PartialEq, Eq, Structural)]
pub enum ExprKind {
    /// A 32-bit signed integer.
    Int,
    /// A reference to constant text.
    Str,
}

/// What a name is bound to.
#[derive(Clone, Copy, Debug, PartialEq, Eq, Structural)]
pub struct Binding {
    pub kind: ExprKind,
    /// Number of the storage slot, counted from 0 in the order of allocation.
    pub slot: usize,
}

/// One entry of the table.
pub struct Symbol {
    pub name: String,
    pub binding: Binding,
}

/// Mathematical value of a [`Symbol`].
pub ghost struct SymbolView {
    pub name: Seq<char>,
    pub binding: Binding,
}

impl View for Symbol {
    type V = SymbolView;

    open spec fn view(&self) -> SymbolView {
        SymbolView { name: self.name@, binding: self.binding }
    }
}

/// Where `name` stands in `table`, searched from position `from`.
pub open spec fn position(table: Seq<SymbolView>, name: Seq<char>, from: int) -> Option<int>
    decreases table.len() - from,
{
    if from < 0 || from >= table.len() {
        None
    } else if table[from].name == name {
        Some(from)
    } else {
        position(table, name, from + 1)
    }
}

/// What `name` is bound to in `table`, if it is bound.
pub open spec fn lookup(table: Seq<SymbolView>, name: Seq<char>) -> Option<Binding> {
    match position(table, name, 0) {
        Some(i) => Some(table[i].binding),
        None => None,
    }
}

/// `table` after `name` is bound to `binding`: a name that was bound before keeps its
/// place and gets the new binding, a new name goes to the end.
pub open spec fn bind(table: Seq<SymbolView>, name: Seq<char>, binding: Binding) -> Seq<
    SymbolView,
> {
    match position(table, name, 0) {
        Some(i) => table.update(i, SymbolView { name, binding }),
        None => table.push(SymbolView { name, binding }),
    }
}

/// No name stands twice in `table`.
pub open spec fn distinct(table: Seq<SymbolView>) -> bool {
    forall|i: int, j: int|
        0 <= i < j < table.len() ==> (#[trigger] table[i]).name != (#[trigger] table[j]).name
}

/// A position that `position` gives holds the name, and no earlier position from `from`
/// on does.
pub proof fn lemma_position(table: Seq<SymbolView>, name: Seq<char>, from: int)
    requires
        0 <= from,
    ensures
        match position(table, name, from) {
            Some(i) => from <= i < table.len() && table[i].name == name && forall|k: int|
                from <= k < i ==> (#[trigger] table[k]).name != name,
            None => forall|k: int| from <= k < table.len() ==> (#[trigger] table[k]).name != name,
        },
    decreases table.len() - from,
{
    if from < table.len() && table[from].name != name {
        lemma_position(table, name, from + 1);
    }
}

/// Binding keeps the names distinct.
pub proof fn lemma_bind_distinct(table: Seq<SymbolView>, name: Seq<char>, binding: Binding)
    requires
        distinct(table),
    ensures
        distinct(bind(table, name, binding)),
{
    lemma_position(table, name, 0);
}

/// After binding, the name has the new binding and every other name has what it had.
pub proof fn lemma_bind_lookup(
    table: Seq<SymbolView>,
    name: Seq<char>,
    binding: Binding,
    other: Seq<char>,
)
    ensures
        lookup(bind(table, name, binding), other) == if other == name {
            Some(binding)
        } else {
            lookup(table, other)
        },
{
    let after = bind(table, name, binding);
    lemma_position(table, name, 0);
    lemma_position(table, other, 0);
    lemma_position(after, other, 0);
    assert forall|k: int| 0 <= k < table.len() implies (#[trigger] after[k]).name
        == table[k].name by {}
    match position(after, other, 0) {
        Some(b) => {
            if b < table.len() {
                assert(table[b].name == other);
            }
            match position(table, other, 0) {
                Some(a) => {
                    assert(after[a].name == other);
                },
                None => {},
            }
        },
        None => {
            match position(table, other, 0) {
                Some(a) => {
                    assert(after[a].name == other);
                },
                None => {
                    if other == name {
                        assert(after[table.len() as int].name == name);
                    }
                },
            }
        },
    }
}

/// The names bound so far in one compilation. No name stands twice in it.
pub struct SymbolTable {
    entries: Vec<Symbol>,
}

impl View for SymbolTable {
    type V = Seq<SymbolView>;

    closed spec fn view(&self) -> Seq<SymbolView> {
        Seq::new(self.entries@.len(), |i: int| self.entries@[i]@)
    }
}

impl SymbolTable {
    #[verifier::type_invariant]
    spec fn inv(&self) -> bool {
        distinct(self@)
    }

    /// The empty table.
    pub fn new() -> (table: SymbolTable)
        ensures
            table@ == Seq::<SymbolView>::empty(),
    {
        let table = SymbolTable { entries: Vec::new() };
        assert(table@ =~= Seq::<SymbolView>::empty());
        table
    }

    /// The number of names in the table, which are distinct.
    pub fn len(&self) -> (n: usize)
        ensures
            n == self@.len(),
            distinct(self@),
    {
        proof {
            use_type_invariant(self);
        }
        self.entries.len()
    }

    fn find(&self, name: &String) -> (at: Option<usize>)
        ensures
            match at {
                Some(i) => position(self@, name@, 0) == Some(i as int) && i < self.entries.len(),
                None => position(self@, name@, 0) is None,
            },
    {
        let mut i: usize = 0;
        while i < self.entries.len()
            invariant
                i <= self.entries.len(),
                position(self@, name@, 0) == position(self@, name@, i as int),
            decreases self.entries.len() - i,
        {
            if self.entries[i].name == *name {
                return Some(i);
            }
            i += 1;
        }
        None
    }

    /// What `name` is bound to, if it is bound.
    pub fn get(&self, name: &String) -> (binding: Option<Binding>)
        ensures
            binding == lookup(self@, name@),
    {
        match self.find(name) {
            Some(i) => Some(self.entries[i].binding),
            None => None,
        }
    }

    /// Binds `name` to `binding`, in place of what it was bound to before, if anything.
    pub fn set(&mut self, name: String, binding: Binding)
        ensures
            final(self)@ == bind(old(self)@, name@, binding),
    {
        proof {
            use_type_invariant(&*self);
            lemma_bind_distinct(self@, name@, binding);
        }
        let found = self.find(&name);
        let ghost before = self@;
        // The entries leave the table while they change.
        let mut entries: Vec<Symbol> = Vec::new();
        std::mem::swap(&mut self.entries, &mut entries);
        assert(self@ =~= Seq::<SymbolView>::empty());
        match found {
            Some(i) => {
                entries[i] = Symbol { name, binding };
            },
            None => {
                entries.push(Symbol { name, binding });
            },
        }
        assert(Seq::new(entries@.len(), |i: int| entries@[i]@) =~= bind(before, name@, binding));
        std::mem::swap(&mut self.entries, &mut entries);
    }
}

} // verus!

//! The function table: every declared function under its name. It is built
//! once, by the parser, and only read while a program runs.

use vstd::prelude::*;
use crate::common::{Func, FuncModel};
use crate::text::same_text;

verus! {

/// The declared functions, in the order they were added. A later entry of
/// the same name takes the place of an earlier one.
#[derive(Debug)]
pub struct FuncTable {
    pub entries: Vec<(String, Func)>,
}

/// The mapping from names to functions that a list of entries stands for.
pub open spec fn table_model(entries: Seq<(String, Func)>) -> Map<Seq<char>, FuncModel>
    decreases entries.len(),
{
    if entries.len() == 0 {
        Map::empty()
    } else {
        table_model(entries.drop_last()).insert(entries.last().0@, entries.last().1@)
    }
}

/// The last entry of a name is the one the table holds for it.
pub proof fn table_model_found(entries: Seq<(String, Func)>, i: int, name: Seq<char>)
    requires
        0 <= i < entries.len(),
        entries[i].0@ == name,
        forall|j: int| i < j < entries.len() ==> (#[trigger] entries[j]).0@ != name,
    ensures
        table_model(entries).contains_key(name),
        table_model(entries)[name] == entries[i].1@,
    decreases entries.len(),
{
    if i < entries.len() - 1 {
        assert(entries.last() == entries[entries.len() - 1]);
        table_model_found(entries.drop_last(), i, name);
    }
}

/// A name that no entry has is not in the table.
pub proof fn table_model_absent(entries: Seq<(String, Func)>, name: Seq<char>)
    requires
        forall|j: int| 0 <= j < entries.len() ==> (#[trigger] entries[j]).0@ != name,
    ensures
        !table_model(entries).contains_key(name),
    decreases entries.len(),
{
    if entries.len() > 0 {
        assert(entries.last() == entries[entries.len() - 1]);
        table_model_absent(entries.drop_last(), name);
    }
}

/// Every function in the table is one of the entries.
pub proof fn table_model_source(entries: Seq<(String, Func)>, name: Seq<char>)
    requires
        table_model(entries).contains_key(name),
    ensures
        exists|i: int|
            0 <= i < entries.len() && (#[trigger] entries[i]).0@ == name && table_model(
                entries,
            )[name] == entries[i].1@,
    decreases entries.len(),
{
    if entries.len() > 0 {
        let last = entries.len() - 1;
        if entries[last].0@ == name {
            assert(entries.last() == entries[last]);
        } else {
            table_model_source(entries.drop_last(), name);
            let i = choose|i: int|
                0 <= i < entries.drop_last().len() && (#[trigger] entries.drop_last()[i]).0@ == name
                    && table_model(entries.drop_last())[name] == entries.drop_last()[i].1@;
            assert(entries[i] == entries.drop_last()[i]);
        }
    }
}

impl View for FuncTable {
    type V = Map<Seq<char>, FuncModel>;

    open spec fn view(&self) -> Map<Seq<char>, FuncModel> {
        table_model(self.entries@)
    }
}

impl FuncTable {
    /// A table without functions.
    pub fn new() -> (table: FuncTable)
        ensures
            table@ == Map::<Seq<char>, FuncModel>::empty(),
    {
        FuncTable { entries: Vec::new() }
    }

    /// Puts `func` under `name`, in place of any function that had the
    /// name before, and says whether there was one.
    pub fn insert(&mut self, name: String, func: Func) -> (replaced: bool)
        ensures
            final(self)@ == old(self)@.insert(name@, func@),
            replaced == old(self)@.contains_key(name@),
    {
        let replaced = self.contains_key(name.as_str());
        let ghost before = self.entries@;
        self.entries.push((name, func));
        assert(self.entries@.drop_last() =~= before);
        replaced
    }

    /// The function declared under `name`, if there is one.
    pub fn get(&self, name: &str) -> (found: Option<&Func>)
        ensures
            found is Some <==> self@.contains_key(name@),
            found is Some ==> found->Some_0@ == self@[name@],
    {
        let mut i: usize = self.entries.len();
        while i > 0
            invariant
                i <= self.entries.len(),
                forall|j: int| i <= j < self.entries.len() ==> (#[trigger] self.entries@[j]).0@ != name@,
            decreases i,
        {
            i -= 1;
            if same_text(self.entries[i].0.as_str(), name) {
                proof {
                    table_model_found(self.entries@, i as int, name@);
                }
                return Some(&self.entries[i].1);
            }
        }
        proof {
            table_model_absent(self.entries@, name@);
        }
        None
    }

    /// Whether a function is declared under `name`.
    pub fn contains_key(&self, name: &str) -> (present: bool)
        ensures
            present == self@.contains_key(name@),
    {
        self.get(name).is_some()
    }
}

} // verus!

//! The functions of a program, found by name.
use vstd::prelude::*;

use super::function::{Function, FunctionView};
use super::grammar::{distinct_names, name_index, table_insert};
use crate::text::{chars_equal, str_chars, string_chars};

verus! {

/// The functions of a program, in the order they were first defined, no two
/// with the same name.
#[derive(Debug)]
pub struct FunctionTable {
    entries: Vec<Function>,
}

impl View for FunctionTable {
    type V = Seq<FunctionView>;

    closed spec fn view(&self) -> Seq<FunctionView> {
        self.entries@.map_values(|f: Function| f@)
    }
}

pub proof fn lemma_name_index(table: Seq<FunctionView>, name: Seq<char>)
    ensures
        -1 <= name_index(table, name) < table.len(),
        name_index(table, name) >= 0 ==> table[name_index(table, name)].name == name,
        name_index(table, name) < 0 ==> forall|i: int|
            0 <= i < table.len() ==> table[i].name != name,
    decreases table.len(),
{
    if table.len() > 0 {
        lemma_name_index(table.drop_last(), name);
        assert forall|i: int| 0 <= i < table.len() - 1 implies table[i] == table.drop_last()[i] by {}
    }
}

pub proof fn lemma_insert_distinct(table: Seq<FunctionView>, f: FunctionView)
    requires
        distinct_names(table),
    ensures
        distinct_names(table_insert(table, f)),
{
    lemma_name_index(table, f.name);
}

impl FunctionTable {
    #[verifier::type_invariant]
    closed spec fn inv(self) -> bool {
        distinct_names(self@)
    }

    /// An empty table.
    pub fn new() -> (r: FunctionTable)
        ensures
            r@ == Seq::<FunctionView>::empty(),
    {
        let r = FunctionTable { entries: Vec::new() };
        assert(r@ =~= Seq::<FunctionView>::empty());
        r
    }

    /// The number of functions.
    pub fn len(&self) -> (r: usize)
        ensures
            r == self@.len(),
    {
        self.entries.len()
    }

    /// The function at index `i`, in order of first definition.
    pub fn at(&self, i: usize) -> (r: &Function)
        requires
            i < self@.len(),
        ensures
            r@ == self@[i as int],
    {
        &self.entries[i]
    }

    /// The index of the function named `name`, if there is one.
    pub fn position(&self, name: &Vec<char>) -> (r: Option<usize>)
        ensures
            match r {
                Some(i) => i == name_index(self@, name@),
                None => name_index(self@, name@) < 0,
            },
    {
        let ghost s = self@;
        let mut i = self.entries.len();
        assert(s.take(i as int) =~= s);
        while i > 0
            invariant
                s == self@,
                i <= self.entries.len(),
                name_index(s, name@) == name_index(s.take(i as int), name@),
            decreases i,
        {
            assert(s.take(i as int).drop_last() =~= s.take(i - 1));
            if chars_equal(&string_chars(&self.entries[i - 1].name), name) {
                return Some(i - 1);
            }
            i = i - 1;
        }
        None
    }

    /// Whether a function named `name` is in the table.
    pub fn contains_key(&self, name: &str) -> (r: bool)
        ensures
            r == (name_index(self@, name@) >= 0),
            r == exists|i: int| 0 <= i < self@.len() && self@[i].name == name@,
    {
        proof {
            lemma_name_index(self@, name@);
        }
        self.position(&str_chars(name)).is_some()
    }

    /// The function named `name`, if there is one.
    pub fn get(&self, name: &str) -> (r: Option<&Function>)
        ensures
            match r {
                Some(f) => name_index(self@, name@) >= 0 && f@ == self@[name_index(self@, name@)],
                None => name_index(self@, name@) < 0,
            },
    {
        proof {
            lemma_name_index(self@, name@);
        }
        match self.position(&str_chars(name)) {
            Some(i) => Some(&self.entries[i]),
            None => None,
        }
    }

    /// Adds `f`, in place of the function of the same name if there is one.
    pub fn insert(&mut self, f: Function)
        ensures
            final(self)@ == table_insert(old(self)@, f@),
            distinct_names(final(self)@),
    {
        proof {
            use_type_invariant(&*self);
            lemma_name_index(self@, f@.name);
            lemma_insert_distinct(self@, f@);
        }
        let name = string_chars(&f.name);
        match self.position(&name) {
            Some(i) => {
                let ghost old_entries = self.entries@;
                let mut entries = Vec::new();
                std::mem::swap(&mut entries, &mut self.entries);
                entries.set(i, f);
                assert(entries@.map_values(|g: Function| g@) =~= table_insert(
                    old_entries.map_values(|g: Function| g@),
                    f@,
                ));
                self.entries = entries;
            },
            None => {
                let ghost old_entries = self.entries@;
                let mut entries = Vec::new();
                std::mem::swap(&mut entries, &mut self.entries);
                entries.push(f);
                assert(entries@.map_values(|g: Function| g@) =~= table_insert(
                    old_entries.map_values(|g: Function| g@),
                    f@,
                ));
                self.entries = entries;
            },
        }
    }
}


/// The function a table gives for a name, if it has one.
pub open spec fn lookup(table: Seq<FunctionView>, name: Seq<char>) -> Option<FunctionView> {
    let i = name_index(table, name);
    if i >= 0 {
        Some(table[i])
    } else {
        None
    }
}

/// After a function is inserted, looking its name up gives that function, and
/// looking up any other name gives what it gave before.
pub proof fn lemma_lookup_after_insert(table: Seq<FunctionView>, f: FunctionView, name: Seq<char>)
    ensures
        lookup(table_insert(table, f), name) == (if name == f.name {
            Some(f)
        } else {
            lookup(table, name)
        }),
{
    lemma_name_index(table, f.name);
    lemma_name_index(table, name);
    let i = name_index(table, f.name);
    if i >= 0 {
        lemma_index_after_update(table, i, f, name);
    } else {
        assert(table.push(f).drop_last() =~= table);
    }
}

/// Replacing the function at `i` by one of the same name moves no name.
proof fn lemma_index_after_update(table: Seq<FunctionView>, i: int, f: FunctionView, name: Seq<char>)
    requires
        0 <= i < table.len(),
        table[i].name == f.name,
    ensures
        name_index(table.update(i, f), name) == name_index(table, name),
    decreases table.len(),
{
    if table.len() > 0 && i < table.len() - 1 {
        assert(table.update(i, f).drop_last() =~= table.drop_last().update(i, f));
        lemma_index_after_update(table.drop_last(), i, f, name);
    } else if table.len() > 0 {
        assert(table.update(i, f).drop_last() =~= table.drop_last());
    }
}

} // verus!

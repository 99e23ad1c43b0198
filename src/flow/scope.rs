use crate::flow::ast::{keys, unique_names};
use crate::flow::literal::Literal;
use crate::flow::validate::{find_entry, find_name, lemma_find_bounds};
use vstd::prelude::*;

verus! {

/// The value of the first entry with the name.
pub open spec fn lookup(entries: Seq<(String, Literal)>, name: Seq<char>) -> Option<Literal> {
    if find_entry(entries, name) >= 0 {
        Some(entries[find_entry(entries, name)].1)
    } else {
        None
    }
}

/// The variables a function body sees: the globals, shared by all calls,
/// and the locals of this call. A global hides a local of the same name.
#[derive(Debug)]
pub struct Scope {
    pub globals: Vec<(String, Literal)>,
    pub locals: Vec<(String, Literal)>,
}

/// The entries after writing `value` under `key`: the entry with the name is
/// replaced, or a new one added at the end.
pub open spec fn write_entry(
    entries: Seq<(String, Literal)>,
    key: String,
    value: Literal,
) -> Seq<(String, Literal)> {
    if find_entry(entries, key@) >= 0 {
        entries.update(find_entry(entries, key@), (key, value))
    } else {
        entries.push((key, value))
    }
}

proof fn lemma_write_keeps_unique(entries: Seq<(String, Literal)>, key: String, value: Literal)
    requires
        unique_names(keys(entries)),
    ensures
        unique_names(keys(write_entry(entries, key, value))),
        find_entry(entries, key@) >= 0 ==> keys(write_entry(entries, key, value)) == keys(entries),
{
    lemma_find_bounds(entries, key@);
    let w = write_entry(entries, key, value);
    if find_entry(entries, key@) >= 0 {
        assert(keys(w) =~= keys(entries));
    } else {
        lemma_absent(entries, key@);
        assert forall|i: int, j: int| 0 <= i < j < keys(w).len() implies keys(w)[i] != keys(w)[j] by {
            if j == entries.len() {
                assert(keys(w)[j] == key@);
                assert(keys(w)[i] == entries[i].0@);
            } else {
                assert(keys(w)[i] == keys(entries)[i]);
                assert(keys(w)[j] == keys(entries)[j]);
            }
        }
    }
}

/// A name that `find_entry` does not find is on no entry.
pub proof fn lemma_absent<T>(entries: Seq<(String, T)>, name: Seq<char>)
    requires
        find_entry(entries, name) < 0,
    ensures
        forall|i: int| 0 <= i < entries.len() ==> entries[i].0@ != name,
    decreases entries.len(),
{
    if entries.len() > 0 {
        lemma_absent(entries.drop_last(), name);
        assert forall|i: int| 0 <= i < entries.len() implies entries[i].0@ != name by {
            if i < entries.len() - 1 {
                assert(entries.drop_last()[i] == entries[i]);
            }
        }
    }
}

/// Writes `value` under `key` in the entries.
fn write(entries: &mut Vec<(String, Literal)>, key: String, value: Literal)
    requires
        unique_names(keys(old(entries)@)),
    ensures
        final(entries)@ == write_entry(old(entries)@, key, value),
        unique_names(keys(final(entries)@)),
{
    proof {
        lemma_write_keeps_unique(entries@, key, value);
    }
    match find_name(entries, &key) {
        Some(i) => {
            entries.set(i, (key, value));
        },
        None => {
            entries.push((key, value));
        },
    }
}

impl Scope {
    /// Whether no name occurs twice among the globals, nor among the locals.
    pub open spec fn well_formed(&self) -> bool {
        unique_names(keys(self.globals@)) && unique_names(keys(self.locals@))
    }

    /// The value a read of the name sees: the global first, then the local.
    pub open spec fn read(&self, name: Seq<char>) -> Option<Literal> {
        match lookup(self.globals@, name) {
            Some(v) => Some(v),
            None => lookup(self.locals@, name),
        }
    }

    /// A scope with the given globals and no locals.
    pub fn new(globals: Vec<(String, Literal)>) -> (r: Scope)
        ensures
            r.globals == globals,
            r.locals@.len() == 0,
    {
        Scope { globals, locals: Vec::new() }
    }

    /// The value of a variable.
    pub fn get(&self, key: &String) -> (r: Option<&Literal>)
        ensures
            match r {
                Some(v) => self.read(key@) == Some(*v),
                None => self.read(key@) is None,
            },
    {
        match find_name(&self.globals, key) {
            Some(i) => Some(&self.globals[i].1),
            None => match find_name(&self.locals, key) {
                Some(i) => Some(&self.locals[i].1),
                None => None,
            },
        }
    }

    /// Writes a variable: a global of that name is updated; otherwise the
    /// local is updated or created.
    pub fn set(&mut self, key: String, value: Literal)
        requires
            old(self).well_formed(),
        ensures
            final(self).well_formed(),
            keys(final(self).globals@) == keys(old(self).globals@),
            find_entry(old(self).globals@, key@) >= 0 ==> final(self).globals@ == write_entry(
                old(self).globals@,
                key,
                value,
            ) && final(self).locals == old(self).locals,
            find_entry(old(self).globals@, key@) < 0 ==> final(self).globals == old(self).globals
                && final(self).locals@ == write_entry(old(self).locals@, key, value),
    {
        proof {
            lemma_write_keeps_unique(self.globals@, key, value);
        }
        match find_name(&self.globals, &key) {
            Some(_) => write(&mut self.globals, key, value),
            None => write(&mut self.locals, key, value),
        }
    }

    /// All variables, globals first, then the locals.
    pub fn to_map(&self) -> (r: Vec<(String, Literal)>)
        ensures
            r@ == self.globals@ + self.locals@,
    {
        let mut out: Vec<(String, Literal)> = Vec::new();
        let mut i: usize = 0;
        while i < self.globals.len()
            invariant
                i <= self.globals@.len(),
                out@ == self.globals@.subrange(0, i as int),
            decreases self.globals@.len() - i,
        {
            out.push((self.globals[i].0.clone(), self.globals[i].1.duplicate()));
            i = i + 1;
            assert(out@ =~= self.globals@.subrange(0, i as int));
        }
        let mut j: usize = 0;
        while j < self.locals.len()
            invariant
                j <= self.locals@.len(),
                out@ == self.globals@ + self.locals@.subrange(0, j as int),
            decreases self.locals@.len() - j,
        {
            out.push((self.locals[j].0.clone(), self.locals[j].1.duplicate()));
            j = j + 1;
            assert(out@ =~= self.globals@ + self.locals@.subrange(0, j as int));
        }
        assert(self.globals@.subrange(0, i as int) =~= self.globals@);
        assert(self.locals@.subrange(0, j as int) =~= self.locals@);
        out
    }
}

} // verus!

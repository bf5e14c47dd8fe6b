use vstd::prelude::*;

use crate::text::{chars_of, replace_all, replace_chars};

verus! {

/// A table of defined names, each with its value, in the order in which the
/// names were first defined.
pub type Defs = Seq<(Seq<char>, Seq<char>)>;

/// The position of `name` in `defs`, or -1 where it is not there.
pub open spec fn key_index(defs: Defs, name: Seq<char>) -> int
    decreases defs.len(),
{
    if defs.len() == 0 {
        -1
    } else if defs.last().0 == name {
        defs.len() - 1
    } else {
        key_index(defs.drop_last(), name)
    }
}

/// Whether `name` is defined.
pub open spec fn is_defined(defs: Defs, name: Seq<char>) -> bool {
    key_index(defs, name) >= 0
}

/// No name stands twice in the table.
pub open spec fn keys_unique(defs: Defs) -> bool {
    forall|i: int, j: int| 0 <= i < j < defs.len() ==> defs[i].0 != defs[j].0
}

/// `defs` with `name` set to `value`: a defined name keeps its place and takes
/// the new value; a new name goes last.
pub open spec fn define_in(defs: Defs, name: Seq<char>, value: Seq<char>) -> Defs {
    let i = key_index(defs, name);
    if i >= 0 {
        defs.update(i, (name, value))
    } else {
        defs.push((name, value))
    }
}

/// `defs` without `name`.
pub open spec fn undefine_in(defs: Defs, name: Seq<char>) -> Defs {
    let i = key_index(defs, name);
    if i >= 0 {
        defs.remove(i)
    } else {
        defs
    }
}

/// `code` with every occurrence of each defined name replaced by its value,
/// the names taken in table order.
pub open spec fn substitute(code: Seq<char>, defs: Defs) -> Seq<char>
    decreases defs.len(),
{
    if defs.len() == 0 {
        code
    } else {
        let before = substitute(code, defs.drop_last());
        replace_all(before, defs.last().0, defs.last().1)
    }
}

/// Where `key_index` points, the name stands; where it finds nothing, the name
/// is nowhere.
pub proof fn lemma_key_index(defs: Defs, name: Seq<char>)
    ensures
        -1 <= key_index(defs, name) < defs.len(),
        key_index(defs, name) >= 0 ==> defs[key_index(defs, name)].0 == name,
        key_index(defs, name) < 0 ==> forall|k: int| 0 <= k < defs.len() ==> defs[k].0 != name,
    decreases defs.len(),
{
    if defs.len() > 0 {
        lemma_key_index(defs.drop_last(), name);
        if key_index(defs, name) < 0 {
            assert forall|k: int| 0 <= k < defs.len() implies defs[k].0 != name by {
                if k < defs.len() - 1 {
                    assert(defs[k] == defs.drop_last()[k]);
                }
            }
        }
    }
}

/// In a table without repeated names, a name that stands at `k` is found at `k`.
pub proof fn lemma_key_index_unique(defs: Defs, name: Seq<char>, k: int)
    requires
        keys_unique(defs),
        0 <= k < defs.len(),
        defs[k].0 == name,
    ensures
        key_index(defs, name) == k,
{
    lemma_key_index(defs, name);
}

/// The symbol table of a session.
pub struct SymbolTable {
    entries: Vec<(String, String)>,
}

impl View for SymbolTable {
    type V = Defs;

    closed spec fn view(&self) -> Defs {
        self.entries@.map_values(|e: (String, String)| (e.0@, e.1@))
    }
}

impl SymbolTable {
    /// No name stands twice.
    pub open spec fn wf(&self) -> bool {
        keys_unique(self@)
    }

    /// An empty table.
    pub fn new() -> (r: SymbolTable)
        ensures
            r@ == Seq::<(Seq<char>, Seq<char>)>::empty(),
            r.wf(),
    {
        let r = SymbolTable { entries: Vec::new() };
        assert(r@ =~= Seq::<(Seq<char>, Seq<char>)>::empty());
        r
    }

    /// Where `name` stands, found from the end.
    fn find(&self, name: &String) -> (r: Option<usize>)
        ensures
            match r {
                Some(i) => i == key_index(self@, name@),
                None => key_index(self@, name@) == -1,
            },
    {
        let mut i: usize = self.entries.len();
        assert(self@.take(i as int) =~= self@);
        while i > 0
            invariant
                i <= self.entries.len(),
                key_index(self@, name@) == key_index(self@.take(i as int), name@),
            decreases i,
        {
            let ghost t = self@.take(i as int);
            assert(t.drop_last() =~= self@.take(i - 1));
            if self.entries[i - 1].0 == *name {
                return Some(i - 1);
            }
            i -= 1;
        }
        None
    }

    /// Whether `name` is defined.
    pub fn is_defined(&self, name: &String) -> (r: bool)
        ensures
            r == is_defined(self@, name@),
    {
        self.find(name).is_some()
    }

    /// Sets `name` to `value`; the last definition wins.
    pub fn define(&mut self, name: String, value: String)
        requires
            old(self).wf(),
        ensures
            final(self).wf(),
            final(self)@ == define_in(old(self)@, name@, value@),
    {
        let ghost n = name@;
        let ghost v = value@;
        proof {
            lemma_key_index(self@, n);
        }
        match self.find(&name) {
            Some(i) => {
                self.entries.set(i, (name, value));
                assert(self@ =~= old(self)@.update(i as int, (n, v)));
            },
            None => {
                self.entries.push((name, value));
                assert(self@ =~= old(self)@.push((n, v)));
            },
        }
    }

    /// Removes `name`, if it is defined.
    pub fn undefine(&mut self, name: &String)
        requires
            old(self).wf(),
        ensures
            final(self).wf(),
            final(self)@ == undefine_in(old(self)@, name@),
    {
        proof {
            lemma_key_index(self@, name@);
        }
        match self.find(name) {
            Some(i) => {
                self.entries.remove(i);
                assert(self@ =~= old(self)@.remove(i as int));
                assert forall|a: int, b: int| 0 <= a < b < self@.len() implies self@[a].0
                    != self@[b].0 by {
                    let a0 = if a < i { a } else { a + 1 };
                    let b0 = if b < i { b } else { b + 1 };
                    assert(self@[a] == old(self)@[a0]);
                    assert(self@[b] == old(self)@[b0]);
                }
            },
            None => {},
        }
    }

    /// `code` with every defined name replaced by its value.
    pub fn substitute(&self, code: &Vec<char>) -> (r: Vec<char>)
        ensures
            r@ == substitute(code@, self@),
    {
        let mut out: Vec<char> = Vec::new();
        let mut j: usize = 0;
        while j < code.len()
            invariant
                j <= code.len(),
                out@ == code@.take(j as int),
            decreases code.len() - j,
        {
            out.push(code[j]);
            j += 1;
        }
        assert(code@.take(code.len() as int) =~= code@);
        let mut k: usize = 0;
        assert(self@.take(0) =~= Seq::<(Seq<char>, Seq<char>)>::empty());
        while k < self.entries.len()
            invariant
                k <= self.entries.len(),
                out@ == substitute(code@, self@.take(k as int)),
            decreases self.entries.len() - k,
        {
            assert(self@.take(k + 1).drop_last() =~= self@.take(k as int));
            let name = chars_of(self.entries[k].0.as_str());
            let value = chars_of(self.entries[k].1.as_str());
            out = replace_chars(&out, &name, &value);
            k += 1;
        }
        assert(self@.take(self.entries.len() as int) =~= self@);
        out
    }
}

} // verus!

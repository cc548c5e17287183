//! The script table: each script's name with its text.

use vstd::prelude::*;
use vstd::string::*;

verus! {

/// The scripts of a manifest: each name with its text.
#[derive(Debug)]
pub struct ScriptTable {
    entries: Vec<(String, String)>,
}

/// The map that a list of distinct names with their texts stands for.
pub open spec fn table_map(entries: Seq<(String, String)>) -> Map<Seq<char>, Seq<char>>
    decreases entries.len(),
{
    if entries.len() == 0 {
        Map::empty()
    } else {
        table_map(entries.drop_last()).insert(entries.last().0@, entries.last().1@)
    }
}

/// Whether no name occurs twice among `entries`.
pub open spec fn distinct_names(entries: Seq<(String, String)>) -> bool {
    forall|i: int, j: int|
        0 <= i < j < entries.len() ==> (#[trigger] entries[i]).0@ != (#[trigger] entries[j]).0@
}

/// The names of a table's map are the names of its entries, and each entry
/// of a list without repeated names is found under its name.
pub proof fn lemma_table_map(entries: Seq<(String, String)>)
    ensures
        forall|name: Seq<char>| #[trigger]
            table_map(entries).contains_key(name) <==> exists|i: int|
                0 <= i < entries.len() && (#[trigger] entries[i]).0@ == name,
        distinct_names(entries) ==> forall|i: int|
            0 <= i < entries.len() ==> table_map(entries)[(#[trigger] entries[i]).0@]
                == entries[i].1@,
        table_map(entries).dom().finite(),
        distinct_names(entries) ==> table_map(entries).dom().len() == entries.len(),
    decreases entries.len(),
{
    if entries.len() > 0 {
        let front = entries.drop_last();
        lemma_table_map(front);
        let last = entries.last();
        assert forall|name: Seq<char>| #[trigger]
            table_map(entries).contains_key(name) <==> exists|i: int|
                0 <= i < entries.len() && (#[trigger] entries[i]).0@ == name by {
            if table_map(entries).contains_key(name) {
                if name == last.0@ {
                    assert(entries[entries.len() - 1].0@ == name);
                } else {
                    assert(table_map(front).contains_key(name));
                    let i = choose|i: int| 0 <= i < front.len() && (#[trigger] front[i]).0@ == name;
                    assert(entries[i].0@ == name);
                }
            }
            if exists|i: int| 0 <= i < entries.len() && (#[trigger] entries[i]).0@ == name {
                let i = choose|i: int| 0 <= i < entries.len() && (#[trigger] entries[i]).0@ == name;
                if i < front.len() {
                    assert(front[i].0@ == name);
                }
            }
        }
        if distinct_names(entries) {
            assert(distinct_names(front)) by {
                assert forall|i: int, j: int| 0 <= i < j < front.len() implies (#[trigger] front[i]).0@
                    != (#[trigger] front[j]).0@ by {
                    assert(entries[i].0@ != entries[j].0@);
                }
            }
            assert forall|i: int| 0 <= i < entries.len() implies table_map(entries)[(
            #[trigger] entries[i]).0@] == entries[i].1@ by {
                if i < front.len() {
                    assert(entries[i].0@ != entries[entries.len() - 1].0@);
                    assert(front[i] == entries[i]);
                }
            }
            assert(!table_map(front).contains_key(last.0@)) by {
                if table_map(front).contains_key(last.0@) {
                    let i = choose|i: int| 0 <= i < front.len() && (#[trigger] front[i]).0@ == last.0@;
                    assert(entries[i].0@ == entries[entries.len() - 1].0@);
                }
            }
        }
    }
}

impl View for ScriptTable {
    type V = Map<Seq<char>, Seq<char>>;

    closed spec fn view(&self) -> Map<Seq<char>, Seq<char>> {
        table_map(self.entries@)
    }
}

impl ScriptTable {
    /// The table's invariant: no name is stored twice.
    pub closed spec fn wf(&self) -> bool {
        distinct_names(self.entries@)
    }

    /// A table without scripts.
    pub fn new() -> (r: Self)
        ensures
            r.wf(),
            r@ == Map::<Seq<char>, Seq<char>>::empty(),
    {
        ScriptTable { entries: Vec::new() }
    }

    /// The number of scripts.
    pub fn len(&self) -> (r: usize)
        requires
            self.wf(),
        ensures
            self@.dom().finite(),
            r == self@.dom().len(),
    {
        proof {
            lemma_table_map(self.entries@);
        }
        self.entries.len()
    }

    /// The text of the script called `name`. Names are compared exactly,
    /// character by character.
    pub fn get(&self, name: &str) -> (r: Option<&String>)
        requires
            self.wf(),
        ensures
            r is Some <==> self@.contains_key(name@),
            r is Some ==> r->Some_0@ == self@[name@],
    {
        let wanted = String::from_str(name);
        let mut i: usize = 0;
        while i < self.entries.len()
            invariant
                i <= self.entries.len(),
                wanted@ == name@,
                self.wf(),
                forall|j: int| 0 <= j < i ==> (#[trigger] self.entries@[j]).0@ != name@,
            decreases self.entries.len() - i,
        {
            if self.entries[i].0 == wanted {
                proof {
                    lemma_table_map(self.entries@);
                }
                assert(self.entries@[i as int].0@ == name@);
                return Some(&self.entries[i].1);
            }
            i += 1;
        }
        proof {
            lemma_table_map(self.entries@);
        }
        None
    }

    /// Whether there is a script called `name`.
    pub fn contains_key(&self, name: &str) -> (r: bool)
        requires
            self.wf(),
        ensures
            r == self@.contains_key(name@),
    {
        self.get(name).is_some()
    }

    /// Adds the script `name` with `text`, unless the table has a script of
    /// that name already.
    pub fn insert_new(&mut self, name: String, text: String)
        requires
            old(self).wf(),
        ensures
            final(self).wf(),
            old(self)@.contains_key(name@) ==> final(self)@ == old(self)@,
            !old(self)@.contains_key(name@) ==> final(self)@ == old(self)@.insert(name@, text@),
    {
        if self.contains_key(name.as_str()) {
            return ;
        }
        proof {
            lemma_table_map(self.entries@);
        }
        let ghost before = self.entries@;
        self.entries.push((name, text));
        proof {
            assert(self.entries@.drop_last() =~= before);
            assert forall|i: int, j: int| 0 <= i < j < self.entries@.len() implies (
            #[trigger] self.entries@[i]).0@ != (#[trigger] self.entries@[j]).0@ by {
                assert(before[i] == self.entries@[i]);
                if j < before.len() {
                    assert(before[j] == self.entries@[j]);
                }
            }
        }
    }

    /// The names of all scripts, each once.
    pub fn names(&self) -> (r: Vec<String>)
        requires
            self.wf(),
        ensures
            r@.len() == self@.dom().len(),
            forall|i: int, j: int| 0 <= i < j < r@.len() ==> r@[i]@ != r@[j]@,
            forall|name: Seq<char>| #[trigger]
                self@.contains_key(name) <==> exists|i: int| 0 <= i < r@.len() && r@[i]@ == name,
            forall|i: int| 0 <= i < r@.len() ==> self@.contains_key(#[trigger] r@[i]@),
    {
        proof {
            lemma_table_map(self.entries@);
        }
        let mut r: Vec<String> = Vec::new();
        let mut i: usize = 0;
        while i < self.entries.len()
            invariant
                i <= self.entries.len(),
                r@.len() == i,
                forall|j: int| 0 <= j < i ==> r@[j]@ == (#[trigger] self.entries@[j]).0@,
            decreases self.entries.len() - i,
        {
            r.push(self.entries[i].0.clone());
            i += 1;
        }
        proof {
            assert forall|name: Seq<char>| #[trigger]
                self@.contains_key(name) <==> exists|i: int|
                    0 <= i < r@.len() && r@[i]@ == name by {
                if self@.contains_key(name) {
                    let i = choose|i: int|
                        0 <= i < self.entries@.len() && (#[trigger] self.entries@[i]).0@ == name;
                    assert(r@[i]@ == name);
                }
                if exists|i: int| 0 <= i < r@.len() && r@[i]@ == name {
                    let i = choose|i: int| 0 <= i < r@.len() && r@[i]@ == name;
                    assert(self.entries@[i].0@ == name);
                }
            }
            assert forall|i: int, j: int| 0 <= i < j < r@.len() implies r@[i]@ != r@[j]@ by {
                assert(self.entries@[i].0@ != self.entries@[j].0@);
            }
        }
        r
    }
}

} // verus!

//! The assembler's symbol table: a name-to-address mapping, pre-seeded
//! with the fixed register and segment aliases, growing by insertion
//! (last write wins) and never shrinking.

use vstd::prelude::*;

use crate::text::str_eq;

verus! {

pub struct SymbolTable {
    entries: Vec<(String, u16)>,
}

/// The mapping an entry list denotes: later entries override earlier ones.
pub open spec fn map_of(s: Seq<(String, u16)>) -> Map<Seq<char>, u16>
    decreases s.len(),
{
    if s.len() == 0 {
        Map::empty()
    } else {
        map_of(s.drop_last()).insert(s.last().0@, s.last().1)
    }
}

/// The 23 fixed entries every fresh table holds: the virtual registers,
/// the segment-base aliases, and the two device addresses.
pub open spec fn predefined_symbols() -> Map<Seq<char>, u16> {
    Map::empty().insert("SP"@, 0).insert("LCL"@, 1).insert("ARG"@, 2).insert("THIS"@, 3).insert(
        "THAT"@,
        4,
    ).insert("R0"@, 0).insert("R1"@, 1).insert("R2"@, 2).insert("R3"@, 3).insert("R4"@, 4).insert(
        "R5"@,
        5,
    ).insert("R6"@, 6).insert("R7"@, 7).insert("R8"@, 8).insert("R9"@, 9).insert(
        "R10"@,
        10,
    ).insert("R11"@, 11).insert("R12"@, 12).insert("R13"@, 13).insert("R14"@, 14).insert(
        "R15"@,
        15,
    ).insert("SCREEN"@, 16384).insert("KBD"@, 24576)
}

proof fn lemma_map_of_match(s: Seq<(String, u16)>, k: Seq<char>, i: int)
    requires
        0 <= i < s.len(),
        s[i].0@ == k,
        forall|j: int| i < j < s.len() ==> s[j].0@ != k,
    ensures
        map_of(s).contains_key(k),
        map_of(s)[k] == s[i].1,
    decreases s.len(),
{
    if i == s.len() - 1 {
    } else {
        assert(forall|j: int| i < j < s.drop_last().len() ==> s.drop_last()[j].0@ != k);
        lemma_map_of_match(s.drop_last(), k, i);
    }
}

proof fn lemma_map_of_no_match(s: Seq<(String, u16)>, k: Seq<char>)
    requires
        forall|j: int| 0 <= j < s.len() ==> s[j].0@ != k,
    ensures
        !map_of(s).contains_key(k),
    decreases s.len(),
{
    if s.len() > 0 {
        lemma_map_of_no_match(s.drop_last(), k);
    }
}

impl View for SymbolTable {
    type V = Map<Seq<char>, u16>;

    closed spec fn view(&self) -> Map<Seq<char>, u16> {
        map_of(self.entries@)
    }
}

impl SymbolTable {
    /// A fresh table holding exactly the predefined entries.
    pub fn new() -> (r: SymbolTable)
        ensures
            r@ == predefined_symbols(),
    {
        let mut table = SymbolTable { entries: Vec::new() };
        table.add_entry("SP", 0);
        table.add_entry("LCL", 1);
        table.add_entry("ARG", 2);
        table.add_entry("THIS", 3);
        table.add_entry("THAT", 4);
        table.add_entry("R0", 0);
        table.add_entry("R1", 1);
        table.add_entry("R2", 2);
        table.add_entry("R3", 3);
        table.add_entry("R4", 4);
        table.add_entry("R5", 5);
        table.add_entry("R6", 6);
        table.add_entry("R7", 7);
        table.add_entry("R8", 8);
        table.add_entry("R9", 9);
        table.add_entry("R10", 10);
        table.add_entry("R11", 11);
        table.add_entry("R12", 12);
        table.add_entry("R13", 13);
        table.add_entry("R14", 14);
        table.add_entry("R15", 15);
        table.add_entry("SCREEN", 16384);
        table.add_entry("KBD", 24576);
        table
    }

    /// Binds `symbol` to `value`, overwriting any earlier binding.
    pub fn add_entry(&mut self, symbol: &str, value: u16)
        ensures
            final(self)@ == old(self)@.insert(symbol@, value),
    {
        let owned = String::from_str(symbol);
        self.entries.push((owned, value));
        proof {
            assert(self.entries@.drop_last() =~= old(self).entries@);
        }
    }

    /// Whether `name` is bound in the table.
    pub fn contains(&self, name: &String) -> (r: bool)
        ensures
            r == self@.contains_key(name@),
    {
        self.get_address(name).is_some()
    }

    /// The address bound to `name`, or `None` when `name` is absent.
    pub fn get_address(&self, name: &String) -> (r: Option<&u16>)
        ensures
            match r {
                Some(v) => self@.contains_key(name@) && *v == self@[name@],
                None => !self@.contains_key(name@),
            },
    {
        let n = self.entries.len();
        let mut i: usize = n;
        while i > 0
            invariant
                i <= n,
                n == self.entries.len(),
                forall|j: int| i <= j < n ==> self.entries@[j].0@ != name@,
            decreases i,
        {
            i -= 1;
            let entry = &self.entries[i];
            if str_eq(entry.0.as_str(), name.as_str()) {
                proof {
                    lemma_map_of_match(self.entries@, name@, i as int);
                }
                return Some(&entry.1);
            }
        }
        proof {
            lemma_map_of_no_match(self.entries@, name@);
        }
        None
    }
}

} // verus!

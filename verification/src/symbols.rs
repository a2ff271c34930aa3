//! The symbol table, and the two ways in which a symbol is looked up in it.

use vstd::prelude::*;

verus! {

/// What a lookup consults: the defined symbols, and whether a missing one
/// counts as zero.
pub struct Lookup {
    pub table: Map<Seq<char>, u32>,
    pub permissive: bool,
}

impl Lookup {
    /// The value that a lookup of `name` gives.
    pub open spec fn get(self, name: Seq<char>) -> Option<u32> {
        if self.table.contains_key(name) {
            Some(self.table[name])
        } else if self.permissive {
            Some(0u32)
        } else {
            None
        }
    }

    /// The lookup in the same table that fails on a missing symbol.
    pub open spec fn failing(self) -> Lookup {
        Lookup { table: self.table, permissive: false }
    }
}

/// A capability to look symbols up.
pub trait SymbolMap {
    /// What the lookups of this map consult.
    spec fn lookup(&self) -> Lookup;

    /// The value of `s` as this map gives it.
    fn get(&self, s: &str) -> (res: Option<u32>)
        ensures
            res == self.lookup().get(s@),
    ;

    /// Whether a missing symbol is looked up as zero.
    fn is_permissive(&self) -> (res: bool)
        ensures
            res == self.lookup().permissive,
    ;

    /// The value of `s` in the table beneath this map, `None` where it is
    /// not defined.
    fn get_failing(&self, s: &str) -> (res: Option<u32>)
        ensures
            res == self.lookup().failing().get(s@),
    ;
}

/// A map that looks a missing symbol up as zero.
pub struct NonFailingMap<M>(pub M);

/// A map that consults the table beneath another map, and fails on a
/// missing symbol.
pub struct FailingMap<M>(pub M);

/// The table that a list of definitions stands for: a later definition of a
/// name replaces an earlier one.
pub open spec fn table_of(entries: Seq<(String, u32)>) -> Map<Seq<char>, u32>
    decreases entries.len(),
{
    if entries.len() == 0 {
        Map::empty()
    } else {
        table_of(entries.drop_last()).insert(entries.last().0@, entries.last().1)
    }
}

/// A mapping from symbol names to 32-bit addresses in which a name is
/// defined at most once.
pub struct SymbolTable {
    entries: Vec<(String, u32)>,
}

impl View for SymbolTable {
    type V = Map<Seq<char>, u32>;

    closed spec fn view(&self) -> Map<Seq<char>, u32> {
        table_of(self.entries@)
    }
}

impl SymbolTable {
    /// The table without any symbol.
    pub fn new() -> (res: Self)
        ensures
            res@ == Map::<Seq<char>, u32>::empty(),
    {
        SymbolTable { entries: Vec::new() }
    }

    /// The address of `name`, where it is defined.
    pub fn find(&self, name: &str) -> (res: Option<u32>)
        ensures
            res == (Lookup { table: self@, permissive: false }).get(name@),
    {
        let key = name.to_owned();
        let mut i: usize = self.entries.len();
        assert(self.entries@.take(i as int) =~= self.entries@);
        while i > 0
            invariant
                i <= self.entries.len(),
                key@ == name@,
                self@.contains_key(name@) == table_of(self.entries@.take(i as int)).contains_key(
                    name@,
                ),
                self@.contains_key(name@) ==> self@[name@] == table_of(
                    self.entries@.take(i as int),
                )[name@],
            decreases i,
        {
            assert(self.entries@.take(i as int).drop_last() =~= self.entries@.take(i - 1));
            i -= 1;
            if self.entries[i].0 == key {
                return Some(self.entries[i].1);
            }
        }
        None
    }

    /// Whether `name` is defined.
    pub fn contains_key(&self, name: &str) -> (res: bool)
        ensures
            res == self@.contains_key(name@),
    {
        self.find(name).is_some()
    }

    /// Defines `name` as `address`, unless it is defined already.
    pub fn insert(&mut self, name: String, address: u32) -> (res: bool)
        ensures
            res == !old(self)@.contains_key(name@),
            res ==> final(self)@ == old(self)@.insert(name@, address),
            !res ==> final(self)@ == old(self)@,
    {
        if self.contains_key(name.as_str()) {
            false
        } else {
            self.entries.push((name, address));
            assert(self.entries@.drop_last() =~= old(self).entries@);
            true
        }
    }
}

impl SymbolMap for SymbolTable {
    open spec fn lookup(&self) -> Lookup {
        Lookup { table: self@, permissive: false }
    }

    fn get(&self, s: &str) -> (res: Option<u32>) {
        self.find(s)
    }

    fn is_permissive(&self) -> (res: bool) {
        false
    }

    fn get_failing(&self, s: &str) -> (res: Option<u32>) {
        self.find(s)
    }
}

impl<'a, M: SymbolMap> SymbolMap for NonFailingMap<&'a M> {
    open spec fn lookup(&self) -> Lookup {
        Lookup { table: self.0.lookup().table, permissive: true }
    }

    fn get(&self, s: &str) -> (res: Option<u32>) {
        match self.0.get_failing(s) {
            Some(v) => Some(v),
            None => Some(0),
        }
    }

    fn is_permissive(&self) -> (res: bool) {
        true
    }

    fn get_failing(&self, s: &str) -> (res: Option<u32>) {
        self.0.get_failing(s)
    }
}

impl<'a, M: SymbolMap> SymbolMap for FailingMap<&'a M> {
    open spec fn lookup(&self) -> Lookup {
        self.0.lookup().failing()
    }

    fn get(&self, s: &str) -> (res: Option<u32>) {
        self.0.get_failing(s)
    }

    fn is_permissive(&self) -> (res: bool) {
        false
    }

    fn get_failing(&self, s: &str) -> (res: Option<u32>) {
        self.0.get_failing(s)
    }
}

} // verus!

//! The symbol table: a run-scoped mapping from variable name to declared
//! type name, threaded explicitly through the single translation pass.
//! Redeclaring a name silently overwrites its type.

use crate::text::{chars_of, vec_eq_range};
use vstd::prelude::*;
use vstd::string::StringExecFns;

verus! {

/// The mapping denoted by a sequence of (name, type) pairs, later pairs
/// overriding earlier ones.
pub open spec fn map_of(s: Seq<(Seq<char>, Seq<char>)>) -> Map<Seq<char>, Seq<char>>
    decreases s.len(),
{
    if s.len() == 0 {
        Map::empty()
    } else {
        map_of(s.drop_last()).insert(s.last().0, s.last().1)
    }
}

/// A run-scoped mapping from variable name to its declared type name.
pub struct SymbolTable {
    entries: Vec<(Vec<char>, String)>,
}

impl View for SymbolTable {
    type V = Map<Seq<char>, Seq<char>>;

    closed spec fn view(&self) -> Map<Seq<char>, Seq<char>> {
        map_of(self.entries@.map(|i: int, e: (Vec<char>, String)| (e.0@, e.1@)))
    }
}

impl SymbolTable {
    /// An empty table: the state at the start of every translation run.
    pub fn new() -> (r: Self)
        ensures
            r@ == Map::<Seq<char>, Seq<char>>::empty(),
    {
        let r = SymbolTable { entries: Vec::new() };
        proof {
            assert(r.entries@.map(|i: int, e: (Vec<char>, String)| (e.0@, e.1@)) =~= Seq::<(
                Seq<char>,
                Seq<char>,
            )>::empty());
        }
        r
    }

    /// Records that `name` is declared with type `ty`, overwriting any
    /// earlier declaration of the same name.
    pub fn insert_chars(&mut self, name: Vec<char>, ty: String) -> (nothing: ())
        ensures
            final(self)@ == old(self)@.insert(name@, ty@),
    {
        let ghost before = self.entries@.map(|i: int, e: (Vec<char>, String)| (e.0@, e.1@));
        let ghost key = name@;
        let ghost val = ty@;
        self.entries.push((name, ty));
        proof {
            let after = self.entries@.map(|i: int, e: (Vec<char>, String)| (e.0@, e.1@));
            assert(after.drop_last() =~= before);
            assert(after.last() == (key, val));
        }
    }

    /// Records a declaration given as string slices.
    pub fn insert(&mut self, name: &str, ty: &str) -> (nothing: ())
        ensures
            final(self)@ == old(self)@.insert(name@, ty@),
    {
        let n = chars_of(name);
        let t = String::from_str(ty);
        self.insert_chars(n, t)
    }

    /// Looks up the declared type of the name spelled by `v[lo..hi]`.
    pub fn find_range<'a>(&'a self, v: &Vec<char>, lo: usize, hi: usize) -> (r: Option<&'a String>)
        requires
            lo <= hi <= v@.len(),
        ensures
            match r {
                Some(t) => self@.contains_key(v@.subrange(lo as int, hi as int)) && t@ == self@[
                    v@.subrange(lo as int, hi as int)
                ],
                None => !self@.contains_key(v@.subrange(lo as int, hi as int)),
            },
    {
        let ghost key = v@.subrange(lo as int, hi as int);
        let ghost m = self.entries@.map(|i: int, e: (Vec<char>, String)| (e.0@, e.1@));
        let mut i: usize = self.entries.len();
        proof {
            assert(m.take(i as int) =~= m);
        }
        while i > 0
            invariant
                0 <= i <= self.entries@.len(),
                lo <= hi <= v@.len(),
                key == v@.subrange(lo as int, hi as int),
                m == self.entries@.map(|j: int, e: (Vec<char>, String)| (e.0@, e.1@)),
                self@ == map_of(m),
                map_of(m).contains_key(key) == map_of(m.take(i as int)).contains_key(key),
                map_of(m).contains_key(key) ==> map_of(m)[key] == map_of(m.take(i as int))[key],
            decreases i,
        {
            i = i - 1;
            if vec_eq_range(&self.entries[i].0, v, lo, hi) {
                proof {
                    assert(m.take(i + 1).drop_last() =~= m.take(i as int));
                    assert(m.take(i + 1).last() == (key, self.entries@[i as int].1@));
                }
                return Some(&self.entries[i].1);
            }
            proof {
                assert(m.take(i + 1).drop_last() =~= m.take(i as int));
                assert(m.take(i + 1).last().0 != key);
            }
        }
        proof {
            assert(m.take(0) =~= Seq::<(Seq<char>, Seq<char>)>::empty());
        }
        None
    }

    /// Whether the name spelled by `v[lo..hi]` has been declared.
    pub fn contains_range(&self, v: &Vec<char>, lo: usize, hi: usize) -> (r: bool)
        requires
            lo <= hi <= v@.len(),
        ensures
            r == self@.contains_key(v@.subrange(lo as int, hi as int)),
    {
        match self.find_range(v, lo, hi) {
            Some(_) => true,
            None => false,
        }
    }

    /// Looks up the declared type of `name`.
    pub fn get<'a>(&'a self, name: &str) -> (r: Option<&'a String>)
        ensures
            match r {
                Some(t) => self@.contains_key(name@) && t@ == self@[name@],
                None => !self@.contains_key(name@),
            },
    {
        let n = chars_of(name);
        proof {
            assert(n@.subrange(0, n@.len() as int) =~= name@);
        }
        let hi = n.len();
        self.find_range(&n, 0, hi)
    }
}

} // verus!

//! Interned identifiers.

use vstd::prelude::*;

verus! {

/// An interned string, named by its index in the interner.
#[derive(Clone, Copy, Debug, PartialEq, Eq, Structural)]
pub struct Symbol {
    pub index: u32,
}

/// The table of interned strings. A string is stored once; its symbol is its
/// position in the table.
pub struct Interner {
    strings: Vec<Vec<u8>>,
}

/// Whether two byte strings hold the same bytes.
pub fn bytes_equal(a: &[u8], b: &[u8]) -> (r: bool)
    ensures
        r == (a@ == b@),
{
    if a.len() != b.len() {
        return false;
    }
    let mut i: usize = 0;
    while i < a.len()
        invariant
            a@.len() == b@.len(),
            i <= a@.len(),
            forall|j: int| 0 <= j < i ==> a@[j] == b@[j],
        decreases a@.len() - i,
    {
        if a[i] != b[i] {
            return false;
        }
        i += 1;
    }
    assert(a@ =~= b@);
    true
}

/// A fresh vector with the bytes of `a`.
pub fn bytes_copy(a: &[u8]) -> (r: Vec<u8>)
    ensures
        r@ == a@,
{
    let mut r: Vec<u8> = Vec::new();
    let mut i: usize = 0;
    while i < a.len()
        invariant
            i <= a@.len(),
            r@ == a@.subrange(0, i as int),
        decreases a@.len() - i,
    {
        r.push(a[i]);
        assert(r@ =~= a@.subrange(0, i + 1));
        i += 1;
    }
    assert(r@ =~= a@);
    r
}

impl Interner {
    /// The interned strings, in the order of their symbols.
    pub closed spec fn names(&self) -> Seq<Seq<u8>> {
        Seq::new(self.strings@.len(), |i: int| self.strings@[i]@)
    }

    /// No string is stored twice, and every position fits a symbol.
    pub closed spec fn wf(&self) -> bool {
        &&& self.strings@.len() <= u32::MAX
        &&& forall|i: int, j: int|
            0 <= i < j < self.strings@.len() ==> self.strings@[i]@ != self.strings@[j]@
    }

    /// The number of interned strings.
    pub closed spec fn count(&self) -> usize {
        self.strings.len()
    }

    /// Whether `symbol` names a string of this interner.
    pub open spec fn resolves(&self, symbol: Symbol) -> bool {
        symbol.index < self.count()
    }

    /// An interner without strings.
    pub fn new() -> (r: Interner)
        ensures
            r.wf(),
            r.count() == 0,
            r.names() == Seq::<Seq<u8>>::empty(),
    {
        let r = Interner { strings: Vec::new() };
        assert(r.names() =~= Seq::<Seq<u8>>::empty());
        r
    }

    /// How many strings are interned.
    pub fn len(&self) -> (n: usize)
        ensures
            n == self.count(),
            n == self.names().len(),
    {
        self.strings.len()
    }

    /// The symbol of `name`, if it is interned.
    pub fn get(&self, name: &[u8]) -> (r: Option<Symbol>)
        requires
            self.wf(),
        ensures
            match r {
                Some(s) => self.resolves(s) && self.names()[s.index as int] == name@,
                None => !self.names().contains(name@),
            },
    {
        let mut i: usize = 0;
        while i < self.strings.len()
            invariant
                self.wf(),
                i <= self.strings@.len(),
                forall|j: int| 0 <= j < i ==> self.strings@[j]@ != name@,
            decreases self.strings@.len() - i,
        {
            if bytes_equal(self.strings[i].as_slice(), name) {
                return Some(Symbol { index: i as u32 });
            }
            i += 1;
        }
        None
    }

    /// The symbol of `name`, interning it first where it is new. `None` when
    /// the table is full and `name` is not in it.
    pub fn get_or_intern(&mut self, name: &[u8]) -> (r: Option<Symbol>)
        requires
            old(self).wf(),
        ensures
            final(self).wf(),
            final(self).count() == final(self).names().len(),
            old(self).names().contains(name@) ==> final(self).names() == old(self).names(),
            !old(self).names().contains(name@) && old(self).names().len() < u32::MAX
                ==> final(self).names() == old(self).names().push(name@),
            !old(self).names().contains(name@) && old(self).names().len() >= u32::MAX
                ==> final(self).names() == old(self).names() && r is None,
            r matches Some(s) ==> final(self).resolves(s) && final(self).names()[s.index as int]
                == name@,
            r is None ==> !final(self).names().contains(name@),
    {
        match self.get(name) {
            Some(s) => Some(s),
            None => {
                let n = self.strings.len();
                if n >= u32::MAX as usize {
                    return None;
                }
                let copy = bytes_copy(name);
                self.strings.push(copy);
                assert(self.names() =~= old(self).names().push(name@));
                assert forall|i: int, j: int|
                    0 <= i < j < self.strings@.len() implies self.strings@[i]@
                    != self.strings@[j]@ by {
                    if j == n {
                        assert(old(self).names()[i] == self.strings@[i]@);
                    }
                }
                Some(Symbol { index: n as u32 })
            },
        }
    }

    /// The string that `symbol` names.
    pub fn name(&self, symbol: Symbol) -> (r: &[u8])
        requires
            self.resolves(symbol),
        ensures
            r@ == self.names()[symbol.index as int],
    {
        self.strings[symbol.index as usize].as_slice()
    }

    /// The string that `symbol` names, if there is one.
    pub fn resolve(&self, symbol: Symbol) -> (r: Option<&[u8]>)
        ensures
            self.resolves(symbol) ==> r is Some && r->Some_0@ == self.names()[symbol.index as int],
            !self.resolves(symbol) ==> r is None,
    {
        let i = symbol.index as usize;
        if i < self.strings.len() {
            Some(self.strings[i].as_slice())
        } else {
            None
        }
    }
}

} // verus!

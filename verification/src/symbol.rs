//! Symbols name positions or values inside relocatable objects. A symbol is
//! either *local* (anonymous, distinguished by a counter value) or *global*
//! (a named identifier, distinguished by its name).

use vstd::prelude::*;

verus! {

/// The mathematical identity of a symbol: what two symbols are compared by.
pub enum SymbolKey {
    Local(u64),
    Global(Seq<char>),
}

#[derive(Debug)]
enum SymbolInner {
    Local(u64),
    Global(String),
}

/// A reference identity used to name a position (relative) or a value
/// (absolute) in a relocatable object. Symbols carry no location themselves.
#[derive(Debug)]
pub struct Symbol {
    inner: SymbolInner,
}

impl View for Symbol {
    type V = SymbolKey;

    closed spec fn view(&self) -> SymbolKey {
        match self.inner {
            SymbolInner::Local(idx) => SymbolKey::Local(idx),
            SymbolInner::Global(ref name) => SymbolKey::Global(name@),
        }
    }
}

/// A source of fresh local symbol identities. Each call of
/// [`Symbol::new_local`] draws the next counter value, so symbols drawn from
/// one counter are pairwise distinct.
pub struct SymbolCounter {
    next: u64,
}

impl SymbolCounter {
    pub closed spec fn spec_next(&self) -> u64 {
        self.next
    }

    pub fn new() -> (r: SymbolCounter)
        ensures
            r.spec_next() == 0,
    {
        SymbolCounter { next: 0 }
    }

    /// The next counter value a local symbol would draw.
    pub fn value(&self) -> (r: u64)
        ensures
            r == self.spec_next(),
    {
        self.next
    }
}

impl Symbol {
    pub fn new_global(sym: String) -> (r: Symbol)
        ensures
            r@ == SymbolKey::Global(sym@),
    {
        Symbol { inner: SymbolInner::Global(sym) }
    }

    /// Draws a fresh local symbol from the counter: distinct from every
    /// earlier and every later draw from the same counter. A process must
    /// use a single counter for everything it intends to assemble
    /// together: draws from two separate counters repeat the same
    /// identities.
    pub fn new_local(counter: &mut SymbolCounter) -> (r: Symbol)
        requires
            old(counter).spec_next() < u64::MAX,
        ensures
            r@ == SymbolKey::Local(old(counter).spec_next()),
            final(counter).spec_next() == old(counter).spec_next() + 1,
    {
        let idx = counter.next;
        counter.next = counter.next + 1;
        Symbol { inner: SymbolInner::Local(idx) }
    }
}

impl Clone for Symbol {
    fn clone(&self) -> (r: Self)
        ensures
            r@ == self@,
    {
        match &self.inner {
            SymbolInner::Local(idx) => Symbol { inner: SymbolInner::Local(*idx) },
            SymbolInner::Global(name) => Symbol { inner: SymbolInner::Global(name.clone()) },
        }
    }
}

impl PartialEq for Symbol {
    fn eq(&self, other: &Self) -> (r: bool)
    {
        match &self.inner {
            SymbolInner::Local(a) => match &other.inner {
                SymbolInner::Local(b) => *a == *b,
                SymbolInner::Global(_) => false,
            },
            SymbolInner::Global(a) => match &other.inner {
                SymbolInner::Local(_) => false,
                SymbolInner::Global(b) => a.eq(b),
            },
        }
    }
}

impl vstd::std_specs::cmp::PartialEqSpecImpl for Symbol {
    open spec fn obeys_eq_spec() -> bool {
        true
    }

    open spec fn eq_spec(&self, other: &Self) -> bool {
        self@ == other@
    }
}

impl Eq for Symbol {}

} // verus!

//! The relocatable-object model: a byte buffer together with its symbol
//! definitions and its pending relocations. Relocatables compose by
//! concatenation with correct offset renumbering, and are assembled into a
//! final byte vector by resolving every symbolic reference.

use vstd::prelude::*;

use crate::reloc::{
    spec_apply_absolute, spec_apply_relative, InvalidRelocationReason, RelocationKind,
};
use crate::symbol::{Symbol, SymbolKey};

verus! {

/// `2^e`, as a mathematical integer.
pub open spec fn pow2i(e: nat) -> int
    decreases e,
{
    if e == 0 {
        1
    } else {
        2 * pow2i((e - 1) as nat)
    }
}

/// How many zero bytes must follow `len` bytes of data so that the next
/// byte falls on a `2^alignment` boundary.
pub open spec fn pad_for(len: int, alignment: nat) -> int {
    (pow2i(alignment) - len % pow2i(alignment)) % pow2i(alignment)
}

/// `len` rounded up to a multiple of `2^alignment`.
pub open spec fn padded_len(len: int, alignment: nat) -> int {
    len + pad_for(len, alignment)
}

/// A pending edit: patch the field at `location` in the owning
/// relocatable's data, by strategy `kind`, with the resolved value of
/// `symbol` plus `addend`.
#[derive(Debug)]
pub struct Relocation {
    pub location: usize,
    pub kind: RelocationKind,
    pub symbol: Symbol,
    pub addend: isize,
}

/// The mathematical image of a [`Relocation`].
pub struct RelocationModel {
    pub location: int,
    pub kind: RelocationKind,
    pub symbol: SymbolKey,
    pub addend: int,
}

impl View for Relocation {
    type V = RelocationModel;

    open spec fn view(&self) -> RelocationModel {
        RelocationModel {
            location: self.location as int,
            kind: self.kind,
            symbol: self.symbol@,
            addend: self.addend as int,
        }
    }
}

impl Relocation {
    pub fn new(location: usize, kind: RelocationKind, symbol: Symbol, addend: isize) -> (r: Self)
        ensures
            r@ == (RelocationModel {
                location: location as int,
                kind,
                symbol: symbol@,
                addend: addend as int,
            }),
    {
        Relocation { location, kind, symbol, addend }
    }
}

impl Clone for Relocation {
    fn clone(&self) -> (r: Self)
        ensures
            r@ == self@,
    {
        Relocation {
            location: self.location,
            kind: self.kind,
            symbol: self.symbol.clone(),
            addend: self.addend,
        }
    }
}

/// The composable unit: raw data, a power-of-two minimum alignment (stored
/// as its log2), symbol definitions relative to the start of the data,
/// absolute symbol definitions, and pending relocations into the data.
#[derive(Debug)]
pub struct Relocatable {
    pub data: Vec<u8>,
    pub alignment: u32,
    pub symbols: Vec<(Symbol, usize)>,
    pub abs_symbols: Vec<(Symbol, isize)>,
    pub relocations: Vec<Relocation>,
}

/// The mathematical image of a [`Relocatable`].
#[verifier::ext_equal]
pub struct RelocatableModel {
    pub data: Seq<u8>,
    pub alignment: nat,
    pub symbols: Seq<(SymbolKey, int)>,
    pub abs_symbols: Seq<(SymbolKey, int)>,
    pub relocations: Seq<RelocationModel>,
}

/// The images of a sequence of in-data symbol definitions.
pub open spec fn sym_defs_view(s: Seq<(Symbol, usize)>) -> Seq<(SymbolKey, int)> {
    s.map_values(|p: (Symbol, usize)| (p.0@, p.1 as int))
}

/// The images of a sequence of absolute symbol definitions.
pub open spec fn abs_defs_view(s: Seq<(Symbol, isize)>) -> Seq<(SymbolKey, int)> {
    s.map_values(|p: (Symbol, isize)| (p.0@, p.1 as int))
}

/// The images of a sequence of relocations.
pub open spec fn relocs_view(s: Seq<Relocation>) -> Seq<RelocationModel> {
    s.map_values(|r: Relocation| r@)
}

impl View for Relocatable {
    type V = RelocatableModel;

    open spec fn view(&self) -> RelocatableModel {
        RelocatableModel {
            data: self.data@,
            alignment: self.alignment as nat,
            symbols: sym_defs_view(self.symbols@),
            abs_symbols: abs_defs_view(self.abs_symbols@),
            relocations: relocs_view(self.relocations@),
        }
    }
}

proof fn lemma_sym_defs_push(s: Seq<(Symbol, usize)>, x: (Symbol, usize))
    ensures
        sym_defs_view(s.push(x)) == sym_defs_view(s).push((x.0@, x.1 as int)),
{
    assert(sym_defs_view(s.push(x)) =~= sym_defs_view(s).push((x.0@, x.1 as int)));
}

proof fn lemma_abs_defs_push(s: Seq<(Symbol, isize)>, x: (Symbol, isize))
    ensures
        abs_defs_view(s.push(x)) == abs_defs_view(s).push((x.0@, x.1 as int)),
{
    assert(abs_defs_view(s.push(x)) =~= abs_defs_view(s).push((x.0@, x.1 as int)));
}

proof fn lemma_relocs_push(s: Seq<Relocation>, x: Relocation)
    ensures
        relocs_view(s.push(x)) == relocs_view(s).push(x@),
{
    assert(relocs_view(s.push(x)) =~= relocs_view(s).push(x@));
}

impl RelocatableModel {
    /// Well-formedness: the alignment exponent is meaningful on the target,
    /// every symbol definition lies within the data (the end inclusive),
    /// and every relocation's patched field lies within the data.
    pub open spec fn wf(self) -> bool {
        &&& self.alignment < 64
        &&& forall|i: int|
            0 <= i < self.symbols.len() ==> 0 <= (#[trigger] self.symbols[i]).1 <= self.data.len()
        &&& forall|i: int|
            0 <= i < self.relocations.len() ==> 0 <= (#[trigger] self.relocations[i]).location
                && self.relocations[i].location + self.relocations[i].kind.width()
                <= self.data.len()
    }

    /// The empty relocatable: no data, byte alignment, nothing defined,
    /// nothing pending.
    pub open spec fn empty() -> RelocatableModel {
        RelocatableModel {
            data: Seq::empty(),
            alignment: 0,
            symbols: Seq::empty(),
            abs_symbols: Seq::empty(),
            relocations: Seq::empty(),
        }
    }
}

proof fn lemma_shl1_is_pow2(e: u64)
    requires
        e < 64,
    ensures
        (1u64 << e) as int == pow2i(e as nat),
        (1u64 << e) >= 1,
    decreases e,
{
    if e == 0 {
        assert((1u64 << 0u64) == 1) by (bit_vector);
    } else {
        lemma_shl1_is_pow2((e - 1) as u64);
        assert((1u64 << e) == 2 * (1u64 << ((e - 1) as u64)) && (1u64 << ((e - 1) as u64)) >= 1) by (bit_vector)
            requires
                0 < e < 64,
        ;
    }
}

/// A relocatable that is only raw bytes: no alignment, no symbols, no
/// relocations.
pub open spec fn plain_model(data: Seq<u8>) -> RelocatableModel {
    RelocatableModel {
        data,
        alignment: 0,
        symbols: Seq::empty(),
        abs_symbols: Seq::empty(),
        relocations: Seq::empty(),
    }
}

/// Concatenation `a + b`: pad `a`'s data up to `b`'s alignment, append
/// `b`'s data, keep the larger alignment, append `b`'s absolute symbols
/// unchanged, and append `b`'s symbols and relocations with their offsets
/// shifted by the padded length of `a`.
pub open spec fn model_concat(a: RelocatableModel, b: RelocatableModel) -> RelocatableModel {
    let lhs_len = padded_len(a.data.len() as int, b.alignment);
    RelocatableModel {
        data: a.data + Seq::new(pad_for(a.data.len() as int, b.alignment) as nat, |i: int| 0u8)
            + b.data,
        alignment: if a.alignment >= b.alignment {
            a.alignment
        } else {
            b.alignment
        },
        symbols: a.symbols + b.symbols.map_values(|p: (SymbolKey, int)| (p.0, p.1 + lhs_len)),
        abs_symbols: a.abs_symbols + b.abs_symbols,
        relocations: a.relocations + b.relocations.map_values(
            |r: RelocationModel|
                RelocationModel {
                    location: r.location + lhs_len,
                    kind: r.kind,
                    symbol: r.symbol,
                    addend: r.addend,
                },
        ),
    }
}

impl Relocatable {
    /// An empty relocatable.
    pub fn empty() -> (r: Relocatable)
        ensures
            r@ == RelocatableModel::empty(),
            r@.wf(),
    {
        let r = Relocatable {
            data: Vec::new(),
            alignment: 0,
            symbols: Vec::new(),
            abs_symbols: Vec::new(),
            relocations: Vec::new(),
        };
        proof {
            assert(r@ =~~= RelocatableModel::empty());
        }
        r
    }

    /// A relocatable that is just raw bytes: byte alignment, no symbols,
    /// no relocations.
    pub fn from_bytes(data: Vec<u8>) -> (r: Relocatable)
        ensures
            r@ == plain_model(data@),
            r@.wf(),
    {
        let r = Relocatable {
            data,
            alignment: 0,
            symbols: Vec::new(),
            abs_symbols: Vec::new(),
            relocations: Vec::new(),
        };
        proof {
            assert(r@.symbols =~= Seq::<(SymbolKey, int)>::empty());
            assert(r@.abs_symbols =~= Seq::<(SymbolKey, int)>::empty());
            assert(r@.relocations =~= Seq::<RelocationModel>::empty());
        }
        r
    }

    /// The length of the raw data.
    pub fn len(&self) -> (r: usize)
        ensures
            r == self@.data.len(),
    {
        self.data.len()
    }

    /// Defines `sym` at `offset` within this relocatable's data.
    pub fn push_symbol(&mut self, sym: Symbol, offset: usize)
        requires
            offset <= old(self)@.data.len(),
        ensures
            final(self)@ == (RelocatableModel {
                symbols: old(self)@.symbols.push((sym@, offset as int)),
                ..old(self)@
            }),
    {
        self.symbols.push((sym, offset));
        proof {
            assert(self@.symbols =~= old(self)@.symbols.push((sym@, offset as int)));
            assert(self@ =~~= (RelocatableModel {
                symbols: old(self)@.symbols.push((sym@, offset as int)),
                ..old(self)@
            }));
        }
    }

    /// Defines `sym` with the absolute value `value`.
    pub fn push_abs_symbol(&mut self, sym: Symbol, value: isize)
        ensures
            final(self)@ == (RelocatableModel {
                abs_symbols: old(self)@.abs_symbols.push((sym@, value as int)),
                ..old(self)@
            }),
    {
        self.abs_symbols.push((sym, value));
        proof {
            assert(self@.abs_symbols =~= old(self)@.abs_symbols.push((sym@, value as int)));
            assert(self@ =~~= (RelocatableModel {
                abs_symbols: old(self)@.abs_symbols.push((sym@, value as int)),
                ..old(self)@
            }));
        }
    }

    /// Concatenates `rhs` onto `self`: exactly [`model_concat`].
    /// `rhs` is only read; concatenation copies it.
    #[verifier::loop_isolation(false)]
    pub fn add_assign(&mut self, rhs: &Relocatable)
        requires
            old(self)@.wf(),
            rhs@.wf(),
            padded_len(old(self)@.data.len() as int, rhs@.alignment) + rhs@.data.len()
                <= usize::MAX,
        ensures
            final(self)@ == model_concat(old(self)@, rhs@),
            final(self)@.wf(),
    {
        let ghost rhs0 = rhs@;
        let align64: u64 = 1u64 << rhs.alignment;
        proof {
            lemma_shl1_is_pow2(rhs.alignment as u64);
        }
        let len0 = self.data.len();
        let rem: u64 = (len0 as u64) % align64;
        let pad64: u64 = (align64 - rem) % align64;
        proof {
            assert(pad64 == pad_for(old(self)@.data.len() as int, rhs0.alignment));
        }
        let pad: usize = pad64 as usize;

        let ghost padded = old(self)@.data + Seq::new(pad as nat, |i: int| 0u8);
        let mut k: usize = 0;
        while k < pad
            invariant
                k <= pad,
                self.data@ == old(self)@.data + Seq::new(k as nat, |i: int| 0u8),
                self.alignment == old(self).alignment,
                self.symbols == old(self).symbols,
                self.abs_symbols == old(self).abs_symbols,
                self.relocations == old(self).relocations,
            decreases pad - k,
        {
            self.data.push(0u8);
            k = k + 1;
            proof {
                assert(self.data@ =~= old(self)@.data + Seq::new(k as nat, |i: int| 0u8));
            }
        }

        let lhs_len = self.data.len();
        proof {
            assert(lhs_len == padded_len(old(self)@.data.len() as int, rhs0.alignment));
        }

        let n_data = rhs.data.len();
        let mut k: usize = 0;
        while k < n_data
            invariant
                k <= n_data,
                self.data@ == padded + rhs0.data.take(k as int),
                self.alignment == old(self).alignment,
                self.symbols == old(self).symbols,
                self.abs_symbols == old(self).abs_symbols,
                self.relocations == old(self).relocations,
            decreases n_data - k,
        {
            self.data.push(rhs.data[k]);
            k = k + 1;
            proof {
                assert(self.data@ =~= padded + rhs0.data.take(k as int));
            }
        }
        proof {
            assert(rhs0.data.take(n_data as int) =~= rhs0.data);
        }

        if rhs.alignment > self.alignment {
            self.alignment = rhs.alignment;
        }

        let ghost data_snap = self.data@;
        let ghost align_snap = self.alignment;
        let ghost abs0 = old(self)@.abs_symbols;
        proof {
            assert(self@.abs_symbols =~= abs0 + rhs0.abs_symbols.take(0));
        }
        let n_abs = rhs.abs_symbols.len();
        let mut i: usize = 0;
        while i < n_abs
            invariant
                i <= n_abs,
                n_abs == rhs.abs_symbols@.len(),
                self@.abs_symbols == abs0 + rhs0.abs_symbols.take(i as int),
                self.data@ == data_snap,
                self.alignment == align_snap,
                self.symbols == old(self).symbols,
                self.relocations == old(self).relocations,
            decreases n_abs - i,
        {
            let pair: &(Symbol, isize) = &rhs.abs_symbols[i];
            let sym = pair.0.clone();
            let val = pair.1;
            proof {
                assert(rhs0.abs_symbols[i as int]
                    == (rhs.abs_symbols@[i as int].0@, rhs.abs_symbols@[i as int].1 as int));
            }
            let ghost prev_abs = self.abs_symbols@;
            self.abs_symbols.push((sym, val));
            i = i + 1;
            proof {
                lemma_abs_defs_push(prev_abs, (sym, val));
                assert(self@.abs_symbols =~= abs0 + rhs0.abs_symbols.take(i as int));
            }
        }
        proof {
            assert(rhs0.abs_symbols.take(n_abs as int) =~= rhs0.abs_symbols);
        }

        let ghost shifted_symbols = rhs0.symbols.map_values(
            |p: (SymbolKey, int)| (p.0, p.1 + lhs_len as int),
        );
        let ghost symbols0 = old(self)@.symbols;
        let ghost abs_snap = self.abs_symbols@;
        proof {
            assert forall|j: int| 0 <= j < rhs.symbols@.len() implies (
            #[trigger] rhs.symbols@[j]).1 + lhs_len <= usize::MAX by {
                assert(rhs0.symbols[j] == (rhs.symbols@[j].0@, rhs.symbols@[j].1 as int));
                assert(rhs0.symbols[j].1 <= rhs0.data.len());
            }
            assert(self@.symbols =~= symbols0 + shifted_symbols.take(0));
        }
        let n_syms = rhs.symbols.len();
        let mut i: usize = 0;
        while i < n_syms
            invariant
                i <= n_syms,
                n_syms == rhs.symbols@.len(),
                self@.symbols == symbols0 + shifted_symbols.take(i as int),
                self.data@ == data_snap,
                self.alignment == align_snap,
                self.abs_symbols@ == abs_snap,
                self.relocations == old(self).relocations,
            decreases n_syms - i,
        {
            let pair: &(Symbol, usize) = &rhs.symbols[i];
            proof {
                assert(*pair == rhs.symbols@[i as int]);
            }
            let sym = pair.0.clone();
            let ghost sv = sym@;
            let loc = pair.1;
            proof {
                assert(rhs0.symbols[i as int]
                    == (rhs.symbols@[i as int].0@, rhs.symbols@[i as int].1 as int));
                assert(shifted_symbols[i as int] == (sv, loc + lhs_len as int));
            }
            let ghost prev_syms = self.symbols@;
            self.symbols.push((sym, loc + lhs_len));
            i = i + 1;
            proof {
                lemma_sym_defs_push(prev_syms, (sym, (loc + lhs_len) as usize));
                assert(self@.symbols =~= symbols0 + shifted_symbols.take(i as int));
            }
        }
        proof {
            assert(shifted_symbols.take(n_syms as int) =~= shifted_symbols);
        }

        let ghost shifted_relocs = rhs0.relocations.map_values(
            |r: RelocationModel|
                RelocationModel {
                    location: r.location + lhs_len as int,
                    kind: r.kind,
                    symbol: r.symbol,
                    addend: r.addend,
                },
        );
        let ghost relocs0 = old(self)@.relocations;
        let ghost syms_snap = self.symbols@;
        proof {
            assert forall|j: int| 0 <= j < rhs.relocations@.len() implies (
            #[trigger] rhs.relocations@[j]).location + lhs_len <= usize::MAX by {
                assert(rhs0.relocations[j] == rhs.relocations@[j]@);
                assert(rhs0.relocations[j].location + rhs0.relocations[j].kind.width()
                    <= rhs0.data.len());
            }
            assert(self@.relocations =~= relocs0 + shifted_relocs.take(0));
        }
        let n_relocs = rhs.relocations.len();
        let mut i: usize = 0;
        while i < n_relocs
            invariant
                i <= n_relocs,
                n_relocs == rhs.relocations@.len(),
                self@.relocations == relocs0 + shifted_relocs.take(i as int),
                self.data@ == data_snap,
                self.alignment == align_snap,
                self.abs_symbols@ == abs_snap,
                self.symbols@ == syms_snap,
            decreases n_relocs - i,
        {
            let r = &rhs.relocations[i];
            let shifted = Relocation {
                location: r.location + lhs_len,
                kind: r.kind,
                symbol: r.symbol.clone(),
                addend: r.addend,
            };
            let ghost shv = shifted@;
            proof {
                assert(rhs0.relocations[i as int] == rhs.relocations@[i as int]@);
                assert(shifted_relocs[i as int] == shv);
            }
            let ghost prev_relocs = self.relocations@;
            self.relocations.push(shifted);
            i = i + 1;
            proof {
                lemma_relocs_push(prev_relocs, shifted);
                assert(self@.relocations =~= relocs0 + shifted_relocs.take(i as int));
            }
        }
        proof {
            assert(shifted_relocs.take(n_relocs as int) =~= shifted_relocs);
            assert(self@.data =~= old(self)@.data + Seq::new(
                pad_for(old(self)@.data.len() as int, rhs0.alignment) as nat,
                |i: int| 0u8,
            ) + rhs0.data);
            assert(self@ =~~= model_concat(old(self)@, rhs0));
            let m = model_concat(old(self)@, rhs0);
            assert forall|j: int| 0 <= j < m.symbols.len() implies 0 <= (
            #[trigger] m.symbols[j]).1 <= m.data.len() by {
                if j >= old(self)@.symbols.len() {
                    assert(rhs0.symbols[j - old(self)@.symbols.len()].1 <= rhs0.data.len());
                }
            }
            assert forall|j: int| 0 <= j < m.relocations.len() implies 0 <= (
            #[trigger] m.relocations[j]).location && m.relocations[j].location
                + m.relocations[j].kind.width() <= m.data.len() by {
                if j >= old(self)@.relocations.len() {
                    let r0 = rhs0.relocations[j - old(self)@.relocations.len()];
                    assert(r0.location + r0.kind.width() <= rhs0.data.len());
                }
            }
        }
    }

    /// Concatenation as a value: `self` followed by `rhs`.
    pub fn add(self, rhs: &Relocatable) -> (r: Relocatable)
        requires
            self@.wf(),
            rhs@.wf(),
            padded_len(self@.data.len() as int, rhs@.alignment) + rhs@.data.len() <= usize::MAX,
        ensures
            r@ == model_concat(self@, rhs@),
            r@.wf(),
    {
        let mut s = self;
        s.add_assign(rhs);
        s
    }

    /// Records a pending relocation into this relocatable's data.
    pub fn push_relocation(&mut self, reloc: Relocation)
        requires
            reloc@.location + reloc@.kind.width() <= old(self)@.data.len(),
        ensures
            final(self)@ == (RelocatableModel {
                relocations: old(self)@.relocations.push(reloc@),
                ..old(self)@
            }),
    {
        let ghost rm = reloc@;
        self.relocations.push(reloc);
        proof {
            assert(self@.relocations =~= old(self)@.relocations.push(rm));
            assert(self@ =~~= (RelocatableModel {
                relocations: old(self)@.relocations.push(rm),
                ..old(self)@
            }));
        }
    }
}

impl Default for Relocatable {
    fn default() -> (r: Relocatable)
        ensures
            r@ == RelocatableModel::empty(),
            r@.wf(),
    {
        Relocatable::empty()
    }
}

/// How a symbol resolves during assembly: to an offset into the assembled
/// data, or to an absolute value.
pub enum SymbolValue {
    Relative(int),
    Absolute(int),
}

/// An error found while assembling a relocatable.
#[derive(Debug)]
pub enum AssembleError {
    UndefinedSymbol(Symbol),
    MultiplyDefinedSymbol(Symbol),
    InvalidRelocation(InvalidRelocationReason),
}

/// The mathematical image of an [`AssembleError`].
pub enum AssembleErrorKey {
    UndefinedSymbol(SymbolKey),
    MultiplyDefinedSymbol(SymbolKey),
    InvalidRelocation(InvalidRelocationReason),
}

impl View for AssembleError {
    type V = AssembleErrorKey;

    open spec fn view(&self) -> AssembleErrorKey {
        match self {
            AssembleError::UndefinedSymbol(s) => AssembleErrorKey::UndefinedSymbol(s@),
            AssembleError::MultiplyDefinedSymbol(s) => AssembleErrorKey::MultiplyDefinedSymbol(s@),
            AssembleError::InvalidRelocation(reason) => AssembleErrorKey::InvalidRelocation(
                *reason,
            ),
        }
    }
}

impl Clone for AssembleError {
    fn clone(&self) -> (r: Self)
        ensures
            r@ == self@,
    {
        match self {
            AssembleError::UndefinedSymbol(s) => AssembleError::UndefinedSymbol(s.clone()),
            AssembleError::MultiplyDefinedSymbol(s) => AssembleError::MultiplyDefinedSymbol(
                s.clone(),
            ),
            AssembleError::InvalidRelocation(reason) => AssembleError::InvalidRelocation(*reason),
        }
    }
}

/// Enters the definitions `defs` into the resolution map `m`, in order,
/// as relative values if `relative` (else absolute); fails with the first
/// symbol that is already present.
pub open spec fn spec_add_defs(
    defs: Seq<(SymbolKey, int)>,
    relative: bool,
    m: Map<SymbolKey, SymbolValue>,
) -> Result<Map<SymbolKey, SymbolValue>, SymbolKey>
    decreases defs.len(),
{
    if defs.len() == 0 {
        Ok(m)
    } else {
        let d = defs[0];
        if m.dom().contains(d.0) {
            Err(d.0)
        } else {
            spec_add_defs(
                defs.skip(1),
                relative,
                m.insert(
                    d.0,
                    if relative {
                        SymbolValue::Relative(d.1)
                    } else {
                        SymbolValue::Absolute(d.1)
                    },
                ),
            )
        }
    }
}

/// The resolution map of a relocatable: every in-data symbol maps to its
/// offset, every absolute symbol to its value; a symbol defined twice is
/// the error.
pub open spec fn spec_resolution(m: RelocatableModel) -> Result<
    Map<SymbolKey, SymbolValue>,
    SymbolKey,
> {
    match spec_add_defs(m.symbols, true, Map::empty()) {
        Ok(map) => spec_add_defs(m.abs_symbols, false, map),
        Err(k) => Err(k),
    }
}

/// Applies the relocations in order to `data`, resolving each symbol
/// through `map`: an undefined symbol, an addend that leaves the machine's
/// range, or a field that cannot be patched stops the assembly.
pub open spec fn spec_apply_relocations(
    relocs: Seq<RelocationModel>,
    map: Map<SymbolKey, SymbolValue>,
    data: Seq<u8>,
) -> Result<Seq<u8>, AssembleErrorKey>
    decreases relocs.len(),
{
    if relocs.len() == 0 {
        Ok(data)
    } else {
        let r = relocs[0];
        if !map.dom().contains(r.symbol) {
            Err(AssembleErrorKey::UndefinedSymbol(r.symbol))
        } else {
            match map[r.symbol] {
                SymbolValue::Relative(v) => {
                    let resolved = v + r.addend;
                    if resolved < 0 || resolved > usize::MAX {
                        Err(
                            AssembleErrorKey::InvalidRelocation(
                                InvalidRelocationReason::AddendOutOfRange,
                            ),
                        )
                    } else {
                        match spec_apply_relative(r.kind, data, r.location, resolved) {
                            Ok(d) => spec_apply_relocations(relocs.skip(1), map, d),
                            Err(reason) => Err(AssembleErrorKey::InvalidRelocation(reason)),
                        }
                    }
                },
                SymbolValue::Absolute(v) => {
                    let resolved = v + r.addend;
                    if resolved < isize::MIN || resolved > isize::MAX {
                        Err(
                            AssembleErrorKey::InvalidRelocation(
                                InvalidRelocationReason::AddendOutOfRange,
                            ),
                        )
                    } else {
                        match spec_apply_absolute(r.kind, data, r.location, resolved) {
                            Ok(d) => spec_apply_relocations(relocs.skip(1), map, d),
                            Err(reason) => Err(AssembleErrorKey::InvalidRelocation(reason)),
                        }
                    }
                },
            }
        }
    }
}

/// What assembling a relocatable produces: the patched bytes, or the first
/// error.
pub open spec fn spec_assemble(m: RelocatableModel) -> Result<Seq<u8>, AssembleErrorKey> {
    match spec_resolution(m) {
        Err(k) => Err(AssembleErrorKey::MultiplyDefinedSymbol(k)),
        Ok(map) => spec_apply_relocations(m.relocations, map, m.data),
    }
}

#[derive(Clone, Copy, Debug)]
enum ResolvedValue {
    Relative(usize),
    Absolute(isize),
}

impl View for ResolvedValue {
    type V = SymbolValue;

    closed spec fn view(&self) -> SymbolValue {
        match self {
            ResolvedValue::Relative(v) => SymbolValue::Relative(*v as int),
            ResolvedValue::Absolute(v) => SymbolValue::Absolute(*v as int),
        }
    }
}

/// The map that an association list denotes: a later entry for the same
/// key overrides an earlier one.
spec fn assoc_map(entries: Seq<(Symbol, ResolvedValue)>) -> Map<SymbolKey, SymbolValue>
    decreases entries.len(),
{
    if entries.len() == 0 {
        Map::empty()
    } else {
        assoc_map(entries.drop_last()).insert(entries.last().0@, entries.last().1@)
    }
}

spec fn assoc_distinct(entries: Seq<(Symbol, ResolvedValue)>) -> bool {
    forall|i: int, j: int|
        0 <= i < j < entries.len() ==> (#[trigger] entries[i]).0@ != (#[trigger] entries[j]).0@
}

proof fn lemma_assoc_props(entries: Seq<(Symbol, ResolvedValue)>)
    ensures
        forall|k: SymbolKey|
            assoc_map(entries).dom().contains(k) <==> exists|i: int|
                0 <= i < entries.len() && (#[trigger] entries[i]).0@ == k,
        assoc_distinct(entries) ==> forall|i: int|
            0 <= i < entries.len() ==> assoc_map(entries)[(#[trigger] entries[i]).0@]
                == entries[i].1@,
    decreases entries.len(),
{
    if entries.len() > 0 {
        lemma_assoc_props(entries.drop_last());
        assert forall|k: SymbolKey| assoc_map(entries).dom().contains(k) implies exists|i: int|
            0 <= i < entries.len() && (#[trigger] entries[i]).0@ == k by {
            if k == entries.last().0@ {
                assert(entries[entries.len() - 1].0@ == k);
            } else {
                assert(assoc_map(entries.drop_last()).dom().contains(k));
                let i = choose|i: int|
                    0 <= i < entries.drop_last().len() && (#[trigger] entries.drop_last()[i]).0@
                        == k;
                assert(entries[i].0@ == k);
            }
        }
        assert forall|k: SymbolKey|
            (exists|i: int| 0 <= i < entries.len() && (#[trigger] entries[i]).0@ == k) implies
            assoc_map(entries).dom().contains(k) by {
            let i = choose|i: int| 0 <= i < entries.len() && (#[trigger] entries[i]).0@ == k;
            if i < entries.len() - 1 {
                assert(entries.drop_last()[i].0@ == k);
            }
        }
        if assoc_distinct(entries) {
            assert(assoc_distinct(entries.drop_last()));
            assert forall|i: int| 0 <= i < entries.len() implies assoc_map(entries)[(
            #[trigger] entries[i]).0@] == entries[i].1@ by {
                if i < entries.len() - 1 {
                    assert(entries.drop_last()[i] == entries[i]);
                    assert(entries[i].0@ != entries.last().0@);
                }
            }
        }
    }
}

/// Whether `sym` is a key of the association list.
#[verifier::loop_isolation(false)]
fn assoc_contains(entries: &Vec<(Symbol, ResolvedValue)>, sym: &Symbol) -> (b: bool)
    ensures
        b == assoc_map(entries@).dom().contains(sym@),
{
    proof {
        lemma_assoc_props(entries@);
    }
    let n = entries.len();
    let mut i: usize = 0;
    while i < n
        invariant
            i <= n,
            n == entries@.len(),
            forall|j: int| 0 <= j < i ==> (#[trigger] entries@[j]).0@ != sym@,
        decreases n - i,
    {
        if entries[i].0.eq(sym) {
            proof {
                assert(entries@[i as int].0@ == sym@);
            }
            return true;
        }
        i = i + 1;
    }
    proof {
        if assoc_map(entries@).dom().contains(sym@) {
            let w = choose|w: int| 0 <= w < entries@.len() && (#[trigger] entries@[w]).0@ == sym@;
            assert(false);
        }
    }
    false
}

/// Looks `sym` up in the association list.
#[verifier::loop_isolation(false)]
fn assoc_get(entries: &Vec<(Symbol, ResolvedValue)>, sym: &Symbol) -> (r: Option<ResolvedValue>)
    requires
        assoc_distinct(entries@),
    ensures
        match r {
            Some(v) => assoc_map(entries@).dom().contains(sym@) && assoc_map(entries@)[sym@]
                == v@,
            None => !assoc_map(entries@).dom().contains(sym@),
        },
{
    proof {
        lemma_assoc_props(entries@);
    }
    let n = entries.len();
    let mut i: usize = 0;
    while i < n
        invariant
            i <= n,
            n == entries@.len(),
            forall|j: int| 0 <= j < i ==> (#[trigger] entries@[j]).0@ != sym@,
        decreases n - i,
    {
        if entries[i].0.eq(sym) {
            proof {
                assert(entries@[i as int].0@ == sym@);
                assert(assoc_map(entries@)[entries@[i as int].0@] == entries@[i as int].1@);
            }
            return Some(entries[i].1);
        }
        i = i + 1;
    }
    proof {
        if assoc_map(entries@).dom().contains(sym@) {
            let w = choose|w: int| 0 <= w < entries@.len() && (#[trigger] entries@[w]).0@ == sym@;
            assert(false);
        }
    }
    None
}

proof fn lemma_assoc_push(entries: Seq<(Symbol, ResolvedValue)>, e: (Symbol, ResolvedValue))
    ensures
        assoc_map(entries.push(e)) == assoc_map(entries).insert(e.0@, e.1@),
{
    assert(entries.push(e).drop_last() =~= entries);
}

proof fn lemma_skip_step<T>(s: Seq<T>, i: int)
    requires
        0 <= i < s.len(),
    ensures
        s.skip(i).len() == s.len() - i,
        s.skip(i)[0] == s[i],
        s.skip(i).skip(1) == s.skip(i + 1),
{
    assert(s.skip(i).skip(1) =~= s.skip(i + 1));
}

/// A fresh copy of the bytes of `v`.
#[verifier::loop_isolation(false)]
fn copy_bytes(v: &Vec<u8>) -> (r: Vec<u8>)
    ensures
        r@ == v@,
{
    let n = v.len();
    let mut r: Vec<u8> = Vec::new();
    let mut i: usize = 0;
    while i < n
        invariant
            i <= n,
            n == v@.len(),
            r@ == v@.take(i as int),
        decreases n - i,
    {
        r.push(v[i]);
        i = i + 1;
        proof {
            assert(r@ =~= v@.take(i as int));
        }
    }
    proof {
        assert(v@.take(n as int) =~= v@);
    }
    r
}

impl Relocatable {
    /// Assembles this relocatable into a final byte vector: builds the
    /// resolution map from the symbol definitions, then applies every
    /// pending relocation. Exactly [`spec_assemble`].
    #[verifier::loop_isolation(false)]
    pub fn assemble(&self) -> (r: Result<Vec<u8>, AssembleError>)
        ensures
            match r {
                Ok(bytes) => spec_assemble(self@) == Ok::<Seq<u8>, AssembleErrorKey>(bytes@),
                Err(e) => spec_assemble(self@) == Err::<Seq<u8>, AssembleErrorKey>(e@),
            },
    {
        let mut map: Vec<(Symbol, ResolvedValue)> = Vec::new();
        proof {
            assert(self@.symbols.skip(0) =~= self@.symbols);
        }

        let n_syms = self.symbols.len();
        let mut i: usize = 0;
        while i < n_syms
            invariant
                i <= n_syms,
                assoc_distinct(map@),
                spec_add_defs(self@.symbols.skip(i as int), true, assoc_map(map@))
                    == spec_add_defs(self@.symbols, true, Map::empty()),
            decreases n_syms - i,
        {
            proof {
                lemma_skip_step(self@.symbols, i as int);
                lemma_assoc_props(map@);
            }
            let sym = &self.symbols[i].0;
            proof {
                let ghost si = self.symbols@[i as int];
                assert(self@.symbols[i as int] == (si.0@, si.1 as int));
            }
            if assoc_contains(&map, sym) {
                return Err(AssembleError::MultiplyDefinedSymbol(sym.clone()));
            }
            let entry = (sym.clone(), ResolvedValue::Relative(self.symbols[i].1));
            let ghost prev = map@;
            map.push(entry);
            i = i + 1;
            proof {
                lemma_assoc_push(prev, entry);
                lemma_assoc_props(prev);
                assert(assoc_distinct(map@));
            }
        }
        proof {
            assert(self@.symbols.skip(n_syms as int) =~= Seq::<(SymbolKey, int)>::empty());
            assert(spec_add_defs(self@.symbols, true, Map::empty()) == Ok::<
                Map<SymbolKey, SymbolValue>,
                SymbolKey,
            >(assoc_map(map@)));
            assert(self@.abs_symbols.skip(0) =~= self@.abs_symbols);
        }

        let n_abs = self.abs_symbols.len();
        let mut i: usize = 0;
        while i < n_abs
            invariant
                i <= n_abs,
                assoc_distinct(map@),
                spec_add_defs(self@.abs_symbols.skip(i as int), false, assoc_map(map@))
                    == spec_add_defs(self@.abs_symbols, false, spec_add_defs(
                    self@.symbols,
                    true,
                    Map::empty(),
                )->Ok_0),
                spec_add_defs(self@.symbols, true, Map::empty()) is Ok,
            decreases n_abs - i,
        {
            proof {
                lemma_skip_step(self@.abs_symbols, i as int);
                lemma_assoc_props(map@);
            }
            let sym = &self.abs_symbols[i].0;
            proof {
                assert(self@.abs_symbols[i as int] == (self.abs_symbols@[i as int].0@, self
                    .abs_symbols@[i as int].1 as int));
            }
            if assoc_contains(&map, sym) {
                return Err(AssembleError::MultiplyDefinedSymbol(sym.clone()));
            }
            let entry = (sym.clone(), ResolvedValue::Absolute(self.abs_symbols[i].1));
            let ghost prev = map@;
            map.push(entry);
            i = i + 1;
            proof {
                lemma_assoc_push(prev, entry);
                lemma_assoc_props(prev);
                assert(assoc_distinct(map@));
            }
        }
        proof {
            assert(self@.abs_symbols.skip(n_abs as int) =~= Seq::<(SymbolKey, int)>::empty());
        }

        let ghost rmap = assoc_map(map@);
        proof {
            assert(spec_resolution(self@) == Ok::<Map<SymbolKey, SymbolValue>, SymbolKey>(rmap));
        }

        let mut data = copy_bytes(&self.data);
        proof {
            assert(self@.relocations.skip(0) =~= self@.relocations);
        }

        let n_relocs = self.relocations.len();
        let mut j: usize = 0;
        while j < n_relocs
            invariant
                j <= n_relocs,
                assoc_distinct(map@),
                assoc_map(map@) == rmap,
                spec_apply_relocations(self@.relocations.skip(j as int), rmap, data@)
                    == spec_apply_relocations(self@.relocations, rmap, self@.data),
            decreases n_relocs - j,
        {
            proof {
                lemma_skip_step(self@.relocations, j as int);
            }
            let reloc = &self.relocations[j];
            proof {
                assert(self@.relocations[j as int] == self.relocations@[j as int]@);
            }
            match assoc_get(&map, &reloc.symbol) {
                None => {
                    return Err(AssembleError::UndefinedSymbol(reloc.symbol.clone()));
                },
                Some(ResolvedValue::Relative(v)) => {
                    let resolved: i128 = v as i128 + reloc.addend as i128;
                    if resolved < 0 || resolved > usize::MAX as i128 {
                        return Err(
                            AssembleError::InvalidRelocation(
                                InvalidRelocationReason::AddendOutOfRange,
                            ),
                        );
                    }
                    match reloc.kind.apply_relative(&mut data, reloc.location, resolved as usize) {
                        Ok(()) => {},
                        Err(reason) => {
                            return Err(AssembleError::InvalidRelocation(reason));
                        },
                    }
                },
                Some(ResolvedValue::Absolute(v)) => {
                    let resolved: i128 = v as i128 + reloc.addend as i128;
                    if resolved < isize::MIN as i128 || resolved > isize::MAX as i128 {
                        return Err(
                            AssembleError::InvalidRelocation(
                                InvalidRelocationReason::AddendOutOfRange,
                            ),
                        );
                    }
                    match reloc.kind.apply_absolute(&mut data, reloc.location, resolved as isize) {
                        Ok(()) => {},
                        Err(reason) => {
                            return Err(AssembleError::InvalidRelocation(reason));
                        },
                    }
                },
            }
            j = j + 1;
        }
        proof {
            assert(self@.relocations.skip(n_relocs as int) =~= Seq::<RelocationModel>::empty());
        }
        Ok(data)
    }
}

/// A pair of relocatables: a code section and a data section.
/// Concatenation distributes over the two sections.
#[derive(Debug)]
pub struct Object {
    pub code: Relocatable,
    pub data: Relocatable,
}

/// The mathematical image of an [`Object`].
#[verifier::ext_equal]
pub struct ObjectModel {
    pub code: RelocatableModel,
    pub data: RelocatableModel,
}

impl View for Object {
    type V = ObjectModel;

    open spec fn view(&self) -> ObjectModel {
        ObjectModel { code: self.code@, data: self.data@ }
    }
}

impl ObjectModel {
    /// The object with two empty sections.
    pub open spec fn empty() -> ObjectModel {
        ObjectModel { code: RelocatableModel::empty(), data: RelocatableModel::empty() }
    }
}

/// Sectionwise concatenation of object images.
pub open spec fn obj_concat(a: ObjectModel, b: ObjectModel) -> ObjectModel {
    ObjectModel { code: model_concat(a.code, b.code), data: model_concat(a.data, b.data) }
}

/// Concatenating two plain byte images is plain concatenation.
pub proof fn lemma_concat_plain(a: Seq<u8>, b: Seq<u8>)
    ensures
        model_concat(plain_model(a), plain_model(b)) == plain_model(a + b),
{
    assert(pad_for(a.len() as int, 0) == 0);
    assert(model_concat(plain_model(a), plain_model(b)).data =~= a + b);
    assert(model_concat(plain_model(a), plain_model(b)).symbols =~= Seq::<(
        SymbolKey,
        int,
    )>::empty());
    assert(model_concat(plain_model(a), plain_model(b)).abs_symbols =~= Seq::<(
        SymbolKey,
        int,
    )>::empty());
    assert(model_concat(plain_model(a), plain_model(b)).relocations
        =~= Seq::<RelocationModel>::empty());
    assert(model_concat(plain_model(a), plain_model(b)) =~~= plain_model(a + b));
}

impl Object {
    /// The object with empty code and data sections.
    pub fn empty() -> (r: Object)
        ensures
            r.code@ == RelocatableModel::empty(),
            r.data@ == RelocatableModel::empty(),
            r.code@.wf(),
            r.data@.wf(),
    {
        Object { code: Relocatable::empty(), data: Relocatable::empty() }
    }

    /// An object that is all code: the data section is empty.
    pub fn from_code(code: Relocatable) -> (r: Object)
        ensures
            r.code == code,
            r.data@ == RelocatableModel::empty(),
            r.data@.wf(),
    {
        Object { code, data: Relocatable::empty() }
    }

    /// Concatenates `rhs` onto `self`, sectionwise.
    pub fn add_assign(&mut self, rhs: &Object)
        requires
            old(self).code@.wf(),
            old(self).data@.wf(),
            rhs.code@.wf(),
            rhs.data@.wf(),
            padded_len(old(self).code@.data.len() as int, rhs.code@.alignment)
                + rhs.code@.data.len() <= usize::MAX,
            padded_len(old(self).data@.data.len() as int, rhs.data@.alignment)
                + rhs.data@.data.len() <= usize::MAX,
        ensures
            final(self).code@ == model_concat(old(self).code@, rhs.code@),
            final(self).data@ == model_concat(old(self).data@, rhs.data@),
            final(self).code@.wf(),
            final(self).data@.wf(),
    {
        self.code.add_assign(&rhs.code);
        self.data.add_assign(&rhs.data);
    }

    /// Concatenation as a value: `self` followed by `rhs`, sectionwise.
    pub fn add(self, rhs: &Object) -> (r: Object)
        requires
            self.code@.wf(),
            self.data@.wf(),
            rhs.code@.wf(),
            rhs.data@.wf(),
            padded_len(self.code@.data.len() as int, rhs.code@.alignment) + rhs.code@.data.len()
                <= usize::MAX,
            padded_len(self.data@.data.len() as int, rhs.data@.alignment) + rhs.data@.data.len()
                <= usize::MAX,
        ensures
            r.code@ == model_concat(self.code@, rhs.code@),
            r.data@ == model_concat(self.data@, rhs.data@),
            r.code@.wf(),
            r.data@.wf(),
    {
        let mut s = self;
        s.add_assign(rhs);
        s
    }
}

impl Default for Object {
    fn default() -> (r: Object)
        ensures
            r.code@ == RelocatableModel::empty(),
            r.data@ == RelocatableModel::empty(),
            r.code@.wf(),
            r.data@.wf(),
    {
        Object::empty()
    }
}

/// Concatenation of relocatables is associative, as long as the two
/// right-hand operands ask for no alignment: `(a + b) + c == a + (b + c)`,
/// and so both sides assemble to the same result. (With a nonzero
/// alignment on `c` the two sides can genuinely differ: the padding
/// inserted before `c` depends on whether `a` has already been padded
/// for `b`.)
pub proof fn lemma_concat_associative(
    a: RelocatableModel,
    b: RelocatableModel,
    c: RelocatableModel,
)
    requires
        b.alignment == 0,
        c.alignment == 0,
    ensures
        model_concat(model_concat(a, b), c) == model_concat(a, model_concat(b, c)),
        spec_assemble(model_concat(model_concat(a, b), c)) == spec_assemble(
            model_concat(a, model_concat(b, c)),
        ),
{
    let ab = model_concat(a, b);
    let bc = model_concat(b, c);
    let la = a.data.len() as int;
    let lb = b.data.len() as int;
    assert(pad_for(la, 0) == 0);
    assert(pad_for(ab.data.len() as int, 0) == 0);
    assert(pad_for(lb, 0) == 0);
    assert(model_concat(ab, c).data =~= model_concat(a, bc).data);
    assert(model_concat(ab, c).symbols =~= model_concat(a, bc).symbols);
    assert(model_concat(ab, c).abs_symbols =~= model_concat(a, bc).abs_symbols);
    assert(model_concat(ab, c).relocations =~= model_concat(a, bc).relocations);
    assert(model_concat(ab, c) =~~= model_concat(a, bc));
}

proof fn lemma_add_defs_preserves(
    defs: Seq<(SymbolKey, int)>,
    relative: bool,
    m: Map<SymbolKey, SymbolValue>,
    k: SymbolKey,
)
    requires
        spec_add_defs(defs, relative, m) is Ok,
        m.dom().contains(k),
    ensures
        spec_add_defs(defs, relative, m)->Ok_0.dom().contains(k),
        spec_add_defs(defs, relative, m)->Ok_0[k] == m[k],
    decreases defs.len(),
{
    if defs.len() > 0 {
        let d = defs[0];
        let v = if relative {
            SymbolValue::Relative(d.1)
        } else {
            SymbolValue::Absolute(d.1)
        };
        lemma_add_defs_preserves(defs.skip(1), relative, m.insert(d.0, v), k);
    }
}

proof fn lemma_add_defs_lookup(
    defs: Seq<(SymbolKey, int)>,
    relative: bool,
    m: Map<SymbolKey, SymbolValue>,
    j: int,
)
    requires
        spec_add_defs(defs, relative, m) is Ok,
        0 <= j < defs.len(),
    ensures
        spec_add_defs(defs, relative, m)->Ok_0.dom().contains(defs[j].0),
        spec_add_defs(defs, relative, m)->Ok_0[defs[j].0] == if relative {
            SymbolValue::Relative(defs[j].1)
        } else {
            SymbolValue::Absolute(defs[j].1)
        },
    decreases defs.len(),
{
    let d = defs[0];
    let v = if relative {
        SymbolValue::Relative(d.1)
    } else {
        SymbolValue::Absolute(d.1)
    };
    if j == 0 {
        lemma_add_defs_preserves(defs.skip(1), relative, m.insert(d.0, v), d.0);
    } else {
        lemma_add_defs_lookup(defs.skip(1), relative, m.insert(d.0, v), j - 1);
        assert(defs.skip(1)[j - 1] == defs[j]);
    }
}

/// Offset shifting: after `a += b`, a symbol that `b` defined at offset
/// `k` resolves, in the combined object, to `pad(a) + k` — the offset of
/// the start of `b`'s data within the combined data, plus `k`.
pub proof fn lemma_offset_shifting(a: RelocatableModel, b: RelocatableModel, j: int)
    requires
        0 <= j < b.symbols.len(),
        spec_resolution(model_concat(a, b)) is Ok,
    ensures
        spec_resolution(model_concat(a, b))->Ok_0.dom().contains(b.symbols[j].0),
        spec_resolution(model_concat(a, b))->Ok_0[b.symbols[j].0] == SymbolValue::Relative(
            padded_len(a.data.len() as int, b.alignment) + b.symbols[j].1,
        ),
{
    let m = model_concat(a, b);
    let lhs_len = padded_len(a.data.len() as int, b.alignment);
    let idx = a.symbols.len() as int + j;
    assert(m.symbols[idx] == (b.symbols[j].0, b.symbols[j].1 + lhs_len));
    let rel = spec_add_defs(m.symbols, true, Map::empty());
    assert(rel is Ok);
    lemma_add_defs_lookup(m.symbols, true, Map::empty(), idx);
    lemma_add_defs_preserves(m.abs_symbols, false, rel->Ok_0, b.symbols[j].0);
}

} // verus!

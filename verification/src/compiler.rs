//! The surface-language compiler back end: lowers a parsed module into
//! relocatable objects through the x86-64 instruction emitters. Every
//! expression compiles to a code object and a variable holding its value;
//! fresh temporary stack slots carry computed subresults, and integer
//! literals are interned as data-section symbols. Each lowering function
//! is specified exactly by a spec-level mirror of the lowering rules.

use vstd::prelude::*;

use crate::ast;
use crate::code::{
    lemma_concat_plain, obj_concat, pad_for, plain_model, Object, ObjectModel, Relocatable,
    RelocatableModel,
};
use crate::function::spec_iint;
use crate::machine::{
    rip_model, simple_memory_to_reg, simple_reg_to_memory, simple_reg_to_reg,
    simple_reg_to_symbol, simple_symbol_to_reg, spec_mem_bytes, spec_reg_reg_bytes, Register,
    SimpleInstruction,
};
use crate::reloc::{le4, le8, to_2c};
use crate::symbol::{Symbol, SymbolCounter, SymbolKey};
use vstd::utf8::encode_utf8;

verus! {

/// The types of the surface language.
#[derive(Clone, Copy, PartialEq, Eq, Structural, Debug)]
pub enum Type {
    Integer,
    Boolean,
    Function,
}

/// Where a variable lives: a stack slot of the current frame, or a
/// static cell named by a symbol.
#[derive(Debug)]
pub enum Location {
    Local { stack_index: usize },
    Static { symbol: Symbol, atomic: bool },
}

/// The mathematical image of a [`Location`].
pub enum LocationModel {
    Local { stack_index: int },
    Static { symbol: SymbolKey, atomic: bool },
}

impl View for Location {
    type V = LocationModel;

    open spec fn view(&self) -> LocationModel {
        match self {
            Location::Local { stack_index } => LocationModel::Local {
                stack_index: *stack_index as int,
            },
            Location::Static { symbol, atomic } => LocationModel::Static {
                symbol: symbol@,
                atomic: *atomic,
            },
        }
    }
}

/// A resolved variable: its identity, mutability, type and home.
#[derive(Debug)]
pub struct Variable {
    pub name: Symbol,
    pub mutable: bool,
    pub vtype: Type,
    pub location: Location,
}

/// The mathematical image of a [`Variable`].
#[verifier::ext_equal]
pub struct VariableModel {
    pub name: SymbolKey,
    pub mutable: bool,
    pub vtype: Type,
    pub location: LocationModel,
}

impl View for Variable {
    type V = VariableModel;

    open spec fn view(&self) -> VariableModel {
        VariableModel {
            name: self.name@,
            mutable: self.mutable,
            vtype: self.vtype,
            location: self.location@,
        }
    }
}

impl Clone for Location {
    fn clone(&self) -> (r: Self)
        ensures
            r@ == self@,
    {
        match self {
            Location::Local { stack_index } => Location::Local { stack_index: *stack_index },
            Location::Static { symbol, atomic } => Location::Static {
                symbol: symbol.clone(),
                atomic: *atomic,
            },
        }
    }
}

impl Clone for Variable {
    fn clone(&self) -> (r: Self)
        ensures
            r@ == self@,
    {
        let r = Variable {
            name: self.name.clone(),
            mutable: self.mutable,
            vtype: self.vtype,
            location: self.location.clone(),
        };
        proof {
            assert(r@ =~~= self@);
        }
        r
    }
}

/// An error found while compiling a module.
#[derive(PartialEq, Eq, Debug)]
pub enum CompileError {
    /// A name that resolves to no variable in scope.
    UndefinedSymbol(String),
    /// Any other fault, with a static description.
    Other(&'static str),
}

/// The mathematical image of a [`CompileError`]: the descriptions of the
/// `Other` faults are not distinguished.
pub enum CompileErrorModel {
    UndefinedSymbol(Seq<char>),
    Other,
}

impl View for CompileError {
    type V = CompileErrorModel;

    open spec fn view(&self) -> CompileErrorModel {
        match self {
            CompileError::UndefinedSymbol(name) => CompileErrorModel::UndefinedSymbol(name@),
            CompileError::Other(_) => CompileErrorModel::Other,
        }
    }
}

/// Module-level compilation state: the statics defined so far, keyed by
/// their symbol.
#[derive(Debug)]
pub struct GlobalState {
    pub symbols: Vec<(Symbol, Variable)>,
}

/// The mathematical image of a [`GlobalState`].
#[verifier::ext_equal]
pub struct GlobalModel {
    pub symbols: Seq<(SymbolKey, VariableModel)>,
}

/// The images of a sequence of global-table entries.
pub open spec fn global_entries_view(s: Seq<(Symbol, Variable)>) -> Seq<(SymbolKey, VariableModel)> {
    s.map_values(|p: (Symbol, Variable)| (p.0@, p.1@))
}

impl View for GlobalState {
    type V = GlobalModel;

    open spec fn view(&self) -> GlobalModel {
        GlobalModel { symbols: global_entries_view(self.symbols@) }
    }
}

proof fn lemma_global_entries_push(s: Seq<(Symbol, Variable)>, x: (Symbol, Variable))
    ensures
        global_entries_view(s.push(x)) == global_entries_view(s).push((x.0@, x.1@)),
{
    assert(global_entries_view(s.push(x)) =~= global_entries_view(s).push((x.0@, x.1@)));
}

/// Per-function compilation state: the next free stack slot, the locals
/// in scope, and the function-wide return and abort labels.
#[derive(Debug)]
pub struct FunctionScopeState {
    pub stack_depth: usize,
    pub locals: Vec<(String, Variable)>,
    pub function_return: Symbol,
    pub function_abort: Symbol,
}

/// The mathematical image of a [`FunctionScopeState`].
#[verifier::ext_equal]
pub struct ScopeModel {
    pub depth: int,
    pub locals: Seq<(Seq<char>, VariableModel)>,
    pub function_return: SymbolKey,
    pub function_abort: SymbolKey,
}

/// The images of a sequence of local bindings.
pub open spec fn local_entries_view(s: Seq<(String, Variable)>) -> Seq<(Seq<char>, VariableModel)> {
    s.map_values(|p: (String, Variable)| (p.0@, p.1@))
}

impl View for FunctionScopeState {
    type V = ScopeModel;

    open spec fn view(&self) -> ScopeModel {
        ScopeModel {
            depth: self.stack_depth as int,
            locals: local_entries_view(self.locals@),
            function_return: self.function_return@,
            function_abort: self.function_abort@,
        }
    }
}

proof fn lemma_local_entries_push(s: Seq<(String, Variable)>, x: (String, Variable))
    ensures
        local_entries_view(s.push(x)) == local_entries_view(s).push((x.0@, x.1@)),
{
    assert(local_entries_view(s.push(x)) =~= local_entries_view(s).push((x.0@, x.1@)));
}

/// Both sections of the object are well-formed and unaligned: the shape
/// every lowering step preserves.
pub open spec fn obj_wf(o: ObjectModel) -> bool {
    &&& o.code.wf()
    &&& o.data.wf()
    &&& o.code.alignment == 0
    &&& o.data.alignment == 0
}

/// What appending one object to another does: the sectionwise
/// concatenation, unless either section would grow past the machine's
/// range.
pub open spec fn spec_append(a: ObjectModel, b: ObjectModel) -> Result<
    ObjectModel,
    CompileErrorModel,
> {
    if a.code.data.len() + b.code.data.len() > 0xffff_ffff_ffff_ffff {
        Err(CompileErrorModel::Other)
    } else if a.data.data.len() + b.data.data.len() > 0xffff_ffff_ffff_ffff {
        Err(CompileErrorModel::Other)
    } else {
        Ok(obj_concat(a, b))
    }
}

/// Concatenates `src` onto `dst`: exactly [`spec_append`].
fn append_object(dst: &mut Object, src: &Object) -> (r: Result<(), CompileError>)
    requires
        obj_wf(old(dst)@),
        obj_wf(src@),
        usize::MAX == 0xffff_ffff_ffff_ffff,
    ensures
        obj_wf(final(dst)@),
        match spec_append(old(dst)@, src@) {
            Ok(o) => r is Ok && final(dst)@ == o,
            Err(k) => r matches Err(e) && e@ == k && *final(dst) == *old(dst),
        },
{
    proof {
        assert(pad_for(dst.code@.data.len() as int, 0) == 0);
        assert(pad_for(dst.data@.data.len() as int, 0) == 0);
    }
    if usize::MAX - dst.code.len() < src.code.len() {
        return Err(CompileError::Other("code section too large"));
    }
    if usize::MAX - dst.data.len() < src.data.len() {
        return Err(CompileError::Other("data section too large"));
    }
    dst.add_assign(src);
    Ok(())
}

/// The eight little-endian bytes of a machine word.
fn word_bytes_le(value: isize) -> (r: Vec<u8>)
    ensures
        r@ == le8(to_2c(value as int, 0x1_0000_0000_0000_0000) as u64),
        r@.len() == 8,
{
    let u: u64 = if value < 0 {
        ((value as i128) + 0x1_0000_0000_0000_0000i128) as u64
    } else {
        value as u64
    };
    let r = vec![
        (u % 0x100) as u8,
        ((u / 0x100) % 0x100) as u8,
        ((u / 0x10000) % 0x100) as u8,
        ((u / 0x1000000) % 0x100) as u8,
        ((u / 0x100000000) % 0x100) as u8,
        ((u / 0x10000000000) % 0x100) as u8,
        ((u / 0x1000000000000) % 0x100) as u8,
        ((u / 0x100000000000000) % 0x100) as u8,
    ];
    proof {
        assert(r@ =~= le8(u));
    }
    r
}

/// The image of a data-section placement: the bytes, with `symbol`
/// defined at their start.
pub open spec fn data_section_model(data: Seq<u8>, symbol: SymbolKey) -> RelocatableModel {
    RelocatableModel {
        data,
        alignment: 0,
        symbols: seq![(symbol, 0int)],
        abs_symbols: Seq::empty(),
        relocations: Seq::empty(),
    }
}

/// Places `data` into the data section, defining `symbol` at its start.
pub fn add_data(data: Vec<u8>, symbol: Symbol) -> (r: Object)
    ensures
        r@ == (ObjectModel {
            code: RelocatableModel::empty(),
            data: data_section_model(data@, symbol@),
        }),
        obj_wf(r@),
{
    let ghost sym_key = symbol@;
    let ghost bytes = data@;
    let mut section = Relocatable::from_bytes(data);
    section.push_symbol(symbol, 0);
    proof {
        assert(section@.symbols =~= seq![(sym_key, 0int)]);
        assert(section@ =~~= data_section_model(bytes, sym_key));
    }
    let r = Object { code: Relocatable::empty(), data: section };
    proof {
        assert(r@ =~~= (ObjectModel {
            code: RelocatableModel::empty(),
            data: data_section_model(bytes, sym_key),
        }));
    }
    r
}

/// The register sequence the code generator may draw from: exactly the
/// caller-saved registers, in catalog order.
pub open spec fn spec_usable_registers() -> Seq<Register> {
    seq![
        Register::Rax,
        Register::Rcx,
        Register::Rdx,
        Register::Rsi,
        Register::Rdi,
        Register::R8,
        Register::R9,
        Register::R10,
        Register::R11,
    ]
}

/// The ordered caller-saved registers the code generator may use.
pub fn usable_registers() -> (r: Vec<Register>)
    ensures
        r@ == spec_usable_registers(),
{
    let r = vec![
        Register::Rax,
        Register::Rcx,
        Register::Rdx,
        Register::Rsi,
        Register::Rdi,
        Register::R8,
        Register::R9,
        Register::R10,
        Register::R11,
    ];
    proof {
        assert(r@ =~= spec_usable_registers());
    }
    r
}

/// The argument register of position `k` in the calling convention.
pub open spec fn spec_arg_register(k: int) -> Register {
    if k == 0 {
        Register::Rdi
    } else if k == 1 {
        Register::Rsi
    } else if k == 2 {
        Register::Rdx
    } else if k == 3 {
        Register::Rcx
    } else if k == 4 {
        Register::R8
    } else {
        Register::R9
    }
}

/// The argument register of the given position in the calling
/// convention.
fn arg_register(k: usize) -> (r: Register)
    requires
        k < 6,
    ensures
        r == spec_arg_register(k as int),
        r != Register::Rip,
{
    match k {
        0 => Register::Rdi,
        1 => Register::Rsi,
        2 => Register::Rdx,
        3 => Register::Rcx,
        4 => Register::R8,
        _ => Register::R9,
    }
}

/// The image of the one-instruction object that moves a variable's value
/// into `reg`: from its stack slot, or RIP-relative from its static
/// cell. A stack slot beyond the 32-bit displacement range cannot be
/// addressed.
pub open spec fn load_model(reg: Register, v: VariableModel) -> Result<
    ObjectModel,
    CompileErrorModel,
> {
    match v.location {
        LocationModel::Local { stack_index } => {
            if stack_index > 0x0fff_ffff {
                Err(CompileErrorModel::Other)
            } else {
                Ok(
                    ObjectModel {
                        code: plain_model(
                            spec_mem_bytes(0x8b, reg.spec_number(), Register::Rsp, 8 * stack_index),
                        ),
                        data: RelocatableModel::empty(),
                    },
                )
            }
        },
        LocationModel::Static { symbol, .. } => Ok(
            ObjectModel {
                code: rip_model(0x8b, reg.spec_number(), symbol),
                data: RelocatableModel::empty(),
            },
        ),
    }
}

/// The image of the store counterpart of [`load_model`].
pub open spec fn store_model(reg: Register, v: VariableModel) -> Result<
    ObjectModel,
    CompileErrorModel,
> {
    match v.location {
        LocationModel::Local { stack_index } => {
            if stack_index > 0x0fff_ffff {
                Err(CompileErrorModel::Other)
            } else {
                Ok(
                    ObjectModel {
                        code: plain_model(
                            spec_mem_bytes(0x89, reg.spec_number(), Register::Rsp, 8 * stack_index),
                        ),
                        data: RelocatableModel::empty(),
                    },
                )
            }
        },
        LocationModel::Static { symbol, .. } => Ok(
            ObjectModel {
                code: rip_model(0x89, reg.spec_number(), symbol),
                data: RelocatableModel::empty(),
            },
        ),
    }
}

/// Moves a variable's value into `reg`: exactly [`load_model`]. (An
/// aligned word load on this target is atomic whether or not the static
/// is marked atomic.)
pub fn load_from(reg: Register, from: &Variable) -> (r: Result<Object, CompileError>)
    requires
        reg != Register::Rip,
    ensures
        match load_model(reg, from@) {
            Ok(m) => r matches Ok(o) && o@ == m && obj_wf(m),
            Err(k) => r matches Err(e) && e@ == k,
        },
{
    match &from.location {
        Location::Local { stack_index } => {
            if *stack_index > 0x0fff_ffffusize {
                return Err(CompileError::Other("stack frame too large"));
            }
            let disp = (*stack_index as i32) * 8;
            match simple_memory_to_reg(Register::Rsp, disp, reg, SimpleInstruction::Mov) {
                Ok(rel) => Ok(Object::from_code(rel)),
                Err(()) => Err(CompileError::Other("unencodable load")),
            }
        },
        Location::Static { symbol, .. } => {
            match simple_symbol_to_reg(symbol.clone(), reg, SimpleInstruction::Mov) {
                Ok(rel) => Ok(Object::from_code(rel)),
                Err(()) => Err(CompileError::Other("unencodable load")),
            }
        },
    }
}

/// Moves `reg` into a variable's home: exactly [`store_model`].
/// (Initialization also goes through here, so mutability is not checked
/// at this level.)
pub fn store_to(reg: Register, into: &Variable) -> (r: Result<Object, CompileError>)
    requires
        reg != Register::Rip,
    ensures
        match store_model(reg, into@) {
            Ok(m) => r matches Ok(o) && o@ == m && obj_wf(m),
            Err(k) => r matches Err(e) && e@ == k,
        },
{
    match &into.location {
        Location::Local { stack_index } => {
            if *stack_index > 0x0fff_ffffusize {
                return Err(CompileError::Other("stack frame too large"));
            }
            let disp = (*stack_index as i32) * 8;
            match simple_reg_to_memory(reg, Register::Rsp, disp, SimpleInstruction::Mov) {
                Ok(rel) => Ok(Object::from_code(rel)),
                Err(()) => Err(CompileError::Other("unencodable store")),
            }
        },
        Location::Static { symbol, .. } => {
            match simple_reg_to_symbol(reg, symbol.clone(), SimpleInstruction::Mov) {
                Ok(rel) => Ok(Object::from_code(rel)),
                Err(()) => Err(CompileError::Other("unencodable store")),
            }
        },
    }
}

/// Emits `dst += src` on registers: exactly the add encoding.
pub fn add_assign_regs(dst: Register, src: Register) -> (r: Result<Object, CompileError>)
    requires
        dst != Register::Rip,
        src != Register::Rip,
    ensures
        r matches Ok(o) && o@ == (ObjectModel {
            code: plain_model(spec_reg_reg_bytes(0x01, src.spec_number(), dst.spec_number())),
            data: RelocatableModel::empty(),
        }) && obj_wf(o@),
{
    match simple_reg_to_reg(src, dst, SimpleInstruction::Add) {
        Ok(rel) => Ok(Object::from_code(rel)),
        Err(()) => Err(CompileError::Other("unencodable addition")),
    }
}

/// Emits `dst -= src` on registers: exactly the subtract encoding.
pub fn sub_assign_regs(dst: Register, src: Register) -> (r: Result<Object, CompileError>)
    requires
        dst != Register::Rip,
        src != Register::Rip,
    ensures
        r matches Ok(o) && o@ == (ObjectModel {
            code: plain_model(spec_reg_reg_bytes(0x29, src.spec_number(), dst.spec_number())),
            data: RelocatableModel::empty(),
        }) && obj_wf(o@),
{
    match simple_reg_to_reg(src, dst, SimpleInstruction::Sub) {
        Ok(rel) => Ok(Object::from_code(rel)),
        Err(()) => Err(CompileError::Other("unencodable subtraction")),
    }
}

/// Emits `dst = src` on registers: exactly the move encoding.
pub fn copy_from_regs(dst: Register, src: Register) -> (r: Result<Object, CompileError>)
    requires
        dst != Register::Rip,
        src != Register::Rip,
    ensures
        r matches Ok(o) && o@ == (ObjectModel {
            code: plain_model(spec_reg_reg_bytes(0x89, src.spec_number(), dst.spec_number())),
            data: RelocatableModel::empty(),
        }) && obj_wf(o@),
{
    match simple_reg_to_reg(src, dst, SimpleInstruction::Mov) {
        Ok(rel) => Ok(Object::from_code(rel)),
        Err(()) => Err(CompileError::Other("unencodable move")),
    }
}

/// The variable that reads the static cell defined at `symbol`.
pub open spec fn static_var_model(symbol: SymbolKey) -> VariableModel {
    VariableModel {
        name: symbol,
        mutable: false,
        vtype: Type::Integer,
        location: LocationModel::Static { symbol, atomic: false },
    }
}

impl GlobalState {
    pub fn new() -> (r: GlobalState)
        ensures
            r@ == (GlobalModel { symbols: Seq::empty() }),
    {
        let r = GlobalState { symbols: Vec::new() };
        proof {
            assert(r@.symbols =~= Seq::<(SymbolKey, VariableModel)>::empty());
            assert(r@ =~~= (GlobalModel { symbols: Seq::empty() }));
        }
        r
    }

    /// Interns a word-sized static cell holding `value`, defined at
    /// `symbol`, and registers the variable that reads it.
    pub fn new_static(&mut self, value: isize, symbol: Symbol) -> (r: (Object, Variable))
        ensures
            r.0@ == (ObjectModel {
                code: RelocatableModel::empty(),
                data: data_section_model(
                    le8(to_2c(value as int, 0x1_0000_0000_0000_0000) as u64),
                    symbol@,
                ),
            }),
            obj_wf(r.0@),
            r.1@ == static_var_model(symbol@),
            final(self)@ == (GlobalModel {
                symbols: old(self)@.symbols.push((symbol@, static_var_model(symbol@))),
            }),
    {
        let ghost sym_key = symbol@;
        let var = Variable {
            name: symbol.clone(),
            mutable: false,
            vtype: Type::Integer,
            location: Location::Static { symbol: symbol.clone(), atomic: false },
        };
        let ghost prev = self.symbols@;
        let copy = var.clone();
        self.symbols.push((symbol.clone(), copy));
        proof {
            assert(var@ =~~= static_var_model(sym_key));
            lemma_global_entries_push(prev, (self.symbols@.last().0, self.symbols@.last().1));
            assert(self.symbols@.drop_last() =~= prev);
            assert(global_entries_view(self.symbols@) =~= global_entries_view(prev).push(
                (sym_key, static_var_model(sym_key)),
            ));
            assert(self@ =~~= (GlobalModel {
                symbols: old(self)@.symbols.push((sym_key, static_var_model(sym_key))),
            }));
        }
        (add_data(word_bytes_le(value), symbol), var)
    }
}

impl FunctionScopeState {
    /// Opens a fresh function scope, drawing its return and abort labels
    /// from the counter.
    pub fn new(counter: &mut SymbolCounter) -> (r: FunctionScopeState)
        requires
            old(counter).spec_next() + 2 <= u64::MAX,
        ensures
            final(counter).spec_next() == old(counter).spec_next() + 2,
            r@ == (ScopeModel {
                depth: 0,
                locals: Seq::empty(),
                function_return: SymbolKey::Local(old(counter).spec_next()),
                function_abort: SymbolKey::Local((old(counter).spec_next() + 1) as u64),
            }),
    {
        let function_return = Symbol::new_local(counter);
        let function_abort = Symbol::new_local(counter);
        let r = FunctionScopeState {
            stack_depth: 0,
            locals: Vec::new(),
            function_return,
            function_abort,
        };
        proof {
            assert(r@.locals =~= Seq::<(Seq<char>, VariableModel)>::empty());
            assert(r@ =~~= (ScopeModel {
                depth: 0,
                locals: Seq::empty(),
                function_return: SymbolKey::Local(old(counter).spec_next()),
                function_abort: SymbolKey::Local((old(counter).spec_next() + 1) as u64),
            }));
        }
        r
    }

    /// Reserves the next stack slot.
    pub fn new_stack_slot(&mut self) -> (slot: usize)
        requires
            old(self).stack_depth < usize::MAX,
        ensures
            slot == old(self)@.depth,
            final(self)@ == (ScopeModel { depth: old(self)@.depth + 1, ..old(self)@ }),
    {
        let slot = self.stack_depth;
        self.stack_depth = self.stack_depth + 1;
        proof {
            assert(self@ =~~= (ScopeModel { depth: old(self)@.depth + 1, ..old(self)@ }));
        }
        slot
    }

    /// Declares a named local in a fresh stack slot. (A declaration of an
    /// already-bound name shadows the earlier binding.)
    pub fn new_local(&mut self, name: String, mutable: bool, counter: &mut SymbolCounter) -> (r:
        Variable)
        requires
            old(self).stack_depth < usize::MAX,
            old(counter).spec_next() < u64::MAX,
        ensures
            r@ == (VariableModel {
                name: SymbolKey::Local(old(counter).spec_next()),
                mutable,
                vtype: Type::Integer,
                location: LocationModel::Local { stack_index: old(self)@.depth },
            }),
            final(self)@ == (ScopeModel {
                depth: old(self)@.depth + 1,
                locals: old(self)@.locals.push((name@, r@)),
                ..old(self)@
            }),
            final(counter).spec_next() == old(counter).spec_next() + 1,
    {
        let slot = self.new_stack_slot();
        let sym = Symbol::new_local(counter);
        let var = Variable {
            name: sym,
            mutable,
            vtype: Type::Integer,
            location: Location::Local { stack_index: slot },
        };
        let copy = var.clone();
        let ghost prev = self.locals@;
        self.locals.push((name, copy));
        proof {
            assert(self.locals@.drop_last() =~= prev);
            assert(local_entries_view(self.locals@) =~= local_entries_view(prev).push(
                (self.locals@.last().0@, var@),
            ));
            assert(self@ =~~= (ScopeModel {
                depth: old(self)@.depth + 1,
                locals: old(self)@.locals.push((self.locals@.last().0@, var@)),
                ..old(self)@
            }));
        }
        var
    }

    /// Reserves a fresh anonymous temporary in the next stack slot.
    pub fn new_temporary(&mut self, counter: &mut SymbolCounter) -> (r: Variable)
        requires
            old(self).stack_depth < usize::MAX,
            old(counter).spec_next() < u64::MAX,
        ensures
            r@ == (VariableModel {
                name: SymbolKey::Local(old(counter).spec_next()),
                mutable: false,
                vtype: Type::Integer,
                location: LocationModel::Local { stack_index: old(self)@.depth },
            }),
            final(self)@ == (ScopeModel { depth: old(self)@.depth + 1, ..old(self)@ }),
            final(counter).spec_next() == old(counter).spec_next() + 1,
    {
        let slot = self.new_stack_slot();
        let sym = Symbol::new_local(counter);
        Variable {
            name: sym,
            mutable: false,
            vtype: Type::Integer,
            location: Location::Local { stack_index: slot },
        }
    }

    /// Resolves a name: exactly [`spec_resolve`] — the innermost local of
    /// that name, else the newest global entry under the name's global
    /// symbol.
    #[verifier::loop_isolation(false)]
    pub fn get_variable(&self, global: &GlobalState, name: &str) -> (r: Option<Variable>)
        ensures
            match spec_resolve(self@, global@, name@) {
                Some(v) => r matches Some(rv) && rv@ == v,
                None => r is None,
            },
    {
        let ghost lv = self@.locals;
        let name_string = name.to_owned();
        let n = self.locals.len();
        let mut i: usize = n;
        proof {
            assert(lv.take(n as int) =~= lv);
        }
        while i > 0
            invariant
                i <= n,
                n == self.locals@.len(),
                lookup_scope(lv.take(i as int), name@) == lookup_scope(lv, name@),
            decreases i,
        {
            i = i - 1;
            proof {
                assert(lv[i as int] == (self.locals@[i as int].0@, self.locals@[i as int].1@));
                assert(lv.take(i + 1).last() == lv[i as int]);
                assert(lv.take(i + 1).drop_last() =~= lv.take(i as int));
            }
            if self.locals[i].0.eq(&name_string) {
                return Some(self.locals[i].1.clone());
            }
        }
        proof {
            assert(lv.take(0) =~= Seq::<(Seq<char>, VariableModel)>::empty());
        }
        let ghost gv = global@.symbols;
        let probe = Symbol::new_global(name_string);
        let m = global.symbols.len();
        let mut j: usize = m;
        proof {
            assert(gv.take(m as int) =~= gv);
        }
        while j > 0
            invariant
                j <= m,
                m == global.symbols@.len(),
                probe@ == SymbolKey::Global(name@),
                lookup_global_table(gv.take(j as int), probe@) == lookup_global_table(gv, probe@),
            decreases j,
        {
            j = j - 1;
            proof {
                assert(gv[j as int] == (global.symbols@[j as int].0@, global.symbols@[j as int].1@));
                assert(gv.take(j + 1).last() == gv[j as int]);
                assert(gv.take(j + 1).drop_last() =~= gv.take(j as int));
            }
            if global.symbols[j].0.eq(&probe) {
                return Some(global.symbols[j].1.clone());
            }
        }
        proof {
            assert(gv.take(0) =~= Seq::<(SymbolKey, VariableModel)>::empty());
        }
        None
    }
}

/// The innermost local binding of `name`: the latest entry under that
/// name.
pub open spec fn lookup_scope(
    locals: Seq<(Seq<char>, VariableModel)>,
    name: Seq<char>,
) -> Option<VariableModel>
    decreases locals.len(),
{
    if locals.len() == 0 {
        None
    } else if locals.last().0 == name {
        Some(locals.last().1)
    } else {
        lookup_scope(locals.drop_last(), name)
    }
}

/// The newest global entry under `key`.
pub open spec fn lookup_global_table(
    symbols: Seq<(SymbolKey, VariableModel)>,
    key: SymbolKey,
) -> Option<VariableModel>
    decreases symbols.len(),
{
    if symbols.len() == 0 {
        None
    } else if symbols.last().0 == key {
        Some(symbols.last().1)
    } else {
        lookup_global_table(symbols.drop_last(), key)
    }
}

/// Name resolution: the innermost local of that name, then the global
/// table under the name's global symbol.
pub open spec fn spec_resolve(sc: ScopeModel, g: GlobalModel, name: Seq<char>) -> Option<
    VariableModel,
> {
    match lookup_scope(sc.locals, name) {
        Some(v) => Some(v),
        None => lookup_global_table(g.symbols, SymbolKey::Global(name)),
    }
}

/// Reads an integer literal's text as a machine word: the whole text
/// must be an optional minus sign and digits.
fn parse_literal(literal: &str) -> (r: Result<isize, CompileError>)
    requires
        usize::MAX == 0xffff_ffff_ffff_ffff,
    ensures
        ({
            let lb = encode_utf8(literal@);
            match spec_iint(lb, 0) {
                Err(_) => r matches Err(e) && e@ == CompileErrorModel::Other,
                Ok((v, end)) => {
                    if end == lb.len() {
                        r matches Ok(x) && x as int == v
                    } else {
                        r matches Err(e) && e@ == CompileErrorModel::Other
                    }
                },
            }
        }),
{
    let bytes = literal.as_bytes();
    match crate::function::parse_iint(bytes, 0) {
        Ok((value, end)) => {
            if end == bytes.len() {
                Ok(value)
            } else {
                Err(CompileError::Other("invalid integer literal"))
            }
        },
        Err(_) => Err(CompileError::Other("invalid integer literal")),
    }
}

/// The tail of the assignment lowering, after both sides have been
/// lowered: the operands must be integers; the right value moves through
/// `%rax` into the left home, and the right variable is the result.
pub open spec fn spec_assign_tail(
    o1: ObjectModel,
    v1: VariableModel,
    o2: ObjectModel,
    v2: VariableModel,
) -> Result<(ObjectModel, VariableModel), CompileErrorModel> {
    match spec_append(o1, o2) {
        Err(k) => Err(k),
        Ok(a1) => {
            if !(v1.vtype == Type::Integer && v2.vtype == Type::Integer) {
                Err(CompileErrorModel::Other)
            } else {
                match load_model(Register::Rax, v2) {
                    Err(k) => Err(k),
                    Ok(ld) => match spec_append(a1, ld) {
                        Err(k) => Err(k),
                        Ok(a2) => match store_model(Register::Rax, v1) {
                            Err(k) => Err(k),
                            Ok(st) => match spec_append(a2, st) {
                                Err(k) => Err(k),
                                Ok(a3) => Ok((a3, v2)),
                            },
                        },
                    },
                }
            }
        },
    }
}

/// The tail of the additive lowering, after both sides have been
/// lowered: the operands must be integers; they are loaded into `%rax`
/// and `%rcx`, combined by the operator, and stored into a fresh
/// temporary, which is the result.
pub open spec fn spec_add_full(
    op: ast::Operator,
    o1: ObjectModel,
    v1: VariableModel,
    o2: ObjectModel,
    v2: VariableModel,
    sc: ScopeModel,
    c: int,
) -> Result<(ObjectModel, VariableModel, ScopeModel, int), CompileErrorModel> {
    match spec_append(o1, o2) {
        Err(k) => Err(k),
        Ok(a1) => {
            if !(v1.vtype == Type::Integer && v2.vtype == Type::Integer) {
                Err(CompileErrorModel::Other)
            } else {
                match load_model(Register::Rax, v1) {
                    Err(k) => Err(k),
                    Ok(ld1) => match spec_append(a1, ld1) {
                        Err(k) => Err(k),
                        Ok(a2) => match load_model(Register::Rcx, v2) {
                            Err(k) => Err(k),
                            Ok(ld2) => match spec_append(a2, ld2) {
                                Err(k) => Err(k),
                                Ok(a3) => spec_compile_add_tail(op, a3, sc, c),
                            },
                        },
                    },
                }
            }
        },
    }
}

/// What lowering a variable expression does: resolve the name, or
/// report it undefined.
pub open spec fn spec_variable_result(
    name: Seq<char>,
    g: GlobalModel,
    sc: ScopeModel,
    c: int,
) -> Result<(ObjectModel, VariableModel, GlobalModel, ScopeModel, int), CompileErrorModel> {
    match spec_resolve(sc, g, name) {
        Some(v) => Ok((ObjectModel::empty(), v, g, sc, c)),
        None => Err(CompileErrorModel::UndefinedSymbol(name)),
    }
}

/// What lowering an integer literal does: the text must be a whole
/// signed decimal; the value is interned as a word-sized static under a
/// fresh local symbol, and the variable reading it is the result.
pub open spec fn spec_compile_literal(
    literal: Seq<char>,
    g: GlobalModel,
    sc: ScopeModel,
    c: int,
) -> Result<(ObjectModel, VariableModel, GlobalModel, ScopeModel, int), CompileErrorModel> {
    let lb = encode_utf8(literal);
    match spec_iint(lb, 0) {
        Err(_) => Err(CompileErrorModel::Other),
        Ok((v, end)) => {
            if end != lb.len() {
                Err(CompileErrorModel::Other)
            } else if c >= u64::MAX - 2 {
                Err(CompileErrorModel::Other)
            } else {
                let sym = SymbolKey::Local(c as u64);
                Ok(
                    (
                        ObjectModel {
                            code: RelocatableModel::empty(),
                            data: data_section_model(
                                le8(to_2c(v, 0x1_0000_0000_0000_0000) as u64),
                                sym,
                            ),
                        },
                        static_var_model(sym),
                        GlobalModel { symbols: g.symbols.push((sym, static_var_model(sym))) },
                        sc,
                        c + 1,
                    ),
                )
            }
        },
    }
}

/// What lowering an expression does: the code-and-data object, the
/// variable holding the value, and the global table, scope and
/// local-symbol counter afterwards — or the first error, with
/// `UndefinedSymbol` naming an unresolved variable. Computed subresults
/// go to fresh temporaries; literals are interned as data symbols;
/// boolean operators, comparisons, multiplication, calls and block
/// expressions are beyond this back end.
#[verifier::opaque]
pub open spec fn spec_compile_expr(e: ast::Expression, g: GlobalModel, sc: ScopeModel, c: int) -> Result<
    (ObjectModel, VariableModel, GlobalModel, ScopeModel, int),
    CompileErrorModel,
>
    decreases e,
{
    match e {
        ast::Expression::AssignExpression { rhs, op, lhs } => {
            if encode_utf8(op.operator@) != seq![61u8] {
                Err(CompileErrorModel::Other)
            } else {
                match spec_compile_expr(*lhs, g, sc, c) {
                    Err(k) => Err(k),
                    Ok((o1, v1, g1, s1, c1)) => match spec_compile_expr(*rhs, g1, s1, c1) {
                        Err(k) => Err(k),
                        Ok((o2, v2, g2, s2, c2)) => match spec_assign_tail(o1, v1, o2, v2) {
                            Err(k) => Err(k),
                            Ok((a, v)) => Ok((a, v, g2, s2, c2)),
                        },
                    },
                }
            }
        },
        ast::Expression::AddExpression { rhs, op, lhs } => {
            if op.checked {
                Err(CompileErrorModel::Other)
            } else {
                match spec_compile_expr(*lhs, g, sc, c) {
                    Err(k) => Err(k),
                    Ok((o1, v1, g1, s1, c1)) => match spec_compile_expr(*rhs, g1, s1, c1) {
                        Err(k) => Err(k),
                        Ok((o2, v2, g2, s2, c2)) => match spec_add_full(
                            op,
                            o1,
                            v1,
                            o2,
                            v2,
                            s2,
                            c2,
                        ) {
                            Err(k) => Err(k),
                            Ok((a, v, s3, c3)) => Ok((a, v, g2, s3, c3)),
                        },
                    },
                }
            }
        },
        ast::Expression::ParenExpression { expr } => spec_compile_expr(*expr, g, sc, c),
        ast::Expression::VariableExpression { name } => spec_variable_result(name@, g, sc, c),
        ast::Expression::IntLiteralExpression { literal } => spec_compile_literal(
            literal@,
            g,
            sc,
            c,
        ),
        _ => Err(CompileErrorModel::Other),
    }
}

proof fn lemma_expr_assign(
    rhs: Box<ast::Expression>,
    op: ast::Operator,
    lhs: Box<ast::Expression>,
    g: GlobalModel,
    sc: ScopeModel,
    c: int,
)
    ensures
        spec_compile_expr(ast::Expression::AssignExpression { rhs, op, lhs }, g, sc, c) == (
        if encode_utf8(op.operator@) != seq![61u8] {
            Err(CompileErrorModel::Other)
        } else {
            match spec_compile_expr(*lhs, g, sc, c) {
                Err(k) => Err(k),
                Ok((o1, v1, g1, s1, c1)) => match spec_compile_expr(*rhs, g1, s1, c1) {
                    Err(k) => Err(k),
                    Ok((o2, v2, g2, s2, c2)) => match spec_assign_tail(o1, v1, o2, v2) {
                        Err(k) => Err(k),
                        Ok((a, v)) => Ok((a, v, g2, s2, c2)),
                    },
                },
            }
        }),
{
    reveal(spec_compile_expr);
}

proof fn lemma_expr_add(
    rhs: Box<ast::Expression>,
    op: ast::Operator,
    lhs: Box<ast::Expression>,
    g: GlobalModel,
    sc: ScopeModel,
    c: int,
)
    ensures
        spec_compile_expr(ast::Expression::AddExpression { rhs, op, lhs }, g, sc, c) == (
        if op.checked {
            Err(CompileErrorModel::Other)
        } else {
            match spec_compile_expr(*lhs, g, sc, c) {
                Err(k) => Err(k),
                Ok((o1, v1, g1, s1, c1)) => match spec_compile_expr(*rhs, g1, s1, c1) {
                    Err(k) => Err(k),
                    Ok((o2, v2, g2, s2, c2)) => match spec_add_full(op, o1, v1, o2, v2, s2, c2) {
                        Err(k) => Err(k),
                        Ok((a, v, s3, c3)) => Ok((a, v, g2, s3, c3)),
                    },
                },
            }
        }),
{
    reveal(spec_compile_expr);
}

proof fn lemma_expr_paren(expr: Box<ast::Expression>, g: GlobalModel, sc: ScopeModel, c: int)
    ensures
        spec_compile_expr(ast::Expression::ParenExpression { expr }, g, sc, c)
            == spec_compile_expr(*expr, g, sc, c),
{
    reveal(spec_compile_expr);
}

proof fn lemma_expr_variable(name: String, g: GlobalModel, sc: ScopeModel, c: int)
    ensures
        spec_compile_expr(ast::Expression::VariableExpression { name }, g, sc, c)
            == spec_variable_result(name@, g, sc, c),
{
    reveal(spec_compile_expr);
}

proof fn lemma_expr_literal(literal: String, g: GlobalModel, sc: ScopeModel, c: int)
    ensures
        spec_compile_expr(ast::Expression::IntLiteralExpression { literal }, g, sc, c)
            == spec_compile_literal(literal@, g, sc, c),
{
    reveal(spec_compile_expr);
}

proof fn lemma_expr_other(e: ast::Expression, g: GlobalModel, sc: ScopeModel, c: int)
    requires
        !(e is AssignExpression),
        !(e is AddExpression),
        !(e is ParenExpression),
        !(e is VariableExpression),
        !(e is IntLiteralExpression),
    ensures
        spec_compile_expr(e, g, sc, c) == Err::<
            (ObjectModel, VariableModel, GlobalModel, ScopeModel, int),
            CompileErrorModel,
        >(CompileErrorModel::Other),
{
    reveal(spec_compile_expr);
}

/// The tail of the additive lowering:/// The tail of the additive lowering: the operator instruction, then the
/// store into a fresh temporary.
pub open spec fn spec_compile_add_tail(
    op: ast::Operator,
    acc: ObjectModel,
    sc: ScopeModel,
    c: int,
) -> Result<(ObjectModel, VariableModel, ScopeModel, int), CompileErrorModel> {
    let opb = encode_utf8(op.operator@);
    let arith: Result<ObjectModel, CompileErrorModel> = if opb == seq![43u8] {
        Ok(
            ObjectModel {
                code: plain_model(spec_reg_reg_bytes(0x01, 1, 0)),
                data: RelocatableModel::empty(),
            },
        )
    } else if opb == seq![45u8] {
        Ok(
            ObjectModel {
                code: plain_model(spec_reg_reg_bytes(0x29, 1, 0)),
                data: RelocatableModel::empty(),
            },
        )
    } else {
        Err(CompileErrorModel::Other)
    };
    match arith {
        Err(k) => Err(k),
        Ok(ao) => match spec_append(acc, ao) {
            Err(k) => Err(k),
            Ok(a4) => {
                if sc.depth >= 0x0fff_ffff || c >= u64::MAX - 2 {
                    Err(CompileErrorModel::Other)
                } else {
                    let tvar = VariableModel {
                        name: SymbolKey::Local(c as u64),
                        mutable: false,
                        vtype: Type::Integer,
                        location: LocationModel::Local { stack_index: sc.depth },
                    };
                    let s3 = ScopeModel { depth: sc.depth + 1, ..sc };
                    match store_model(Register::Rax, tvar) {
                        Err(k) => Err(k),
                        Ok(st) => match spec_append(a4, st) {
                            Err(k) => Err(k),
                            Ok(a5) => Ok((a5, tvar, s3, c + 1)),
                        },
                    }
                }
            },
        },
    }
}

/// What lowering a `let` does: declare the local, lower the initializer,
/// and move its value into the new slot.
pub open spec fn spec_compile_let(l: ast::Let, g: GlobalModel, sc: ScopeModel, c: int) -> Result<
    (ObjectModel, GlobalModel, ScopeModel, int),
    CompileErrorModel,
> {
    if sc.depth >= 0x0fff_ffff || c >= u64::MAX - 2 {
        Err(CompileErrorModel::Other)
    } else {
        let var = VariableModel {
            name: SymbolKey::Local(c as u64),
            mutable: l.variable.mutable,
            vtype: Type::Integer,
            location: LocationModel::Local { stack_index: sc.depth },
        };
        let sc1 = ScopeModel {
            depth: sc.depth + 1,
            locals: sc.locals.push((l.variable.name@, var)),
            ..sc
        };
        match spec_compile_expr(l.value, g, sc1, c + 1) {
            Err(k) => Err(k),
            Ok((o, vinit, g2, s2, c2)) => match load_model(Register::Rax, vinit) {
                Err(k) => Err(k),
                Ok(ld) => match spec_append(o, ld) {
                    Err(k) => Err(k),
                    Ok(a1) => match store_model(Register::Rax, var) {
                        Err(k) => Err(k),
                        Ok(st) => match spec_append(a1, st) {
                            Err(k) => Err(k),
                            Ok(a2) => Ok((a2, g2, s2, c2)),
                        },
                    },
                },
            },
        }
    }
}

/// What lowering one statement does. Loops and returns are beyond this
/// back end.
pub open spec fn spec_compile_stmt(st: ast::Statement, g: GlobalModel, sc: ScopeModel, c: int) -> Result<
    (ObjectModel, GlobalModel, ScopeModel, int),
    CompileErrorModel,
> {
    match st {
        ast::Statement::LetStatement(l) => spec_compile_let(l, g, sc, c),
        ast::Statement::ExpressionStatement(e) => match spec_compile_expr(e, g, sc, c) {
            Err(k) => Err(k),
            Ok((o, _, g1, s1, c1)) => Ok((o, g1, s1, c1)),
        },
        _ => Err(CompileErrorModel::Other),
    }
}

/// The statements from `i` on, lowered in order onto `acc`.
pub open spec fn spec_compile_stmts(
    stmts: Seq<ast::Statement>,
    i: int,
    acc: ObjectModel,
    g: GlobalModel,
    sc: ScopeModel,
    c: int,
) -> Result<(ObjectModel, GlobalModel, ScopeModel, int), CompileErrorModel>
    decreases stmts.len() - i,
{
    if i < 0 || i >= stmts.len() {
        Ok((acc, g, sc, c))
    } else {
        match spec_compile_stmt(stmts[i], g, sc, c) {
            Err(k) => Err(k),
            Ok((o, g1, s1, c1)) => match spec_append(acc, o) {
                Err(k) => Err(k),
                Ok(a) => spec_compile_stmts(stmts, i + 1, a, g1, s1, c1),
            },
        }
    }
}

/// What lowering a block does: its statements in order.
pub open spec fn spec_compile_block(b: ast::Block, g: GlobalModel, sc: ScopeModel, c: int) -> Result<
    (ObjectModel, GlobalModel, ScopeModel, int),
    CompileErrorModel,
> {
    spec_compile_stmts(b.statements@, 0, ObjectModel::empty(), g, sc, c)
}

/// The executable tail of the assignment lowering: exactly
/// [`spec_assign_tail`].
fn finish_assign(code: Object, lhs_var: &Variable, rhs_code: &Object, rhs_var: Variable) -> (r:
    Result<(Object, Variable), CompileError>)
    requires
        obj_wf(code@),
        obj_wf(rhs_code@),
        usize::MAX == 0xffff_ffff_ffff_ffff,
    ensures
        match spec_assign_tail(code@, lhs_var@, rhs_code@, rhs_var@) {
            Err(k) => r matches Err(e) && e@ == k,
            Ok((om, vm)) => r matches Ok(p) && p.0@ == om && obj_wf(om) && p.1@ == vm && vm
                == rhs_var@,
        },
{
    let mut code = code;
    append_object(&mut code, rhs_code)?;

    if !(matches!(lhs_var.vtype, Type::Integer) && matches!(rhs_var.vtype, Type::Integer)) {
        return Err(CompileError::Other("assignment requires integer operands"));
    }

    let regs = usable_registers();
    let reg = regs[0];

    let load = load_from(reg, &rhs_var)?;
    append_object(&mut code, &load)?;
    let store = store_to(reg, lhs_var)?;
    append_object(&mut code, &store)?;

    Ok((code, rhs_var))
}

/// The executable tail of the additive lowering: exactly
/// [`spec_add_full`].
fn finish_add(
    code: Object,
    lhs_var: &Variable,
    rhs_code: &Object,
    rhs_var: &Variable,
    op: &ast::Operator,
    scope: &mut FunctionScopeState,
    counter: &mut SymbolCounter,
) -> (r: Result<(Object, Variable), CompileError>)
    requires
        obj_wf(code@),
        obj_wf(rhs_code@),
        usize::MAX == 0xffff_ffff_ffff_ffff,
    ensures
        match spec_add_full(
            *op,
            code@,
            lhs_var@,
            rhs_code@,
            rhs_var@,
            old(scope)@,
            old(counter).spec_next() as int,
        ) {
            Err(k) => r matches Err(e) && e@ == k,
            Ok((om, vm, s2, c2)) => r matches Ok(p) && p.0@ == om && obj_wf(om) && p.1@ == vm
                && final(scope)@ == s2 && final(counter).spec_next() as int == c2,
        },
{
    let mut code = code;
    append_object(&mut code, rhs_code)?;

    if !(matches!(lhs_var.vtype, Type::Integer) && matches!(rhs_var.vtype, Type::Integer)) {
        return Err(CompileError::Other("arithmetic requires integer operands"));
    }

    let regs = usable_registers();
    let dst = regs[0];
    let src = regs[1];

    let load_l = load_from(dst, lhs_var)?;
    append_object(&mut code, &load_l)?;
    let load_r = load_from(src, rhs_var)?;
    append_object(&mut code, &load_r)?;

    let ops = op.operator.as_str();
    let op_bytes = ops.as_bytes();
    let arith = if op_bytes.len() == 1 && op_bytes[0] == 43 {
        proof {
            assert(encode_utf8(op.operator@) =~= seq![43u8]);
        }
        add_assign_regs(dst, src)?
    } else if op_bytes.len() == 1 && op_bytes[0] == 45 {
        proof {
            assert(encode_utf8(op.operator@) =~= seq![45u8]);
            assert(encode_utf8(op.operator@) != seq![43u8]);
        }
        sub_assign_regs(dst, src)?
    } else {
        proof {
            assert(encode_utf8(op.operator@) != seq![43u8]);
            assert(encode_utf8(op.operator@) != seq![45u8]);
        }
        return Err(CompileError::Other("invalid additive operator"));
    };
    append_object(&mut code, &arith)?;

    if scope.stack_depth >= 0x0fff_ffffusize || counter.value() >= u64::MAX - 2 {
        return Err(CompileError::Other("function too large"));
    }
    let result_var = scope.new_temporary(counter);
    let store = store_to(dst, &result_var)?;
    append_object(&mut code, &store)?;

    Ok((code, result_var))
}

/// Lowers an expression: exactly [`spec_compile_expr`].
#[verifier::loop_isolation(false)]
#[verifier::rlimit(100)]
pub fn compile_expression(
    expr: &ast::Expression,
    global: &mut GlobalState,
    scope: &mut FunctionScopeState,
    counter: &mut SymbolCounter,
) -> (r: Result<(Object, Variable), CompileError>)
    requires
        usize::MAX == 0xffff_ffff_ffff_ffff,
    ensures
        match spec_compile_expr(
            *expr,
            old(global)@,
            old(scope)@,
            old(counter).spec_next() as int,
        ) {
            Err(k) => r matches Err(e) && e@ == k,
            Ok((om, vm, g2, s2, c2)) => r matches Ok(p) && p.0@ == om && obj_wf(om) && p.1@ == vm
                && final(global)@ == g2 && final(scope)@ == s2 && final(counter).spec_next() as int
                == c2,
        },
    decreases *expr,
{
    match expr {
        ast::Expression::AssignExpression { rhs, op, lhs } => {
            proof {
                lemma_expr_assign(*rhs, *op, *lhs, global@, scope@, counter.spec_next() as int);
            }
            let ops = op.operator.as_str();
            let opb = ops.as_bytes();
            if !(opb.len() == 1 && opb[0] == 61) {
                // only plain `=` assignment is lowered
                proof {
                    assert(encode_utf8(op.operator@) != seq![61u8]);
                }
                return Err(CompileError::Other("unsupported assignment operator"));
            }
            proof {
                assert(encode_utf8(op.operator@) =~= seq![61u8]);
            }
            let (code, lhs_var) = compile_expression(&**lhs, global, scope, counter)?;
            let (rhs_code, rhs_var) = compile_expression(&**rhs, global, scope, counter)?;
            finish_assign(code, &lhs_var, &rhs_code, rhs_var)
        },
        ast::Expression::AddExpression { rhs, op, lhs } => {
            proof {
                lemma_expr_add(*rhs, *op, *lhs, global@, scope@, counter.spec_next() as int);
            }
            if op.checked {
                return Err(CompileError::Other("checked arithmetic is not lowered"));
            }
            let (code, lhs_var) = compile_expression(&**lhs, global, scope, counter)?;
            let (rhs_code, rhs_var) = compile_expression(&**rhs, global, scope, counter)?;
            finish_add(code, &lhs_var, &rhs_code, &rhs_var, op, scope, counter)
        },
        ast::Expression::ParenExpression { expr: inner } => {
            proof {
                lemma_expr_paren(*inner, global@, scope@, counter.spec_next() as int);
            }
            compile_expression(&**inner, global, scope, counter)
        },
        ast::Expression::VariableExpression { name } => {
            proof {
                lemma_expr_variable(*name, global@, scope@, counter.spec_next() as int);
            }
            match scope.get_variable(global, name.as_str()) {
                Some(var) => Ok((Object::empty(), var)),
                None => Err(CompileError::UndefinedSymbol(name.clone())),
            }
        },
        ast::Expression::IntLiteralExpression { literal } => {
            proof {
                lemma_expr_literal(*literal, global@, scope@, counter.spec_next() as int);
            }
            let value = parse_literal(literal.as_str())?;
            if counter.value() >= u64::MAX - 2 {
                return Err(CompileError::Other("function too large"));
            }
            let sym = Symbol::new_local(counter);
            let (obj, var) = global.new_static(value, sym);
            Ok((obj, var))
        },
        _ => {
            proof {
                lemma_expr_other(*expr, global@, scope@, counter.spec_next() as int);
            }
            Err(CompileError::Other("expression form is not lowered by this back end"))
        },
    }
}

/// Lowers a `let`: exactly [`spec_compile_let`].
pub fn compile_let(
    stmt: &ast::Let,
    global: &mut GlobalState,
    scope: &mut FunctionScopeState,
    counter: &mut SymbolCounter,
) -> (r: Result<Object, CompileError>)
    requires
        usize::MAX == 0xffff_ffff_ffff_ffff,
    ensures
        match spec_compile_let(
            *stmt,
            old(global)@,
            old(scope)@,
            old(counter).spec_next() as int,
        ) {
            Err(k) => r matches Err(e) && e@ == k,
            Ok((om, g2, s2, c2)) => r matches Ok(o) && o@ == om && obj_wf(om) && final(global)@
                == g2 && final(scope)@ == s2 && final(counter).spec_next() as int == c2,
        },
    decreases *stmt,
{
    if scope.stack_depth >= 0x0fff_ffffusize || counter.value() >= u64::MAX - 2 {
        return Err(CompileError::Other("function too large"));
    }
    let var = scope.new_local(stmt.variable.name.clone(), stmt.variable.mutable, counter);
    let (mut code, initializer) = compile_expression(&stmt.value, global, scope, counter)?;

    let regs = usable_registers();
    let reg = regs[0];

    let load = load_from(reg, &initializer)?;
    append_object(&mut code, &load)?;
    let store = store_to(reg, &var)?;
    append_object(&mut code, &store)?;

    Ok(code)
}

/// Lowers one statement: exactly [`spec_compile_stmt`].
pub fn compile_statement(
    stmt: &ast::Statement,
    global: &mut GlobalState,
    scope: &mut FunctionScopeState,
    counter: &mut SymbolCounter,
) -> (r: Result<Object, CompileError>)
    requires
        usize::MAX == 0xffff_ffff_ffff_ffff,
    ensures
        match spec_compile_stmt(
            *stmt,
            old(global)@,
            old(scope)@,
            old(counter).spec_next() as int,
        ) {
            Err(k) => r matches Err(e) && e@ == k,
            Ok((om, g2, s2, c2)) => r matches Ok(o) && o@ == om && obj_wf(om) && final(global)@
                == g2 && final(scope)@ == s2 && final(counter).spec_next() as int == c2,
        },
    decreases *stmt,
{
    match stmt {
        ast::Statement::LetStatement(inner) => compile_let(inner, global, scope, counter),
        ast::Statement::ExpressionStatement(expr) => {
            match compile_expression(expr, global, scope, counter) {
                Ok((obj, _var)) => Ok(obj),
                Err(e) => Err(e),
            }
        },
        ast::Statement::LoopStatement(_) => Err(
            CompileError::Other("loop statements are not lowered by this back end"),
        ),
        ast::Statement::ReturnStatement(_) => Err(
            CompileError::Other("return statements are not lowered by this back end"),
        ),
    }
}

/// Lowers a block: exactly [`spec_compile_block`].
#[verifier::loop_isolation(false)]
pub fn compile_block(
    block: &ast::Block,
    global: &mut GlobalState,
    scope: &mut FunctionScopeState,
    counter: &mut SymbolCounter,
) -> (r: Result<Object, CompileError>)
    requires
        usize::MAX == 0xffff_ffff_ffff_ffff,
    ensures
        match spec_compile_block(
            *block,
            old(global)@,
            old(scope)@,
            old(counter).spec_next() as int,
        ) {
            Err(k) => r matches Err(e) && e@ == k,
            Ok((om, g2, s2, c2)) => r matches Ok(o) && o@ == om && obj_wf(om) && final(global)@
                == g2 && final(scope)@ == s2 && final(counter).spec_next() as int == c2,
        },
    decreases *block,
{
    let ghost g0 = global@;
    let ghost s0 = scope@;
    let ghost c0 = old(counter).spec_next() as int;
    let mut obj = Object::empty();
    proof {
        assert(obj@ =~~= ObjectModel::empty());
    }
    let n = block.statements.len();
    let mut i: usize = 0;
    while i < n
        invariant
            i <= n,
            n == block.statements@.len(),
            obj_wf(obj@),
            spec_compile_stmts(block.statements@, i as int, obj@, global@, scope@, counter.spec_next() as int)
                == spec_compile_block(*block, g0, s0, c0),
        decreases n - i,
    {
        let piece = compile_statement(&block.statements[i], global, scope, counter)?;
        append_object(&mut obj, &piece)?;
        i = i + 1;
    }
    Ok(obj)
}

/// `mov %rbp,%rsp; pop %rbp; ret` — the frame teardown and return.
pub open spec fn spec_epilogue() -> Seq<u8> {
    seq![0x48u8, 0x89, 0xec, 0x5d, 0xc3]
}

/// `endbr64; push %rbp; mov %rsp,%rbp; sub $8*stack_slots,%rsp` — the
/// frame setup.
pub open spec fn prologue_base(stack_slots: int) -> Seq<u8> {
    seq![0xf3u8, 0x0f, 0x1e, 0xfa, 0x55, 0x48, 0x89, 0xe5, 0x48, 0x81, 0xec] + le4(
        (8 * stack_slots) as u32,
    )
}

/// The move that spills argument `k` into its stack slot: from its
/// argument register for the first six, else from its frame home above
/// the saved frame pointer and the return address, through `%rax`.
pub open spec fn spill_bytes(k: int, slot: int) -> Seq<u8> {
    if k < 6 {
        spec_mem_bytes(0x89, spec_arg_register(k).spec_number(), Register::Rsp, 8 * slot)
    } else {
        spec_mem_bytes(0x8b, 0, Register::Rbp, 8 * (k - 6 + 2)) + spec_mem_bytes(
            0x89,
            0,
            Register::Rsp,
            8 * slot,
        )
    }
}

/// The whole prologue: the frame setup, then the spills in argument
/// order.
pub open spec fn prologue_bytes(stack_slots: int, slots: Seq<int>) -> Seq<u8>
    decreases slots.len(),
{
    if slots.len() == 0 {
        prologue_base(stack_slots)
    } else {
        prologue_bytes(stack_slots, slots.drop_last()) + spill_bytes(
            slots.len() - 1,
            slots.last(),
        )
    }
}

/// The images of a sequence of slot numbers.
pub open spec fn slots_view(s: Seq<usize>) -> Seq<int> {
    s.map_values(|x: usize| x as int)
}

/// Builds a function's prologue (frame setup and argument spill),
/// epilogue (frame teardown and return) and abort handler (empty on this
/// target): three objects, the first two exactly [`prologue_bytes`] and
/// [`spec_epilogue`]. Fails exactly when an argument slot lies beyond
/// the frame, the frame exceeds the addressable range, or the argument
/// list cannot be spilled.
#[verifier::loop_isolation(false)]
#[verifier::rlimit(100)]
pub fn function_prologue_epilogue_abort(stack_slots: usize, arg_slots: &Vec<usize>) -> (r: Result<
    (Object, Object, Object),
    CompileError,
>)
    requires
        usize::MAX == 0xffff_ffff_ffff_ffff,
    ensures
        match r {
            Ok(t) => {
                &&& forall|j: int|
                    0 <= j < arg_slots@.len() ==> (#[trigger] arg_slots@[j]) < stack_slots
                &&& stack_slots <= 0x0fff_ffff
                &&& arg_slots@.len() <= 0x1000_0000
                &&& t.0@ == (ObjectModel {
                    code: plain_model(prologue_bytes(stack_slots as int, slots_view(arg_slots@))),
                    data: RelocatableModel::empty(),
                })
                &&& t.1@ == (ObjectModel {
                    code: plain_model(spec_epilogue()),
                    data: RelocatableModel::empty(),
                })
                &&& t.2@ == ObjectModel::empty()
                &&& obj_wf(t.0@)
                &&& obj_wf(t.1@)
                &&& obj_wf(t.2@)
            },
            Err(e) => e@ == CompileErrorModel::Other && ((exists|j: int|
                0 <= j < arg_slots@.len() && (#[trigger] arg_slots@[j]) >= stack_slots)
                || stack_slots > 0x0fff_ffff || arg_slots@.len() > 0x1000_0000),
        },
{
    if arg_slots.len() > 0x1000_0000usize {
        return Err(CompileError::Other("too many arguments"));
    }
    let n_args = arg_slots.len();
    let mut k: usize = 0;
    while k < n_args
        invariant
            k <= n_args,
            n_args == arg_slots@.len(),
            forall|j: int| 0 <= j < k ==> (#[trigger] arg_slots@[j]) < stack_slots,
        decreases n_args - k,
    {
        if arg_slots[k] >= stack_slots {
            return Err(CompileError::Other("argument slot beyond the stack frame"));
        }
        k = k + 1;
    }
    if stack_slots > 0x0fff_ffffusize {
        return Err(CompileError::Other("stack frame too large"));
    }

    let ghost sv = slots_view(arg_slots@);
    let frame = (stack_slots as i32) * 8;
    let f0 = (frame as u32 % 0x100) as u8;
    let f1 = ((frame as u32 / 0x100) % 0x100) as u8;
    let f2 = ((frame as u32 / 0x10000) % 0x100) as u8;
    let f3 = ((frame as u32 / 0x1000000) % 0x100) as u8;
    // endbr64; push %rbp; mov %rsp,%rbp; sub $frame,%rsp
    let prologue_head = vec![
        0xf3u8,
        0x0f,
        0x1e,
        0xfa,
        0x55,
        0x48,
        0x89,
        0xe5,
        0x48,
        0x81,
        0xec,
        f0,
        f1,
        f2,
        f3,
    ];
    proof {
        assert(prologue_head@ =~= prologue_base(stack_slots as int));
        assert(sv.take(0) =~= Seq::<int>::empty());
    }
    let mut prologue = Object::from_code(Relocatable::from_bytes(prologue_head));
    proof {
        assert(prologue@ =~~= (ObjectModel {
            code: plain_model(prologue_base(stack_slots as int)),
            data: RelocatableModel::empty(),
        }));
    }

    let mut k: usize = 0;
    while k < n_args
        invariant
            k <= n_args,
            n_args == arg_slots@.len(),
            n_args <= 0x1000_0000,
            forall|j: int| 0 <= j < n_args ==> (#[trigger] arg_slots@[j]) < stack_slots,
            stack_slots <= 0x0fff_ffffusize,
            prologue@ == (ObjectModel {
                code: plain_model(prologue_bytes(stack_slots as int, sv.take(k as int))),
                data: RelocatableModel::empty(),
            }),
            prologue@.code.data.len() <= 15 + 24 * k,
            obj_wf(prologue@),
        decreases n_args - k,
    {
        proof {
            assert(sv[k as int] == arg_slots@[k as int] as int);
            assert(sv.take(k + 1).drop_last() =~= sv.take(k as int));
            assert(sv.take(k + 1).last() == sv[k as int]);
        }
        let slot = arg_slots[k];
        let slot_disp = (slot as i32) * 8;
        if k < 6 {
            // the first six arguments arrive in registers
            match simple_reg_to_memory(
                arg_register(k),
                Register::Rsp,
                slot_disp,
                SimpleInstruction::Mov,
            ) {
                Ok(rel) => {
                    let piece = Object::from_code(rel);
                    proof {
                        lemma_concat_plain(
                            prologue_bytes(stack_slots as int, sv.take(k as int)),
                            spill_bytes(k as int, sv[k as int]),
                        );
                    }
                    append_object(&mut prologue, &piece)?;
                },
                Err(()) => {
                    return Err(CompileError::Other("unencodable argument spill"));
                },
            }
        } else {
            // the rest sit above the saved frame pointer and the return
            // address
            let frame_disp = ((k - 6 + 2) as i32) * 8;
            let first = match simple_memory_to_reg(
                Register::Rbp,
                frame_disp,
                Register::Rax,
                SimpleInstruction::Mov,
            ) {
                Ok(rel) => rel,
                Err(()) => {
                    return Err(CompileError::Other("unencodable argument load"));
                },
            };
            let second = match simple_reg_to_memory(
                Register::Rax,
                Register::Rsp,
                slot_disp,
                SimpleInstruction::Mov,
            ) {
                Ok(rel) => rel,
                Err(()) => {
                    return Err(CompileError::Other("unencodable argument spill"));
                },
            };
            let piece = Object::from_code(first.add(&second));
            proof {
                lemma_concat_plain(
                    spec_mem_bytes(0x8b, 0, Register::Rbp, 8 * ((k - 6 + 2) as int)),
                    spec_mem_bytes(0x89, 0, Register::Rsp, 8 * sv[k as int]),
                );
                lemma_concat_plain(
                    prologue_bytes(stack_slots as int, sv.take(k as int)),
                    spill_bytes(k as int, sv[k as int]),
                );
            }
            append_object(&mut prologue, &piece)?;
        }
        k = k + 1;
    }
    proof {
        assert(sv.take(n_args as int) =~= sv);
    }

    // mov %rbp,%rsp; pop %rbp; ret
    let epilogue_tail = vec![0x48u8, 0x89, 0xec, 0x5d, 0xc3];
    proof {
        assert(epilogue_tail@ =~= spec_epilogue());
    }
    let epilogue = Object::from_code(Relocatable::from_bytes(epilogue_tail));
    let abort = Object::empty();
    proof {
        assert(epilogue@ =~~= (ObjectModel {
            code: plain_model(spec_epilogue()),
            data: RelocatableModel::empty(),
        }));
        assert(abort@ =~~= ObjectModel::empty());
    }

    Ok((prologue, epilogue, abort))
}

/// Parameter declaration: each parameter becomes a named local in the
/// next stack slot, and its slot number is recorded for the prologue.
pub open spec fn spec_declare_params(
    ps: Seq<ast::Variable>,
    i: int,
    sc: ScopeModel,
    c: int,
    slots: Seq<int>,
) -> Result<(ScopeModel, int, Seq<int>), CompileErrorModel>
    decreases ps.len() - i,
{
    if i < 0 || i >= ps.len() {
        Ok((sc, c, slots))
    } else if sc.depth >= 0x0fff_ffff || c >= u64::MAX - 2 {
        Err(CompileErrorModel::Other)
    } else {
        let var = VariableModel {
            name: SymbolKey::Local(c as u64),
            mutable: ps[i].mutable,
            vtype: Type::Integer,
            location: LocationModel::Local { stack_index: sc.depth },
        };
        spec_declare_params(
            ps,
            i + 1,
            ScopeModel { depth: sc.depth + 1, locals: sc.locals.push((ps[i].name@, var)), ..sc },
            c + 1,
            slots.push(sc.depth),
        )
    }
}

/// What lowering one function item does: a fresh scope, the parameters
/// declared and spilled by the prologue, the body, and the epilogue.
#[verifier::opaque]
pub open spec fn spec_compile_function_item(f: ast::Function, g: GlobalModel, c: int) -> Result<
    (ObjectModel, GlobalModel, int),
    CompileErrorModel,
> {
    if c >= u64::MAX - 4 {
        Err(CompileErrorModel::Other)
    } else {
        let sc0 = ScopeModel {
            depth: 0,
            locals: Seq::empty(),
            function_return: SymbolKey::Local(c as u64),
            function_abort: SymbolKey::Local((c + 1) as u64),
        };
        match spec_declare_params(f.parameters@, 0, sc0, c + 2, Seq::empty()) {
            Err(k) => Err(k),
            Ok((sc1, c1, slots)) => match spec_compile_block(f.body, g, sc1, c1) {
                Err(k) => Err(k),
                Ok((body, g2, s2, c2)) => {
                    if (exists|j: int| 0 <= j < slots.len() && slots[j] >= s2.depth) || s2.depth
                        > 0x0fff_ffff || slots.len() > 0x1000_0000 {
                        Err(CompileErrorModel::Other)
                    } else {
                        let prologue = ObjectModel {
                            code: plain_model(prologue_bytes(s2.depth, slots)),
                            data: RelocatableModel::empty(),
                        };
                        let epilogue = ObjectModel {
                            code: plain_model(spec_epilogue()),
                            data: RelocatableModel::empty(),
                        };
                        match spec_append(prologue, body) {
                            Err(k) => Err(k),
                            Ok(a1) => match spec_append(a1, epilogue) {
                                Err(k) => Err(k),
                                Ok(a2) => Ok((a2, g2, c2)),
                            },
                        }
                    }
                },
            },
        }
    }
}

/// Lowers one function item: exactly [`spec_compile_function_item`].
#[verifier::loop_isolation(false)]
#[verifier::rlimit(100)]
pub fn compile_function_item(
    item: &ast::Function,
    global: &mut GlobalState,
    counter: &mut SymbolCounter,
) -> (r: Result<Object, CompileError>)
    requires
        usize::MAX == 0xffff_ffff_ffff_ffff,
    ensures
        match spec_compile_function_item(
            *item,
            old(global)@,
            old(counter).spec_next() as int,
        ) {
            Err(k) => r matches Err(e) && e@ == k,
            Ok((om, g2, c2)) => r matches Ok(o) && o@ == om && obj_wf(om) && final(global)@ == g2
                && final(counter).spec_next() as int == c2,
        },
    decreases *item,
{
    proof {
        reveal(spec_compile_function_item);
    }
    if counter.value() >= u64::MAX - 4 {
        return Err(CompileError::Other("function too large"));
    }
    let ghost c_start = counter.spec_next() as int;
    let mut scope = FunctionScopeState::new(counter);
    let ghost sc0 = scope@;
    let mut arg_slots: Vec<usize> = Vec::new();
    proof {
        assert(slots_view(arg_slots@) =~= Seq::<int>::empty());
    }
    let n_params = item.parameters.len();
    let mut k: usize = 0;
    while k < n_params
        invariant
            k <= n_params,
            n_params == item.parameters@.len(),
            usize::MAX == 0xffff_ffff_ffff_ffff,
            arg_slots@.len() == k,
            forall|j: int| 0 <= j < k ==> (#[trigger] arg_slots@[j]) < scope.stack_depth,
            spec_declare_params(
                item.parameters@,
                k as int,
                scope@,
                counter.spec_next() as int,
                slots_view(arg_slots@),
            ) == spec_declare_params(item.parameters@, 0, sc0, c_start + 2, Seq::empty()),
        decreases n_params - k,
    {
        if scope.stack_depth >= 0x0fff_ffffusize || counter.value() >= u64::MAX - 2 {
            return Err(CompileError::Other("function too large"));
        }
        let parameter = &item.parameters[k];
        let ghost slots_before = slots_view(arg_slots@);
        let var = scope.new_local(parameter.name.clone(), parameter.mutable, counter);
        match var.location {
            Location::Local { stack_index } => {
                arg_slots.push(stack_index);
                proof {
                    assert(slots_view(arg_slots@) =~= slots_before.push(stack_index as int));
                }
            },
            Location::Static { .. } => {
                proof {
                    assert(false);
                }
                return Err(CompileError::Other("parameter in a static location"));
            },
        }
        k = k + 1;
    }

    proof {
        assert(spec_declare_params(
            item.parameters@,
            n_params as int,
            scope@,
            counter.spec_next() as int,
            slots_view(arg_slots@),
        ) == Ok::<(ScopeModel, int, Seq<int>), CompileErrorModel>(
            (scope@, counter.spec_next() as int, slots_view(arg_slots@)),
        ));
    }
    let ghost slots_g = slots_view(arg_slots@);

    let body = compile_block(&item.body, global, &mut scope, counter)?;
    let (mut obj, epilogue) = match function_prologue_epilogue_abort(
        scope.stack_depth,
        &arg_slots,
    ) {
        Ok(t) => {
            proof {
                assert forall|j: int| 0 <= j < slots_g.len() implies #[trigger] slots_g[j]
                    < scope@.depth by {
                    assert(slots_g[j] == arg_slots@[j] as int);
                }
            }
            (t.0, t.1)
        },
        Err(e) => {
            proof {
                if exists|j: int|
                    0 <= j < arg_slots@.len() && (#[trigger] arg_slots@[j])
                        >= scope.stack_depth {
                    let j = choose|j: int|
                        0 <= j < arg_slots@.len() && (#[trigger] arg_slots@[j])
                            >= scope.stack_depth;
                    assert(slots_g[j] == arg_slots@[j] as int);
                    assert(slots_g[j] >= scope@.depth);
                }
            }
            return Err(e);
        },
    };
    append_object(&mut obj, &body)?;
    append_object(&mut obj, &epilogue)?;
    Ok(obj)
}

/// What lowering one static item does: its initializer must be an
/// integer literal, placed in the data section under the item's global
/// name.
pub open spec fn spec_compile_static_item(item: ast::Static, g: GlobalModel, c: int) -> Result<
    (ObjectModel, GlobalModel, int),
    CompileErrorModel,
> {
    match item.value {
        ast::Expression::IntLiteralExpression { literal } => {
            let lb = encode_utf8(literal@);
            match spec_iint(lb, 0) {
                Err(_) => Err(CompileErrorModel::Other),
                Ok((v, end)) => {
                    if end != lb.len() {
                        Err(CompileErrorModel::Other)
                    } else {
                        let sym = SymbolKey::Global(item.name@);
                        Ok(
                            (
                                ObjectModel {
                                    code: RelocatableModel::empty(),
                                    data: data_section_model(
                                        le8(to_2c(v, 0x1_0000_0000_0000_0000) as u64),
                                        sym,
                                    ),
                                },
                                GlobalModel {
                                    symbols: g.symbols.push((sym, static_var_model(sym))),
                                },
                                c,
                            ),
                        )
                    }
                },
            }
        },
        _ => Err(CompileErrorModel::Other),
    }
}

/// Lowers one static item: exactly [`spec_compile_static_item`].
pub fn compile_static_item(
    item: &ast::Static,
    global: &mut GlobalState,
    counter: &mut SymbolCounter,
) -> (r: Result<Object, CompileError>)
    requires
        usize::MAX == 0xffff_ffff_ffff_ffff,
    ensures
        match spec_compile_static_item(
            *item,
            old(global)@,
            old(counter).spec_next() as int,
        ) {
            Err(k) => r matches Err(e) && e@ == k,
            Ok((om, g2, c2)) => r matches Ok(o) && o@ == om && obj_wf(om) && final(global)@ == g2
                && final(counter).spec_next() as int == c2,
        },
{
    match &item.value {
        ast::Expression::IntLiteralExpression { literal } => {
            let value = parse_literal(literal.as_str())?;
            let symbol = Symbol::new_global(item.name.clone());
            let (obj, _var) = global.new_static(value, symbol);
            Ok(obj)
        },
        _ => Err(CompileError::Other("a static initializer must be an integer literal")),
    }
}

/// The items from `i` on, lowered in order onto `acc`.
pub open spec fn spec_compile_items(
    items: Seq<ast::Item>,
    i: int,
    acc: ObjectModel,
    g: GlobalModel,
    c: int,
) -> Result<(ObjectModel, GlobalModel, int), CompileErrorModel>
    decreases items.len() - i,
{
    if i < 0 || i >= items.len() {
        Ok((acc, g, c))
    } else {
        let step = match items[i] {
            ast::Item::FunctionItem(f) => spec_compile_function_item(f, g, c),
            ast::Item::StaticItem(st) => spec_compile_static_item(st, g, c),
        };
        match step {
            Err(k) => Err(k),
            Ok((o, g1, c1)) => match spec_append(acc, o) {
                Err(k) => Err(k),
                Ok(a) => spec_compile_items(items, i + 1, a, g1, c1),
            },
        }
    }
}

/// What lowering a whole module does: its items in order, from an empty
/// object and an empty global table.
pub open spec fn spec_compile_module(m: ast::Module, c: int) -> Result<
    (ObjectModel, GlobalModel, int),
    CompileErrorModel,
> {
    spec_compile_items(m.items@, 0, ObjectModel::empty(), GlobalModel { symbols: Seq::empty() }, c)
}

/// Lowers a whole module: exactly [`spec_compile_module`].
#[verifier::loop_isolation(false)]
pub fn compile(module: &ast::Module, counter: &mut SymbolCounter) -> (r: Result<
    Object,
    CompileError,
>)
    requires
        usize::MAX == 0xffff_ffff_ffff_ffff,
    ensures
        match spec_compile_module(*module, old(counter).spec_next() as int) {
            Err(k) => r matches Err(e) && e@ == k,
            Ok((om, g2, c2)) => r matches Ok(o) && o@ == om && obj_wf(om) && final(counter).spec_next() as int == c2,
        },
{
    let ghost c0 = old(counter).spec_next() as int;
    let mut state = GlobalState::new();
    let mut obj = Object::empty();
    proof {
        assert(obj@ =~~= ObjectModel::empty());
        assert(state@ =~~= (GlobalModel { symbols: Seq::empty() }));
    }
    let n = module.items.len();
    let mut i: usize = 0;
    while i < n
        invariant
            i <= n,
            n == module.items@.len(),
            obj_wf(obj@),
            usize::MAX == 0xffff_ffff_ffff_ffff,
            spec_compile_items(module.items@, i as int, obj@, state@, counter.spec_next() as int)
                == spec_compile_module(*module, c0),
        decreases n - i,
    {
        let piece = match &module.items[i] {
            ast::Item::FunctionItem(item) => compile_function_item(item, &mut state, counter)?,
            ast::Item::StaticItem(item) => compile_static_item(item, &mut state, counter)?,
        };
        append_object(&mut obj, &piece)?;
        i = i + 1;
    }
    Ok(obj)
}

/// What lowering a free-standing block in fresh state does.
pub open spec fn spec_compile_helper(b: ast::Block, c: int) -> Result<
    (ObjectModel, int),
    CompileErrorModel,
> {
    if c >= u64::MAX - 4 {
        Err(CompileErrorModel::Other)
    } else {
        let sc0 = ScopeModel {
            depth: 0,
            locals: Seq::empty(),
            function_return: SymbolKey::Local(c as u64),
            function_abort: SymbolKey::Local((c + 1) as u64),
        };
        match spec_compile_block(b, GlobalModel { symbols: Seq::empty() }, sc0, c + 2) {
            Err(k) => Err(k),
            Ok((o, _, _, c2)) => Ok((o, c2)),
        }
    }
}

/// Lowers a free-standing block in a fresh module state and a fresh
/// function scope: exactly [`spec_compile_helper`].
pub fn compile_helper(block: &ast::Block, counter: &mut SymbolCounter) -> (r: Result<
    Object,
    CompileError,
>)
    requires
        usize::MAX == 0xffff_ffff_ffff_ffff,
    ensures
        match spec_compile_helper(*block, old(counter).spec_next() as int) {
            Err(k) => r matches Err(e) && e@ == k,
            Ok((om, c2)) => r matches Ok(o) && o@ == om && obj_wf(om) && final(counter).spec_next() as int == c2,
        },
{
    if counter.value() >= u64::MAX - 4 {
        return Err(CompileError::Other("function too large"));
    }
    let mut state = GlobalState::new();
    let mut scope = FunctionScopeState::new(counter);
    compile_block(block, &mut state, &mut scope, counter)
}

} // verus!

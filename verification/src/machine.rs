//! The x86-64 instruction emitters the compiler back end uses: the
//! register catalog, the register-to-register / register-to-memory /
//! RIP-relative move-family encoders, and conditional branches. Each
//! emitter's contract gives the exact bytes and relocations it produces.

use vstd::prelude::*;

use crate::code::{plain_model, Relocatable, RelocatableModel, Relocation, RelocationModel};
use crate::reloc::{le4, to_2c, RelocationKind};
use crate::symbol::{Symbol, SymbolKey};

verus! {

/// The x86-64 general-purpose registers, plus the instruction pointer.
#[derive(Clone, Copy, PartialEq, Eq, Structural, Debug)]
pub enum Register {
    Rax,
    Rcx,
    Rdx,
    Rbx,
    Rsp,
    Rbp,
    Rsi,
    Rdi,
    R8,
    R9,
    R10,
    R11,
    R12,
    R13,
    R14,
    R15,
    Rip,
}

impl Register {
    /// The hardware number of the register (`Rip` has none and encodes
    /// as 16).
    pub open spec fn spec_number(self) -> int {
        match self {
            Register::Rax => 0,
            Register::Rcx => 1,
            Register::Rdx => 2,
            Register::Rbx => 3,
            Register::Rsp => 4,
            Register::Rbp => 5,
            Register::Rsi => 6,
            Register::Rdi => 7,
            Register::R8 => 8,
            Register::R9 => 9,
            Register::R10 => 10,
            Register::R11 => 11,
            Register::R12 => 12,
            Register::R13 => 13,
            Register::R14 => 14,
            Register::R15 => 15,
            Register::Rip => 16,
        }
    }

    /// The hardware number of the register.
    pub fn number(self) -> (n: u8)
        ensures
            n == self.spec_number(),
    {
        match self {
            Register::Rax => 0,
            Register::Rcx => 1,
            Register::Rdx => 2,
            Register::Rbx => 3,
            Register::Rsp => 4,
            Register::Rbp => 5,
            Register::Rsi => 6,
            Register::Rdi => 7,
            Register::R8 => 8,
            Register::R9 => 9,
            Register::R10 => 10,
            Register::R11 => 11,
            Register::R12 => 12,
            Register::R13 => 13,
            Register::R14 => 14,
            Register::R15 => 15,
            Register::Rip => 16,
        }
    }

    /// Whether the register is free for the code generator: caller-saved
    /// and not reserved for the stack, the frame or the ABI.
    pub open spec fn spec_is_caller_saved(self) -> bool {
        match self {
            Register::Rax => true,
            Register::Rcx => true,
            Register::Rdx => true,
            Register::Rsi => true,
            Register::Rdi => true,
            Register::R8 => true,
            Register::R9 => true,
            Register::R10 => true,
            Register::R11 => true,
            _ => false,
        }
    }
}

/// The move-family instructions the back end emits. Each has an opcode
/// whose r/m operand is the source, one whose r/m operand is the
/// destination, or both.
#[derive(Clone, Copy, PartialEq, Eq, Structural, Debug)]
pub enum SimpleInstruction {
    Mov,
    Add,
    Sub,
    Lea,
}

impl SimpleInstruction {
    /// The opcode whose r/m operand is the source, if the instruction
    /// has one.
    pub open spec fn spec_src_rm_opcode(self) -> Option<u8> {
        match self {
            SimpleInstruction::Mov => Some(0x8bu8),
            SimpleInstruction::Add => Some(0x03u8),
            SimpleInstruction::Sub => Some(0x2bu8),
            SimpleInstruction::Lea => Some(0x8du8),
        }
    }

    /// The opcode whose r/m operand is the destination, if the
    /// instruction has one.
    pub open spec fn spec_dst_rm_opcode(self) -> Option<u8> {
        match self {
            SimpleInstruction::Mov => Some(0x89u8),
            SimpleInstruction::Add => Some(0x01u8),
            SimpleInstruction::Sub => Some(0x29u8),
            SimpleInstruction::Lea => None,
        }
    }

    fn src_rm_opcode(self) -> (r: Option<u8>)
        ensures
            r == self.spec_src_rm_opcode(),
    {
        match self {
            SimpleInstruction::Mov => Some(0x8b),
            SimpleInstruction::Add => Some(0x03),
            SimpleInstruction::Sub => Some(0x2b),
            SimpleInstruction::Lea => Some(0x8d),
        }
    }

    fn dst_rm_opcode(self) -> (r: Option<u8>)
        ensures
            r == self.spec_dst_rm_opcode(),
    {
        match self {
            SimpleInstruction::Mov => Some(0x89),
            SimpleInstruction::Add => Some(0x01),
            SimpleInstruction::Sub => Some(0x29),
            SimpleInstruction::Lea => None,
        }
    }
}

/// The bytes of `<op> %reg(src),%reg(dst)` with the REX.W prefix: the r/m
/// field holds `rm`, the reg field holds `reg`.
pub open spec fn spec_reg_reg_bytes(opcode: u8, reg: int, rm: int) -> Seq<u8> {
    seq![
        (0x48 + rm / 8 + 4 * (reg / 8)) as u8,
        opcode,
        (0xc0 + rm % 8 + 8 * (reg % 8)) as u8,
    ]
}

/// The bytes of a RIP-relative `<op>` whose reg field holds `reg`; the
/// four displacement bytes are left for a `Pc32` relocation at offset 3
/// with addend `-4`.
pub open spec fn spec_rip_bytes(opcode: u8, reg: int) -> Seq<u8> {
    seq![(0x48 + 4 * (reg / 8)) as u8, opcode, (0x05 + 8 * (reg % 8)) as u8, 0u8, 0u8, 0u8, 0u8]
}

/// The model of a RIP-relative instruction: its bytes plus the pending
/// `Pc32` relocation against `sym`.
pub open spec fn rip_model(opcode: u8, reg: int, sym: SymbolKey) -> RelocatableModel {
    RelocatableModel {
        data: spec_rip_bytes(opcode, reg),
        alignment: 0,
        symbols: Seq::empty(),
        abs_symbols: Seq::empty(),
        relocations: seq![
            RelocationModel { location: 3, kind: RelocationKind::Pc32, symbol: sym, addend: -4 },
        ],
    }
}

/// The bytes of `<op>` between a register and `disp(%rsp)` or
/// `disp(%rbp)`: mod = 10 with a SIB byte for the stack pointer, mod =
/// 10 without one for the frame pointer.
pub open spec fn spec_mem_bytes(opcode: u8, reg: int, base: Register, disp: int) -> Seq<u8> {
    let disp_bytes = le4(to_2c(disp, 0x1_0000_0000) as u32);
    if base == Register::Rsp {
        seq![(0x48 + 4 * (reg / 8)) as u8, opcode, (0x84 + 8 * (reg % 8)) as u8, 0x24u8]
            + disp_bytes
    } else {
        seq![(0x48 + 4 * (reg / 8)) as u8, opcode, (0x85 + 8 * (reg % 8)) as u8] + disp_bytes
    }
}

/// Emits `<instruction> %src,%dst` (register to register, 64-bit).
/// Fails when the instruction has no destination-r/m form or an operand
/// is not a hardware register.
pub fn simple_reg_to_reg(src: Register, dst: Register, instruction: SimpleInstruction) -> (r:
    Result<Relocatable, ()>)
    ensures
        match r {
            Ok(rel) => {
                &&& instruction.spec_dst_rm_opcode() matches Some(op) && rel@ == plain_model(
                    spec_reg_reg_bytes(op, src.spec_number(), dst.spec_number()),
                )
                &&& src != Register::Rip
                &&& dst != Register::Rip
                &&& rel@.wf()
            },
            Err(()) => instruction.spec_dst_rm_opcode() is None || src == Register::Rip || dst
                == Register::Rip,
        },
{
    let srcn = src.number();
    let dstn = dst.number();
    if srcn >= 16 || dstn >= 16 {
        return Err(());
    }
    match instruction.dst_rm_opcode() {
        None => Err(()),
        Some(opcode) => {
            let rex: u8 = 0x48 + dstn / 8 + 4 * (srcn / 8);
            let modrm: u8 = 0xc0 + dstn % 8 + 8 * (srcn % 8);
            let bytes = vec![rex, opcode, modrm];
            proof {
                assert(bytes@ =~= spec_reg_reg_bytes(opcode, src.spec_number(), dst.spec_number()));
            }
            Ok(Relocatable::from_bytes(bytes))
        },
    }
}

/// Emits `<instruction> %src,sym(%rip)` — a store (or r/m-destination
/// form) against a RIP-relative symbol, with its `Pc32` relocation.
pub fn simple_reg_to_symbol(src: Register, dst: Symbol, instruction: SimpleInstruction) -> (r:
    Result<Relocatable, ()>)
    ensures
        match r {
            Ok(rel) => {
                &&& instruction.spec_dst_rm_opcode() matches Some(op) && rel@ == rip_model(
                    op,
                    src.spec_number(),
                    dst@,
                )
                &&& src != Register::Rip
                &&& rel@.wf()
            },
            Err(()) => instruction.spec_dst_rm_opcode() is None || src == Register::Rip,
        },
{
    let srcn = src.number();
    if srcn >= 16 {
        return Err(());
    }
    match instruction.dst_rm_opcode() {
        None => Err(()),
        Some(opcode) => {
            let rex: u8 = 0x48 + 4 * (srcn / 8);
            let modrm: u8 = 0x05 + 8 * (srcn % 8);
            let bytes = vec![rex, opcode, modrm, 0, 0, 0, 0];
            proof {
                assert(bytes@ =~= spec_rip_bytes(opcode, src.spec_number()));
            }
            let mut rel = Relocatable::from_bytes(bytes);
            rel.push_relocation(Relocation::new(3, RelocationKind::Pc32, dst, -4));
            proof {
                assert(rel@.relocations =~= seq![
                    RelocationModel {
                        location: 3,
                        kind: RelocationKind::Pc32,
                        symbol: dst@,
                        addend: -4,
                    },
                ]);
                assert(rel@ =~~= rip_model(opcode, src.spec_number(), dst@));
            }
            Ok(rel)
        },
    }
}

/// Emits `<instruction> sym(%rip),%dst` — a load (or r/m-source form)
/// against a RIP-relative symbol, with its `Pc32` relocation.
pub fn simple_symbol_to_reg(src: Symbol, dst: Register, instruction: SimpleInstruction) -> (r:
    Result<Relocatable, ()>)
    ensures
        match r {
            Ok(rel) => {
                &&& instruction.spec_src_rm_opcode() matches Some(op) && rel@ == rip_model(
                    op,
                    dst.spec_number(),
                    src@,
                )
                &&& dst != Register::Rip
                &&& rel@.wf()
            },
            Err(()) => instruction.spec_src_rm_opcode() is None || dst == Register::Rip,
        },
{
    let dstn = dst.number();
    if dstn >= 16 {
        return Err(());
    }
    match instruction.src_rm_opcode() {
        None => Err(()),
        Some(opcode) => {
            let rex: u8 = 0x48 + 4 * (dstn / 8);
            let modrm: u8 = 0x05 + 8 * (dstn % 8);
            let bytes = vec![rex, opcode, modrm, 0, 0, 0, 0];
            proof {
                assert(bytes@ =~= spec_rip_bytes(opcode, dst.spec_number()));
            }
            let mut rel = Relocatable::from_bytes(bytes);
            rel.push_relocation(Relocation::new(3, RelocationKind::Pc32, src, -4));
            proof {
                assert(rel@.relocations =~= seq![
                    RelocationModel {
                        location: 3,
                        kind: RelocationKind::Pc32,
                        symbol: src@,
                        addend: -4,
                    },
                ]);
                assert(rel@ =~~= rip_model(opcode, dst.spec_number(), src@));
            }
            Ok(rel)
        },
    }
}

fn disp_bytes_le(disp: i32) -> (r: (u8, u8, u8, u8))
    ensures
        seq![r.0, r.1, r.2, r.3] == le4(to_2c(disp as int, 0x1_0000_0000) as u32),
{
    let u: u32 = if disp < 0 {
        ((disp as i64) + 0x1_0000_0000i64) as u32
    } else {
        disp as u32
    };
    let b0 = (u % 0x100) as u8;
    let b1 = ((u / 0x100) % 0x100) as u8;
    let b2 = ((u / 0x10000) % 0x100) as u8;
    let b3 = ((u / 0x1000000) % 0x100) as u8;
    proof {
        assert(seq![b0, b1, b2, b3] =~= le4(u));
    }
    (b0, b1, b2, b3)
}

/// Emits `<instruction> %src,disp(%base)` for a stack- or frame-pointer
/// base.
pub fn simple_reg_to_memory(src: Register, base: Register, disp: i32, instruction:
    SimpleInstruction) -> (r: Result<Relocatable, ()>)
    requires
        base == Register::Rsp || base == Register::Rbp,
    ensures
        match r {
            Ok(rel) => {
                &&& instruction.spec_dst_rm_opcode() matches Some(op) && rel@ == plain_model(
                    spec_mem_bytes(op, src.spec_number(), base, disp as int),
                )
                &&& src != Register::Rip
                &&& rel@.wf()
            },
            Err(()) => instruction.spec_dst_rm_opcode() is None || src == Register::Rip,
        },
{
    let srcn = src.number();
    if srcn >= 16 {
        return Err(());
    }
    match instruction.dst_rm_opcode() {
        None => Err(()),
        Some(opcode) => {
            let rex: u8 = 0x48 + 4 * (srcn / 8);
            let (b0, b1, b2, b3) = disp_bytes_le(disp);
            let bytes = if matches!(base, Register::Rsp) {
                vec![rex, opcode, 0x84 + 8 * (srcn % 8), 0x24, b0, b1, b2, b3]
            } else {
                vec![rex, opcode, 0x85 + 8 * (srcn % 8), b0, b1, b2, b3]
            };
            proof {
                assert(bytes@ =~= spec_mem_bytes(opcode, src.spec_number(), base, disp as int));
            }
            Ok(Relocatable::from_bytes(bytes))
        },
    }
}

/// Emits `<instruction> disp(%base),%dst` for a stack- or frame-pointer
/// base.
pub fn simple_memory_to_reg(base: Register, disp: i32, dst: Register, instruction:
    SimpleInstruction) -> (r: Result<Relocatable, ()>)
    requires
        base == Register::Rsp || base == Register::Rbp,
    ensures
        match r {
            Ok(rel) => {
                &&& instruction.spec_src_rm_opcode() matches Some(op) && rel@ == plain_model(
                    spec_mem_bytes(op, dst.spec_number(), base, disp as int),
                )
                &&& dst != Register::Rip
                &&& rel@.wf()
            },
            Err(()) => instruction.spec_src_rm_opcode() is None || dst == Register::Rip,
        },
{
    let dstn = dst.number();
    if dstn >= 16 {
        return Err(());
    }
    match instruction.src_rm_opcode() {
        None => Err(()),
        Some(opcode) => {
            let rex: u8 = 0x48 + 4 * (dstn / 8);
            let (b0, b1, b2, b3) = disp_bytes_le(disp);
            let bytes = if matches!(base, Register::Rsp) {
                vec![rex, opcode, 0x84 + 8 * (dstn % 8), 0x24, b0, b1, b2, b3]
            } else {
                vec![rex, opcode, 0x85 + 8 * (dstn % 8), b0, b1, b2, b3]
            };
            proof {
                assert(bytes@ =~= spec_mem_bytes(opcode, dst.spec_number(), base, disp as int));
            }
            Ok(Relocatable::from_bytes(bytes))
        },
    }
}

/// The condition codes of the x86-64 conditional branches.
#[derive(Clone, Copy, PartialEq, Eq, Structural, Debug)]
pub enum ConditionalJump {
    Overflow,
    NoOverflow,
    Below,
    AboveOrEqual,
    Equal,
    NotEqual,
    BelowOrEqual,
    Above,
    Sign,
    NotSign,
    ParityEven,
    ParityOdd,
    Less,
    GreaterOrEqual,
    LessOrEqual,
    Greater,
}

impl ConditionalJump {
    /// The condition-code number of this jump.
    pub open spec fn spec_code(self) -> int {
        match self {
            ConditionalJump::Overflow => 0x0,
            ConditionalJump::NoOverflow => 0x1,
            ConditionalJump::Below => 0x2,
            ConditionalJump::AboveOrEqual => 0x3,
            ConditionalJump::Equal => 0x4,
            ConditionalJump::NotEqual => 0x5,
            ConditionalJump::BelowOrEqual => 0x6,
            ConditionalJump::Above => 0x7,
            ConditionalJump::Sign => 0x8,
            ConditionalJump::NotSign => 0x9,
            ConditionalJump::ParityEven => 0xa,
            ConditionalJump::ParityOdd => 0xb,
            ConditionalJump::Less => 0xc,
            ConditionalJump::GreaterOrEqual => 0xd,
            ConditionalJump::LessOrEqual => 0xe,
            ConditionalJump::Greater => 0xf,
        }
    }

    fn code(self) -> (n: u8)
        ensures
            n == self.spec_code(),
    {
        match self {
            ConditionalJump::Overflow => 0x0,
            ConditionalJump::NoOverflow => 0x1,
            ConditionalJump::Below => 0x2,
            ConditionalJump::AboveOrEqual => 0x3,
            ConditionalJump::Equal => 0x4,
            ConditionalJump::NotEqual => 0x5,
            ConditionalJump::BelowOrEqual => 0x6,
            ConditionalJump::Above => 0x7,
            ConditionalJump::Sign => 0x8,
            ConditionalJump::NotSign => 0x9,
            ConditionalJump::ParityEven => 0xa,
            ConditionalJump::ParityOdd => 0xb,
            ConditionalJump::Less => 0xc,
            ConditionalJump::GreaterOrEqual => 0xd,
            ConditionalJump::LessOrEqual => 0xe,
            ConditionalJump::Greater => 0xf,
        }
    }

    /// The model of a two-byte conditional jump to `dst`: a `Pc8`
    /// relocation patches the displacement byte.
    pub open spec fn short_jump_model(self, dst: SymbolKey) -> RelocatableModel {
        RelocatableModel {
            data: seq![(0x70 + self.spec_code()) as u8, 0u8],
            alignment: 0,
            symbols: Seq::empty(),
            abs_symbols: Seq::empty(),
            relocations: seq![
                RelocationModel { location: 1, kind: RelocationKind::Pc8, symbol: dst, addend: -1 },
            ],
        }
    }

    /// Emits a two-byte conditional jump to `dst`.
    pub fn short_jump(self, dst: Symbol) -> (r: Relocatable)
        ensures
            r@ == self.short_jump_model(dst@),
            r@.wf(),
    {
        let ghost dk = dst@;
        let bytes = vec![0x70 + self.code(), 0u8];
        proof {
            assert(bytes@ =~= seq![(0x70 + self.spec_code()) as u8, 0u8]);
        }
        let mut rel = Relocatable::from_bytes(bytes);
        rel.push_relocation(Relocation::new(1, RelocationKind::Pc8, dst, -1));
        proof {
            assert(rel@.relocations =~= seq![
                RelocationModel { location: 1, kind: RelocationKind::Pc8, symbol: dk, addend: -1 },
            ]);
            assert(rel@ =~~= self.short_jump_model(dk));
        }
        rel
    }

    /// The model of a six-byte conditional jump to `dst`: the two opcode
    /// bytes, then the four-byte displacement field, patched by a `Pc32`
    /// relocation at offset 2. The displacement is measured from the end
    /// of the instruction, four bytes past the field, hence the addend.
    pub open spec fn near_jump_model(self, dst: SymbolKey) -> RelocatableModel {
        RelocatableModel {
            data: seq![0x0fu8, (0x80 + self.spec_code()) as u8, 0u8, 0u8, 0u8, 0u8],
            alignment: 0,
            symbols: Seq::empty(),
            abs_symbols: Seq::empty(),
            relocations: seq![
                RelocationModel {
                    location: 2,
                    kind: RelocationKind::Pc32,
                    symbol: dst,
                    addend: -4,
                },
            ],
        }
    }

    /// Emits a six-byte conditional jump to `dst`.
    pub fn near_jump(self, dst: Symbol) -> (r: Relocatable)
        ensures
            r@ == self.near_jump_model(dst@),
            r@.wf(),
    {
        let ghost dk = dst@;
        let bytes = vec![0x0fu8, 0x80 + self.code(), 0u8, 0u8, 0u8, 0u8];
        proof {
            assert(bytes@ =~= seq![0x0fu8, (0x80 + self.spec_code()) as u8, 0u8, 0u8, 0u8, 0u8]);
        }
        let mut rel = Relocatable::from_bytes(bytes);
        rel.push_relocation(Relocation::new(2, RelocationKind::Pc32, dst, -4));
        proof {
            assert(rel@.relocations =~= seq![
                RelocationModel { location: 2, kind: RelocationKind::Pc32, symbol: dk, addend: -4 },
            ]);
            assert(rel@ =~~= self.near_jump_model(dk));
        }
        rel
    }
}

} // verus!

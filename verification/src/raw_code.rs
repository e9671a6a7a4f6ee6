//! The template catalog for the x86-64 target: pre-assembled machine-code
//! snippets, each exposed as its exact bytes plus the byte range of its
//! hole, where a literal or a relocation is written. The templates are
//! position-independent up to the documented holes.

use vstd::prelude::*;

verus! {

/// `endbr64; push %rbp; mov %rsp,%rbp` — the entry of every function.
pub open spec fn spec_function_header() -> Seq<u8> {
    seq![0xf3u8, 0x0f, 0x1e, 0xfa, 0x55, 0x48, 0x89, 0xe5]
}

/// `pop %rax; xor %edx,%edx; mov %rbp,%rsp; pop %rbp; ret` — pops the
/// result and returns it with a zero error code.
pub open spec fn spec_function_footer() -> Seq<u8> {
    seq![0x58u8, 0x31, 0xd2, 0x48, 0x89, 0xec, 0x5d, 0xc3]
}

/// `push <arg register>` for each of the six argument registers.
pub open spec fn spec_push_arg(index: int) -> Seq<u8> {
    if index == 0 {
        seq![0x57u8]  // push %rdi
    } else if index == 1 {
        seq![0x56u8]  // push %rsi
    } else if index == 2 {
        seq![0x52u8]  // push %rdx
    } else if index == 3 {
        seq![0x51u8]  // push %rcx
    } else if index == 4 {
        seq![0x41u8, 0x50]  // push %r8
    } else {
        seq![0x41u8, 0x51]  // push %r9
    }
}

/// `pop %rcx; pop %rax; add %rcx,%rax; push %rax`.
pub open spec fn spec_add() -> Seq<u8> {
    seq![0x59u8, 0x58, 0x48, 0x01, 0xc8, 0x50]
}

/// `pop %rcx; pop %rax; sub %rcx,%rax; push %rax`.
pub open spec fn spec_subtract() -> Seq<u8> {
    seq![0x59u8, 0x58, 0x48, 0x29, 0xc8, 0x50]
}

/// `pop %rcx; pop %rax; imul %rcx,%rax; push %rax`.
pub open spec fn spec_multiply() -> Seq<u8> {
    seq![0x59u8, 0x58, 0x48, 0x0f, 0xaf, 0xc1, 0x50]
}

/// The signed divide: pops the divisor into `%rcx` and the dividend into
/// `%rax`, then guards the two trapping cases before `idiv` — a zero
/// divisor returns early with error code 1, and dividing the minimum
/// integer by negative one returns early with error code 2. An early
/// return tears the frame down through `%rbp` and leaves the code in
/// `%rdx`, the error word of the return convention, so no fault handler
/// is needed. Otherwise `cqo; idiv %rcx; push %rax`.
pub open spec fn spec_signed_divide() -> Seq<u8> {
    spec_signed_divide_guards() + seq![0x48u8, 0x99, 0x48, 0xf7, 0xf9, 0x50]
}

/// As the signed divide, but pushes the remainder register.
pub open spec fn spec_signed_mod() -> Seq<u8> {
    spec_signed_divide_guards() + seq![0x48u8, 0x99, 0x48, 0xf7, 0xf9, 0x52]
}

/// The two operand pops and the guards shared by the signed divide and
/// remainder templates: `pop %rcx; pop %rax; test %rcx,%rcx;
/// jnz .nonzero; (teardown, %edx = 1, ret); .nonzero: cmp $-1,%rcx;
/// jnz .divide; movabs $MIN,%r11; cmp %r11,%rax; jnz .divide;
/// (teardown, %edx = 2, ret); .divide:`.
pub open spec fn spec_signed_divide_guards() -> Seq<u8> {
    seq![
        0x59u8, 0x58,  // pop %rcx; pop %rax
        0x48, 0x85, 0xc9,  // test %rcx,%rcx
        0x75, 0x0a,  // jnz .nonzero
        0x48, 0x89, 0xec, 0x5d,  // mov %rbp,%rsp; pop %rbp
        0xba, 0x01, 0x00, 0x00, 0x00,  // mov $1,%edx
        0xc3,  // ret
        0x48, 0x83, 0xf9, 0xff,  // .nonzero: cmp $-1,%rcx
        0x75, 0x19,  // jnz .divide
        0x49, 0xbb, 0x00, 0x00, 0x00, 0x00, 0x00, 0x00, 0x00, 0x80,  // movabs $MIN,%r11
        0x4c, 0x39, 0xd8,  // cmp %r11,%rax
        0x75, 0x0a,  // jnz .divide
        0x48, 0x89, 0xec, 0x5d,  // mov %rbp,%rsp; pop %rbp
        0xba, 0x02, 0x00, 0x00, 0x00,  // mov $2,%edx
        0xc3,  // ret
    ]  // .divide:
}

/// The unsigned divide: a zero divisor returns early with error code 1
/// as in the signed divide; otherwise `xor %edx,%edx; div %rcx;
/// push %rax`.
pub open spec fn spec_unsigned_divide() -> Seq<u8> {
    spec_unsigned_divide_guard() + seq![0x31u8, 0xd2, 0x48, 0xf7, 0xf1, 0x50]
}

/// As the unsigned divide, but pushes the remainder register.
pub open spec fn spec_unsigned_mod() -> Seq<u8> {
    spec_unsigned_divide_guard() + seq![0x31u8, 0xd2, 0x48, 0xf7, 0xf1, 0x52]
}

/// The operand pops and the zero-divisor guard shared by the unsigned
/// divide and remainder templates.
pub open spec fn spec_unsigned_divide_guard() -> Seq<u8> {
    seq![
        0x59u8, 0x58,  // pop %rcx; pop %rax
        0x48, 0x85, 0xc9,  // test %rcx,%rcx
        0x75, 0x0a,  // jnz .divide
        0x48, 0x89, 0xec, 0x5d,  // mov %rbp,%rsp; pop %rbp
        0xba, 0x01, 0x00, 0x00, 0x00,  // mov $1,%edx
        0xc3,  // ret
    ]  // .divide:
}

/// `movabs $imm64,%rax; push %rax` — the hole is the eight immediate
/// bytes at `2..10`.
pub open spec fn spec_push_value() -> Seq<u8> {
    seq![0x48u8, 0xb8, 0, 0, 0, 0, 0, 0, 0, 0, 0x50]
}

/// Pushes the stack slot whose byte displacement from the stack pointer
/// is written into the four hole bytes at `4..8`.
pub open spec fn spec_push_stack_index() -> Seq<u8> {
    seq![0x48u8, 0x8b, 0x84, 0x24, 0, 0, 0, 0, 0x50]
}

/// Pushes the frame slot whose byte displacement from the frame pointer
/// is written into the four hole bytes at `3..7`.
pub open spec fn spec_push_negative_stack_index() -> Seq<u8> {
    seq![0x48u8, 0x8b, 0x85, 0, 0, 0, 0, 0x50]
}

/// Pops into the stack slot whose byte displacement from the stack
/// pointer is written into the four hole bytes at `5..9`.
pub open spec fn spec_pop_stack_index() -> Seq<u8> {
    seq![0x58u8, 0x48, 0x89, 0x84, 0x24, 0, 0, 0, 0]
}

/// Pops into the frame slot whose byte displacement from the frame
/// pointer is written into the four hole bytes at `4..8`.
pub open spec fn spec_pop_negative_stack_index() -> Seq<u8> {
    seq![0x58u8, 0x48, 0x89, 0x85, 0, 0, 0, 0]
}

/// `mov (%rsp),%rax; test %rax,%rax; jz <footer>` — reads the condition
/// from the top of the stack and leaves the loop when it is zero. The
/// hole is the branch displacement at `9..13`.
pub open spec fn spec_while_loop_header() -> Seq<u8> {
    seq![0x48u8, 0x8b, 0x04, 0x24, 0x48, 0x85, 0xc0, 0x0f, 0x84, 0, 0, 0, 0]
}

/// `mov (%rsp),%rax; test %rax,%rax; jnz <header end>` — re-reads the
/// condition and branches back to the loop body while it is non-zero.
/// The hole is the branch displacement at `9..13`.
pub open spec fn spec_while_loop_footer() -> Seq<u8> {
    seq![0x48u8, 0x8b, 0x04, 0x24, 0x48, 0x85, 0xc0, 0x0f, 0x85, 0, 0, 0, 0]
}

pub fn function_header_code() -> (r: Vec<u8>)
    ensures
        r@ == spec_function_header(),
{
    let r = vec![0xf3u8, 0x0f, 0x1e, 0xfa, 0x55, 0x48, 0x89, 0xe5];
    proof {
        assert(r@ =~= spec_function_header());
    }
    r
}

pub fn function_footer_code() -> (r: Vec<u8>)
    ensures
        r@ == spec_function_footer(),
{
    let r = vec![0x58u8, 0x31, 0xd2, 0x48, 0x89, 0xec, 0x5d, 0xc3];
    proof {
        assert(r@ =~= spec_function_footer());
    }
    r
}

/// The template that pushes the argument of the given position (0 to 5)
/// onto the operand stack.
pub fn push_arg_code(index: usize) -> (r: Vec<u8>)
    requires
        index < 6,
    ensures
        r@ == spec_push_arg(index as int),
{
    let r: Vec<u8> = if index == 0 {
        vec![0x57u8]
    } else if index == 1 {
        vec![0x56u8]
    } else if index == 2 {
        vec![0x52u8]
    } else if index == 3 {
        vec![0x51u8]
    } else if index == 4 {
        vec![0x41u8, 0x50]
    } else {
        vec![0x41u8, 0x51]
    };
    proof {
        assert(r@ =~= spec_push_arg(index as int));
    }
    r
}

pub fn add_code() -> (r: Vec<u8>)
    ensures
        r@ == spec_add(),
{
    let r = vec![0x59u8, 0x58, 0x48, 0x01, 0xc8, 0x50];
    proof {
        assert(r@ =~= spec_add());
    }
    r
}

pub fn subtract_code() -> (r: Vec<u8>)
    ensures
        r@ == spec_subtract(),
{
    let r = vec![0x59u8, 0x58, 0x48, 0x29, 0xc8, 0x50];
    proof {
        assert(r@ =~= spec_subtract());
    }
    r
}

pub fn multiply_code() -> (r: Vec<u8>)
    ensures
        r@ == spec_multiply(),
{
    let r = vec![0x59u8, 0x58, 0x48, 0x0f, 0xaf, 0xc1, 0x50];
    proof {
        assert(r@ =~= spec_multiply());
    }
    r
}

fn signed_divide_guards() -> (r: Vec<u8>)
    ensures
        r@ == spec_signed_divide_guards(),
{
    let r = vec![
        0x59u8, 0x58, 0x48, 0x85, 0xc9, 0x75, 0x0a, 0x48, 0x89, 0xec, 0x5d, 0xba, 0x01, 0x00,
        0x00, 0x00, 0xc3, 0x48, 0x83, 0xf9, 0xff, 0x75, 0x19, 0x49, 0xbb, 0x00, 0x00, 0x00,
        0x00, 0x00, 0x00, 0x00, 0x80, 0x4c, 0x39, 0xd8, 0x75, 0x0a, 0x48, 0x89, 0xec, 0x5d,
        0xba, 0x02, 0x00, 0x00, 0x00, 0xc3,
    ];
    proof {
        assert(r@ =~= spec_signed_divide_guards());
    }
    r
}

pub fn signed_divide_code() -> (r: Vec<u8>)
    ensures
        r@ == spec_signed_divide(),
{
    let mut r = signed_divide_guards();
    let mut tail = vec![0x48u8, 0x99, 0x48, 0xf7, 0xf9, 0x50];
    proof {
        assert(tail@ =~= seq![0x48u8, 0x99, 0x48, 0xf7, 0xf9, 0x50]);
    }
    r.append(&mut tail);
    r
}

pub fn signed_mod_code() -> (r: Vec<u8>)
    ensures
        r@ == spec_signed_mod(),
{
    let mut r = signed_divide_guards();
    let mut tail = vec![0x48u8, 0x99, 0x48, 0xf7, 0xf9, 0x52];
    proof {
        assert(tail@ =~= seq![0x48u8, 0x99, 0x48, 0xf7, 0xf9, 0x52]);
    }
    r.append(&mut tail);
    r
}

fn unsigned_divide_guard() -> (r: Vec<u8>)
    ensures
        r@ == spec_unsigned_divide_guard(),
{
    let r = vec![
        0x59u8, 0x58, 0x48, 0x85, 0xc9, 0x75, 0x0a, 0x48, 0x89, 0xec, 0x5d, 0xba, 0x01, 0x00,
        0x00, 0x00, 0xc3,
    ];
    proof {
        assert(r@ =~= spec_unsigned_divide_guard());
    }
    r
}

pub fn unsigned_divide_code() -> (r: Vec<u8>)
    ensures
        r@ == spec_unsigned_divide(),
{
    let mut r = unsigned_divide_guard();
    let mut tail = vec![0x31u8, 0xd2, 0x48, 0xf7, 0xf1, 0x50];
    proof {
        assert(tail@ =~= seq![0x31u8, 0xd2, 0x48, 0xf7, 0xf1, 0x50]);
    }
    r.append(&mut tail);
    r
}

pub fn unsigned_mod_code() -> (r: Vec<u8>)
    ensures
        r@ == spec_unsigned_mod(),
{
    let mut r = unsigned_divide_guard();
    let mut tail = vec![0x31u8, 0xd2, 0x48, 0xf7, 0xf1, 0x52];
    proof {
        assert(tail@ =~= seq![0x31u8, 0xd2, 0x48, 0xf7, 0xf1, 0x52]);
    }
    r.append(&mut tail);
    r
}

/// The push-value template and its hole: the bytes of the 64-bit literal.
pub fn push_value_code() -> (r: (Vec<u8>, usize, usize))
    ensures
        r.0@ == spec_push_value(),
        r.1 == 2usize,
        r.2 == 10usize,
{
    let r = vec![0x48u8, 0xb8, 0, 0, 0, 0, 0, 0, 0, 0, 0x50];
    proof {
        assert(r@ =~= spec_push_value());
    }
    (r, 2, 10)
}

pub fn push_stack_index_code() -> (r: (Vec<u8>, usize, usize))
    ensures
        r.0@ == spec_push_stack_index(),
        r.1 == 4usize,
        r.2 == 8usize,
{
    let r = vec![0x48u8, 0x8b, 0x84, 0x24, 0, 0, 0, 0, 0x50];
    proof {
        assert(r@ =~= spec_push_stack_index());
    }
    (r, 4, 8)
}

pub fn push_negative_stack_index_code() -> (r: (Vec<u8>, usize, usize))
    ensures
        r.0@ == spec_push_negative_stack_index(),
        r.1 == 3usize,
        r.2 == 7usize,
{
    let r = vec![0x48u8, 0x8b, 0x85, 0, 0, 0, 0, 0x50];
    proof {
        assert(r@ =~= spec_push_negative_stack_index());
    }
    (r, 3, 7)
}

pub fn pop_stack_index_code() -> (r: (Vec<u8>, usize, usize))
    ensures
        r.0@ == spec_pop_stack_index(),
        r.1 == 5usize,
        r.2 == 9usize,
{
    let r = vec![0x58u8, 0x48, 0x89, 0x84, 0x24, 0, 0, 0, 0];
    proof {
        assert(r@ =~= spec_pop_stack_index());
    }
    (r, 5, 9)
}

pub fn pop_negative_stack_index_code() -> (r: (Vec<u8>, usize, usize))
    ensures
        r.0@ == spec_pop_negative_stack_index(),
        r.1 == 4usize,
        r.2 == 8usize,
{
    let r = vec![0x58u8, 0x48, 0x89, 0x85, 0, 0, 0, 0];
    proof {
        assert(r@ =~= spec_pop_negative_stack_index());
    }
    (r, 4, 8)
}

pub fn while_loop_header_code() -> (r: (Vec<u8>, usize, usize))
    ensures
        r.0@ == spec_while_loop_header(),
        r.1 == 9usize,
        r.2 == 13usize,
{
    let r = vec![0x48u8, 0x8b, 0x04, 0x24, 0x48, 0x85, 0xc0, 0x0f, 0x84, 0, 0, 0, 0];
    proof {
        assert(r@ =~= spec_while_loop_header());
    }
    (r, 9, 13)
}

pub fn while_loop_footer_code() -> (r: (Vec<u8>, usize, usize))
    ensures
        r.0@ == spec_while_loop_footer(),
        r.1 == 9usize,
        r.2 == 13usize,
{
    let r = vec![0x48u8, 0x8b, 0x04, 0x24, 0x48, 0x85, 0xc0, 0x0f, 0x85, 0, 0, 0, 0];
    proof {
        assert(r@ =~= spec_while_loop_footer());
    }
    (r, 9, 13)
}

} // verus!

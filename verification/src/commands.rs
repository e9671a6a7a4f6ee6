//! The command composer: each named primitive bundles a relocatable code
//! snippet with its operand-stack contract — how many values it pops,
//! how many it pushes, and how deep a stack it needs to read.

use vstd::prelude::*;

use crate::code::{
    model_concat, plain_model, Relocatable, RelocatableModel, Relocation, RelocationModel,
};
use crate::function::FunctionCreateError;
use crate::raw_code::{
    add_code, multiply_code, pop_negative_stack_index_code, pop_stack_index_code, push_arg_code,
    push_stack_index_code, push_negative_stack_index_code, push_value_code, signed_divide_code,
    signed_mod_code, spec_add, spec_multiply, spec_pop_negative_stack_index, spec_pop_stack_index,
    spec_push_arg, spec_push_negative_stack_index, spec_push_stack_index, spec_push_value,
    spec_signed_divide, spec_signed_mod, spec_subtract, spec_unsigned_divide, spec_unsigned_mod,
    spec_while_loop_footer, spec_while_loop_header, subtract_code, unsigned_divide_code,
    unsigned_mod_code, while_loop_footer_code, while_loop_header_code,
};
use crate::reloc::{le4, le8, splice, to_2c, RelocationKind};
use crate::symbol::{Symbol, SymbolCounter, SymbolKey};

verus! {

/// A code snippet together with its operand-stack contract.
/// `param_count` values are consumed from the top of the operand stack
/// and `return_count` are produced; `required_stack_depth` is the least
/// depth the code needs to read, including values beyond those it pops.
#[derive(Debug)]
pub struct Command {
    pub param_count: usize,
    pub return_count: usize,
    pub required_stack_depth: usize,
    pub code: Relocatable,
    pub data: Relocatable,
}

/// The mathematical image of a [`Command`].
#[verifier::ext_equal]
pub struct CommandModel {
    pub param_count: int,
    pub return_count: int,
    pub required_stack_depth: int,
    pub code: RelocatableModel,
    pub data: RelocatableModel,
}

impl View for Command {
    type V = CommandModel;

    open spec fn view(&self) -> CommandModel {
        CommandModel {
            param_count: self.param_count as int,
            return_count: self.return_count as int,
            required_stack_depth: self.required_stack_depth as int,
            code: self.code@,
            data: self.data@,
        }
    }
}

/// The images of a sequence of commands.
pub open spec fn cmd_models(s: Seq<Command>) -> Seq<CommandModel> {
    s.map_values(|c: Command| c@)
}

/// Appending one command appends its image.
pub proof fn lemma_cmd_models_push(s: Seq<Command>, c: Command)
    ensures
        cmd_models(s.push(c)) == cmd_models(s).push(c@),
{
    assert(cmd_models(s.push(c)) =~= cmd_models(s).push(c@));
}

/// No code buffer that the composer handles may grow past this length.
pub open spec fn code_limit() -> int {
    0x1000_0000_0000
}

/// The slack over a command's own code length that bounds its required
/// stack depth (a stack index fits 32 bits).
pub open spec fn req_base() -> int {
    0x1_0000_0000
}

impl CommandModel {
    /// Well-formedness of a composer-built command: the sections are
    /// well-formed and unaligned, the data section is empty, the stack
    /// contract is within the bounds the composer preserves, and the code
    /// is non-empty and bounded.
    pub open spec fn wf(self) -> bool {
        &&& self.code.wf()
        &&& self.code.alignment == 0
        &&& self.data == RelocatableModel::empty()
        &&& 0 <= self.param_count <= 2
        &&& 0 <= self.return_count <= 1
        &&& 0 <= self.required_stack_depth
        &&& self.param_count <= self.code.data.len()
        &&& 1 <= self.code.data.len()
        &&& self.code.data.len() <= code_limit()
        &&& self.required_stack_depth <= req_base() + 2 * self.code.data.len()
    }
}

impl Command {
    /// Well-formedness of a composer-built command, on its image.
    pub open spec fn wf(self) -> bool {
        self@.wf()
    }
}

/// The image of a command whose code is plain bytes, with no symbols, no
/// relocations, and an empty data section.
pub open spec fn plain_cmd_model(params: int, outputs: int, required: int, bytes: Seq<u8>) -> CommandModel {
    CommandModel {
        param_count: params,
        return_count: outputs,
        required_stack_depth: required,
        code: plain_model(bytes),
        data: RelocatableModel::empty(),
    }
}

/// A command whose code is the given plain bytes, with no symbols and no
/// relocations, and an empty data section.
pub open spec fn is_plain_command(
    c: Command,
    params: int,
    outputs: int,
    required: int,
    bytes: Seq<u8>,
) -> bool {
    c@ == plain_cmd_model(params, outputs, required, bytes)
}

/// Pushes the first argument onto the operand stack.
pub fn push_a() -> (c: Command)
    ensures
        c.wf(),
        is_plain_command(c, 0, 1, 0, spec_push_arg(0)),
{
    plain_command(push_arg_code(0), 0, 1, 0)
}

/// Pushes the second argument onto the operand stack.
pub fn push_b() -> (c: Command)
    ensures
        c.wf(),
        is_plain_command(c, 0, 1, 0, spec_push_arg(1)),
{
    plain_command(push_arg_code(1), 0, 1, 0)
}

/// Pushes the third argument onto the operand stack.
pub fn push_c() -> (c: Command)
    ensures
        c.wf(),
        is_plain_command(c, 0, 1, 0, spec_push_arg(2)),
{
    plain_command(push_arg_code(2), 0, 1, 0)
}

/// Pushes the fourth argument onto the operand stack.
pub fn push_d() -> (c: Command)
    ensures
        c.wf(),
        is_plain_command(c, 0, 1, 0, spec_push_arg(3)),
{
    plain_command(push_arg_code(3), 0, 1, 0)
}

/// Pushes the fifth argument onto the operand stack.
pub fn push_e() -> (c: Command)
    ensures
        c.wf(),
        is_plain_command(c, 0, 1, 0, spec_push_arg(4)),
{
    plain_command(push_arg_code(4), 0, 1, 0)
}

/// Pushes the sixth argument onto the operand stack.
pub fn push_f() -> (c: Command)
    ensures
        c.wf(),
        is_plain_command(c, 0, 1, 0, spec_push_arg(5)),
{
    plain_command(push_arg_code(5), 0, 1, 0)
}

/// Pops two values and pushes their wrapping sum.
pub fn add() -> (c: Command)
    ensures
        c.wf(),
        is_plain_command(c, 2, 1, 2, spec_add()),
{
    plain_command(add_code(), 2, 1, 2)
}

/// Pops two values and pushes their wrapping difference.
pub fn subtract() -> (c: Command)
    ensures
        c.wf(),
        is_plain_command(c, 2, 1, 2, spec_subtract()),
{
    plain_command(subtract_code(), 2, 1, 2)
}

/// Pops two values and pushes their wrapping product.
pub fn multiply() -> (c: Command)
    ensures
        c.wf(),
        is_plain_command(c, 2, 1, 2, spec_multiply()),
{
    plain_command(multiply_code(), 2, 1, 2)
}

/// Pops two values and pushes their signed quotient; a zero divisor and
/// the minimum integer divided by negative one return their error codes
/// instead.
pub fn divide() -> (c: Command)
    ensures
        c.wf(),
        is_plain_command(c, 2, 1, 2, spec_signed_divide()),
{
    plain_command(signed_divide_code(), 2, 1, 2)
}

/// Pops two values and pushes their signed remainder; it guards the two
/// error cases as the signed divide does.
pub fn modulo() -> (c: Command)
    ensures
        c.wf(),
        is_plain_command(c, 2, 1, 2, spec_signed_mod()),
{
    plain_command(signed_mod_code(), 2, 1, 2)
}

/// Pops two values and pushes their unsigned quotient; a zero divisor
/// returns its error code.
pub fn udivide() -> (c: Command)
    ensures
        c.wf(),
        is_plain_command(c, 2, 1, 2, spec_unsigned_divide()),
{
    plain_command(unsigned_divide_code(), 2, 1, 2)
}

/// Pops two values and pushes their unsigned remainder; a zero divisor
/// returns its error code.
pub fn umodulo() -> (c: Command)
    ensures
        c.wf(),
        is_plain_command(c, 2, 1, 2, spec_unsigned_mod()),
{
    plain_command(unsigned_mod_code(), 2, 1, 2)
}

fn plain_command(code: Vec<u8>, params: usize, outputs: usize, required: usize) -> (c: Command)
    requires
        params <= 2,
        outputs <= 1,
        required <= 2,
        params as int <= code@.len() as int,
        1 <= code@.len(),
        code@.len() <= code_limit(),
    ensures
        c.wf(),
        is_plain_command(c, params as int, outputs as int, required as int, code@),
{
    Command {
        param_count: params,
        return_count: outputs,
        required_stack_depth: required,
        code: Relocatable::from_bytes(code),
        data: Relocatable::empty(),
    }
}

/// Pushes the literal `value`: the push-value template with its hole
/// filled by the eight little-endian bytes of the value.
pub fn push_value(value: isize) -> (c: Command)
    ensures
        c.wf(),
        is_plain_command(
            c,
            0,
            1,
            0,
            splice(spec_push_value(), 2, le8(to_2c(value as int, 0x1_0000_0000_0000_0000) as u64)),
        ),
{
    let (mut code, hole_start, _hole_end) = push_value_code();
    let applied = RelocationKind::Direct64.apply_absolute(&mut code, hole_start, value);
    proof {
        assert(applied is Ok);
    }
    Command {
        param_count: 0,
        return_count: 1,
        required_stack_depth: 0,
        code: Relocatable::from_bytes(code),
        data: Relocatable::empty(),
    }
}

/// The required stack depth of a push- or pop-stack-index command.
pub open spec fn spec_stack_index_depth(index: int, pops: bool) -> int {
    if pops {
        if index >= 0 {
            index + 2
        } else {
            -index + 1
        }
    } else {
        if index >= 0 {
            index + 1
        } else {
            -index
        }
    }
}

/// The code bytes of a push- or pop-stack-index command: the variant for
/// the sign of `index`, with its hole filled by the four little-endian
/// bytes of the slot's byte displacement — eight times the index, since
/// operand-stack slots are machine words.
pub open spec fn spec_stack_index_code(index: int, pops: bool) -> Seq<u8> {
    let filled = le4(to_2c(8 * index, 0x1_0000_0000) as u32);
    if pops {
        if index >= 0 {
            splice(spec_pop_stack_index(), 5, filled)
        } else {
            splice(spec_pop_negative_stack_index(), 4, filled)
        }
    } else {
        if index >= 0 {
            splice(spec_push_stack_index(), 4, filled)
        } else {
            splice(spec_push_negative_stack_index(), 3, filled)
        }
    }
}

/// Pushes a copy of the stack slot named by `index`: a non-negative
/// index counts from the top of the operand stack, a negative one from
/// the bottom of the frame. The index must leave its byte displacement
/// (eight times the index) within the 32-bit field.
pub fn push_stack_index(stack_index: i32) -> (c: Command)
    requires
        -0x1000_0000 <= stack_index <= 0x0fff_ffff,
    ensures
        c.wf(),
        is_plain_command(
            c,
            0,
            1,
            spec_stack_index_depth(stack_index as int, false),
            spec_stack_index_code(stack_index as int, false),
        ),
{
    let (mut code, hole_start, _hole_end) = if stack_index >= 0 {
        push_stack_index_code()
    } else {
        push_negative_stack_index_code()
    };
    let required_stack_depth: usize = if stack_index >= 0 {
        stack_index as usize + 1
    } else {
        (-(stack_index as i64)) as usize
    };
    let applied = RelocationKind::Direct32S.apply_absolute(
        &mut code,
        hole_start,
        8 * (stack_index as isize),
    );
    proof {
        assert(applied is Ok);
    }
    Command {
        param_count: 0,
        return_count: 1,
        required_stack_depth,
        code: Relocatable::from_bytes(code),
        data: Relocatable::empty(),
    }
}

/// Pops the top of the operand stack into the stack slot named by
/// `index`, counted and bounded as in [`push_stack_index`].
pub fn pop_stack_index(stack_index: i32) -> (c: Command)
    requires
        -0x1000_0000 <= stack_index <= 0x0fff_ffff,
    ensures
        c.wf(),
        is_plain_command(
            c,
            1,
            0,
            spec_stack_index_depth(stack_index as int, true),
            spec_stack_index_code(stack_index as int, true),
        ),
{
    let (mut code, hole_start, _hole_end) = if stack_index >= 0 {
        pop_stack_index_code()
    } else {
        pop_negative_stack_index_code()
    };
    let required_stack_depth: usize = if stack_index >= 0 {
        stack_index as usize + 2
    } else {
        (-(stack_index as i64)) as usize + 1
    };
    let applied = RelocationKind::Direct32S.apply_absolute(
        &mut code,
        hole_start,
        8 * (stack_index as isize),
    );
    proof {
        assert(applied is Ok);
    }
    Command {
        param_count: 1,
        return_count: 0,
        required_stack_depth,
        code: Relocatable::from_bytes(code),
        data: Relocatable::empty(),
    }
}

/// The while-loop header: declares `hdr` at its end and branches to
/// `ftr` when the condition on top of the stack is zero.
pub open spec fn while_header_model(hdr: SymbolKey, ftr: SymbolKey) -> RelocatableModel {
    RelocatableModel {
        data: spec_while_loop_header(),
        alignment: 0,
        symbols: seq![(hdr, 13int)],
        abs_symbols: Seq::empty(),
        relocations: seq![
            RelocationModel { location: 9, kind: RelocationKind::Pc32, symbol: ftr, addend: -4 },
        ],
    }
}

/// The while-loop footer: declares `ftr` at its end and branches back to
/// `hdr` while the condition on top of the stack is non-zero.
pub open spec fn while_footer_model(hdr: SymbolKey, ftr: SymbolKey) -> RelocatableModel {
    RelocatableModel {
        data: spec_while_loop_footer(),
        alignment: 0,
        symbols: seq![(ftr, 13int)],
        abs_symbols: Seq::empty(),
        relocations: seq![
            RelocationModel { location: 9, kind: RelocationKind::Pc32, symbol: hdr, addend: -4 },
        ],
    }
}

/// Builds the header and footer of one while loop, wired to each other
/// through two fresh local symbols.
fn new_while_loop_header_footer(counter: &mut SymbolCounter) -> (r: (Relocatable, Relocatable))
    requires
        old(counter).spec_next() + 2 <= u64::MAX,
    ensures
        final(counter).spec_next() == old(counter).spec_next() + 2,
        r.0@ == while_header_model(
            SymbolKey::Local(old(counter).spec_next()),
            SymbolKey::Local((old(counter).spec_next() + 1) as u64),
        ),
        r.1@ == while_footer_model(
            SymbolKey::Local(old(counter).spec_next()),
            SymbolKey::Local((old(counter).spec_next() + 1) as u64),
        ),
        r.0@.wf(),
        r.1@.wf(),
{
    let header_branch_symbol = Symbol::new_local(counter);
    let footer_branch_symbol = Symbol::new_local(counter);
    let ghost hdr = header_branch_symbol@;
    let ghost ftr = footer_branch_symbol@;

    let (header_bytes, header_hole, _) = while_loop_header_code();
    let mut header = Relocatable::from_bytes(header_bytes);
    let header_len = header.len();
    header.push_symbol(header_branch_symbol.clone(), header_len);
    header.push_relocation(
        Relocation::new(header_hole, RelocationKind::Pc32, footer_branch_symbol.clone(), -4),
    );
    proof {
        assert(header@.symbols =~= seq![(hdr, 13int)]);
        assert(header@.relocations =~= seq![
            RelocationModel { location: 9, kind: RelocationKind::Pc32, symbol: ftr, addend: -4 },
        ]);
        assert(header@ =~~= while_header_model(hdr, ftr));
    }

    let (footer_bytes, footer_hole, _) = while_loop_footer_code();
    let mut footer = Relocatable::from_bytes(footer_bytes);
    let footer_len = footer.len();
    footer.push_symbol(footer_branch_symbol, footer_len);
    footer.push_relocation(
        Relocation::new(footer_hole, RelocationKind::Pc32, header_branch_symbol, -4),
    );
    proof {
        assert(footer@.symbols =~= seq![(ftr, 13int)]);
        assert(footer@.relocations =~= seq![
            RelocationModel { location: 9, kind: RelocationKind::Pc32, symbol: hdr, addend: -4 },
        ]);
        assert(footer@ =~~= while_footer_model(hdr, ftr));
    }

    (header, footer)
}

/// The sum of the code lengths of a sequence of commands.
pub open spec fn total_code_len(cmds: Seq<CommandModel>) -> int
    decreases cmds.len(),
{
    if cmds.len() == 0 {
        0
    } else {
        total_code_len(cmds.drop_last()) + cmds.last().code.data.len()
    }
}

/// The net operand-stack movement of a sequence of commands: the sum of
/// `return_count - param_count`.
pub open spec fn net_stack_difference(cmds: Seq<CommandModel>) -> int
    decreases cmds.len(),
{
    if cmds.len() == 0 {
        0
    } else {
        net_stack_difference(cmds.drop_last()) + cmds.last().return_count
            - cmds.last().param_count
    }
}

/// One step of the while-loop bookkeeping: raise the required depth so
/// that the current depth covers the command's parameters, then so that
/// it covers the command's required depth, then move the stack.
pub open spec fn while_step(st: (int, int), c: CommandModel) -> (int, int) {
    let req0 = st.0;
    let diff = st.1;
    let req1 = if req0 + diff < c.param_count {
        c.param_count - diff
    } else {
        req0
    };
    let req2 = if req1 + diff < c.required_stack_depth {
        c.required_stack_depth - diff
    } else {
        req1
    };
    (req2, diff + c.return_count - c.param_count)
}

/// The bookkeeping state `(required_stack_depth, stack_difference)` after
/// a while-loop body: the state starts at `(1, 0)` — the condition value
/// lives on the stack across iterations.
pub open spec fn while_state(cmds: Seq<CommandModel>) -> (int, int)
    decreases cmds.len(),
{
    if cmds.len() == 0 {
        (1, 0)
    } else {
        while_step(while_state(cmds.drop_last()), cmds.last())
    }
}

/// The bookkeeping's stack difference is exactly the net stack movement
/// of the body.
pub proof fn lemma_while_state_difference(cmds: Seq<CommandModel>)
    ensures
        while_state(cmds).1 == net_stack_difference(cmds),
    decreases cmds.len(),
{
    if cmds.len() > 0 {
        lemma_while_state_difference(cmds.drop_last());
    }
}

/// The code sections of `cmds` concatenated, in order, onto `acc`.
pub open spec fn concat_code_models(cmds: Seq<CommandModel>, acc: RelocatableModel) -> RelocatableModel
    decreases cmds.len(),
{
    if cmds.len() == 0 {
        acc
    } else {
        model_concat(concat_code_models(cmds.drop_last(), acc), cmds.last().code)
    }
}

/// The image of the command a while loop composes around `body`, with
/// its header and footer symbols drawn from counter value `c`.
pub open spec fn while_command_model(body: Seq<CommandModel>, c: int) -> CommandModel {
    CommandModel {
        param_count: 0,
        return_count: 0,
        required_stack_depth: while_state(body).0,
        code: model_concat(
            concat_code_models(
                body,
                while_header_model(SymbolKey::Local(c as u64), SymbolKey::Local((c + 1) as u64)),
            ),
            while_footer_model(SymbolKey::Local(c as u64), SymbolKey::Local((c + 1) as u64)),
        ),
        data: RelocatableModel::empty(),
    }
}

/// Composes a while loop around `commands`: the header and footer
/// templates, wired through two fresh local symbols, around the bodies
/// of the commands in order.
///
/// The call succeeds if and only if the net operand-stack movement of
/// the body is zero; otherwise it fails with `LoopChangedStackDepth`.
#[verifier::loop_isolation(false)]
pub fn while_loop(commands: &Vec<Command>, counter: &mut SymbolCounter) -> (r: Result<
    Command,
    FunctionCreateError,
>)
    requires
        old(counter).spec_next() + 2 <= u64::MAX,
        forall|i: int| 0 <= i < commands@.len() ==> (#[trigger] commands@[i]).wf(),
        26 + total_code_len(cmd_models(commands@)) <= code_limit(),
        usize::MAX == 0xffff_ffff_ffff_ffff,
    ensures
        final(counter).spec_next() == old(counter).spec_next() + 2,
        r is Ok <==> net_stack_difference(cmd_models(commands@)) == 0,
        match r {
            Ok(c) => {
                &&& c.wf()
                &&& c@ == while_command_model(
                    cmd_models(commands@),
                    old(counter).spec_next() as int,
                )
                &&& c@.code.data.len() == 26 + total_code_len(cmd_models(commands@))
            },
            Err(e) => e == FunctionCreateError::LoopChangedStackDepth,
        },
{
    let ghost ms = cmd_models(commands@);
    proof {
        assert forall|j: int| 0 <= j < ms.len() implies (#[trigger] ms[j]).wf() by {
            assert(ms[j] == commands@[j]@);
        }
    }
    let (header, footer) = new_while_loop_header_footer(counter);
    let ghost hdr_model = header@;
    let mut code = header;
    let mut data = Relocatable::empty();
    let mut required_stack_depth: usize = 1;
    let mut stack_difference: i128 = 0;

    let n = commands.len();
    let mut i: usize = 0;
    proof {
        assert(ms.take(0) =~= Seq::<CommandModel>::empty());
    }
    while i < n
        invariant
            i <= n,
            n == commands@.len(),
            code@ == concat_code_models(ms.take(i as int), hdr_model),
            code@.wf(),
            code@.alignment == 0,
            code@.data.len() == 13 + total_code_len(ms.take(i as int)),
            data@ == RelocatableModel::empty(),
            (required_stack_depth as int, stack_difference as int) == while_state(
                ms.take(i as int),
            ),
            1 <= required_stack_depth,
            required_stack_depth as int <= 1 + req_base() + 2 * total_code_len(
                ms.take(i as int),
            ),
            -total_code_len(ms.take(i as int)) <= stack_difference as int <= total_code_len(
                ms.take(i as int),
            ),
        decreases n - i,
    {
        let command = &commands[i];
        proof {
            assert(ms[i as int] == commands@[i as int]@);
            assert(ms.take(i + 1).drop_last() =~= ms.take(i as int));
            assert(ms.take(i + 1).last() == ms[i as int]);
            lemma_total_len_prefix(ms, i as int);
        }
        if (required_stack_depth as i128) + stack_difference < (command.param_count as i128) {
            required_stack_depth = ((command.param_count as i128) - stack_difference) as usize;
        }
        if (required_stack_depth as i128) + stack_difference < (
        command.required_stack_depth as i128) {
            required_stack_depth = ((command.required_stack_depth as i128)
                - stack_difference) as usize;
        }
        stack_difference = stack_difference - (command.param_count as i128) + (
        command.return_count as i128);

        code.add_assign(&command.code);
        data.add_assign(&command.data);
        i = i + 1;
        proof {
            assert(data@ =~~= RelocatableModel::empty());
        }
    }
    proof {
        assert(ms.take(n as int) =~= ms);
        lemma_while_state_difference(ms);
    }
    code.add_assign(&footer);

    if stack_difference != 0 {
        return Err(FunctionCreateError::LoopChangedStackDepth);
    }

    let result = Command {
        param_count: 0,
        return_count: 0,
        required_stack_depth,
        code,
        data,
    };
    proof {
        assert(result@ =~~= while_command_model(ms, old(counter).spec_next() as int));
    }
    Ok(result)
}

/// The total code length of a prefix never exceeds the total of the
/// whole sequence, and every element's code is counted within it.
pub proof fn lemma_total_len_prefix(cmds: Seq<CommandModel>, i: int)
    requires
        0 <= i < cmds.len(),
        forall|j: int| 0 <= j < cmds.len() ==> (#[trigger] cmds[j]).wf(),
    ensures
        total_code_len(cmds.take(i + 1)) == total_code_len(cmds.take(i))
            + cmds[i].code.data.len(),
        total_code_len(cmds.take(i + 1)) <= total_code_len(cmds),
        total_code_len(cmds.take(i)) >= 0,
    decreases cmds.len(),
{
    assert(cmds.take(i + 1).drop_last() =~= cmds.take(i));
    lemma_total_code_len_nonneg_mono(cmds, i + 1);
    lemma_total_code_len_nonneg_mono(cmds, i);
}

/// `total_code_len` of a prefix is non-negative and at most the total of
/// the whole sequence.
proof fn lemma_total_code_len_nonneg_mono(cmds: Seq<CommandModel>, k: int)
    requires
        0 <= k <= cmds.len(),
        forall|j: int| 0 <= j < cmds.len() ==> (#[trigger] cmds[j]).wf(),
    ensures
        0 <= total_code_len(cmds.take(k)),
        total_code_len(cmds.take(k)) <= total_code_len(cmds),
    decreases cmds.len() - k, cmds.len(),
{
    if k == cmds.len() {
        assert(cmds.take(k) =~= cmds);
        lemma_total_code_len_nonneg(cmds);
    } else {
        assert(cmds.take(k + 1).drop_last() =~= cmds.take(k));
        assert(cmds.take(k + 1).last() == cmds[k]);
        lemma_total_code_len_nonneg_mono(cmds, k + 1);
        lemma_total_code_len_nonneg(cmds.take(k));
        assert(forall|j: int|
            0 <= j < cmds.take(k).len() ==> (#[trigger] cmds.take(k)[j]).wf());
    }
}

/// Appending one command adds exactly its code length to the total.
pub proof fn lemma_total_len_push(cmds: Seq<CommandModel>, c: CommandModel)
    ensures
        total_code_len(cmds.push(c)) == total_code_len(cmds) + c.code.data.len(),
{
    assert(cmds.push(c).drop_last() =~= cmds);
    assert(cmds.push(c).last() == c);
}

proof fn lemma_total_code_len_nonneg(cmds: Seq<CommandModel>)
    ensures
        total_code_len(cmds) >= 0,
    decreases cmds.len(),
{
    if cmds.len() > 0 {
        lemma_total_code_len_nonneg(cmds.drop_last());
    }
}

} // verus!

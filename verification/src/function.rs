//! The function assembler and the mini-language front end: a sequence of
//! commands is checked against the operand-stack discipline, wrapped in
//! the function header and footer templates, and assembled into the byte
//! image of a callable function. A host installs that image in executable
//! memory; a compiled function returns a two-word result whose second
//! word is an error code.

use vstd::prelude::*;

use crate::code::{
    model_concat, plain_model, spec_assemble, AssembleError, AssembleErrorKey, Relocatable,
    RelocatableModel,
};
use crate::commands::{
    cmd_models, concat_code_models, divide, lemma_cmd_models_push, modulo, multiply,
    net_stack_difference, plain_cmd_model, pop_stack_index, push_a, push_b, push_c, push_d,
    push_e, push_f, push_stack_index, push_value, spec_stack_index_code, spec_stack_index_depth,
    subtract, total_code_len, udivide, umodulo, while_command_model, while_loop, Command,
    CommandModel,
};
use crate::raw_code::{
    spec_add, spec_multiply, spec_push_arg, spec_push_value, spec_signed_divide, spec_signed_mod,
    spec_subtract, spec_unsigned_divide, spec_unsigned_mod,
};
use crate::reloc::{le8, splice, to_2c};
use crate::raw_code::{
    function_footer_code, function_header_code, spec_function_footer, spec_function_header,
};
use crate::symbol::SymbolCounter;
use vstd::string::StringSliceAdditionalSpecFns;

verus! {

/// An error found while composing or assembling a function.
#[derive(Debug)]
pub enum FunctionCreateError {
    /// A command would pop a value from an empty operand stack.
    StackUnderflow,
    /// A command would read a value from past the end of the operand stack.
    InsufficientDepth,
    /// The function would return from an empty operand stack.
    EmptyResult,
    /// The body of a while loop does not leave the stack depth unchanged.
    LoopChangedStackDepth,
    /// A stack-index command was not followed by an integer.
    NotAnInteger,
    /// A decimal literal does not fit the machine word.
    IntegerLiteralTooLarge,
    /// An integer is out of the representable range.
    IntegerLiteralOutOfRange,
    /// A stack index is out of the representable range.
    StackIndexOutOfRange,
    /// A character that is not a command.
    UnrecognizedCommand,
    /// A `{` without its `}`.
    UnterminatedLoop,
    /// The composed function did not assemble.
    Assemble(AssembleError),
}

/// The raw error word returned by a compiled function: zero means success.
pub type FunctionErrorRaw = isize;

/// The two-word result every compiled function returns.
#[derive(Debug)]
pub struct FunctionResultRaw {
    pub value: isize,
    pub error: FunctionErrorRaw,
}

/// The typed runtime errors a compiled function can report.
#[derive(Clone, Copy, PartialEq, Eq, Structural, Debug)]
pub enum FunctionError {
    DivideByZero,
    DivideMinByNegativeOne,
    /// A non-zero code with no entry in the error table.
    Other,
}

impl FunctionError {
    /// The raw code of this error, as the error table defines it.
    pub fn code(self) -> (r: FunctionErrorRaw)
        ensures
            r == spec_error_code(self),
    {
        match self {
            FunctionError::DivideByZero => 1,
            FunctionError::DivideMinByNegativeOne => 2,
            FunctionError::Other => -1,
        }
    }

    /// The human-readable message of this error.
    pub fn message(self) -> (r: &'static str) {
        match self {
            FunctionError::DivideByZero => "Divide by zero",
            FunctionError::DivideMinByNegativeOne => "Divide minimum integer by negative one",
            FunctionError::Other => "Unknown error",
        }
    }
}

/// The raw code of each typed error.
pub open spec fn spec_error_code(e: FunctionError) -> isize {
    match e {
        FunctionError::DivideByZero => 1isize,
        FunctionError::DivideMinByNegativeOne => 2isize,
        FunctionError::Other => -1isize,
    }
}

/// The typed error a raw code denotes: zero is success, a known code its
/// table entry, any other non-zero code the catch-all.
pub open spec fn spec_error_from_raw(raw: isize) -> Option<FunctionError> {
    if raw == 0 {
        None
    } else if raw == 1 {
        Some(FunctionError::DivideByZero)
    } else if raw == 2 {
        Some(FunctionError::DivideMinByNegativeOne)
    } else {
        Some(FunctionError::Other)
    }
}

/// Maps the raw error word of a compiled function to its typed error:
/// `None` means the call succeeded.
pub fn function_error_from_raw(raw: FunctionErrorRaw) -> (r: Option<FunctionError>)
    ensures
        r == spec_error_from_raw(raw),
{
    if raw == 0 {
        None
    } else if raw == 1 {
        Some(FunctionError::DivideByZero)
    } else if raw == 2 {
        Some(FunctionError::DivideMinByNegativeOne)
    } else {
        Some(FunctionError::Other)
    }
}

/// The byte image of a compiled function, assembled and relocated,
/// ready for a host to install in executable memory and call.
#[derive(Debug)]
pub struct Function {
    pub code: Vec<u8>,
}

/// The operand-stack size before the `j`-th command runs, starting from
/// an empty stack.
pub open spec fn stack_size_before(cmds: Seq<CommandModel>, j: int) -> int {
    net_stack_difference(cmds.take(j))
}

/// The `j`-th command finds enough values on the operand stack: at least
/// its parameters, and at least its required depth.
pub open spec fn command_ok_at(cmds: Seq<CommandModel>, j: int) -> bool {
    &&& stack_size_before(cmds, j) >= cmds[j].param_count
    &&& stack_size_before(cmds, j) >= cmds[j].required_stack_depth
}

/// The stack-accounting pass from position `j` with `size` values on the
/// stack: the first failing command decides the error; otherwise the
/// final stack size comes back.
pub open spec fn spec_stack_check(cmds: Seq<CommandModel>, j: int, size: int) -> Result<
    int,
    FunctionCreateError,
>
    decreases cmds.len() - j,
{
    if j < 0 || j >= cmds.len() {
        Ok(size)
    } else if size < cmds[j].param_count {
        Err(FunctionCreateError::StackUnderflow)
    } else if size < cmds[j].required_stack_depth {
        Err(FunctionCreateError::InsufficientDepth)
    } else {
        spec_stack_check(cmds, j + 1, size + cmds[j].return_count - cmds[j].param_count)
    }
}

/// Stack accounting: the sequential pass accepts a command sequence
/// exactly when every command, in order, finds at least its parameter
/// count and at least its required depth on the stack; and the size it
/// returns is the net stack movement of the whole sequence.
pub proof fn lemma_stack_check_characterization(cmds: Seq<CommandModel>, j: int)
    requires
        0 <= j <= cmds.len(),
    ensures
        spec_stack_check(cmds, j, stack_size_before(cmds, j)) is Ok <==> forall|k: int|
            j <= k < cmds.len() ==> command_ok_at(cmds, k),
        spec_stack_check(cmds, j, stack_size_before(cmds, j)) is Ok ==> spec_stack_check(
            cmds,
            j,
            stack_size_before(cmds, j),
        ) == Ok::<int, FunctionCreateError>(net_stack_difference(cmds)),
    decreases cmds.len() - j,
{
    if j == cmds.len() {
        assert(cmds.take(j) =~= cmds);
    } else {
        assert(cmds.take(j + 1).drop_last() =~= cmds.take(j));
        assert(cmds.take(j + 1).last() == cmds[j]);
        lemma_stack_check_characterization(cmds, j + 1);
        let size = stack_size_before(cmds, j);
        if size >= cmds[j].param_count && size >= cmds[j].required_stack_depth {
            assert(command_ok_at(cmds, j));
        } else {
            assert(!command_ok_at(cmds, j));
        }
    }
}

/// The loader accepts a command sequence if and only if, for every
/// prefix, the stack size covers the next command's parameter count and
/// required depth, and the final stack size is at least one.
pub proof fn lemma_stack_accounting(cmds: Seq<CommandModel>)
    ensures
        (spec_stack_check(cmds, 0, 0) matches Ok(size) && size >= 1) <==> ((forall|k: int|
            0 <= k < cmds.len() ==> command_ok_at(cmds, k)) && net_stack_difference(cmds) >= 1),
{
    assert(cmds.take(0) =~= Seq::<CommandModel>::empty());
    lemma_stack_check_characterization(cmds, 0);
}

/// The combined object of a function: the header template, the code
/// sections of the commands in order, the footer template, and then the
/// (empty) data sections.
pub open spec fn function_image(cmds: Seq<CommandModel>) -> RelocatableModel {
    model_concat(
        model_concat(
            concat_code_models(cmds, plain_model(spec_function_header())),
            plain_model(spec_function_footer()),
        ),
        RelocatableModel::empty(),
    )
}

impl Function {
    /// Composes a function from a command sequence: checks the stack
    /// accounting, wraps the bodies in the function header and footer,
    /// and assembles the result.
    ///
    /// Fails with `StackUnderflow` or `InsufficientDepth` at the first
    /// command that finds too shallow a stack, with `EmptyResult` when
    /// the commands leave nothing on the stack, and with `Assemble`
    /// when a relocation cannot be resolved.
    #[verifier::loop_isolation(false)]
    pub fn new(commands: Vec<Command>) -> (r: Result<Function, FunctionCreateError>)
        requires
            forall|i: int| 0 <= i < commands@.len() ==> (#[trigger] commands@[i]).wf(),
            16 + total_code_len(cmd_models(commands@)) <= crate::commands::code_limit(),
            usize::MAX == 0xffff_ffff_ffff_ffff,
        ensures
            match r {
                Ok(f) => spec_stack_check(cmd_models(commands@), 0, 0) matches Ok(size) && size
                    >= 1 && spec_assemble(function_image(cmd_models(commands@))) == Ok::<
                    Seq<u8>,
                    AssembleErrorKey,
                >(f.code@),
                Err(e) => match e {
                    FunctionCreateError::StackUnderflow => spec_stack_check(
                        cmd_models(commands@),
                        0,
                        0,
                    ) == Err::<int, FunctionCreateError>(FunctionCreateError::StackUnderflow),
                    FunctionCreateError::InsufficientDepth => spec_stack_check(
                        cmd_models(commands@),
                        0,
                        0,
                    ) == Err::<int, FunctionCreateError>(FunctionCreateError::InsufficientDepth),
                    FunctionCreateError::EmptyResult => spec_stack_check(
                        cmd_models(commands@),
                        0,
                        0,
                    ) == Ok::<int, FunctionCreateError>(0),
                    FunctionCreateError::Assemble(ae) => spec_stack_check(
                        cmd_models(commands@),
                        0,
                        0,
                    ) matches Ok(size) && size >= 1 && spec_assemble(
                        function_image(cmd_models(commands@)),
                    ) == Err::<Seq<u8>, AssembleErrorKey>(ae@),
                    _ => false,
                },
            },
    {
        let ghost ms = cmd_models(commands@);
        proof {
            assert forall|j: int| 0 <= j < ms.len() implies (#[trigger] ms[j]).wf() by {
                assert(ms[j] == commands@[j]@);
            }
        }
        let mut stack_size: usize = 0;
        let mut code = Relocatable::from_bytes(function_header_code());
        let mut data = Relocatable::empty();

        let n = commands.len();
        let mut i: usize = 0;
        proof {
            assert(ms.take(0) =~= Seq::<CommandModel>::empty());
        }
        while i < n
            invariant
                i <= n,
                n == commands@.len(),
                code@ == concat_code_models(ms.take(i as int), plain_model(
                    spec_function_header(),
                )),
                code@.wf(),
                code@.alignment == 0,
                code@.data.len() == 8 + total_code_len(ms.take(i as int)),
                data@ == RelocatableModel::empty(),
                stack_size as int == net_stack_difference(ms.take(i as int)),
                stack_size <= i,
                spec_stack_check(ms, i as int, stack_size as int) == spec_stack_check(ms, 0, 0),
            decreases n - i,
        {
            let command = &commands[i];
            proof {
                assert(ms[i as int] == commands@[i as int]@);
                assert(ms.take(i + 1).drop_last() =~= ms.take(i as int));
                assert(ms.take(i + 1).last() == ms[i as int]);
                crate::commands::lemma_total_len_prefix(ms, i as int);
            }
            if stack_size < command.param_count {
                return Err(FunctionCreateError::StackUnderflow);
            }
            if stack_size < command.required_stack_depth {
                return Err(FunctionCreateError::InsufficientDepth);
            }
            stack_size = stack_size - command.param_count + command.return_count;
            code.add_assign(&command.code);
            data.add_assign(&command.data);
            i = i + 1;
            proof {
                assert(data@ =~~= RelocatableModel::empty());
            }
        }
        proof {
            assert(ms.take(n as int) =~= ms);
        }
        if stack_size == 0 {
            return Err(FunctionCreateError::EmptyResult);
        }

        code.add_assign(&Relocatable::from_bytes(function_footer_code()));
        let combined = code.add(&data);
        match combined.assemble() {
            Ok(bytes) => Ok(Function { code: bytes }),
            Err(e) => Err(FunctionCreateError::Assemble(e)),
        }
    }
}

/// ASCII whitespace, as the mini-language separates tokens. The scanner
/// works on bytes, so only ASCII whitespace separates; the bytes of a
/// multi-byte character are never whitespace and fall to the
/// unrecognized-command case.
pub open spec fn is_space(b: u8) -> bool {
    b == 32 || b == 9 || b == 10 || b == 13 || b == 11 || b == 12
}

/// An ASCII decimal digit.
pub open spec fn is_digit(b: u8) -> bool {
    48 <= b <= 57
}

/// The position just after the run of digits starting at `pos`.
pub open spec fn digits_end(s: Seq<u8>, pos: int) -> int
    decreases s.len() - pos,
{
    if pos < 0 || pos >= s.len() || !is_digit(s[pos]) {
        pos
    } else {
        digits_end(s, pos + 1)
    }
}

/// The value of the run of digits starting at `pos`, onto the
/// accumulator `acc`.
pub open spec fn digits_value(s: Seq<u8>, pos: int, acc: int) -> int
    decreases s.len() - pos,
{
    if pos < 0 || pos >= s.len() || !is_digit(s[pos]) {
        acc
    } else {
        digits_value(s, pos + 1, acc * 10 + (s[pos] - 48))
    }
}

proof fn lemma_digits_end(s: Seq<u8>, pos: int)
    requires
        0 <= pos <= s.len(),
    ensures
        pos <= digits_end(s, pos) <= s.len(),
        pos < s.len() && is_digit(s[pos]) ==> digits_end(s, pos) >= pos + 1,
    decreases s.len() - pos,
{
    if pos < s.len() && is_digit(s[pos]) {
        lemma_digits_end(s, pos + 1);
    }
}

proof fn lemma_digits_value_lb(s: Seq<u8>, pos: int, acc: int)
    requires
        acc >= 0,
    ensures
        digits_value(s, pos, acc) >= acc,
    decreases s.len() - pos,
{
    if 0 <= pos < s.len() && is_digit(s[pos]) {
        lemma_digits_value_lb(s, pos + 1, acc * 10 + (s[pos] - 48));
    }
}

/// A signed decimal integer at `pos`: an optional minus sign, then
/// digits. The value and the position after the digits, or the error.
pub open spec fn spec_iint(s: Seq<u8>, pos: int) -> Result<(int, int), FunctionCreateError> {
    let neg = 0 <= pos < s.len() && s[pos] == 45;
    let dstart = if neg {
        pos + 1
    } else {
        pos
    };
    if dstart >= s.len() || !is_digit(s[dstart]) {
        Err(FunctionCreateError::NotAnInteger)
    } else {
        let v = digits_value(s, dstart, 0);
        if v > usize::MAX {
            Err(FunctionCreateError::IntegerLiteralTooLarge)
        } else if !neg {
            if v > isize::MAX {
                Err(FunctionCreateError::IntegerLiteralOutOfRange)
            } else {
                Ok((v, digits_end(s, dstart)))
            }
        } else {
            if v > isize::MAX + 1 {
                Err(FunctionCreateError::IntegerLiteralOutOfRange)
            } else {
                Ok((-v, digits_end(s, dstart)))
            }
        }
    }
}

/// `levels` with `m` appended to its top entry: the commands of the
/// enclosing loop bodies still open, innermost last, the whole program
/// at the bottom.
pub open spec fn push_top(levels: Seq<Seq<CommandModel>>, m: CommandModel) -> Seq<
    Seq<CommandModel>,
> {
    if levels.len() == 0 {
        levels
    } else {
        levels.update(levels.len() - 1, levels.last().push(m))
    }
}

/// `levels` with the whole sequence `ms` appended to its top entry.
pub open spec fn ext_top(levels: Seq<Seq<CommandModel>>, ms: Seq<CommandModel>) -> Seq<
    Seq<CommandModel>,
> {
    if levels.len() == 0 {
        levels
    } else {
        levels.update(levels.len() - 1, levels.last() + ms)
    }
}

proof fn lemma_ext_top_empty(levels: Seq<Seq<CommandModel>>)
    ensures
        ext_top(levels, Seq::empty()) == levels,
{
    if levels.len() > 0 {
        assert(levels.last() + Seq::<CommandModel>::empty() =~= levels.last());
        assert(ext_top(levels, Seq::empty()) =~= levels);
    }
}

proof fn lemma_ext_top_push(levels: Seq<Seq<CommandModel>>, ms: Seq<CommandModel>, m: CommandModel)
    ensures
        push_top(ext_top(levels, ms), m) == ext_top(levels, ms.push(m)),
{
    if levels.len() > 0 {
        assert(levels.last() + ms.push(m) =~= (levels.last() + ms).push(m));
        assert(push_top(ext_top(levels, ms), m) =~= ext_top(levels, ms.push(m)));
    }
}

proof fn lemma_ext_top_of_push(levels: Seq<Seq<CommandModel>>, ms: Seq<CommandModel>)
    ensures
        ext_top(levels.push(Seq::empty()), ms) == levels.push(ms),
{
    assert(Seq::<CommandModel>::empty() + ms =~= ms);
    assert(ext_top(levels.push(Seq::empty()), ms) =~= levels.push(ms));
}

/// The maximum of two mathematical integers.
pub open spec fn max_i(a: int, b: int) -> int {
    if a >= b {
        a
    } else {
        b
    }
}

/// The code bytes of the arithmetic-operator command of byte `b`.
pub open spec fn operator_code_bytes(b: u8) -> Seq<u8> {
    if b == 43 {
        spec_add()
    } else if b == 45 {
        spec_subtract()
    } else if b == 42 {
        spec_multiply()
    } else if b == 47 {
        spec_signed_divide()
    } else if b == 37 {
        spec_signed_mod()
    } else if b == 92 {
        spec_unsigned_divide()
    } else {
        spec_unsigned_mod()
    }
}

/// The scan of the mini-language from `pos`: `params` is the highest
/// argument position pushed so far, `levels` the commands already read
/// at each open nesting level (the whole program at the bottom,
/// innermost loop body last), and `counter` the next local-symbol
/// identity a while loop would draw. The scan ends with the first
/// composition error the parser reports, or with the final `params` and
/// the program's command sequence.
#[verifier::opaque]
pub open spec fn spec_scan(
    s: Seq<u8>,
    pos: int,
    params: int,
    levels: Seq<Seq<CommandModel>>,
    counter: int,
) -> Result<(int, Seq<CommandModel>), FunctionCreateError>
    decreases s.len() - pos,
    via spec_scan_dec
{
    if pos < 0 || pos >= s.len() {
        if levels.len() > 1 {
            Err(FunctionCreateError::UnterminatedLoop)
        } else if levels.len() == 1 {
            Ok((params, levels.last()))
        } else {
            Ok((params, Seq::empty()))
        }
    } else {
        let b = s[pos];
        if is_space(b) {
            spec_scan(s, pos + 1, params, levels, counter)
        } else if 97 <= b <= 102 {  // 'a' to 'f': push an argument
            spec_scan(
                s,
                pos + 1,
                max_i(params, b - 96),
                push_top(levels, plain_cmd_model(0, 1, 0, spec_push_arg(b - 97))),
                counter,
            )
        } else if b == 43 || b == 45 || b == 42 || b == 47 || b == 37 || b == 92 || b == 64 {
            // an arithmetic operator: pop two, push one
            spec_scan(
                s,
                pos + 1,
                params,
                push_top(levels, plain_cmd_model(2, 1, 2, operator_code_bytes(b))),
                counter,
            )
        } else if is_digit(b) {  // a decimal literal: push it
            if digits_value(s, pos, 0) > isize::MAX {
                Err(FunctionCreateError::IntegerLiteralTooLarge)
            } else {
                spec_scan(
                    s,
                    digits_end(s, pos),
                    params,
                    push_top(
                        levels,
                        plain_cmd_model(
                            0,
                            1,
                            0,
                            splice(
                                spec_push_value(),
                                2,
                                le8(
                                    to_2c(
                                        digits_value(s, pos, 0),
                                        0x1_0000_0000_0000_0000,
                                    ) as u64,
                                ),
                            ),
                        ),
                    ),
                    counter,
                )
            }
        } else if b == 108 || b == 112 {  // 'l' or 'p': push by stack index
            match spec_iint(s, pos + 1) {
                Err(e) => Err(e),
                Ok((v, end)) => {
                    if v < -0x1000_0000 || v > 0x0fff_ffff {
                        Err(FunctionCreateError::StackIndexOutOfRange)
                    } else {
                        spec_scan(
                            s,
                            end,
                            params,
                            push_top(
                                levels,
                                plain_cmd_model(
                                    0,
                                    1,
                                    spec_stack_index_depth(v, false),
                                    spec_stack_index_code(v, false),
                                ),
                            ),
                            counter,
                        )
                    }
                },
            }
        } else if b == 115 {  // 's': pop to stack index
            match spec_iint(s, pos + 1) {
                Err(e) => Err(e),
                Ok((v, end)) => {
                    if v < -0x1000_0000 || v > 0x0fff_ffff {
                        Err(FunctionCreateError::StackIndexOutOfRange)
                    } else {
                        spec_scan(
                            s,
                            end,
                            params,
                            push_top(
                                levels,
                                plain_cmd_model(
                                    1,
                                    0,
                                    spec_stack_index_depth(v, true),
                                    spec_stack_index_code(v, true),
                                ),
                            ),
                            counter,
                        )
                    }
                },
            }
        } else if b == 123 {  // '{': open a while loop
            spec_scan(s, pos + 1, params, levels.push(Seq::empty()), counter)
        } else if b == 125 {  // '}': close the innermost while loop
            if levels.len() <= 1 {
                Err(FunctionCreateError::UnrecognizedCommand)
            } else if net_stack_difference(levels.last()) != 0 {
                Err(FunctionCreateError::LoopChangedStackDepth)
            } else {
                spec_scan(
                    s,
                    pos + 1,
                    params,
                    push_top(levels.drop_last(), while_command_model(levels.last(), counter)),
                    counter + 2,
                )
            }
        } else {
            Err(FunctionCreateError::UnrecognizedCommand)
        }
    }
}

#[via_fn]
proof fn spec_scan_dec(
    s: Seq<u8>,
    pos: int,
    params: int,
    levels: Seq<Seq<CommandModel>>,
    counter: int,
) {
    if 0 <= pos < s.len() {
        lemma_digits_end(s, pos);
        if pos + 1 <= s.len() {
            lemma_digits_end(s, pos + 1);
        }
        if pos + 2 <= s.len() {
            lemma_digits_end(s, pos + 2);
        }
    }
}

/// One scan step at the end of the input.
proof fn lemma_scan_eof(
    s: Seq<u8>,
    pos: int,
    params: int,
    levels: Seq<Seq<CommandModel>>,
    counter: int,
)
    requires
        pos >= s.len(),
    ensures
        spec_scan(s, pos, params, levels, counter) == if levels.len() > 1 {
            Err::<(int, Seq<CommandModel>), FunctionCreateError>(
                FunctionCreateError::UnterminatedLoop,
            )
        } else if levels.len() == 1 {
            Ok::<(int, Seq<CommandModel>), FunctionCreateError>((params, levels.last()))
        } else {
            Ok::<(int, Seq<CommandModel>), FunctionCreateError>((params, Seq::empty()))
        },
{
    reveal(spec_scan);
}

/// One scan step over a whitespace byte.
proof fn lemma_scan_space(
    s: Seq<u8>,
    pos: int,
    params: int,
    levels: Seq<Seq<CommandModel>>,
    counter: int,
)
    requires
        0 <= pos < s.len(),
        is_space(s[pos]),
    ensures
        spec_scan(s, pos, params, levels, counter) == spec_scan(s, pos + 1, params, levels, counter),
{
    reveal(spec_scan);
}

/// One scan step over an argument letter.
proof fn lemma_scan_letter(
    s: Seq<u8>,
    pos: int,
    params: int,
    levels: Seq<Seq<CommandModel>>,
    counter: int,
)
    requires
        0 <= pos < s.len(),
        97 <= s[pos] <= 102,
    ensures
        spec_scan(s, pos, params, levels, counter) == spec_scan(
            s,
            pos + 1,
            max_i(params, s[pos] - 96),
            push_top(levels, plain_cmd_model(0, 1, 0, spec_push_arg(s[pos] - 97))),
            counter,
        ),
{
    reveal(spec_scan);
}

/// One scan step over an arithmetic operator.
proof fn lemma_scan_operator(
    s: Seq<u8>,
    pos: int,
    params: int,
    levels: Seq<Seq<CommandModel>>,
    counter: int,
)
    requires
        0 <= pos < s.len(),
        s[pos] == 43 || s[pos] == 45 || s[pos] == 42 || s[pos] == 47 || s[pos] == 37 || s[pos]
            == 92 || s[pos] == 64,
    ensures
        spec_scan(s, pos, params, levels, counter) == spec_scan(
            s,
            pos + 1,
            params,
            push_top(levels, plain_cmd_model(2, 1, 2, operator_code_bytes(s[pos]))),
            counter,
        ),
{
    reveal(spec_scan);
}

/// One scan step over a decimal literal.
proof fn lemma_scan_digit(
    s: Seq<u8>,
    pos: int,
    params: int,
    levels: Seq<Seq<CommandModel>>,
    counter: int,
)
    requires
        0 <= pos < s.len(),
        is_digit(s[pos]),
    ensures
        spec_scan(s, pos, params, levels, counter) == if digits_value(s, pos, 0) > isize::MAX {
            Err::<(int, Seq<CommandModel>), FunctionCreateError>(
                FunctionCreateError::IntegerLiteralTooLarge,
            )
        } else {
            spec_scan(
                s,
                digits_end(s, pos),
                params,
                push_top(
                    levels,
                    plain_cmd_model(
                        0,
                        1,
                        0,
                        splice(
                            spec_push_value(),
                            2,
                            le8(to_2c(digits_value(s, pos, 0), 0x1_0000_0000_0000_0000) as u64),
                        ),
                    ),
                ),
                counter,
            )
        },
{
    reveal(spec_scan);
}

/// One scan step over a stack-index command.
proof fn lemma_scan_index(
    s: Seq<u8>,
    pos: int,
    params: int,
    levels: Seq<Seq<CommandModel>>,
    counter: int,
)
    requires
        0 <= pos < s.len(),
        s[pos] == 108 || s[pos] == 112 || s[pos] == 115,
    ensures
        spec_scan(s, pos, params, levels, counter) == match spec_iint(s, pos + 1) {
            Err(e) => Err::<(int, Seq<CommandModel>), FunctionCreateError>(e),
            Ok((v, end)) => {
                if v < -0x1000_0000 || v > 0x0fff_ffff {
                    Err::<(int, Seq<CommandModel>), FunctionCreateError>(
                        FunctionCreateError::StackIndexOutOfRange,
                    )
                } else if s[pos] == 115 {
                    spec_scan(
                        s,
                        end,
                        params,
                        push_top(
                            levels,
                            plain_cmd_model(
                                1,
                                0,
                                spec_stack_index_depth(v, true),
                                spec_stack_index_code(v, true),
                            ),
                        ),
                        counter,
                    )
                } else {
                    spec_scan(
                        s,
                        end,
                        params,
                        push_top(
                            levels,
                            plain_cmd_model(
                                0,
                                1,
                                spec_stack_index_depth(v, false),
                                spec_stack_index_code(v, false),
                            ),
                        ),
                        counter,
                    )
                }
            },
        },
{
    reveal(spec_scan);
}

/// One scan step over `{`.
proof fn lemma_scan_open(
    s: Seq<u8>,
    pos: int,
    params: int,
    levels: Seq<Seq<CommandModel>>,
    counter: int,
)
    requires
        0 <= pos < s.len(),
        s[pos] == 123,
    ensures
        spec_scan(s, pos, params, levels, counter) == spec_scan(
            s,
            pos + 1,
            params,
            levels.push(Seq::empty()),
            counter,
        ),
{
    reveal(spec_scan);
}

/// One scan step over `}`.
proof fn lemma_scan_close(
    s: Seq<u8>,
    pos: int,
    params: int,
    levels: Seq<Seq<CommandModel>>,
    counter: int,
)
    requires
        0 <= pos < s.len(),
        s[pos] == 125,
    ensures
        spec_scan(s, pos, params, levels, counter) == if levels.len() <= 1 {
            Err::<(int, Seq<CommandModel>), FunctionCreateError>(
                FunctionCreateError::UnrecognizedCommand,
            )
        } else if net_stack_difference(levels.last()) != 0 {
            Err::<(int, Seq<CommandModel>), FunctionCreateError>(
                FunctionCreateError::LoopChangedStackDepth,
            )
        } else {
            spec_scan(
                s,
                pos + 1,
                params,
                push_top(levels.drop_last(), while_command_model(levels.last(), counter)),
                counter + 2,
            )
        },
{
    reveal(spec_scan);
}

/// One scan step over a byte that is no command.
proof fn lemma_scan_other(
    s: Seq<u8>,
    pos: int,
    params: int,
    levels: Seq<Seq<CommandModel>>,
    counter: int,
)
    requires
        0 <= pos < s.len(),
        !is_space(s[pos]),
        !(97 <= s[pos] <= 102),
        !(s[pos] == 43 || s[pos] == 45 || s[pos] == 42 || s[pos] == 47 || s[pos] == 37 || s[pos]
            == 92 || s[pos] == 64),
        !is_digit(s[pos]),
        !(s[pos] == 108 || s[pos] == 112 || s[pos] == 115),
        s[pos] != 123,
        s[pos] != 125,
    ensures
        spec_scan(s, pos, params, levels, counter) == Err::<
            (int, Seq<CommandModel>),
            FunctionCreateError,
        >(FunctionCreateError::UnrecognizedCommand),
{
    reveal(spec_scan);
}

/// How long an input string the parser takes.
pub open spec fn input_limit() -> int {
    0x10_0000_0000
}

/// Reads the run of digits at `start`: its value and the position after
/// it, `NotAnInteger` when no digit stands at `start`, and
/// `IntegerLiteralTooLarge` when the value does not fit the machine
/// word.
#[verifier::loop_isolation(false)]
fn parse_uint(bytes: &[u8], start: usize) -> (r: Result<(usize, usize), FunctionCreateError>)
    requires
        start <= bytes@.len(),
    ensures
        match r {
            Ok((v, end)) => start < bytes@.len() && is_digit(bytes@[start as int]) && v
                == digits_value(bytes@, start as int, 0) && end == digits_end(
                bytes@,
                start as int,
            ) && start < end <= bytes@.len(),
            Err(e) => {
                if start >= bytes@.len() || !is_digit(bytes@[start as int]) {
                    e == FunctionCreateError::NotAnInteger
                } else {
                    e == FunctionCreateError::IntegerLiteralTooLarge && digits_value(
                        bytes@,
                        start as int,
                        0,
                    ) > usize::MAX
                }
            },
        },
{
    let n = bytes.len();
    if start >= n {
        return Err(FunctionCreateError::NotAnInteger);
    }
    let b0 = bytes[start];
    if !(48 <= b0 && b0 <= 57) {
        return Err(FunctionCreateError::NotAnInteger);
    }
    proof {
        lemma_digits_end(bytes@, start as int);
    }
    let mut value: usize = 0;
    let mut pos = start;
    while pos < n && 48 <= bytes[pos] && bytes[pos] <= 57
        invariant
            start <= pos <= n,
            digits_value(bytes@, pos as int, value as int) == digits_value(
                bytes@,
                start as int,
                0,
            ),
            digits_end(bytes@, pos as int) == digits_end(bytes@, start as int),
        decreases n - pos,
    {
        let d = (bytes[pos] - 48) as usize;
        proof {
            lemma_digits_value_lb(bytes@, pos + 1, value * 10 + d);
        }
        match value.checked_mul(10) {
            Some(v10) => match v10.checked_add(d) {
                Some(v) => {
                    value = v;
                    pos = pos + 1;
                },
                None => {
                    return Err(FunctionCreateError::IntegerLiteralTooLarge);
                },
            },
            None => {
                proof {
                    vstd::arithmetic::mul::lemma_mul_inequality(
                        (usize::MAX + 1) / 10 + 1,
                        value as int,
                        10,
                    );
                }
                return Err(FunctionCreateError::IntegerLiteralTooLarge);
            },
        }
    }
    Ok((value, pos))
}

/// Reads a signed decimal integer at `start`: exactly [`spec_iint`].
pub(crate) fn parse_iint(bytes: &[u8], start: usize) -> (r: Result<(isize, usize), FunctionCreateError>)
    requires
        start <= bytes@.len(),
        usize::MAX == 0xffff_ffff_ffff_ffff,
    ensures
        match r {
            Ok((v, end)) => spec_iint(bytes@, start as int) == Ok::<(int, int), FunctionCreateError>(
                (v as int, end as int),
            ) && start <= end <= bytes@.len(),
            Err(e) => spec_iint(bytes@, start as int) == Err::<(int, int), FunctionCreateError>(e),
        },
{
    let n = bytes.len();
    let negative = start < n && bytes[start] == 45;
    let dstart = if negative {
        start + 1
    } else {
        start
    };
    match parse_uint(bytes, dstart) {
        Err(e) => Err(e),
        Ok((magnitude, end)) => {
            if !negative {
                if magnitude > (isize::MAX as usize) {
                    Err(FunctionCreateError::IntegerLiteralOutOfRange)
                } else {
                    Ok((magnitude as isize, end))
                }
            } else {
                if magnitude <= (isize::MAX as usize) {
                    Ok((-(magnitude as isize), end))
                } else if magnitude == (isize::MAX as usize) + 1 {
                    Ok((isize::MIN, end))
                } else {
                    Err(FunctionCreateError::IntegerLiteralOutOfRange)
                }
            }
        },
    }
}

/// One nesting level of the mini-language parser: reads commands from
/// `start` until the end of the input or an unconsumed `}`. `params_in`
/// is the highest argument position seen so far; `levels` (ghost) the
/// commands already read at each nesting level still open around this
/// one.
#[verifier::loop_isolation(false)]
#[verifier::rlimit(100)]
fn parse_helper(
    bytes: &[u8],
    start: usize,
    params_in: usize,
    counter: &mut SymbolCounter,
    Ghost(levels): Ghost<Seq<Seq<CommandModel>>>,
) -> (r: Result<(usize, Vec<Command>, usize), FunctionCreateError>)
    requires
        usize::MAX == 0xffff_ffff_ffff_ffff,
        start <= bytes@.len(),
        bytes@.len() <= input_limit(),
        params_in <= 6,
        levels.len() >= 1,
        old(counter).spec_next() + 2 * (bytes@.len() - start) <= u64::MAX,
    ensures
        final(counter).spec_next() >= old(counter).spec_next(),
        final(counter).spec_next() <= old(counter).spec_next() + 2 * (bytes@.len() - start),
        match r {
            Ok((p, cmds, end)) => {
                &&& start <= end <= bytes@.len()
                &&& (end == bytes@.len() || bytes@[end as int] == 125)
                &&& params_in <= p <= 6
                &&& forall|k: int| 0 <= k < cmds@.len() ==> (#[trigger] cmds@[k]).wf()
                &&& total_code_len(cmd_models(cmds@)) <= 64 * (end - start)
                &&& final(counter).spec_next() <= old(counter).spec_next() + 2 * (end - start)
                &&& spec_scan(
                    bytes@,
                    start as int,
                    params_in as int,
                    levels,
                    old(counter).spec_next() as int,
                ) == spec_scan(
                    bytes@,
                    end as int,
                    p as int,
                    ext_top(levels, cmd_models(cmds@)),
                    final(counter).spec_next() as int,
                )
            },
            Err(e) => {
                &&& spec_scan(
                    bytes@,
                    start as int,
                    params_in as int,
                    levels,
                    old(counter).spec_next() as int,
                ) == Err::<(int, Seq<CommandModel>), FunctionCreateError>(e)
                &&& !(e is StackUnderflow)
                &&& !(e is InsufficientDepth)
                &&& !(e is EmptyResult)
                &&& !(e is Assemble)
            },
        },
    decreases bytes@.len() - start,
{
    let n = bytes.len();
    let mut params = params_in;
    let mut cmds: Vec<Command> = Vec::new();
    let mut pos = start;
    let ghost c0 = old(counter).spec_next();
    proof {
        assert(cmd_models(cmds@) =~= Seq::<CommandModel>::empty());
        lemma_ext_top_empty(levels);
    }
    while pos < n
        invariant
            start <= pos <= n,
            params_in <= params <= 6,
            forall|k: int| 0 <= k < cmds@.len() ==> (#[trigger] cmds@[k]).wf(),
            total_code_len(cmd_models(cmds@)) <= 64 * (pos - start),
            counter.spec_next() >= c0,
            counter.spec_next() <= c0 + 2 * (pos - start),
            spec_scan(bytes@, start as int, params_in as int, levels, c0 as int) == spec_scan(
                bytes@,
                pos as int,
                params as int,
                ext_top(levels, cmd_models(cmds@)),
                counter.spec_next() as int,
            ),
        decreases n - pos,
    {
        let ghost cur_levels = ext_top(levels, cmd_models(cmds@));
        let ghost models0 = cmd_models(cmds@);
        let b = bytes[pos];
        if b == 32 || b == 9 || b == 10 || b == 13 || b == 11 || b == 12 {
            proof {
                lemma_scan_space(
                    bytes@,
                    pos as int,
                    params as int,
                    cur_levels,
                    counter.spec_next() as int,
                );
            }
            pos = pos + 1;
        } else if 97 <= b && b <= 102 {
            // 'a' to 'f'
            let ghost old_params = params;
            let arg_index = (b - 97) as usize;
            let command = match b {
                97 => push_a(),
                98 => push_b(),
                99 => push_c(),
                100 => push_d(),
                101 => push_e(),
                _ => push_f(),
            };
            if params < arg_index + 1 {
                params = arg_index + 1;
            }
            proof {
                lemma_scan_letter(
                    bytes@,
                    pos as int,
                    old_params as int,
                    cur_levels,
                    counter.spec_next() as int,
                );
                lemma_cmd_models_push(cmds@, command);
                lemma_ext_top_push(levels, models0, command@);
                crate::commands::lemma_total_len_push(models0, command@);
            }
            cmds.push(command);
            pos = pos + 1;
        } else if b == 43 || b == 45 || b == 42 || b == 47 || b == 37 || b == 92 || b == 64 {
            let command = if b == 43 {
                crate::commands::add()
            } else if b == 45 {
                subtract()
            } else if b == 42 {
                multiply()
            } else if b == 47 {
                divide()
            } else if b == 37 {
                modulo()
            } else if b == 92 {
                udivide()
            } else {
                umodulo()
            };
            proof {
                lemma_scan_operator(
                    bytes@,
                    pos as int,
                    params as int,
                    cur_levels,
                    counter.spec_next() as int,
                );
                lemma_cmd_models_push(cmds@, command);
                lemma_ext_top_push(levels, models0, command@);
                crate::commands::lemma_total_len_push(models0, command@);
            }
            cmds.push(command);
            pos = pos + 1;
        } else if 48 <= b && b <= 57 {
            proof {
                lemma_scan_digit(
                    bytes@,
                    pos as int,
                    params as int,
                    cur_levels,
                    counter.spec_next() as int,
                );
            }
            match parse_uint(bytes, pos) {
                Err(e) => {
                    proof {
                        lemma_digits_value_lb(bytes@, pos as int, 0);
                    }
                    return Err(e);
                },
                Ok((value, end)) => {
                    if value > (isize::MAX as usize) {
                        return Err(FunctionCreateError::IntegerLiteralTooLarge);
                    }
                    let command = push_value(value as isize);
                    proof {
                        lemma_cmd_models_push(cmds@, command);
                        lemma_ext_top_push(levels, models0, command@);
                        crate::commands::lemma_total_len_push(models0, command@);
                    }
                    cmds.push(command);
                    pos = end;
                },
            }
        } else if b == 108 || b == 112 || b == 115 {
            // 'l', 'p' or 's'
            proof {
                lemma_scan_index(
                    bytes@,
                    pos as int,
                    params as int,
                    cur_levels,
                    counter.spec_next() as int,
                );
            }
            match parse_iint(bytes, pos + 1) {
                Err(e) => {
                    return Err(e);
                },
                Ok((index, end)) => {
                    // the slot's byte displacement (eight times the index)
                    // must fit the templates' 32-bit field
                    if index < (-0x1000_0000i64 as isize) || index > (0x0fff_ffffi64 as isize) {
                        return Err(FunctionCreateError::StackIndexOutOfRange);
                    }
                    let command = if b == 115 {
                        pop_stack_index(index as i32)
                    } else {
                        push_stack_index(index as i32)
                    };
                    proof {
                        lemma_cmd_models_push(cmds@, command);
                        lemma_ext_top_push(levels, models0, command@);
                        crate::commands::lemma_total_len_push(models0, command@);
                    }
                    cmds.push(command);
                    pos = end;
                },
            }
        } else if b == 123 {
            // '{'
            proof {
                lemma_scan_open(
                    bytes@,
                    pos as int,
                    params as int,
                    cur_levels,
                    counter.spec_next() as int,
                );
            }
            let ghost inner_levels = cur_levels.push(Seq::<CommandModel>::empty());
            match parse_helper(bytes, pos + 1, params, counter, Ghost(inner_levels)) {
                Err(e) => {
                    return Err(e);
                },
                Ok((body_params, body_cmds, body_end)) => {
                    let ghost body_models = cmd_models(body_cmds@);
                    proof {
                        lemma_ext_top_of_push(cur_levels, body_models);
                    }
                    if body_end == n {
                        proof {
                            lemma_scan_eof(
                                bytes@,
                                body_end as int,
                                body_params as int,
                                cur_levels.push(body_models),
                                counter.spec_next() as int,
                            );
                        }
                        return Err(FunctionCreateError::UnterminatedLoop);
                    }
                    proof {
                        lemma_scan_close(
                            bytes@,
                            body_end as int,
                            body_params as int,
                            cur_levels.push(body_models),
                            counter.spec_next() as int,
                        );
                        assert(cur_levels.push(body_models).last() == body_models);
                        assert(cur_levels.push(body_models).drop_last() =~= cur_levels);
                    }
                    match while_loop(&body_cmds, counter) {
                        Err(e) => {
                            return Err(FunctionCreateError::LoopChangedStackDepth);
                        },
                        Ok(command) => {
                            proof {
                                lemma_cmd_models_push(cmds@, command);
                                lemma_ext_top_push(levels, models0, command@);
                                crate::commands::lemma_total_len_push(models0, command@);
                            }
                            cmds.push(command);
                            params = body_params;
                            pos = body_end + 1;
                        },
                    }
                },
            }
        } else if b == 125 {
            // '}': this level is done; the caller owns the brace.
            return Ok((params, cmds, pos));
        } else {
            proof {
                lemma_scan_other(
                    bytes@,
                    pos as int,
                    params as int,
                    cur_levels,
                    counter.spec_next() as int,
                );
            }
            return Err(FunctionCreateError::UnrecognizedCommand);
        }
    }
    Ok((params, cmds, pos))
}

impl Function {
    /// Parses a program of the textual mini-language and composes it
    /// into a function image. The scan pins the whole outcome: a
    /// malformed program returns the scan's error; a well-formed one
    /// denotes a command sequence, and the result is exactly what
    /// composing that sequence through the stack accounting and the
    /// assembly of [`Function::new`] gives.
    #[verifier::loop_isolation(false)]
    pub fn parse(s: &str, counter: &mut SymbolCounter) -> (r: Result<
        Function,
        FunctionCreateError,
    >)
        requires
            usize::MAX == 0xffff_ffff_ffff_ffff,
            s.spec_bytes().len() <= input_limit(),
            old(counter).spec_next() + 2 * s.spec_bytes().len() <= u64::MAX,
        ensures
            ({
                let scan = spec_scan(
                    s.spec_bytes(),
                    0,
                    0,
                    seq![Seq::<CommandModel>::empty()],
                    old(counter).spec_next() as int,
                );
                match scan {
                    Err(e0) => r matches Err(e) && e == e0,
                    Ok((p, cmds)) => match spec_stack_check(cmds, 0, 0) {
                        Err(e1) => r matches Err(e) && e == e1,
                        Ok(size) => if size == 0 {
                            r matches Err(e) && e == FunctionCreateError::EmptyResult
                        } else {
                            match spec_assemble(function_image(cmds)) {
                                Ok(image) => r matches Ok(f) && f.code@ == image,
                                Err(k) => r matches Err(e) && (e matches
                                    FunctionCreateError::Assemble(ae) && ae@ == k),
                            }
                        },
                    },
                }
            }),
    {
        let bytes = s.as_bytes();
        let ghost top_levels: Seq<Seq<CommandModel>> = seq![Seq::<CommandModel>::empty()];
        match parse_helper(bytes, 0, 0, counter, Ghost(top_levels)) {
            Err(e) => Err(e),
            Ok((params, commands, end)) => {
                let ghost lv = ext_top(top_levels, cmd_models(commands@));
                proof {
                    assert(lv.len() == 1);
                }
                if end < bytes.len() {
                    // Only an unmatched '}' stops the scan early.
                    proof {
                        lemma_scan_close(
                            bytes@,
                            end as int,
                            params as int,
                            lv,
                            counter.spec_next() as int,
                        );
                    }
                    return Err(FunctionCreateError::UnrecognizedCommand);
                }
                proof {
                    lemma_scan_eof(
                        bytes@,
                        end as int,
                        params as int,
                        lv,
                        counter.spec_next() as int,
                    );
                    assert(lv.last() =~= cmd_models(commands@));
                    assert(spec_scan(
                        bytes@,
                        end as int,
                        params as int,
                        lv,
                        counter.spec_next() as int,
                    ) == Ok::<(int, Seq<CommandModel>), FunctionCreateError>(
                        (params as int, cmd_models(commands@)),
                    ));
                }
                Function::new(commands)
            },
        }
    }
}

/// The result of calling a compiled function, typed.
pub type FunctionResult = Result<isize, FunctionError>;

/// Turns the raw two-word result of a compiled function into a typed
/// result: the value on a zero error word, the typed error otherwise.
pub fn function_result_from_raw(raw: FunctionResultRaw) -> (r: FunctionResult)
    ensures
        match spec_error_from_raw(raw.error) {
            None => r == Ok::<isize, FunctionError>(raw.value),
            Some(e) => r == Err::<isize, FunctionError>(e),
        },
{
    match function_error_from_raw(raw.error) {
        None => Ok(raw.value),
        Some(err) => Err(err),
    }
}

} // verus!

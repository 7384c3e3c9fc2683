//! The assembly text parsers.
//!
//! The grammar is the assembly line format `<mnemonic> <register>
//! <immediate>`: a register token is `r` followed by decimal digits, an
//! immediate is `i32` followed by decimal digits, and whitespace may
//! separate tokens. Each parser returns how many bytes of the input it
//! consumed together with what it recognized, or `None` when the input does
//! not start with its token; a digit run whose value overflows the token's
//! range is rejected rather than accepted wrongly. The specification
//! functions `spec_register_at`, `spec_i32_arg_at`, `spec_instruction_at`
//! and `spec_script_at` are the grammar; each parser is proved to return
//! exactly what they denote.

use vstd::prelude::*;

use crate::assembler::AsmInstruction;
use crate::assembler::Script;
use crate::assembler::Token;
use crate::instruction::Opcode;
use vstd::slice::slice_index_get;
use vstd::string::StringSliceAdditionalSpecFns;

verus! {

/// Whitespace between tokens: space, tab, carriage return or newline.
pub open spec fn is_space(b: u8) -> bool {
    b == 0x20 || b == 0x09 || b == 0x0A || b == 0x0D
}

/// A decimal digit byte.
pub open spec fn is_digit(b: u8) -> bool {
    0x30 <= b <= 0x39
}

/// The first position at or after `i` that does not hold whitespace.
pub open spec fn skip_ws(s: Seq<u8>, i: int) -> int
    recommends
        0 <= i <= s.len(),
    decreases s.len() - i,
{
    if i < s.len() && is_space(s[i]) {
        skip_ws(s, i + 1)
    } else {
        i
    }
}

/// Skipping whitespace stays inside the input and never goes backwards.
pub proof fn lemma_skip_ws_bounds(s: Seq<u8>, i: int)
    requires
        0 <= i <= s.len(),
    ensures
        i <= skip_ws(s, i) <= s.len(),
    decreases s.len() - i,
{
    if i < s.len() && is_space(s[i]) {
        lemma_skip_ws_bounds(s, i + 1);
    }
}

/// The end of the digit run starting at `i`.
pub open spec fn digit_end(s: Seq<u8>, i: int) -> int
    recommends
        0 <= i <= s.len(),
    decreases s.len() - i,
{
    if i < s.len() && is_digit(s[i]) {
        digit_end(s, i + 1)
    } else {
        i
    }
}

/// A digit run stays inside the input and never goes backwards.
pub proof fn lemma_digit_end_bounds(s: Seq<u8>, i: int)
    requires
        0 <= i <= s.len(),
    ensures
        i <= digit_end(s, i) <= s.len(),
    decreases s.len() - i,
{
    if i < s.len() && is_digit(s[i]) {
        lemma_digit_end_bounds(s, i + 1);
    }
}

/// The decimal value of the digits `s[i .. j)`.
pub open spec fn digits_val(s: Seq<u8>, i: int, j: int) -> nat
    recommends
        0 <= i <= j <= s.len(),
    decreases j - i,
{
    if j <= i {
        0
    } else {
        (digits_val(s, i, j - 1) * 10 + (s[j - 1] - 0x30)) as nat
    }
}

/// A register token at `p`: optional whitespace, `r`, one or more digits
/// whose value fits a register number, optional trailing whitespace.
/// Yields the position after the token and the register number.
pub open spec fn spec_register_at(s: Seq<u8>, p: int) -> Option<(int, u8)> {
    let i = skip_ws(s, p);
    if i < s.len() && s[i] == 0x72 {
        let j = digit_end(s, i + 1);
        if j > i + 1 && digits_val(s, i + 1, j) <= 0xFF {
            Some((skip_ws(s, j), digits_val(s, i + 1, j) as u8))
        } else {
            None
        }
    } else {
        None
    }
}

/// An immediate token at `p`: optional whitespace, the tag `i32`, one or
/// more digits whose value fits a 32-bit immediate, optional trailing
/// whitespace. Yields the position after the token and the value.
pub open spec fn spec_i32_arg_at(s: Seq<u8>, p: int) -> Option<(int, u32)> {
    let i = skip_ws(s, p);
    if i + 3 <= s.len() && s[i] == 0x69 && s[i + 1] == 0x33 && s[i + 2] == 0x32 {
        let d = skip_ws(s, i + 3);
        let j = digit_end(s, d);
        if j > d && digits_val(s, d, j) <= 0x7FFF_FFFF {
            Some((skip_ws(s, j), digits_val(s, d, j) as u32))
        } else {
            None
        }
    } else {
        None
    }
}

/// The load mnemonic at `p`: optional whitespace then `ld`. Yields the
/// position after the mnemonic.
pub open spec fn spec_opcode_load_at(s: Seq<u8>, p: int) -> Option<int> {
    let i = skip_ws(s, p);
    if i + 2 <= s.len() && s[i] == 0x6C && s[i + 1] == 0x64 {
        Some(i + 2)
    } else {
        None
    }
}

/// One instruction at `p`: the load mnemonic, a register and an immediate.
/// Yields the position after the instruction, the register number and the
/// immediate value.
pub open spec fn spec_instruction_at(s: Seq<u8>, p: int) -> Option<(int, u8, u32)> {
    match spec_opcode_load_at(s, p) {
        None => None,
        Some(p1) => match spec_register_at(s, p1) {
            None => None,
            Some((p2, reg)) => match spec_i32_arg_at(s, p2) {
                None => None,
                Some((p3, val)) => Some((p3, reg, val)),
            },
        },
    }
}

/// The instruction a parse yields: the load mnemonic with its register and
/// immediate operands.
pub open spec fn spec_inst_record(reg: u8, val: u32) -> AsmInstruction {
    AsmInstruction {
        opcode: Token::Op { code: Opcode::LOD },
        operand1: Some(Token::Reg { reg_num: reg }),
        operand2: Some(Token::Number { value: val as i32 }),
        operand3: None,
    }
}

/// Every successful token parse moves forward and stays inside the input.
pub proof fn lemma_instruction_at_bounds(s: Seq<u8>, p: int)
    requires
        0 <= p <= s.len(),
    ensures
        (match spec_instruction_at(s, p) {
            Some((p3, reg, val)) => p < p3 <= s.len(),
            None => true,
        }),
{
    lemma_skip_ws_bounds(s, p);
    let i = skip_ws(s, p);
    if i + 2 <= s.len() && s[i] == 0x6C && s[i + 1] == 0x64 {
        let p1 = i + 2;
        lemma_skip_ws_bounds(s, p1);
        let i2 = skip_ws(s, p1);
        if i2 < s.len() && s[i2] == 0x72 {
            lemma_digit_end_bounds(s, i2 + 1);
            let j = digit_end(s, i2 + 1);
            lemma_skip_ws_bounds(s, j);
            let p2 = skip_ws(s, j);
            lemma_skip_ws_bounds(s, p2);
            let i3 = skip_ws(s, p2);
            if i3 + 3 <= s.len() && s[i3] == 0x69 && s[i3 + 1] == 0x33 && s[i3 + 2] == 0x32 {
                lemma_skip_ws_bounds(s, i3 + 3);
                let d = skip_ws(s, i3 + 3);
                lemma_digit_end_bounds(s, d);
                let j2 = digit_end(s, d);
                lemma_skip_ws_bounds(s, j2);
            }
        }
    }
}

/// A program at `p`: as many instructions as can be parsed, at least one.
/// Yields the position after the last instruction and the instructions.
pub open spec fn spec_script_at(s: Seq<u8>, p: int) -> Option<(int, Seq<AsmInstruction>)>
    recommends
        0 <= p <= s.len(),
    decreases s.len() - p,
{
    match spec_instruction_at(s, p) {
        None => None,
        Some((p1, reg, val)) => {
            proof {
                if 0 <= p <= s.len() {
                    lemma_instruction_at_bounds(s, p);
                }
            }
            if p < p1 <= s.len() {
                match spec_script_at(s, p1) {
                    None => Some((p1, seq![spec_inst_record(reg, val)])),
                    Some((p2, rest)) => Some((p2, seq![spec_inst_record(reg, val)] + rest)),
                }
            } else {
                Some((p1, seq![spec_inst_record(reg, val)]))
            }
        },
    }
}

/// Whether the byte at `j` is whitespace.
fn ws_byte(b: &[u8], j: usize) -> (r: bool)
    requires
        j < b@.len(),
    ensures
        r == is_space(b@[j as int]),
{
    let c = *slice_index_get(b, j);
    c == 0x20 || c == 0x09 || c == 0x0A || c == 0x0D
}

/// Whether the byte at `j` is a decimal digit.
fn digit_byte(b: &[u8], j: usize) -> (r: bool)
    requires
        j < b@.len(),
    ensures
        r == is_digit(b@[j as int]),
{
    let c = *slice_index_get(b, j);
    0x30 <= c && c <= 0x39
}

/// Advances past whitespace.
fn skip_ws_exec(b: &[u8], i: usize) -> (r: usize)
    requires
        i <= b@.len(),
    ensures
        r == skip_ws(b@, i as int),
        i <= r <= b@.len(),
{
    let n = b.len();
    let mut j = i;
    while j < n && ws_byte(b, j)
        invariant
            i <= j <= n,
            n == b@.len(),
            skip_ws(b@, i as int) == skip_ws(b@, j as int),
        decreases n - j,
    {
        j = j + 1;
    }
    j
}

/// Parses a run of one or more digits starting at `i`, rejecting an empty
/// run and a value above `max`.
fn digits_exec(b: &[u8], i: usize, max: u32) -> (r: Option<(usize, u32)>)
    requires
        i <= b@.len(),
    ensures
        ({
            let j = digit_end(b@, i as int);
            match r {
                Some((k, v)) => k == j && j > i && digits_val(b@, i as int, j) <= max && v
                    == digits_val(b@, i as int, j),
                None => j == i || digits_val(b@, i as int, j) > max,
            }
        }),
{
    let n = b.len();
    let mut j = i;
    let mut acc: u64 = 0;
    let mut over = false;
    while j < n && digit_byte(b, j)
        invariant
            i <= j <= n,
            n == b@.len(),
            max <= u32::MAX,
            digit_end(b@, i as int) == digit_end(b@, j as int),
            !over ==> acc == digits_val(b@, i as int, j as int) && acc <= max,
            over ==> digits_val(b@, i as int, j as int) > max,
        decreases n - j,
    {
        let c = *slice_index_get(b, j);
        let d = (c - 0x30) as u64;
        if !over {
            if acc * 10 + d <= max as u64 {
                acc = acc * 10 + d;
            } else {
                over = true;
            }
        }
        j = j + 1;
    }
    if j == i || over {
        proof {
            if over {
                let e = digit_end(b@, i as int);
                lemma_digit_end_bounds(b@, j as int);
                lemma_digit_run_digits(b@, j as int);
                lemma_digits_val_grows(b@, i as int, j as int, e);
            }
        }
        None
    } else {
        Some((j, acc as u32))
    }
}

/// A digit run's value never shrinks as the run extends over digits.
proof fn lemma_digits_val_grows(s: Seq<u8>, i: int, m: int, k: int)
    requires
        i <= m <= k,
        forall|x: int| m <= x < k ==> is_digit(#[trigger] s[x]),
    ensures
        digits_val(s, i, m) <= digits_val(s, i, k),
    decreases k - m,
{
    if m < k {
        lemma_digits_val_grows(s, i, m, k - 1);
    }
}

/// Every byte of a digit run is a digit.
proof fn lemma_digit_run_digits(s: Seq<u8>, i: int)
    requires
        0 <= i <= s.len(),
    ensures
        forall|x: int| i <= x < digit_end(s, i) ==> is_digit(#[trigger] s[x]),
    decreases s.len() - i,
{
    if i < s.len() && is_digit(s[i]) {
        lemma_digit_run_digits(s, i + 1);
    }
}

/// Parses a register token at `p`.
fn register_at(b: &[u8], p: usize) -> (r: Option<(usize, u8)>)
    requires
        p <= b@.len(),
    ensures
        (match spec_register_at(b@, p as int) {
            Some((p2, reg)) => r == Some((p2 as usize, reg)),
            None => r is None,
        }),
{
    let n = b.len();
    let i = skip_ws_exec(b, p);
    if i >= n || *slice_index_get(b, i) != 0x72 {
        return None;
    }
    match digits_exec(b, i + 1, 0xFF) {
        None => None,
        Some((j, v)) => {
            proof {
                lemma_digit_end_bounds(b@, i as int + 1);
            }
            let e = skip_ws_exec(b, j);
            Some((e, v as u8))
        },
    }
}

/// Parses an immediate token at `p`.
fn i32_arg_at(b: &[u8], p: usize) -> (r: Option<(usize, u32)>)
    requires
        p <= b@.len(),
    ensures
        (match spec_i32_arg_at(b@, p as int) {
            Some((p2, val)) => r == Some((p2 as usize, val)),
            None => r is None,
        }),
{
    let n = b.len();
    let i = skip_ws_exec(b, p);
    if i >= n || n - i < 3 {
        return None;
    }
    if *slice_index_get(b, i) != 0x69 || *slice_index_get(b, i + 1) != 0x33 || *slice_index_get(
        b,
        i + 2,
    ) != 0x32 {
        return None;
    }
    let d = skip_ws_exec(b, i + 3);
    match digits_exec(b, d, 0x7FFF_FFFF) {
        None => None,
        Some((j, v)) => {
            proof {
                lemma_digit_end_bounds(b@, d as int);
            }
            let e = skip_ws_exec(b, j);
            Some((e, v))
        },
    }
}

/// Parses the load mnemonic at `p`.
fn opcode_load_at(b: &[u8], p: usize) -> (r: Option<usize>)
    requires
        p <= b@.len(),
    ensures
        (match spec_opcode_load_at(b@, p as int) {
            Some(p1) => r == Some(p1 as usize),
            None => r is None,
        }),
{
    let n = b.len();
    let i = skip_ws_exec(b, p);
    if i >= n || n - i < 2 {
        return None;
    }
    if *slice_index_get(b, i) != 0x6C || *slice_index_get(b, i + 1) != 0x64 {
        return None;
    }
    Some(i + 2)
}

/// Parses one instruction at `p`.
fn instruction_at(b: &[u8], p: usize) -> (r: Option<(usize, AsmInstruction)>)
    requires
        p <= b@.len(),
    ensures
        (match spec_instruction_at(b@, p as int) {
            Some((p3, reg, val)) => r == Some((p3 as usize, spec_inst_record(reg, val))) && p
                < p3 <= b@.len(),
            None => r is None,
        }),
{
    let n = b.len();
    proof {
        lemma_instruction_at_bounds(b@, p as int);
    }
    let p1 = match opcode_load_at(b, p) {
        None => {
            return None;
        },
        Some(p1) => p1,
    };
    proof {
        lemma_skip_ws_bounds(b@, p as int);
    }
    let (p2, reg) = match register_at(b, p1) {
        None => {
            return None;
        },
        Some(x) => x,
    };
    proof {
        lemma_skip_ws_bounds(b@, p1 as int);
        lemma_digit_end_bounds(b@, skip_ws(b@, p1 as int) + 1);
        lemma_skip_ws_bounds(b@, digit_end(b@, skip_ws(b@, p1 as int) + 1));
    }
    let (p3, val) = match i32_arg_at(b, p2) {
        None => {
            return None;
        },
        Some(x) => x,
    };
    Some(
        (
            p3,
            AsmInstruction {
                opcode: Token::Op { code: Opcode::LOD },
                operand1: Some(Token::Reg { reg_num: reg }),
                operand2: Some(Token::Number { value: #[verifier::truncate] (val as i32) }),
                operand3: None,
            },
        ),
    )
}

/// Parses a register token, as assembly text writes it: `r` then its
/// number. Returns how many bytes were consumed and the token.
pub fn register(input: &str) -> (r: Option<(usize, Token)>)
    ensures
        (match spec_register_at(input.spec_bytes(), 0) {
            Some((p2, reg)) => r == Some((p2 as usize, Token::Reg { reg_num: reg })),
            None => r is None,
        }),
{
    let b = input.as_bytes();
    match register_at(b, 0) {
        None => None,
        Some((p2, reg)) => Some((p2, Token::Reg { reg_num: reg })),
    }
}

/// Parses an integer immediate token, written `i32` then its decimal
/// digits. Returns how many bytes were consumed and the token.
pub fn i32_arg(input: &str) -> (r: Option<(usize, Token)>)
    ensures
        (match spec_i32_arg_at(input.spec_bytes(), 0) {
            Some((p2, val)) => r == Some(
                (p2 as usize, Token::Number { value: val as i32 }),
            ),
            None => r is None,
        }),
{
    let b = input.as_bytes();
    match i32_arg_at(b, 0) {
        None => None,
        Some((p2, val)) => Some((p2, Token::Number { value: #[verifier::truncate] (val as i32) })),
    }
}

/// Parses one instruction of the form `ld <register> <immediate>`.
/// Returns how many bytes were consumed and the instruction.
pub fn instruction_one(input: &str) -> (r: Option<(usize, AsmInstruction)>)
    ensures
        (match spec_instruction_at(input.spec_bytes(), 0) {
            Some((p3, reg, val)) => r == Some((p3 as usize, spec_inst_record(reg, val))),
            None => r is None,
        }),
{
    let b = input.as_bytes();
    instruction_at(b, 0)
}

/// Parses a whole program: one instruction after another, as many as the
/// text holds, at least one. Returns how many bytes were consumed and the
/// program.
pub fn script(input: &str) -> (r: Option<(usize, Script)>)
    ensures
        (match spec_script_at(input.spec_bytes(), 0) {
            Some((e, instrs)) => (match r {
                Some((e2, sc)) => e2 == e && sc.instructions@ == instrs,
                None => false,
            }),
            None => r is None,
        }),
{
    let b = input.as_bytes();
    let n = b.len();
    let (mut p, first) = match instruction_at(b, 0) {
        None => {
            return None;
        },
        Some(x) => x,
    };
    let mut insts: Vec<AsmInstruction> = Vec::new();
    insts.push(first);
    let mut done = false;
    while !done
        invariant
            p <= n,
            n == b@.len(),
            insts@.len() >= 1,
            !done ==> spec_script_at(b@, 0) == (match spec_script_at(b@, p as int) {
                Some((e, rest)) => Some((e, insts@ + rest)),
                None => Some((p as int, insts@)),
            }),
            done ==> spec_script_at(b@, 0) == Some((p as int, insts@)),
        decreases n - p + (if done {
            0int
        } else {
            1int
        }),
    {
        match instruction_at(b, p) {
            None => {
                done = true;
            },
            Some((p2, inst)) => {
                proof {
                    let rest_opt = spec_script_at(b@, p2 as int);
                    match rest_opt {
                        Some((e, rest)) => {
                            assert(insts@ + (seq![inst] + rest) =~= (insts@ + seq![inst]) + rest);
                        },
                        None => {
                            assert(insts@ + seq![inst] =~= insts@.push(inst));
                        },
                    }
                    assert(insts@ + seq![inst] =~= insts@.push(inst));
                }
                insts.push(inst);
                p = p2;
            },
        }
    }
    Some((p, Script { instructions: insts }))
}

} // verus!

//! The instruction set: opcode bytes, the `Opcode` enumeration and the
//! mnemonics that the assembler accepts.
use vstd::prelude::*;
use vstd::string::StringSliceAdditionalSpecFns;
use vstd::utf8::encode_utf8;

verus! {

pub const OP_HALT: u8 = 0x00;
pub const OP_DBG: u8 = 0x01;
pub const OP_LITW: u8 = 0x10;
pub const OP_DUP: u8 = 0x11;
pub const OP_DROP: u8 = 0x12;
pub const OP_SWAP: u8 = 0x13;
pub const OP_OVER: u8 = 0x14;
pub const OP_ROT: u8 = 0x15;
pub const OP_LITB: u8 = 0x16;
pub const OP_PICK: u8 = 0x17;
pub const OP_ADD: u8 = 0x20;
pub const OP_SUB: u8 = 0x21;
pub const OP_MUL: u8 = 0x22;
pub const OP_DIV: u8 = 0x23;
pub const OP_AND: u8 = 0x24;
pub const OP_OR: u8 = 0x25;
pub const OP_XOR: u8 = 0x26;
pub const OP_SHL: u8 = 0x27;
pub const OP_SHR: u8 = 0x28;
pub const OP_INC: u8 = 0x29;
pub const OP_DEC: u8 = 0x2A;
pub const OP_SAR: u8 = 0x2B;
pub const OP_NOT: u8 = 0x2C;
pub const OP_SW: u8 = 0x30;
pub const OP_LW: u8 = 0x31;
pub const OP_SB: u8 = 0x32;
pub const OP_LB: u8 = 0x33;
pub const OP_EQU: u8 = 0x40;
pub const OP_NEQ: u8 = 0x41;
pub const OP_LT: u8 = 0x42;
pub const OP_GT: u8 = 0x43;
pub const OP_LTE: u8 = 0x44;
pub const OP_GTE: u8 = 0x45;
pub const OP_JMP: u8 = 0x50;
pub const OP_JZ: u8 = 0x51;
pub const OP_CALL: u8 = 0x52;
pub const OP_RET: u8 = 0x53;
pub const OP_JNZ: u8 = 0x54;
pub const OP_RPUSH: u8 = 0x60;
pub const OP_RPOP: u8 = 0x61;
pub const OP_RPEEK: u8 = 0x62;
pub const OP_RDROP: u8 = 0x63;
pub const OP_BEGIN: u8 = 0x70;
pub const OP_END: u8 = 0x71;
pub const OP_GET: u8 = 0x72;
pub const OP_SET: u8 = 0x73;

/// One instruction of the machine.
#[derive(Debug, Clone, Copy, PartialEq, Eq, Structural)]
pub enum Opcode {
    Halt,
    Dbg,
    LitW,
    Dup,
    Drop,
    Swap,
    Over,
    Rot,
    LitB,
    Pick,
    Add,
    Sub,
    Mul,
    Div,
    And,
    Or,
    Xor,
    Shl,
    Shr,
    Inc,
    Dec,
    Sar,
    Not,
    Sw,
    Lw,
    Sb,
    Lb,
    Equ,
    Neq,
    Lt,
    Gt,
    Lte,
    Gte,
    Jmp,
    Jz,
    Call,
    Ret,
    Jnz,
    Rpush,
    Rpop,
    Rpeek,
    Rdrop,
    Begin,
    End,
    GetLocal,
    SetLocal,
}

/// The byte that encodes `op`.
pub open spec fn opcode_byte(op: Opcode) -> u8 {
    match op {
        Opcode::Halt => OP_HALT,
        Opcode::Dbg => OP_DBG,
        Opcode::LitW => OP_LITW,
        Opcode::Dup => OP_DUP,
        Opcode::Drop => OP_DROP,
        Opcode::Swap => OP_SWAP,
        Opcode::Over => OP_OVER,
        Opcode::Rot => OP_ROT,
        Opcode::LitB => OP_LITB,
        Opcode::Pick => OP_PICK,
        Opcode::Add => OP_ADD,
        Opcode::Sub => OP_SUB,
        Opcode::Mul => OP_MUL,
        Opcode::Div => OP_DIV,
        Opcode::And => OP_AND,
        Opcode::Or => OP_OR,
        Opcode::Xor => OP_XOR,
        Opcode::Shl => OP_SHL,
        Opcode::Shr => OP_SHR,
        Opcode::Inc => OP_INC,
        Opcode::Dec => OP_DEC,
        Opcode::Sar => OP_SAR,
        Opcode::Not => OP_NOT,
        Opcode::Sw => OP_SW,
        Opcode::Lw => OP_LW,
        Opcode::Sb => OP_SB,
        Opcode::Lb => OP_LB,
        Opcode::Equ => OP_EQU,
        Opcode::Neq => OP_NEQ,
        Opcode::Lt => OP_LT,
        Opcode::Gt => OP_GT,
        Opcode::Lte => OP_LTE,
        Opcode::Gte => OP_GTE,
        Opcode::Jmp => OP_JMP,
        Opcode::Jz => OP_JZ,
        Opcode::Call => OP_CALL,
        Opcode::Ret => OP_RET,
        Opcode::Jnz => OP_JNZ,
        Opcode::Rpush => OP_RPUSH,
        Opcode::Rpop => OP_RPOP,
        Opcode::Rpeek => OP_RPEEK,
        Opcode::Rdrop => OP_RDROP,
        Opcode::Begin => OP_BEGIN,
        Opcode::End => OP_END,
        Opcode::GetLocal => OP_GET,
        Opcode::SetLocal => OP_SET,
    }
}

/// The instruction that `b` encodes, if any.
pub open spec fn opcode_of_byte(b: u8) -> Option<Opcode> {
    if b == OP_HALT {
        Some(Opcode::Halt)
    } else if b == OP_DBG {
        Some(Opcode::Dbg)
    } else if b == OP_LITW {
        Some(Opcode::LitW)
    } else if b == OP_DUP {
        Some(Opcode::Dup)
    } else if b == OP_DROP {
        Some(Opcode::Drop)
    } else if b == OP_SWAP {
        Some(Opcode::Swap)
    } else if b == OP_OVER {
        Some(Opcode::Over)
    } else if b == OP_ROT {
        Some(Opcode::Rot)
    } else if b == OP_LITB {
        Some(Opcode::LitB)
    } else if b == OP_PICK {
        Some(Opcode::Pick)
    } else if b == OP_ADD {
        Some(Opcode::Add)
    } else if b == OP_SUB {
        Some(Opcode::Sub)
    } else if b == OP_MUL {
        Some(Opcode::Mul)
    } else if b == OP_DIV {
        Some(Opcode::Div)
    } else if b == OP_AND {
        Some(Opcode::And)
    } else if b == OP_OR {
        Some(Opcode::Or)
    } else if b == OP_XOR {
        Some(Opcode::Xor)
    } else if b == OP_SHL {
        Some(Opcode::Shl)
    } else if b == OP_SHR {
        Some(Opcode::Shr)
    } else if b == OP_INC {
        Some(Opcode::Inc)
    } else if b == OP_DEC {
        Some(Opcode::Dec)
    } else if b == OP_SAR {
        Some(Opcode::Sar)
    } else if b == OP_NOT {
        Some(Opcode::Not)
    } else if b == OP_SW {
        Some(Opcode::Sw)
    } else if b == OP_LW {
        Some(Opcode::Lw)
    } else if b == OP_SB {
        Some(Opcode::Sb)
    } else if b == OP_LB {
        Some(Opcode::Lb)
    } else if b == OP_EQU {
        Some(Opcode::Equ)
    } else if b == OP_NEQ {
        Some(Opcode::Neq)
    } else if b == OP_LT {
        Some(Opcode::Lt)
    } else if b == OP_GT {
        Some(Opcode::Gt)
    } else if b == OP_LTE {
        Some(Opcode::Lte)
    } else if b == OP_GTE {
        Some(Opcode::Gte)
    } else if b == OP_JMP {
        Some(Opcode::Jmp)
    } else if b == OP_JZ {
        Some(Opcode::Jz)
    } else if b == OP_CALL {
        Some(Opcode::Call)
    } else if b == OP_RET {
        Some(Opcode::Ret)
    } else if b == OP_JNZ {
        Some(Opcode::Jnz)
    } else if b == OP_RPUSH {
        Some(Opcode::Rpush)
    } else if b == OP_RPOP {
        Some(Opcode::Rpop)
    } else if b == OP_RPEEK {
        Some(Opcode::Rpeek)
    } else if b == OP_RDROP {
        Some(Opcode::Rdrop)
    } else if b == OP_BEGIN {
        Some(Opcode::Begin)
    } else if b == OP_END {
        Some(Opcode::End)
    } else if b == OP_GET {
        Some(Opcode::GetLocal)
    } else if b == OP_SET {
        Some(Opcode::SetLocal)
    } else {
        None
    }
}

/// The lower-case mnemonic of `op`.
pub open spec fn mnemonic(op: Opcode) -> Seq<u8> {
    match op {
        Opcode::Halt => seq![0x68, 0x61, 0x6c, 0x74],
        Opcode::Dbg => seq![0x64, 0x62, 0x67],
        Opcode::LitW => seq![0x6c, 0x69, 0x74, 0x77],
        Opcode::Dup => seq![0x64, 0x75, 0x70],
        Opcode::Drop => seq![0x64, 0x72, 0x6f, 0x70],
        Opcode::Swap => seq![0x73, 0x77, 0x61, 0x70],
        Opcode::Over => seq![0x6f, 0x76, 0x65, 0x72],
        Opcode::Rot => seq![0x72, 0x6f, 0x74],
        Opcode::LitB => seq![0x6c, 0x69, 0x74, 0x62],
        Opcode::Pick => seq![0x70, 0x69, 0x63, 0x6b],
        Opcode::Add => seq![0x61, 0x64, 0x64],
        Opcode::Sub => seq![0x73, 0x75, 0x62],
        Opcode::Mul => seq![0x6d, 0x75, 0x6c],
        Opcode::Div => seq![0x64, 0x69, 0x76],
        Opcode::And => seq![0x61, 0x6e, 0x64],
        Opcode::Or => seq![0x6f, 0x72],
        Opcode::Xor => seq![0x78, 0x6f, 0x72],
        Opcode::Shl => seq![0x73, 0x68, 0x6c],
        Opcode::Shr => seq![0x73, 0x68, 0x72],
        Opcode::Inc => seq![0x69, 0x6e, 0x63],
        Opcode::Dec => seq![0x64, 0x65, 0x63],
        Opcode::Sar => seq![0x73, 0x61, 0x72],
        Opcode::Not => seq![0x6e, 0x6f, 0x74],
        Opcode::Sw => seq![0x73, 0x77],
        Opcode::Lw => seq![0x6c, 0x77],
        Opcode::Sb => seq![0x73, 0x62],
        Opcode::Lb => seq![0x6c, 0x62],
        Opcode::Equ => seq![0x65, 0x71, 0x75],
        Opcode::Neq => seq![0x6e, 0x65, 0x71],
        Opcode::Lt => seq![0x6c, 0x74],
        Opcode::Gt => seq![0x67, 0x74],
        Opcode::Lte => seq![0x6c, 0x74, 0x65],
        Opcode::Gte => seq![0x67, 0x74, 0x65],
        Opcode::Jmp => seq![0x6a, 0x6d, 0x70],
        Opcode::Jz => seq![0x6a, 0x7a],
        Opcode::Call => seq![0x63, 0x61, 0x6c, 0x6c],
        Opcode::Ret => seq![0x72, 0x65, 0x74],
        Opcode::Jnz => seq![0x6a, 0x6e, 0x7a],
        Opcode::Rpush => seq![0x72, 0x70, 0x75, 0x73, 0x68],
        Opcode::Rpop => seq![0x72, 0x70, 0x6f, 0x70],
        Opcode::Rpeek => seq![0x72, 0x70, 0x65, 0x65, 0x6b],
        Opcode::Rdrop => seq![0x72, 0x64, 0x72, 0x6f, 0x70],
        Opcode::Begin => seq![0x62, 0x65, 0x67, 0x69, 0x6e],
        Opcode::End => seq![0x65, 0x6e, 0x64],
        Opcode::GetLocal => seq![0x67, 0x65, 0x74],
        Opcode::SetLocal => seq![0x73, 0x65, 0x74],
    }
}

/// `c` with ASCII upper-case letters turned to lower case.
pub open spec fn ascii_lower(c: u8) -> u8 {
    if 0x41 <= c <= 0x5a { (c + 32) as u8 } else { c }
}

/// Whether `s` spells `m` when ASCII letters are compared without regard to case.
pub open spec fn eq_ignore_ascii_case(s: Seq<u8>, m: Seq<u8>) -> bool {
    s.len() == m.len() && forall|i: int| 0 <= i < s.len() ==> #[trigger] ascii_lower(s[i]) == m[i]
}

/// What `str::to_lowercase` makes of the characters `s`.
pub uninterp spec fn lower_of(s: Seq<char>) -> Seq<char>;

/// Relies on `str::to_lowercase`: the lower-case mapping of each character,
/// which depends on the characters alone.
#[verifier::external_body]
fn lowercase(s: &str) -> (r: String)
    ensures
        r@ == lower_of(s@),
{
    s.to_lowercase()
}

/// The instruction whose mnemonic `s` spells, ASCII case ignored.
pub open spec fn mnemonic_opcode(s: Seq<u8>) -> Option<Opcode> {
    if eq_ignore_ascii_case(s, mnemonic(Opcode::Halt)) {
        Some(Opcode::Halt)
    } else if eq_ignore_ascii_case(s, mnemonic(Opcode::Dbg)) {
        Some(Opcode::Dbg)
    } else if eq_ignore_ascii_case(s, mnemonic(Opcode::LitW)) {
        Some(Opcode::LitW)
    } else if eq_ignore_ascii_case(s, mnemonic(Opcode::Dup)) {
        Some(Opcode::Dup)
    } else if eq_ignore_ascii_case(s, mnemonic(Opcode::Drop)) {
        Some(Opcode::Drop)
    } else if eq_ignore_ascii_case(s, mnemonic(Opcode::Swap)) {
        Some(Opcode::Swap)
    } else if eq_ignore_ascii_case(s, mnemonic(Opcode::Over)) {
        Some(Opcode::Over)
    } else if eq_ignore_ascii_case(s, mnemonic(Opcode::Rot)) {
        Some(Opcode::Rot)
    } else if eq_ignore_ascii_case(s, mnemonic(Opcode::LitB)) {
        Some(Opcode::LitB)
    } else if eq_ignore_ascii_case(s, mnemonic(Opcode::Pick)) {
        Some(Opcode::Pick)
    } else if eq_ignore_ascii_case(s, mnemonic(Opcode::Add)) {
        Some(Opcode::Add)
    } else if eq_ignore_ascii_case(s, mnemonic(Opcode::Sub)) {
        Some(Opcode::Sub)
    } else if eq_ignore_ascii_case(s, mnemonic(Opcode::Mul)) {
        Some(Opcode::Mul)
    } else if eq_ignore_ascii_case(s, mnemonic(Opcode::Div)) {
        Some(Opcode::Div)
    } else if eq_ignore_ascii_case(s, mnemonic(Opcode::And)) {
        Some(Opcode::And)
    } else if eq_ignore_ascii_case(s, mnemonic(Opcode::Or)) {
        Some(Opcode::Or)
    } else if eq_ignore_ascii_case(s, mnemonic(Opcode::Xor)) {
        Some(Opcode::Xor)
    } else if eq_ignore_ascii_case(s, mnemonic(Opcode::Shl)) {
        Some(Opcode::Shl)
    } else if eq_ignore_ascii_case(s, mnemonic(Opcode::Shr)) {
        Some(Opcode::Shr)
    } else if eq_ignore_ascii_case(s, mnemonic(Opcode::Inc)) {
        Some(Opcode::Inc)
    } else if eq_ignore_ascii_case(s, mnemonic(Opcode::Dec)) {
        Some(Opcode::Dec)
    } else if eq_ignore_ascii_case(s, mnemonic(Opcode::Sar)) {
        Some(Opcode::Sar)
    } else if eq_ignore_ascii_case(s, mnemonic(Opcode::Not)) {
        Some(Opcode::Not)
    } else if eq_ignore_ascii_case(s, mnemonic(Opcode::Sw)) {
        Some(Opcode::Sw)
    } else if eq_ignore_ascii_case(s, mnemonic(Opcode::Lw)) {
        Some(Opcode::Lw)
    } else if eq_ignore_ascii_case(s, mnemonic(Opcode::Sb)) {
        Some(Opcode::Sb)
    } else if eq_ignore_ascii_case(s, mnemonic(Opcode::Lb)) {
        Some(Opcode::Lb)
    } else if eq_ignore_ascii_case(s, mnemonic(Opcode::Equ)) {
        Some(Opcode::Equ)
    } else if eq_ignore_ascii_case(s, mnemonic(Opcode::Neq)) {
        Some(Opcode::Neq)
    } else if eq_ignore_ascii_case(s, mnemonic(Opcode::Lt)) {
        Some(Opcode::Lt)
    } else if eq_ignore_ascii_case(s, mnemonic(Opcode::Gt)) {
        Some(Opcode::Gt)
    } else if eq_ignore_ascii_case(s, mnemonic(Opcode::Lte)) {
        Some(Opcode::Lte)
    } else if eq_ignore_ascii_case(s, mnemonic(Opcode::Gte)) {
        Some(Opcode::Gte)
    } else if eq_ignore_ascii_case(s, mnemonic(Opcode::Jmp)) {
        Some(Opcode::Jmp)
    } else if eq_ignore_ascii_case(s, mnemonic(Opcode::Jz)) {
        Some(Opcode::Jz)
    } else if eq_ignore_ascii_case(s, mnemonic(Opcode::Call)) {
        Some(Opcode::Call)
    } else if eq_ignore_ascii_case(s, mnemonic(Opcode::Ret)) {
        Some(Opcode::Ret)
    } else if eq_ignore_ascii_case(s, mnemonic(Opcode::Jnz)) {
        Some(Opcode::Jnz)
    } else if eq_ignore_ascii_case(s, mnemonic(Opcode::Rpush)) {
        Some(Opcode::Rpush)
    } else if eq_ignore_ascii_case(s, mnemonic(Opcode::Rpop)) {
        Some(Opcode::Rpop)
    } else if eq_ignore_ascii_case(s, mnemonic(Opcode::Rpeek)) {
        Some(Opcode::Rpeek)
    } else if eq_ignore_ascii_case(s, mnemonic(Opcode::Rdrop)) {
        Some(Opcode::Rdrop)
    } else if eq_ignore_ascii_case(s, mnemonic(Opcode::Begin)) {
        Some(Opcode::Begin)
    } else if eq_ignore_ascii_case(s, mnemonic(Opcode::End)) {
        Some(Opcode::End)
    } else if eq_ignore_ascii_case(s, mnemonic(Opcode::GetLocal)) {
        Some(Opcode::GetLocal)
    } else if eq_ignore_ascii_case(s, mnemonic(Opcode::SetLocal)) {
        Some(Opcode::SetLocal)
    } else {
        None
    }
}

impl Opcode {
    /// The byte that encodes this instruction.
    pub fn byte(&self) -> (r: u8)
        ensures
            r == opcode_byte(*self),
    {
        match self {
            Opcode::Halt => OP_HALT,
            Opcode::Dbg => OP_DBG,
            Opcode::LitW => OP_LITW,
            Opcode::Dup => OP_DUP,
            Opcode::Drop => OP_DROP,
            Opcode::Swap => OP_SWAP,
            Opcode::Over => OP_OVER,
            Opcode::Rot => OP_ROT,
            Opcode::LitB => OP_LITB,
            Opcode::Pick => OP_PICK,
            Opcode::Add => OP_ADD,
            Opcode::Sub => OP_SUB,
            Opcode::Mul => OP_MUL,
            Opcode::Div => OP_DIV,
            Opcode::And => OP_AND,
            Opcode::Or => OP_OR,
            Opcode::Xor => OP_XOR,
            Opcode::Shl => OP_SHL,
            Opcode::Shr => OP_SHR,
            Opcode::Inc => OP_INC,
            Opcode::Dec => OP_DEC,
            Opcode::Sar => OP_SAR,
            Opcode::Not => OP_NOT,
            Opcode::Sw => OP_SW,
            Opcode::Lw => OP_LW,
            Opcode::Sb => OP_SB,
            Opcode::Lb => OP_LB,
            Opcode::Equ => OP_EQU,
            Opcode::Neq => OP_NEQ,
            Opcode::Lt => OP_LT,
            Opcode::Gt => OP_GT,
            Opcode::Lte => OP_LTE,
            Opcode::Gte => OP_GTE,
            Opcode::Jmp => OP_JMP,
            Opcode::Jz => OP_JZ,
            Opcode::Call => OP_CALL,
            Opcode::Ret => OP_RET,
            Opcode::Jnz => OP_JNZ,
            Opcode::Rpush => OP_RPUSH,
            Opcode::Rpop => OP_RPOP,
            Opcode::Rpeek => OP_RPEEK,
            Opcode::Rdrop => OP_RDROP,
            Opcode::Begin => OP_BEGIN,
            Opcode::End => OP_END,
            Opcode::GetLocal => OP_GET,
            Opcode::SetLocal => OP_SET,
        }
    }

    /// The instruction that `b` encodes, if any.
    pub fn from_byte(b: u8) -> (r: Option<Opcode>)
        ensures
            r == opcode_of_byte(b),
    {
        if b == OP_HALT {
            Some(Opcode::Halt)
        } else if b == OP_DBG {
            Some(Opcode::Dbg)
        } else if b == OP_LITW {
            Some(Opcode::LitW)
        } else if b == OP_DUP {
            Some(Opcode::Dup)
        } else if b == OP_DROP {
            Some(Opcode::Drop)
        } else if b == OP_SWAP {
            Some(Opcode::Swap)
        } else if b == OP_OVER {
            Some(Opcode::Over)
        } else if b == OP_ROT {
            Some(Opcode::Rot)
        } else if b == OP_LITB {
            Some(Opcode::LitB)
        } else if b == OP_PICK {
            Some(Opcode::Pick)
        } else if b == OP_ADD {
            Some(Opcode::Add)
        } else if b == OP_SUB {
            Some(Opcode::Sub)
        } else if b == OP_MUL {
            Some(Opcode::Mul)
        } else if b == OP_DIV {
            Some(Opcode::Div)
        } else if b == OP_AND {
            Some(Opcode::And)
        } else if b == OP_OR {
            Some(Opcode::Or)
        } else if b == OP_XOR {
            Some(Opcode::Xor)
        } else if b == OP_SHL {
            Some(Opcode::Shl)
        } else if b == OP_SHR {
            Some(Opcode::Shr)
        } else if b == OP_INC {
            Some(Opcode::Inc)
        } else if b == OP_DEC {
            Some(Opcode::Dec)
        } else if b == OP_SAR {
            Some(Opcode::Sar)
        } else if b == OP_NOT {
            Some(Opcode::Not)
        } else if b == OP_SW {
            Some(Opcode::Sw)
        } else if b == OP_LW {
            Some(Opcode::Lw)
        } else if b == OP_SB {
            Some(Opcode::Sb)
        } else if b == OP_LB {
            Some(Opcode::Lb)
        } else if b == OP_EQU {
            Some(Opcode::Equ)
        } else if b == OP_NEQ {
            Some(Opcode::Neq)
        } else if b == OP_LT {
            Some(Opcode::Lt)
        } else if b == OP_GT {
            Some(Opcode::Gt)
        } else if b == OP_LTE {
            Some(Opcode::Lte)
        } else if b == OP_GTE {
            Some(Opcode::Gte)
        } else if b == OP_JMP {
            Some(Opcode::Jmp)
        } else if b == OP_JZ {
            Some(Opcode::Jz)
        } else if b == OP_CALL {
            Some(Opcode::Call)
        } else if b == OP_RET {
            Some(Opcode::Ret)
        } else if b == OP_JNZ {
            Some(Opcode::Jnz)
        } else if b == OP_RPUSH {
            Some(Opcode::Rpush)
        } else if b == OP_RPOP {
            Some(Opcode::Rpop)
        } else if b == OP_RPEEK {
            Some(Opcode::Rpeek)
        } else if b == OP_RDROP {
            Some(Opcode::Rdrop)
        } else if b == OP_BEGIN {
            Some(Opcode::Begin)
        } else if b == OP_END {
            Some(Opcode::End)
        } else if b == OP_GET {
            Some(Opcode::GetLocal)
        } else if b == OP_SET {
            Some(Opcode::SetLocal)
        } else {
            None
        }
    }

    /// The lower-case mnemonic of this instruction.
    pub fn mnemonic(&self) -> (r: Vec<u8>)
        ensures
            r@ == mnemonic(*self),
    {
        match self {
            Opcode::Halt => vec![0x68, 0x61, 0x6c, 0x74],
            Opcode::Dbg => vec![0x64, 0x62, 0x67],
            Opcode::LitW => vec![0x6c, 0x69, 0x74, 0x77],
            Opcode::Dup => vec![0x64, 0x75, 0x70],
            Opcode::Drop => vec![0x64, 0x72, 0x6f, 0x70],
            Opcode::Swap => vec![0x73, 0x77, 0x61, 0x70],
            Opcode::Over => vec![0x6f, 0x76, 0x65, 0x72],
            Opcode::Rot => vec![0x72, 0x6f, 0x74],
            Opcode::LitB => vec![0x6c, 0x69, 0x74, 0x62],
            Opcode::Pick => vec![0x70, 0x69, 0x63, 0x6b],
            Opcode::Add => vec![0x61, 0x64, 0x64],
            Opcode::Sub => vec![0x73, 0x75, 0x62],
            Opcode::Mul => vec![0x6d, 0x75, 0x6c],
            Opcode::Div => vec![0x64, 0x69, 0x76],
            Opcode::And => vec![0x61, 0x6e, 0x64],
            Opcode::Or => vec![0x6f, 0x72],
            Opcode::Xor => vec![0x78, 0x6f, 0x72],
            Opcode::Shl => vec![0x73, 0x68, 0x6c],
            Opcode::Shr => vec![0x73, 0x68, 0x72],
            Opcode::Inc => vec![0x69, 0x6e, 0x63],
            Opcode::Dec => vec![0x64, 0x65, 0x63],
            Opcode::Sar => vec![0x73, 0x61, 0x72],
            Opcode::Not => vec![0x6e, 0x6f, 0x74],
            Opcode::Sw => vec![0x73, 0x77],
            Opcode::Lw => vec![0x6c, 0x77],
            Opcode::Sb => vec![0x73, 0x62],
            Opcode::Lb => vec![0x6c, 0x62],
            Opcode::Equ => vec![0x65, 0x71, 0x75],
            Opcode::Neq => vec![0x6e, 0x65, 0x71],
            Opcode::Lt => vec![0x6c, 0x74],
            Opcode::Gt => vec![0x67, 0x74],
            Opcode::Lte => vec![0x6c, 0x74, 0x65],
            Opcode::Gte => vec![0x67, 0x74, 0x65],
            Opcode::Jmp => vec![0x6a, 0x6d, 0x70],
            Opcode::Jz => vec![0x6a, 0x7a],
            Opcode::Call => vec![0x63, 0x61, 0x6c, 0x6c],
            Opcode::Ret => vec![0x72, 0x65, 0x74],
            Opcode::Jnz => vec![0x6a, 0x6e, 0x7a],
            Opcode::Rpush => vec![0x72, 0x70, 0x75, 0x73, 0x68],
            Opcode::Rpop => vec![0x72, 0x70, 0x6f, 0x70],
            Opcode::Rpeek => vec![0x72, 0x70, 0x65, 0x65, 0x6b],
            Opcode::Rdrop => vec![0x72, 0x64, 0x72, 0x6f, 0x70],
            Opcode::Begin => vec![0x62, 0x65, 0x67, 0x69, 0x6e],
            Opcode::End => vec![0x65, 0x6e, 0x64],
            Opcode::GetLocal => vec![0x67, 0x65, 0x74],
            Opcode::SetLocal => vec![0x73, 0x65, 0x74],
        }
    }

    /// The instruction whose mnemonic `s` spells once lower-cased.
    pub fn from_str(s: &str) -> (r: Result<Opcode, ()>)
        ensures
            r == (match mnemonic_opcode(encode_utf8(lower_of(s@))) { Some(op) => Ok(op), None => Err(()) }),
    {
        let lower = lowercase(s);
        Opcode::from_mnemonic(lower.as_str().as_bytes())
    }

    /// The instruction whose mnemonic the bytes `s` spell, ASCII case ignored.
    pub fn from_mnemonic(s: &[u8]) -> (r: Result<Opcode, ()>)
        ensures
            r == (match mnemonic_opcode(s@) { Some(op) => Ok(op), None => Err(()) }),
    {
        if matches_ignore_case(s, &Opcode::Halt.mnemonic()) {
            Ok(Opcode::Halt)
        } else if matches_ignore_case(s, &Opcode::Dbg.mnemonic()) {
            Ok(Opcode::Dbg)
        } else if matches_ignore_case(s, &Opcode::LitW.mnemonic()) {
            Ok(Opcode::LitW)
        } else if matches_ignore_case(s, &Opcode::Dup.mnemonic()) {
            Ok(Opcode::Dup)
        } else if matches_ignore_case(s, &Opcode::Drop.mnemonic()) {
            Ok(Opcode::Drop)
        } else if matches_ignore_case(s, &Opcode::Swap.mnemonic()) {
            Ok(Opcode::Swap)
        } else if matches_ignore_case(s, &Opcode::Over.mnemonic()) {
            Ok(Opcode::Over)
        } else if matches_ignore_case(s, &Opcode::Rot.mnemonic()) {
            Ok(Opcode::Rot)
        } else if matches_ignore_case(s, &Opcode::LitB.mnemonic()) {
            Ok(Opcode::LitB)
        } else if matches_ignore_case(s, &Opcode::Pick.mnemonic()) {
            Ok(Opcode::Pick)
        } else if matches_ignore_case(s, &Opcode::Add.mnemonic()) {
            Ok(Opcode::Add)
        } else if matches_ignore_case(s, &Opcode::Sub.mnemonic()) {
            Ok(Opcode::Sub)
        } else if matches_ignore_case(s, &Opcode::Mul.mnemonic()) {
            Ok(Opcode::Mul)
        } else if matches_ignore_case(s, &Opcode::Div.mnemonic()) {
            Ok(Opcode::Div)
        } else if matches_ignore_case(s, &Opcode::And.mnemonic()) {
            Ok(Opcode::And)
        } else if matches_ignore_case(s, &Opcode::Or.mnemonic()) {
            Ok(Opcode::Or)
        } else if matches_ignore_case(s, &Opcode::Xor.mnemonic()) {
            Ok(Opcode::Xor)
        } else if matches_ignore_case(s, &Opcode::Shl.mnemonic()) {
            Ok(Opcode::Shl)
        } else if matches_ignore_case(s, &Opcode::Shr.mnemonic()) {
            Ok(Opcode::Shr)
        } else if matches_ignore_case(s, &Opcode::Inc.mnemonic()) {
            Ok(Opcode::Inc)
        } else if matches_ignore_case(s, &Opcode::Dec.mnemonic()) {
            Ok(Opcode::Dec)
        } else if matches_ignore_case(s, &Opcode::Sar.mnemonic()) {
            Ok(Opcode::Sar)
        } else if matches_ignore_case(s, &Opcode::Not.mnemonic()) {
            Ok(Opcode::Not)
        } else if matches_ignore_case(s, &Opcode::Sw.mnemonic()) {
            Ok(Opcode::Sw)
        } else if matches_ignore_case(s, &Opcode::Lw.mnemonic()) {
            Ok(Opcode::Lw)
        } else if matches_ignore_case(s, &Opcode::Sb.mnemonic()) {
            Ok(Opcode::Sb)
        } else if matches_ignore_case(s, &Opcode::Lb.mnemonic()) {
            Ok(Opcode::Lb)
        } else if matches_ignore_case(s, &Opcode::Equ.mnemonic()) {
            Ok(Opcode::Equ)
        } else if matches_ignore_case(s, &Opcode::Neq.mnemonic()) {
            Ok(Opcode::Neq)
        } else if matches_ignore_case(s, &Opcode::Lt.mnemonic()) {
            Ok(Opcode::Lt)
        } else if matches_ignore_case(s, &Opcode::Gt.mnemonic()) {
            Ok(Opcode::Gt)
        } else if matches_ignore_case(s, &Opcode::Lte.mnemonic()) {
            Ok(Opcode::Lte)
        } else if matches_ignore_case(s, &Opcode::Gte.mnemonic()) {
            Ok(Opcode::Gte)
        } else if matches_ignore_case(s, &Opcode::Jmp.mnemonic()) {
            Ok(Opcode::Jmp)
        } else if matches_ignore_case(s, &Opcode::Jz.mnemonic()) {
            Ok(Opcode::Jz)
        } else if matches_ignore_case(s, &Opcode::Call.mnemonic()) {
            Ok(Opcode::Call)
        } else if matches_ignore_case(s, &Opcode::Ret.mnemonic()) {
            Ok(Opcode::Ret)
        } else if matches_ignore_case(s, &Opcode::Jnz.mnemonic()) {
            Ok(Opcode::Jnz)
        } else if matches_ignore_case(s, &Opcode::Rpush.mnemonic()) {
            Ok(Opcode::Rpush)
        } else if matches_ignore_case(s, &Opcode::Rpop.mnemonic()) {
            Ok(Opcode::Rpop)
        } else if matches_ignore_case(s, &Opcode::Rpeek.mnemonic()) {
            Ok(Opcode::Rpeek)
        } else if matches_ignore_case(s, &Opcode::Rdrop.mnemonic()) {
            Ok(Opcode::Rdrop)
        } else if matches_ignore_case(s, &Opcode::Begin.mnemonic()) {
            Ok(Opcode::Begin)
        } else if matches_ignore_case(s, &Opcode::End.mnemonic()) {
            Ok(Opcode::End)
        } else if matches_ignore_case(s, &Opcode::GetLocal.mnemonic()) {
            Ok(Opcode::GetLocal)
        } else if matches_ignore_case(s, &Opcode::SetLocal.mnemonic()) {
            Ok(Opcode::SetLocal)
        } else {
            Err(())
        }
    }
}

/// Whether `s` spells `m` with ASCII letters compared without regard to case.
fn matches_ignore_case(s: &[u8], m: &Vec<u8>) -> (r: bool)
    ensures
        r == eq_ignore_ascii_case(s@, m@),
{
    if s.len() != m.len() {
        return false;
    }
    let mut i: usize = 0;
    while i < s.len()
        invariant
            s@.len() == m@.len(),
            i <= s@.len(),
            forall|k: int| 0 <= k < i ==> #[trigger] ascii_lower(s@[k]) == m@[k],
        decreases s@.len() - i,
    {
        let c = s[i];
        let lower = if 0x41 <= c && c <= 0x5a { c + 32 } else { c };
        assert(lower == ascii_lower(s@[i as int]));
        if lower != m[i] {
            return false;
        }
        i += 1;
    }
    true
}

} // verus!

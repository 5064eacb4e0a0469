//! The bytecode interpreter: three stacks kept in linear memory, a
//! single-step transition that follows `step_spec`, and `run`, which steps
//! until HALT or a fault.
use vstd::prelude::*;
use crate::bytecode::{
    OP_HALT, OP_DBG, OP_LITW, OP_DUP, OP_DROP, OP_SWAP, OP_OVER, OP_ROT, OP_LITB, OP_PICK, OP_ADD, OP_SUB, OP_MUL, OP_DIV, OP_AND, OP_OR, OP_XOR, OP_SHL, OP_SHR, OP_INC, OP_DEC, OP_SAR, OP_NOT, OP_SW, OP_LW, OP_SB, OP_LB, OP_EQU, OP_NEQ, OP_LT, OP_GT, OP_LTE, OP_GTE, OP_JMP, OP_JZ, OP_CALL, OP_RET, OP_JNZ, OP_RPUSH, OP_RPOP, OP_RPEEK, OP_RDROP, OP_BEGIN, OP_END, OP_GET, OP_SET,
};
use crate::dma::{DirectMemoryAccess, word_at, store_word, store_bytes};
use crate::memory::{RESET_VECTOR, MEM_SIZE, STACK_SIZE, SP_OFFSET, RP_OFFSET, LOCAL_OFFSET};

verus! {

/// Why an activation was aborted.
#[derive(Debug, Clone, Copy, PartialEq, Eq, Structural)]
pub enum Fault {
    /// A push onto a full operand stack.
    StackOverflow,
    /// An instruction needed more operands than the stack held.
    StackUnderflow,
    /// A push onto a full return stack.
    ReturnOverflow,
    /// A pop from an empty return stack.
    ReturnUnderflow,
    /// BEGIN asked for more slots than the locals stack has left.
    LocalsOverflow,
    /// END released, or GET/SET named, a slot outside the reserved frame.
    LocalsOutOfRange,
    DivisionByZero,
    UnknownOpcode,
    /// The instruction pointer, or an immediate, ran past linear memory.
    IpOutOfRange,
    /// A jump, call or return to an address outside linear memory.
    JumpOutOfRange,
    /// A device access at an address that no device maps.
    UnmappedAddress,
    /// A device access at a register that the device does not have.
    UnknownRegister,
    /// A device was handed an address range outside linear memory.
    MemoryOutOfRange,
    /// A sprite command with an unknown opcode or layer.
    BadCommand,
    /// `run` gave up after `STEP_LIMIT` instructions.
    StepLimit,
}

/// A fault with the instruction that raised it.
#[derive(Debug, Clone, Copy, PartialEq, Eq, Structural)]
pub struct Trap {
    pub fault: Fault,
    /// The opcode byte at `ip` (0 when `ip` lies outside memory).
    pub opcode: u8,
    /// Address of the faulting instruction.
    pub ip: u32,
}

/// What a successful step left the machine doing.
#[derive(Debug, Clone, Copy, PartialEq, Eq, Structural)]
pub enum Status {
    Running,
    Halted,
}

/// The host side of the machine: routes accesses outside linear memory to
/// devices, and receives the diagnostic dumps of DBG.
pub trait Machine {
    fn write_u32(&mut self, addr: u32, value: u32, dma: &mut DirectMemoryAccess) -> Result<(), Fault>;

    fn read_u32(&mut self, addr: u32, dma: &mut DirectMemoryAccess) -> Result<u32, Fault>;

    /// A byte store; by default the word store of the byte.
    fn write_u8(&mut self, addr: u32, value: u8, dma: &mut DirectMemoryAccess) -> Result<(), Fault> {
        self.write_u32(addr, value as u32, dma)
    }

    /// A byte load; by default the low byte of the word load.
    fn read_u8(&mut self, addr: u32, dma: &mut DirectMemoryAccess) -> Result<u8, Fault> {
        match self.read_u32(addr, dma) {
            Ok(v) => Ok((v % 0x100) as u8),
            Err(f) => Err(f),
        }
    }

    /// Receives the instruction pointer and both stacks, bottom first; by
    /// default the dump is dropped.
    fn dump(&mut self, ip: u32, stack: Vec<u32>, rstack: Vec<u32>) {
    }
}

/// The abstract state of the interpreter. Cursors are byte addresses; each
/// stack grows upward from its base and its cursor names the next free slot.
pub struct VmState {
    pub mem: Seq<u8>,
    pub ip: int,
    pub sp: int,
    pub rp: int,
    pub lp: int,
}

/// A cursor lies within its 1 KiB reservation, on a word boundary.
pub open spec fn cursor_ok(cursor: int, base: int) -> bool {
    base <= cursor <= base + STACK_SIZE && (cursor - base) % 4 == 0
}

pub open spec fn state_wf(s: VmState) -> bool {
    &&& s.mem.len() == MEM_SIZE
    &&& 0 <= s.ip <= MEM_SIZE
    &&& cursor_ok(s.sp, SP_OFFSET as int)
    &&& cursor_ok(s.rp, RP_OFFSET as int)
    &&& cursor_ok(s.lp, LOCAL_OFFSET as int)
}

/// Number of words on the operand stack.
pub open spec fn depth(s: VmState) -> int {
    (s.sp - SP_OFFSET) / 4
}

/// Number of words on the return stack.
pub open spec fn rdepth(s: VmState) -> int {
    (s.rp - RP_OFFSET) / 4
}

/// Number of reserved slots on the locals stack.
pub open spec fn ldepth(s: VmState) -> int {
    (s.lp - LOCAL_OFFSET) / 4
}

/// The operand `k` places below the top (0 is the top).
pub open spec fn nth(s: VmState, k: int) -> u32 {
    word_at(s.mem, s.sp - 4 - 4 * k)
}

/// The operand stack as a sequence, bottom first.
pub open spec fn stack(s: VmState) -> Seq<u32> {
    Seq::new(depth(s) as nat, |i: int| word_at(s.mem, SP_OFFSET + 4 * i))
}

/// The return stack as a sequence, bottom first.
pub open spec fn rstack(s: VmState) -> Seq<u32> {
    Seq::new(rdepth(s) as nat, |i: int| word_at(s.mem, RP_OFFSET + 4 * i))
}

pub open spec fn with_ip(s: VmState, ip: int) -> VmState {
    VmState { ip, ..s }
}

pub open spec fn push(s: VmState, v: u32) -> VmState {
    VmState { mem: store_word(s.mem, s.sp, v), sp: s.sp + 4, ..s }
}

pub open spec fn pop_n(s: VmState, n: int) -> VmState {
    VmState { sp: s.sp - 4 * n, ..s }
}

pub open spec fn rpush(s: VmState, v: u32) -> VmState {
    VmState { mem: store_word(s.mem, s.rp, v), rp: s.rp + 4, ..s }
}

pub open spec fn rtop(s: VmState) -> u32 {
    word_at(s.mem, s.rp - 4)
}

pub open spec fn rpop(s: VmState) -> VmState {
    VmState { rp: s.rp - 4, ..s }
}

/// Address of local slot `i` (0 is the most recently reserved slot).
pub open spec fn local_slot(s: VmState, i: int) -> int {
    s.lp - 4 - 4 * i
}

/// The outcome of one instruction.
pub enum Step {
    Running(VmState),
    Halted(VmState),
    Trapped(Fault),
    /// A load or store outside linear memory: the machine decides the outcome.
    Device,
}

/// Pushes `v`, or traps when the operand stack is full.
pub open spec fn push_or_trap(s: VmState, v: u32) -> Step {
    if depth(s) >= STACK_SIZE / 4 { Step::Trapped(Fault::StackOverflow) } else { Step::Running(push(s, v)) }
}

/// Logical shift left; counts of 32 or more give 0.
pub open spec fn shl(a: u32, b: u32) -> u32 {
    if b >= 32 { 0 } else { a << b }
}

/// Logical shift right; counts of 32 or more give 0.
pub open spec fn shr(a: u32, b: u32) -> u32 {
    if b >= 32 { 0 } else { a >> b }
}

/// Arithmetic shift right of `a` read as a signed word; counts of 32 or more
/// fill with the sign.
pub open spec fn sar(a: u32, b: u32) -> u32 {
    if a & 0x8000_0000 == 0 {
        shr(a, b)
    } else {
        !shr(!a, b)
    }
}

/// Whether `op` is a two-operand arithmetic, logic or comparison instruction.
pub open spec fn is_binary(op: u8) -> bool {
    (OP_ADD <= op <= OP_SHR) || op == OP_SAR || (OP_EQU <= op <= OP_GTE)
}

/// The result of the two-operand instruction `op` on `a b` (`b` on top).
pub open spec fn binary(op: u8, a: u32, b: u32) -> u32 {
    if op == OP_ADD { ((a + b) % 0x1_0000_0000) as u32 }
    else if op == OP_SUB { ((a - b + 0x1_0000_0000) % 0x1_0000_0000) as u32 }
    else if op == OP_MUL { ((a * b) % 0x1_0000_0000) as u32 }
    else if op == OP_DIV { (a / b) as u32 }
    else if op == OP_AND { a & b }
    else if op == OP_OR { a | b }
    else if op == OP_XOR { a ^ b }
    else if op == OP_SHL { shl(a, b) }
    else if op == OP_SHR { shr(a, b) }
    else if op == OP_SAR { sar(a, b) }
    else if op == OP_EQU { if a == b { 1 } else { 0 } }
    else if op == OP_NEQ { if a != b { 1 } else { 0 } }
    else if op == OP_LT { if a < b { 1 } else { 0 } }
    else if op == OP_GT { if a > b { 1 } else { 0 } }
    else if op == OP_LTE { if a <= b { 1 } else { 0 } }
    else { if a >= b { 1 } else { 0 } }
}

/// The result of the one-operand instruction `op` on `a`.
pub open spec fn unary(op: u8, a: u32) -> u32 {
    if op == OP_INC { ((a + 1) % 0x1_0000_0000) as u32 }
    else if op == OP_DEC { ((a - 1 + 0x1_0000_0000) % 0x1_0000_0000) as u32 }
    else { !a }
}

/// Whether `op` is INC, DEC or NOT.
pub open spec fn is_unary(op: u8) -> bool {
    op == OP_INC || op == OP_DEC || op == OP_NOT
}

/// Arithmetic, logic and comparison instructions.
#[verifier::opaque]
pub open spec fn step_alu(op: u8, t: VmState) -> Step {
    if is_unary(op) {
        if depth(t) < 1 { Step::Trapped(Fault::StackUnderflow) }
        else { Step::Running(push(pop_n(t, 1), unary(op, nth(t, 0)))) }
    } else {
        if depth(t) < 2 { Step::Trapped(Fault::StackUnderflow) }
        else if op == OP_DIV && nth(t, 0) == 0 { Step::Trapped(Fault::DivisionByZero) }
        else { Step::Running(push(pop_n(t, 2), binary(op, nth(t, 1), nth(t, 0)))) }
    }
}

/// Branch to `target` from `s`, or trap when it lies outside memory.
pub open spec fn jump(s: VmState, target: u32) -> Step {
    if target >= MEM_SIZE { Step::Trapped(Fault::JumpOutOfRange) } else { Step::Running(with_ip(s, target as int)) }
}

/// Instructions that move words on the operand stack.
#[verifier::opaque]
pub open spec fn step_stack(op: u8, t: VmState) -> Step {
    if op == OP_LITW {
        if t.ip + 4 > MEM_SIZE { Step::Trapped(Fault::IpOutOfRange) }
        else { push_or_trap(with_ip(t, t.ip + 4), word_at(t.mem, t.ip)) }
    } else if op == OP_LITB {
        if t.ip + 1 > MEM_SIZE { Step::Trapped(Fault::IpOutOfRange) }
        else { push_or_trap(with_ip(t, t.ip + 1), t.mem[t.ip] as u32) }
    } else if op == OP_DUP {
        if depth(t) < 1 { Step::Trapped(Fault::StackUnderflow) } else { push_or_trap(t, nth(t, 0)) }
    } else if op == OP_DROP {
        if depth(t) < 1 { Step::Trapped(Fault::StackUnderflow) } else { Step::Running(pop_n(t, 1)) }
    } else if op == OP_SWAP {
        if depth(t) < 2 { Step::Trapped(Fault::StackUnderflow) }
        else { Step::Running(push(push(pop_n(t, 2), nth(t, 0)), nth(t, 1))) }
    } else if op == OP_OVER {
        if depth(t) < 2 { Step::Trapped(Fault::StackUnderflow) } else { push_or_trap(t, nth(t, 1)) }
    } else if op == OP_ROT {
        if depth(t) < 3 { Step::Trapped(Fault::StackUnderflow) }
        else { Step::Running(push(push(push(pop_n(t, 3), nth(t, 1)), nth(t, 0)), nth(t, 2))) }
    } else {
        // PICK
        if depth(t) < 1 || nth(t, 0) >= depth(t) - 1 { Step::Trapped(Fault::StackUnderflow) }
        else { Step::Running(push(pop_n(t, 1), nth(t, 1 + nth(t, 0)))) }
    }
}

/// Loads and stores; those outside linear memory go to the machine.
#[verifier::opaque]
pub open spec fn step_memory(op: u8, t: VmState) -> Step {
    if op == OP_LW || op == OP_LB {
        if depth(t) < 1 { Step::Trapped(Fault::StackUnderflow) }
        else if op == OP_LW && nth(t, 0) + 4 <= MEM_SIZE {
            Step::Running(push(pop_n(t, 1), word_at(t.mem, nth(t, 0) as int)))
        } else if op == OP_LB && nth(t, 0) + 1 <= MEM_SIZE {
            Step::Running(push(pop_n(t, 1), t.mem[nth(t, 0) as int] as u32))
        } else { Step::Device }
    } else {
        if depth(t) < 2 { Step::Trapped(Fault::StackUnderflow) }
        else if op == OP_SW && nth(t, 0) + 4 <= MEM_SIZE {
            let u = pop_n(t, 2);
            Step::Running(VmState { mem: store_word(u.mem, nth(t, 0) as int, nth(t, 1)), ..u })
        } else if op == OP_SB && nth(t, 0) + 1 <= MEM_SIZE {
            let u = pop_n(t, 2);
            Step::Running(VmState { mem: u.mem.update(nth(t, 0) as int, (nth(t, 1) % 0x100) as u8), ..u })
        } else { Step::Device }
    }
}

/// Jumps, calls and returns.
#[verifier::opaque]
pub open spec fn step_flow(op: u8, t: VmState) -> Step {
    if op == OP_JMP {
        if depth(t) < 1 { Step::Trapped(Fault::StackUnderflow) } else { jump(pop_n(t, 1), nth(t, 0)) }
    } else if op == OP_JZ || op == OP_JNZ {
        if depth(t) < 2 { Step::Trapped(Fault::StackUnderflow) }
        else if (nth(t, 1) == 0) == (op == OP_JZ) { jump(pop_n(t, 2), nth(t, 0)) }
        else { Step::Running(pop_n(t, 2)) }
    } else if op == OP_CALL {
        if depth(t) < 1 { Step::Trapped(Fault::StackUnderflow) }
        else if nth(t, 0) >= MEM_SIZE { Step::Trapped(Fault::JumpOutOfRange) }
        else if rdepth(t) >= STACK_SIZE / 4 { Step::Trapped(Fault::ReturnOverflow) }
        else { Step::Running(with_ip(rpush(pop_n(t, 1), t.ip as u32), nth(t, 0) as int)) }
    } else {
        // RET
        if rdepth(t) < 1 { Step::Trapped(Fault::ReturnUnderflow) } else { jump(rpop(t), rtop(t)) }
    }
}

/// Transfers between the operand and the return stack.
#[verifier::opaque]
pub open spec fn step_return(op: u8, t: VmState) -> Step {
    if op == OP_RPUSH {
        if depth(t) < 1 { Step::Trapped(Fault::StackUnderflow) }
        else if rdepth(t) >= STACK_SIZE / 4 { Step::Trapped(Fault::ReturnOverflow) }
        else { Step::Running(rpush(pop_n(t, 1), nth(t, 0))) }
    } else if rdepth(t) < 1 {
        Step::Trapped(Fault::ReturnUnderflow)
    } else if op == OP_RPOP {
        push_or_trap(rpop(t), rtop(t))
    } else if op == OP_RPEEK {
        push_or_trap(t, rtop(t))
    } else {
        // RDROP
        Step::Running(rpop(t))
    }
}

/// The locals frame: BEGIN, END, GET and SET.
#[verifier::opaque]
pub open spec fn step_locals(op: u8, t: VmState) -> Step {
    if depth(t) < 1 || (op == OP_SET && depth(t) < 2) {
        Step::Trapped(Fault::StackUnderflow)
    } else if op == OP_BEGIN {
        if nth(t, 0) > STACK_SIZE / 4 - ldepth(t) { Step::Trapped(Fault::LocalsOverflow) }
        else { Step::Running(VmState { lp: t.lp + 4 * nth(t, 0), ..pop_n(t, 1) }) }
    } else if op == OP_END {
        if nth(t, 0) > ldepth(t) { Step::Trapped(Fault::LocalsOutOfRange) }
        else { Step::Running(VmState { lp: t.lp - 4 * nth(t, 0), ..pop_n(t, 1) }) }
    } else if nth(t, 0) >= ldepth(t) {
        Step::Trapped(Fault::LocalsOutOfRange)
    } else if op == OP_GET {
        Step::Running(push(pop_n(t, 1), word_at(t.mem, local_slot(t, nth(t, 0) as int))))
    } else {
        // SET
        let u = pop_n(t, 2);
        Step::Running(VmState { mem: store_word(u.mem, local_slot(t, nth(t, 0) as int), nth(t, 1)), ..u })
    }
}

/// The effect of executing the instruction at `s.ip`.
pub open spec fn step_spec(s: VmState) -> Step {
    if s.ip >= MEM_SIZE {
        Step::Trapped(Fault::IpOutOfRange)
    } else {
        let op = s.mem[s.ip];
        let t = with_ip(s, s.ip + 1);
        if op == OP_HALT {
            Step::Halted(t)
        } else if op == OP_DBG {
            Step::Running(t)
        } else if OP_LITW <= op <= OP_PICK {
            step_stack(op, t)
        } else if is_binary(op) || is_unary(op) {
            step_alu(op, t)
        } else if OP_SW <= op <= OP_LB {
            step_memory(op, t)
        } else if OP_JMP <= op <= OP_JNZ {
            step_flow(op, t)
        } else if OP_RPUSH <= op <= OP_RDROP {
            step_return(op, t)
        } else if OP_BEGIN <= op <= OP_SET {
            step_locals(op, t)
        } else {
            Step::Trapped(Fault::UnknownOpcode)
        }
    }
}

/// The effect of up to `fuel` instructions from `s`: the first outcome that is
/// not `Running`, or the state reached when the fuel runs out.
pub open spec fn run_spec(s: VmState, fuel: nat) -> Step
    decreases fuel,
{
    if fuel == 0 {
        Step::Running(s)
    } else {
        match step_spec(s) {
            Step::Running(s2) => run_spec(s2, (fuel - 1) as nat),
            other => other,
        }
    }
}

/// Whether a step that ended in `r` took `old` to `new` as `st` says, for an
/// outcome that involves no device.
pub open spec fn follows(old: VmState, new: VmState, r: Result<(), Fault>, st: Step) -> bool {
    match st {
        Step::Running(n) => r is Ok && new == n,
        Step::Trapped(f) => r == Err::<(), Fault>(f) && new == old,
        _ => false,
    }
}

/// The trap that fault `f` raises at the instruction at `s.ip`.
pub open spec fn trap_at(s: VmState, f: Fault) -> Trap {
    Trap { fault: f, opcode: if s.ip < MEM_SIZE { s.mem[s.ip] } else { 0 }, ip: s.ip as u32 }
}

/// A load or store that the machine carries out.
#[derive(Debug, Clone, Copy, PartialEq, Eq, Structural)]
pub enum DeviceAccess {
    LoadWord { addr: u32 },
    LoadByte { addr: u32 },
    StoreWord { addr: u32, value: u32 },
    StoreByte { addr: u32, byte: u8 },
}

/// The access that the load or store at `s.ip` hands to the machine: the
/// address is the top operand, the value (for a store) the one below it, cut
/// to its low byte for SB.
pub open spec fn device_access(s: VmState) -> DeviceAccess {
    let op = s.mem[s.ip];
    let t = with_ip(s, s.ip + 1);
    if op == OP_LW {
        DeviceAccess::LoadWord { addr: nth(t, 0) }
    } else if op == OP_LB {
        DeviceAccess::LoadByte { addr: nth(t, 0) }
    } else if op == OP_SW {
        DeviceAccess::StoreWord { addr: nth(t, 0), value: nth(t, 1) }
    } else {
        DeviceAccess::StoreByte { addr: nth(t, 0), byte: (nth(t, 1) % 0x100) as u8 }
    }
}

/// How the load or store `op` at `s.ip` ends once the machine answered `got`
/// (for a load, the word read, or the byte read widened; a store's answer
/// carries no value). On success a load replaces the address by the answer,
/// a store drops address and value, and `ip` moves on; a fault leaves the
/// state as it is and names `op` and `ip`.
pub open spec fn device_finish(s: VmState, op: u8, got: Result<u32, Fault>) -> (VmState, Result<Status, Trap>) {
    let t = with_ip(s, s.ip + 1);
    match got {
        Err(f) => (s, Err(Trap { fault: f, opcode: op, ip: s.ip as u32 })),
        Ok(v) => if op == OP_LW || op == OP_LB {
            (push(pop_n(t, 1), v), Ok(Status::Running))
        } else {
            (pop_n(t, 2), Ok(Status::Running))
        },
    }
}

/// A device access ends as `device_finish` says for the memory `mem2` that
/// the machine left and the answer it gave.
pub open spec fn device_post(s: VmState, s2: VmState, r: Result<Status, Trap>) -> bool {
    exists|mem2: Seq<u8>, got: Result<u32, Fault>|
        mem2.len() == MEM_SIZE && #[trigger] device_finish(VmState { mem: mem2, ..s }, s.mem[s.ip], got) == (s2, r)
}

/// The state in which a run of up to `fuel` instructions from `s` stops: the
/// state before the first instruction that does not keep running, or the state
/// reached when the fuel runs out.
pub open spec fn last_state(s: VmState, fuel: nat) -> VmState
    decreases fuel,
{
    if fuel == 0 {
        s
    } else {
        match step_spec(s) {
            Step::Running(s2) => last_state(s2, (fuel - 1) as nat),
            _ => s,
        }
    }
}

/// A run that is still going after `a` instructions, at `c`, and stops at
/// the next one, stops at `c` for any larger fuel.
pub proof fn lemma_last_state(s: VmState, a: nat, c: VmState, n: nat)
    requires
        run_spec(s, a) == Step::Running(c),
        !(step_spec(c) is Running),
        n > a,
    ensures
        last_state(s, n) == c,
    decreases a,
{
    if a > 0 {
        match step_spec(s) {
            Step::Running(s2) => {
                lemma_last_state(s2, (a - 1) as nat, c, (n - 1) as nat);
            },
            _ => {},
        }
    }
}

/// What one call of `step` does, given the outcome that `step_spec` predicts.
pub open spec fn step_post(s: VmState, s2: VmState, r: Result<Status, Trap>) -> bool {
    match step_spec(s) {
        Step::Running(n) => r == Ok::<Status, Trap>(Status::Running) && s2 == n,
        Step::Halted(n) => r == Ok::<Status, Trap>(Status::Halted) && s2 == n,
        Step::Trapped(f) => r == Err::<Status, Trap>(trap_at(s, f)) && s2 == s,
        Step::Device => device_post(s, s2, r),
    }
}

/// Running `a` instructions and then `b` more is running `a + b`.
pub proof fn lemma_run_compose(s: VmState, a: nat, b: nat)
    ensures
        run_spec(s, a + b) == (match run_spec(s, a) {
            Step::Running(s2) => run_spec(s2, b),
            other => other,
        }),
    decreases a,
{
    if a > 0 {
        match step_spec(s) {
            Step::Running(s2) => {
                lemma_run_compose(s2, (a - 1) as nat, b);
                assert((a + b - 1) as nat == ((a - 1) as nat + b) as nat);
            },
            _ => {},
        }
    }
}

/// Once a run stops (halts, traps or reaches a device), more fuel changes nothing.
pub proof fn lemma_run_stops(s: VmState, a: nat, b: nat)
    requires
        !(run_spec(s, a) is Running),
        a <= b,
    ensures
        run_spec(s, b) == run_spec(s, a),
{
    lemma_run_compose(s, a, (b - a) as nat);
    assert(a + (b - a) as nat == b);
}

/// The result of the two-operand instruction `op` on `a b`.
fn alu(op: u8, a: u32, b: u32) -> (r: u32)
    requires
        is_binary(op),
        op == OP_DIV ==> b != 0,
    ensures
        r == binary(op, a, b),
{
    if op == OP_ADD {
        a.wrapping_add(b)
    } else if op == OP_SUB {
        a.wrapping_sub(b)
    } else if op == OP_MUL {
        a.wrapping_mul(b)
    } else if op == OP_DIV {
        a / b
    } else if op == OP_AND {
        a & b
    } else if op == OP_OR {
        a | b
    } else if op == OP_XOR {
        a ^ b
    } else if op == OP_SHL {
        if b >= 32 { 0 } else { a << b }
    } else if op == OP_SHR {
        if b >= 32 { 0 } else { a >> b }
    } else if op == OP_SAR {
        if a & 0x8000_0000 == 0 {
            if b >= 32 { 0 } else { a >> b }
        } else {
            let n = !a;
            !(if b >= 32 { 0 } else { n >> b })
        }
    } else if op == OP_EQU {
        if a == b { 1 } else { 0 }
    } else if op == OP_NEQ {
        if a != b { 1 } else { 0 }
    } else if op == OP_LT {
        if a < b { 1 } else { 0 }
    } else if op == OP_GT {
        if a > b { 1 } else { 0 }
    } else if op == OP_LTE {
        if a <= b { 1 } else { 0 }
    } else {
        if a >= b { 1 } else { 0 }
    }
}

/// When the run from `start` is still going after `count` instructions, at
/// `cur`, and the next instruction ends it, every shorter run is still going
/// and every longer one ends as that instruction does.
pub proof fn lemma_run_after(start: VmState, count: nat, cur: VmState)
    requires
        run_spec(start, count) == Step::Running(cur),
        !(step_spec(cur) is Running),
    ensures
        forall|n: nat| n <= count ==> #[trigger] run_spec(start, n) is Running,
        forall|n: nat| n > count ==> #[trigger] run_spec(start, n) == step_spec(cur),
{
    assert forall|n: nat| n <= count implies #[trigger] run_spec(start, n) is Running by {
        if !(run_spec(start, n) is Running) {
            lemma_run_stops(start, n, count);
        }
    }
    lemma_run_compose(start, count, 1);
    assert(run_spec(cur, 1) == step_spec(cur));
    assert forall|n: nat| n > count implies #[trigger] run_spec(start, n) == step_spec(cur) by {
        lemma_run_stops(start, count + 1, n);
    }
}

/// Largest number of instructions that one `run` executes.
pub const STEP_LIMIT: u64 = 0xFFFF_FFFF_FFFF_FFFF;

/// The interpreter: linear memory with the three stacks at its top, and the
/// instruction pointer.
pub struct VirtualMachine {
    mem: DirectMemoryAccess,
    ip: u32,
    sp: u32,
    rp: u32,
    lp: u32,
}

impl View for VirtualMachine {
    type V = VmState;

    closed spec fn view(&self) -> VmState {
        VmState { mem: self.mem@, ip: self.ip as int, sp: self.sp as int, rp: self.rp as int, lp: self.lp as int }
    }
}

impl VirtualMachine {
    pub open spec fn wf(&self) -> bool {
        state_wf(self@)
    }

    /// A machine with zeroed memory, empty stacks and `ip` at the reset vector.
    pub fn new() -> (r: Self)
        ensures
            r.wf(),
            r@.mem == Seq::new(MEM_SIZE as nat, |i: int| 0u8),
            r@.ip == RESET_VECTOR,
            r@.sp == SP_OFFSET,
            r@.rp == RP_OFFSET,
            r@.lp == LOCAL_OFFSET,
    {
        let mem = DirectMemoryAccess::new();
        VirtualMachine {
            mem,
            ip: RESET_VECTOR,
            sp: SP_OFFSET as u32,
            rp: RP_OFFSET as u32,
            lp: LOCAL_OFFSET as u32,
        }
    }

    /// Direct access to linear memory.
    pub fn dma(&mut self) -> (r: &mut DirectMemoryAccess)
        ensures
            r@ == old(self)@.mem,
            final(self)@ == (VmState { mem: final(r)@, ..old(self)@ }),
    {
        &mut self.mem
    }

    fn depth(&self) -> (r: u32)
        requires
            self.wf(),
        ensures
            r == depth(self@),
            r <= STACK_SIZE / 4,
    {
        (self.sp - SP_OFFSET as u32) / 4
    }

    fn rdepth(&self) -> (r: u32)
        requires
            self.wf(),
        ensures
            r == rdepth(self@),
            r <= STACK_SIZE / 4,
    {
        (self.rp - RP_OFFSET as u32) / 4
    }

    fn ldepth(&self) -> (r: u32)
        requires
            self.wf(),
        ensures
            r == ldepth(self@),
            r <= STACK_SIZE / 4,
    {
        (self.lp - LOCAL_OFFSET as u32) / 4
    }

    /// The operand `k` places below the top.
    fn nth(&self, k: u32) -> (r: u32)
        requires
            self.wf(),
            k < depth(self@),
        ensures
            r == nth(self@, k as int),
    {
        self.mem.read_u32(self.sp - 4 - 4 * k)
    }

    fn push(&mut self, v: u32)
        requires
            old(self).wf(),
            depth(old(self)@) < STACK_SIZE / 4,
        ensures
            final(self).wf(),
            final(self)@ == push(old(self)@, v),
    {
        self.mem.write_u32(self.sp, v);
        self.sp = self.sp + 4;
    }

    fn pop_n(&mut self, n: u32)
        requires
            old(self).wf(),
            n <= depth(old(self)@),
        ensures
            final(self).wf(),
            final(self)@ == pop_n(old(self)@, n as int),
    {
        self.sp = self.sp - 4 * n;
    }

    fn rtop(&self) -> (r: u32)
        requires
            self.wf(),
            rdepth(self@) >= 1,
        ensures
            r == rtop(self@),
    {
        self.mem.read_u32(self.rp - 4)
    }

    fn rpush(&mut self, v: u32)
        requires
            old(self).wf(),
            rdepth(old(self)@) < STACK_SIZE / 4,
        ensures
            final(self).wf(),
            final(self)@ == rpush(old(self)@, v),
    {
        self.mem.write_u32(self.rp, v);
        self.rp = self.rp + 4;
    }

    fn rpop(&mut self)
        requires
            old(self).wf(),
            rdepth(old(self)@) >= 1,
        ensures
            final(self).wf(),
            final(self)@ == rpop(old(self)@),
    {
        self.rp = self.rp - 4;
    }

    /// Pushes `v`, or reports a full operand stack.
    fn push_checked(&mut self, v: u32) -> (r: Result<(), Fault>)
        requires
            old(self).wf(),
        ensures
            final(self).wf(),
            follows(old(self)@, final(self)@, r, push_or_trap(old(self)@, v)),
    {
        if self.depth() >= (STACK_SIZE / 4) as u32 {
            return Err(Fault::StackOverflow);
        }
        self.push(v);
        Ok(())
    }

    /// LITW, LITB, DUP, DROP, SWAP, OVER, ROT and PICK; `ip` is already past the opcode.
    fn exec_stack(&mut self, op: u8) -> (r: Result<(), Fault>)
        requires
            old(self).wf(),
            OP_LITW <= op <= OP_PICK,
        ensures
            final(self).wf(),
            follows(old(self)@, final(self)@, r, step_stack(op, old(self)@)),
    {
        proof { reveal(step_stack); }
        let d = self.depth();
        if op == OP_LITW {
            if self.ip as usize + 4 > MEM_SIZE {
                return Err(Fault::IpOutOfRange);
            }
            let v = self.mem.read_u32(self.ip);
            let ip = self.ip + 4;
            let saved = self.ip;
            self.ip = ip;
            let r = self.push_checked(v);
            if r.is_err() {
                self.ip = saved;
            }
            r
        } else if op == OP_LITB {
            if self.ip as usize + 1 > MEM_SIZE {
                return Err(Fault::IpOutOfRange);
            }
            let v = self.mem.read_u8(self.ip) as u32;
            let saved = self.ip;
            self.ip = self.ip + 1;
            let r = self.push_checked(v);
            if r.is_err() {
                self.ip = saved;
            }
            r
        } else if op == OP_DUP {
            if d < 1 {
                return Err(Fault::StackUnderflow);
            }
            let a = self.nth(0);
            self.push_checked(a)
        } else if op == OP_DROP {
            if d < 1 {
                return Err(Fault::StackUnderflow);
            }
            self.pop_n(1);
            Ok(())
        } else if op == OP_SWAP {
            if d < 2 {
                return Err(Fault::StackUnderflow);
            }
            let b = self.nth(0);
            let a = self.nth(1);
            self.pop_n(2);
            self.push(b);
            self.push(a);
            Ok(())
        } else if op == OP_OVER {
            if d < 2 {
                return Err(Fault::StackUnderflow);
            }
            let a = self.nth(1);
            self.push_checked(a)
        } else if op == OP_ROT {
            if d < 3 {
                return Err(Fault::StackUnderflow);
            }
            let c = self.nth(0);
            let b = self.nth(1);
            let a = self.nth(2);
            self.pop_n(3);
            self.push(b);
            self.push(c);
            self.push(a);
            Ok(())
        } else {
            if d < 1 {
                return Err(Fault::StackUnderflow);
            }
            let index = self.nth(0);
            if index >= d - 1 {
                return Err(Fault::StackUnderflow);
            }
            let v = self.nth(1 + index);
            self.pop_n(1);
            self.push(v);
            Ok(())
        }
    }

    /// INC, DEC and NOT; `ip` is already past the opcode.
    fn exec_unary(&mut self, op: u8) -> (r: Result<(), Fault>)
        requires
            old(self).wf(),
            is_unary(op),
        ensures
            final(self).wf(),
            follows(old(self)@, final(self)@, r, step_alu(op, old(self)@)),
    {
        proof { reveal(step_alu); }
        if self.depth() < 1 {
            return Err(Fault::StackUnderflow);
        }
        let a = self.nth(0);
        let v = if op == OP_INC {
            a.wrapping_add(1)
        } else if op == OP_DEC {
            a.wrapping_sub(1)
        } else {
            !a
        };
        self.pop_n(1);
        self.push(v);
        Ok(())
    }

    /// Two-operand arithmetic, logic and comparison; `ip` is already past the opcode.
    fn exec_binary(&mut self, op: u8) -> (r: Result<(), Fault>)
        requires
            old(self).wf(),
            is_binary(op),
        ensures
            final(self).wf(),
            follows(old(self)@, final(self)@, r, step_alu(op, old(self)@)),
    {
        proof { reveal(step_alu); }
        if self.depth() < 2 {
            return Err(Fault::StackUnderflow);
        }
        let b = self.nth(0);
        let a = self.nth(1);
        if op == OP_DIV && b == 0 {
            return Err(Fault::DivisionByZero);
        }
        let v = alu(op, a, b);
        self.pop_n(2);
        self.push(v);
        Ok(())
    }

    /// Jumps, calls and returns; `ip` is already past the opcode.
    fn exec_flow(&mut self, op: u8) -> (r: Result<(), Fault>)
        requires
            old(self).wf(),
            OP_JMP <= op <= OP_JNZ,
        ensures
            final(self).wf(),
            follows(old(self)@, final(self)@, r, step_flow(op, old(self)@)),
    {
        proof { reveal(step_flow); }
        let d = self.depth();
        if op == OP_JMP {
            if d < 1 {
                return Err(Fault::StackUnderflow);
            }
            let target = self.nth(0);
            if target as usize >= MEM_SIZE {
                return Err(Fault::JumpOutOfRange);
            }
            self.pop_n(1);
            self.ip = target;
            Ok(())
        } else if op == OP_JZ || op == OP_JNZ {
            if d < 2 {
                return Err(Fault::StackUnderflow);
            }
            let target = self.nth(0);
            let cond = self.nth(1);
            if (cond == 0) == (op == OP_JZ) {
                if target as usize >= MEM_SIZE {
                    return Err(Fault::JumpOutOfRange);
                }
                self.pop_n(2);
                self.ip = target;
            } else {
                self.pop_n(2);
            }
            Ok(())
        } else if op == OP_CALL {
            if d < 1 {
                return Err(Fault::StackUnderflow);
            }
            let target = self.nth(0);
            if target as usize >= MEM_SIZE {
                return Err(Fault::JumpOutOfRange);
            }
            if self.rdepth() >= (STACK_SIZE / 4) as u32 {
                return Err(Fault::ReturnOverflow);
            }
            let back = self.ip;
            self.pop_n(1);
            self.rpush(back);
            self.ip = target;
            Ok(())
        } else {
            if self.rdepth() < 1 {
                return Err(Fault::ReturnUnderflow);
            }
            let target = self.rtop();
            if target as usize >= MEM_SIZE {
                return Err(Fault::JumpOutOfRange);
            }
            self.rpop();
            self.ip = target;
            Ok(())
        }
    }

    /// RPUSH, RPOP, RPEEK and RDROP; `ip` is already past the opcode.
    fn exec_return(&mut self, op: u8) -> (r: Result<(), Fault>)
        requires
            old(self).wf(),
            OP_RPUSH <= op <= OP_RDROP,
        ensures
            final(self).wf(),
            follows(old(self)@, final(self)@, r, step_return(op, old(self)@)),
    {
        proof { reveal(step_return); }
        if op == OP_RPUSH {
            if self.depth() < 1 {
                return Err(Fault::StackUnderflow);
            }
            if self.rdepth() >= (STACK_SIZE / 4) as u32 {
                return Err(Fault::ReturnOverflow);
            }
            let v = self.nth(0);
            self.pop_n(1);
            self.rpush(v);
            return Ok(());
        }
        if self.rdepth() < 1 {
            return Err(Fault::ReturnUnderflow);
        }
        let v = self.rtop();
        if op == OP_RPOP {
            if self.depth() >= (STACK_SIZE / 4) as u32 {
                return Err(Fault::StackOverflow);
            }
            self.rpop();
            self.push(v);
        } else if op == OP_RPEEK {
            if self.depth() >= (STACK_SIZE / 4) as u32 {
                return Err(Fault::StackOverflow);
            }
            self.push(v);
        } else {
            self.rpop();
        }
        Ok(())
    }

    /// BEGIN, END, GET and SET; `ip` is already past the opcode.
    fn exec_locals(&mut self, op: u8) -> (r: Result<(), Fault>)
        requires
            old(self).wf(),
            OP_BEGIN <= op <= OP_SET,
        ensures
            final(self).wf(),
            follows(old(self)@, final(self)@, r, step_locals(op, old(self)@)),
    {
        proof { reveal(step_locals); }
        let d = self.depth();
        if d < 1 || (op == OP_SET && d < 2) {
            return Err(Fault::StackUnderflow);
        }
        let n = self.nth(0);
        let ld = self.ldepth();
        if op == OP_BEGIN {
            if n > (STACK_SIZE / 4) as u32 - ld {
                return Err(Fault::LocalsOverflow);
            }
            self.pop_n(1);
            self.lp = self.lp + 4 * n;
            Ok(())
        } else if op == OP_END {
            if n > ld {
                return Err(Fault::LocalsOutOfRange);
            }
            self.pop_n(1);
            self.lp = self.lp - 4 * n;
            Ok(())
        } else if n >= ld {
            Err(Fault::LocalsOutOfRange)
        } else if op == OP_GET {
            let v = self.mem.read_u32(self.lp - 4 - 4 * n);
            self.pop_n(1);
            self.push(v);
            Ok(())
        } else {
            let v = self.nth(1);
            let slot = self.lp - 4 - 4 * n;
            self.pop_n(2);
            self.mem.write_u32(slot, v);
            Ok(())
        }
    }

    /// The words of the stack whose base is `base` and cursor `top`, bottom first.
    fn words(&self, base: u32, top: u32) -> (r: Vec<u32>)
        requires
            self.wf(),
            base <= top <= MEM_SIZE,
            (top - base) % 4 == 0,
        ensures
            r@ == Seq::new(((top - base) / 4) as nat, |i: int| word_at(self@.mem, base + 4 * i)),
    {
        let mut r: Vec<u32> = Vec::new();
        let mut a = base;
        while a < top
            invariant
                self.wf(),
                base <= a <= top <= MEM_SIZE,
                (top - base) % 4 == 0,
                (a - base) % 4 == 0,
                r@ == Seq::new(((a - base) / 4) as nat, |i: int| word_at(self@.mem, base + 4 * i)),
            decreases top - a,
        {
            r.push(self.mem.read_u32(a));
            a = a + 4;
            assert(r@ =~= Seq::new(((a - base) / 4) as nat, |i: int| word_at(self@.mem, base + 4 * i)));
        }
        r
    }

    /// The operand stack, bottom first.
    pub fn stack(&self) -> (r: Vec<u32>)
        requires
            self.wf(),
        ensures
            r@ == stack(self@),
    {
        self.words(SP_OFFSET as u32, self.sp)
    }

    /// The return stack, bottom first.
    pub fn rstack(&self) -> (r: Vec<u32>)
        requires
            self.wf(),
        ensures
            r@ == rstack(self@),
    {
        self.words(RP_OFFSET as u32, self.rp)
    }

    /// The instruction pointer.
    pub fn ip(&self) -> (r: u32)
        ensures
            r == self@.ip,
    {
        self.ip
    }

    /// Copies a ROM image to the reset vector.
    pub fn load(&mut self, data: &[u8])
        requires
            old(self).wf(),
            RESET_VECTOR + data@.len() <= LOCAL_OFFSET,
        ensures
            final(self).wf(),
            final(self)@ == (VmState { mem: store_bytes(old(self)@.mem, RESET_VECTOR as int, data@), ..old(self)@ }),
    {
        self.mem.write(RESET_VECTOR, data);
    }

    /// The access that the load or store at `ip` hands to the machine.
    pub fn device_access(&self) -> (r: DeviceAccess)
        requires
            self.wf(),
            step_spec(self@) is Device,
        ensures
            r == device_access(self@),
    {
        proof { reveal(step_memory); }
        let op = self.mem.read_u8(self.ip);
        let t = self.sp;
        let addr = self.mem.read_u32(t - 4);
        if op == OP_LW {
            DeviceAccess::LoadWord { addr }
        } else if op == OP_LB {
            DeviceAccess::LoadByte { addr }
        } else if op == OP_SW {
            DeviceAccess::StoreWord { addr, value: self.mem.read_u32(t - 8) }
        } else {
            DeviceAccess::StoreByte { addr, byte: (self.mem.read_u32(t - 8) % 0x100) as u8 }
        }
    }

    /// Completes the load `op` at `ip` with the machine's answer `got` (for LB,
    /// the byte read widened): see `device_finish`.
    pub fn finish_load(&mut self, op: u8, got: Result<u32, Fault>) -> (r: Result<Status, Trap>)
        requires
            old(self).wf(),
            old(self)@.ip < MEM_SIZE,
            op == OP_LW || op == OP_LB,
            depth(old(self)@) >= 1,
        ensures
            final(self).wf(),
            (final(self)@, r) == device_finish(old(self)@, op, got),
    {
        match got {
            Ok(v) => {
                self.ip = self.ip + 1;
                self.pop_n(1);
                self.push(v);
                Ok(Status::Running)
            },
            Err(fault) => Err(Trap { fault, opcode: op, ip: self.ip }),
        }
    }

    /// Completes the store `op` at `ip` with the machine's answer `got`: see
    /// `device_finish`.
    pub fn finish_store(&mut self, op: u8, got: Result<(), Fault>) -> (r: Result<Status, Trap>)
        requires
            old(self).wf(),
            old(self)@.ip < MEM_SIZE,
            op == OP_SW || op == OP_SB,
            depth(old(self)@) >= 2,
        ensures
            final(self).wf(),
            (final(self)@, r) == device_finish(old(self)@, op, match got {
                Ok(()) => Ok(0u32),
                Err(f) => Err(f),
            }),
    {
        match got {
            Ok(()) => {
                self.ip = self.ip + 1;
                self.pop_n(2);
                Ok(Status::Running)
            },
            Err(fault) => Err(Trap { fault, opcode: op, ip: self.ip }),
        }
    }

    /// Loads and stores; `ip` is at the opcode `op`.
    fn exec_memory<M: Machine>(&mut self, machine: &mut M, op: u8) -> (r: Result<Status, Trap>)
        requires
            old(self).wf(),
            old(self)@.ip < MEM_SIZE,
            old(self)@.mem[old(self)@.ip] == op,
            OP_SW <= op <= OP_LB,
        ensures
            final(self).wf(),
            step_post(old(self)@, final(self)@, r),
    {
        proof { reveal(step_memory); }
        let at = self.ip;
        let d = self.depth();
        if op == OP_LW || op == OP_LB {
            if d < 1 {
                return Err(Trap { fault: Fault::StackUnderflow, opcode: op, ip: at });
            }
            let addr = self.nth(0);
            if (op == OP_LW && addr <= (MEM_SIZE - 4) as u32) || (op == OP_LB && (addr as usize) < MEM_SIZE) {
                let v = if op == OP_LW { self.mem.read_u32(addr) } else { self.mem.read_u8(addr) as u32 };
                self.ip = at + 1;
                self.pop_n(1);
                self.push(v);
                return Ok(Status::Running);
            }
            let ghost s = self@;
            let access = self.device_access();
            let got = match access {
                DeviceAccess::LoadWord { addr } => machine.read_u32(addr, &mut self.mem),
                DeviceAccess::LoadByte { addr } => match machine.read_u8(addr, &mut self.mem) {
                    Ok(b) => Ok(b as u32),
                    Err(f) => Err(f),
                },
                _ => Err(Fault::UnknownOpcode),
            };
            proof { use_type_invariant(&self.mem); }
            let ghost mid = self@;
            let r = self.finish_load(op, got);
            proof {
                assert(mid == VmState { mem: mid.mem, ..s });
                assert(device_finish(VmState { mem: mid.mem, ..s }, s.mem[s.ip], got) == (self@, r));
            }
            r
        } else {
            if d < 2 {
                return Err(Trap { fault: Fault::StackUnderflow, opcode: op, ip: at });
            }
            let addr = self.nth(0);
            let v = self.nth(1);
            if (op == OP_SW && addr <= (MEM_SIZE - 4) as u32) || (op == OP_SB && (addr as usize) < MEM_SIZE) {
                self.ip = at + 1;
                self.pop_n(2);
                if op == OP_SW {
                    self.mem.write_u32(addr, v);
                } else {
                    self.mem.write_u8(addr, (v % 0x100) as u8);
                }
                return Ok(Status::Running);
            }
            let ghost s = self@;
            let access = self.device_access();
            let done = match access {
                DeviceAccess::StoreWord { addr, value } => machine.write_u32(addr, value, &mut self.mem),
                DeviceAccess::StoreByte { addr, byte } => machine.write_u8(addr, byte, &mut self.mem),
                _ => Err(Fault::UnknownOpcode),
            };
            proof { use_type_invariant(&self.mem); }
            let ghost mid = self@;
            let ghost answer: Result<u32, Fault> = match done {
                Ok(()) => Ok(0u32),
                Err(f) => Err(f),
            };
            let r = self.finish_store(op, done);
            proof {
                assert(mid == VmState { mem: mid.mem, ..s });
                assert(device_finish(VmState { mem: mid.mem, ..s }, s.mem[s.ip], answer) == (self@, r));
            }
            r
        }
    }

    /// Executes the instruction at `ip`. Accesses outside linear memory go to
    /// `machine`; DBG hands it the instruction pointer and both stacks.
    pub fn step<M: Machine>(&mut self, machine: &mut M) -> (r: Result<Status, Trap>)
        requires
            old(self).wf(),
        ensures
            final(self).wf(),
            step_post(old(self)@, final(self)@, r),
    {
        let at = self.ip;
        if at as usize >= MEM_SIZE {
            return Err(Trap { fault: Fault::IpOutOfRange, opcode: 0, ip: at });
        }
        let op = self.mem.read_u8(at);
        self.ip = at + 1;
        assert(self@ == with_ip(old(self)@, old(self)@.ip + 1));
        let res = if op == OP_HALT {
            return Ok(Status::Halted);
        } else if op == OP_DBG {
            let stack = self.stack();
            let rstack = self.rstack();
            machine.dump(at, stack, rstack);
            return Ok(Status::Running);
        } else if OP_LITW <= op && op <= OP_PICK {
            self.exec_stack(op)
        } else if op == OP_INC || op == OP_DEC || op == OP_NOT {
            self.exec_unary(op)
        } else if (OP_ADD <= op && op <= OP_SAR) || (OP_EQU <= op && op <= OP_GTE) {
            self.exec_binary(op)
        } else if OP_SW <= op && op <= OP_LB {
            self.ip = at;
            return self.exec_memory(machine, op);
        } else if OP_JMP <= op && op <= OP_JNZ {
            self.exec_flow(op)
        } else if OP_RPUSH <= op && op <= OP_RDROP {
            self.exec_return(op)
        } else if OP_BEGIN <= op && op <= OP_SET {
            self.exec_locals(op)
        } else {
            Err(Fault::UnknownOpcode)
        };
        match res {
            Ok(()) => Ok(Status::Running),
            Err(fault) => {
                self.ip = at;
                Err(Trap { fault, opcode: op, ip: at })
            },
        }
    }

    /// Runs from `entry` until HALT or a fault; an `entry` of 0 runs nothing.
    /// Where the instructions run touch no device, the outcome is the one that
    /// `run_spec` gives.
    pub fn run<M: Machine>(&mut self, machine: &mut M, entry: u32) -> (r: Result<(), Trap>)
        requires
            old(self).wf(),
        ensures
            final(self).wf(),
            entry == 0 ==> r is Ok && final(self)@ == old(self)@,
            entry >= MEM_SIZE ==> r == Err::<(), Trap>(Trap { fault: Fault::IpOutOfRange, opcode: 0, ip: entry })
                && final(self)@ == old(self)@,
            entry != 0 && entry < MEM_SIZE ==> forall|n: nat| n <= STEP_LIMIT ==> {
                &&& #[trigger] run_spec(with_ip(old(self)@, entry as int), n) matches Step::Halted(s2)
                    ==> r is Ok && final(self)@ == s2
                &&& run_spec(with_ip(old(self)@, entry as int), n) matches Step::Trapped(f)
                    ==> r == Err::<(), Trap>(trap_at(last_state(with_ip(old(self)@, entry as int), n), f))
                        && final(self)@ == last_state(with_ip(old(self)@, entry as int), n)
            },
    {
        if entry == 0 {
            return Ok(());
        }
        if entry as usize >= MEM_SIZE {
            return Err(Trap { fault: Fault::IpOutOfRange, opcode: 0, ip: entry });
        }
        self.ip = entry;
        let ghost start = self@;
        let ghost mut pure = true;
        let ghost mut stop: nat = 0;
        let mut count: u64 = 0;
        while count < STEP_LIMIT
            invariant
                self.wf(),
                entry != 0 && entry < MEM_SIZE,
                start == with_ip(old(self)@, entry as int),
                pure ==> run_spec(start, count as nat) == Step::Running(self@),
                !pure ==> forall|n: nat| #[trigger] run_spec(start, n) is Running || run_spec(start, n) is Device,
            decreases STEP_LIMIT - count,
        {
            let ghost before = self@;
            let res = self.step(machine);
            proof {
                if pure && !(step_spec(before) is Running) {
                    lemma_run_after(start, count as nat, before);
                    assert forall|n: nat| n > count implies #[trigger] last_state(start, n) == before by {
                        lemma_last_state(start, count as nat, before, n);
                    }
                    if step_spec(before) is Device {
                        pure = false;
                    }
                }
            }
            match res {
                Ok(Status::Running) => {},
                Ok(Status::Halted) => return Ok(()),
                Err(trap) => return Err(trap),
            }
            proof {
                if pure {
                    lemma_run_compose(start, count as nat, 1);
                    assert(run_spec(self@, 0) == Step::Running(self@));
                    assert(run_spec(before, 1) == Step::Running(self@));
                }
            }
            count = count + 1;
        }
        proof {
            if pure {
                assert forall|n: nat| n <= STEP_LIMIT implies #[trigger] run_spec(start, n) is Running by {
                    if !(run_spec(start, n) is Running) {
                        lemma_run_stops(start, n, count as nat);
                    }
                }
            }
        }
        Err(Trap { fault: Fault::StepLimit, opcode: 0, ip: self.ip })
    }
}

} // verus!

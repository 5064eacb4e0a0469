//! Laws of the interpreter, stated over `step_spec` and `run_spec`.
use vstd::prelude::*;
use crate::bytecode::{OP_BEGIN, OP_SET, OP_HALT, OP_LITW, OP_DROP, OP_EQU, OP_DIV, OP_MUL, OP_SUB};
use crate::dma::{word_le, word_at, store_word, lemma_word_round_trip};
use crate::memory::{MEM_SIZE, STACK_SIZE, SP_OFFSET, LOCAL_OFFSET};
use crate::vm::{
    Fault, VmState, Step, state_wf, depth, ldepth, stack, push, pop_n, with_ip, nth, step_spec, run_spec,
    step_stack, step_alu, step_memory, step_flow, step_return, step_locals, binary, is_binary, is_unary,
    lemma_run_compose,
};

verus! {

/// The five bytes of `LITW v`.
pub open spec fn litw(v: u32) -> Seq<u8> {
    seq![OP_LITW, (v % 0x100) as u8, ((v / 0x100) % 0x100) as u8, ((v / 0x1_0000) % 0x100) as u8,
        (v / 0x100_0000) as u8]
}

/// Whether `code` is stored in `mem` from address `at` on.
pub open spec fn code_at(mem: Seq<u8>, at: int, code: Seq<u8>) -> bool {
    forall|i: int| 0 <= i < code.len() ==> #[trigger] mem[at + i] == code[i]
}

/// Memory below the stack reservations is the same in both states.
pub open spec fn same_below_stacks(s: VmState, s2: VmState) -> bool {
    forall|i: int| 0 <= i < LOCAL_OFFSET ==> #[trigger] s2.mem[i] == s.mem[i]
}

/// An instruction whose code starts at `s.ip` and lies below the stacks.
pub open spec fn fetchable(s: VmState, len: int) -> bool {
    state_wf(s) && s.ip + len <= LOCAL_OFFSET
}

proof fn lemma_word_le_of_bytes(v: u32)
    ensures
        word_le((v % 0x100) as u8, ((v / 0x100) % 0x100) as u8, ((v / 0x1_0000) % 0x100) as u8,
            (v / 0x100_0000) as u8) == v,
{
    let mem = Seq::new(4, |i: int| 0u8);
    lemma_word_round_trip(mem, 0, v);
    let m = store_word(mem, 0, v);
    assert(m[0] == (v % 0x100) as u8);
    assert(m[1] == ((v / 0x100) % 0x100) as u8);
    assert(m[2] == ((v / 0x1_0000) % 0x100) as u8);
    assert(m[3] == (v / 0x100_0000) as u8);
}

/// Pushing `v` extends the stack by `v` and leaves memory below the stacks alone.
proof fn lemma_push(s: VmState, v: u32)
    requires
        state_wf(s),
        depth(s) < STACK_SIZE / 4,
    ensures
        state_wf(push(s, v)),
        stack(push(s, v)) == stack(s).push(v),
        same_below_stacks(s, push(s, v)),
        push(s, v).ip == s.ip,
        push(s, v).rp == s.rp,
        push(s, v).lp == s.lp,
{
    let s2 = push(s, v);
    lemma_word_round_trip(s.mem, s.sp, v);
    assert forall|i: int| 0 <= i < depth(s) implies
        #[trigger] word_at(s2.mem, SP_OFFSET + 4 * i) == word_at(s.mem, SP_OFFSET + 4 * i) by {
        let a = SP_OFFSET + 4 * i;
        assert(s2.mem[a] == s.mem[a]);
        assert(s2.mem[a + 1] == s.mem[a + 1]);
        assert(s2.mem[a + 2] == s.mem[a + 2]);
        assert(s2.mem[a + 3] == s.mem[a + 3]);
    }
    assert(stack(s2) =~= stack(s).push(v));
}

/// Popping `n` words shortens the stack by `n`.
proof fn lemma_pop(s: VmState, n: int)
    requires
        state_wf(s),
        0 <= n <= depth(s),
    ensures
        state_wf(pop_n(s, n)),
        stack(pop_n(s, n)) == stack(s).subrange(0, depth(s) - n),
        pop_n(s, n).mem == s.mem,
{
    assert(stack(pop_n(s, n)) =~= stack(s).subrange(0, depth(s) - n));
}

/// The operand `k` places below the top is the stack's element `depth - 1 - k`.
proof fn lemma_nth(s: VmState, k: int)
    requires
        state_wf(s),
        0 <= k < depth(s),
    ensures
        nth(s, k) == stack(s)[depth(s) - 1 - k],
{
}

/// `LITW v` pushes `v` and moves past its five bytes.
proof fn lemma_step_litw(s: VmState, v: u32) -> (s2: VmState)
    requires
        fetchable(s, 5),
        code_at(s.mem, s.ip, litw(v)),
        depth(s) < STACK_SIZE / 4,
    ensures
        step_spec(s) == Step::Running(s2),
        s2 == push(with_ip(s, s.ip + 5), v),
        state_wf(s2),
        s2.ip == s.ip + 5,
        stack(s2) == stack(s).push(v),
        same_below_stacks(s, s2),
{
    reveal(step_stack);
    assert(s.mem[s.ip] == OP_LITW) by { assert(s.mem[s.ip + 0] == litw(v)[0]); }
    let t = with_ip(s, s.ip + 1);
    assert(t.mem[t.ip] == litw(v)[1] && t.mem[t.ip + 1] == litw(v)[2] && t.mem[t.ip + 2] == litw(v)[3]
        && t.mem[t.ip + 3] == litw(v)[4]) by {
        assert(s.mem[s.ip + 1] == litw(v)[1]);
        assert(s.mem[s.ip + 2] == litw(v)[2]);
        assert(s.mem[s.ip + 3] == litw(v)[3]);
        assert(s.mem[s.ip + 4] == litw(v)[4]);
    }
    lemma_word_le_of_bytes(v);
    assert(word_at(t.mem, t.ip) == v);
    let s2 = push(with_ip(t, t.ip + 4), v);
    lemma_push(with_ip(t, t.ip + 4), v);
    s2
}

/// A two-operand instruction replaces the top two operands by its result.
proof fn lemma_step_binary(s: VmState, op: u8) -> (s2: VmState)
    requires
        fetchable(s, 1),
        s.mem[s.ip] == op,
        is_binary(op),
        depth(s) >= 2,
        op == OP_DIV ==> nth(s, 0) != 0,
    ensures
        step_spec(s) == Step::Running(s2),
        state_wf(s2),
        s2.ip == s.ip + 1,
        stack(s2) == stack(s).subrange(0, depth(s) - 2).push(binary(op, nth(s, 1), nth(s, 0))),
        same_below_stacks(s, s2),
{
    reveal(step_alu);
    let t = with_ip(s, s.ip + 1);
    let u = pop_n(t, 2);
    lemma_pop(t, 2);
    lemma_push(u, binary(op, nth(s, 1), nth(s, 0)));
    push(u, binary(op, nth(s, 1), nth(s, 0)))
}

/// Code below the stacks survives a step that keeps that memory.
proof fn lemma_code_kept(s: VmState, s2: VmState, at: int, code: Seq<u8>)
    requires
        same_below_stacks(s, s2),
        code_at(s.mem, at, code),
        0 <= at,
        at + code.len() <= LOCAL_OFFSET,
    ensures
        code_at(s2.mem, at, code),
{
    assert forall|i: int| 0 <= i < code.len() implies #[trigger] s2.mem[at + i] == code[i] by {
        assert(s.mem[at + i] == code[i]);
    }
}

/// One more instruction of fuel after a running step.
proof fn lemma_run_step(s: VmState, s1: VmState, n: nat)
    requires
        step_spec(s) == Step::Running(s1),
    ensures
        run_spec(s, n + 1) == run_spec(s1, n),
{
    assert((n + 1) as nat - 1 == n);
}

/// Pushing a word and dropping it again leaves every byte of memory as it was,
/// provided the free slot already held that word; memory outside the free
/// slot is unchanged in any case.
pub proof fn law_litw_drop_keeps_memory(s: VmState, v: u32)
    requires
        fetchable(s, 6),
        code_at(s.mem, s.ip, litw(v).push(OP_DROP)),
        depth(s) < STACK_SIZE / 4,
    ensures
        run_spec(s, 2) matches Step::Running(s2) && {
            &&& s2.ip == s.ip + 6
            &&& s2.sp == s.sp
            &&& forall|i: int| 0 <= i < MEM_SIZE && !(s.sp <= i < s.sp + 4) ==> #[trigger] s2.mem[i] == s.mem[i]
            &&& word_at(s.mem, s.sp) == v ==> s2.mem == s.mem
        },
{
    let code = litw(v).push(OP_DROP);
    assert(code_at(s.mem, s.ip, litw(v))) by {
        assert forall|i: int| 0 <= i < 5 implies #[trigger] s.mem[s.ip + i] == litw(v)[i] by {
            assert(s.mem[s.ip + i] == code[i]);
        }
    }
    let s1 = lemma_step_litw(s, v);
    assert(s1.mem[s1.ip] == OP_DROP) by {
        assert(s.mem[s.ip + 5] == code[5]);
        assert(s1.mem[s.ip + 5] == s.mem[s.ip + 5]);
    }
    let s2 = lemma_step_drop(s1);
    lemma_run_step(s, s1, 1);
    lemma_run_step(s1, s2, 0);
    assert(run_spec(s2, 0) == Step::Running(s2));
    lemma_word_round_trip(s.mem, s.sp, v);
    if word_at(s.mem, s.sp) == v {
        lemma_store_same_word(s.mem, s.sp);
    }
}

/// DROP removes the top operand.
proof fn lemma_step_drop(s: VmState) -> (s2: VmState)
    requires
        fetchable(s, 1),
        s.mem[s.ip] == OP_DROP,
        depth(s) >= 1,
    ensures
        step_spec(s) == Step::Running(s2),
        s2 == pop_n(with_ip(s, s.ip + 1), 1),
{
    reveal(step_stack);
    pop_n(with_ip(s, s.ip + 1), 1)
}

/// Storing the word that is already there changes nothing.
proof fn lemma_store_same_word(mem: Seq<u8>, a: int)
    requires
        0 <= a,
        a + 4 <= mem.len(),
    ensures
        store_word(mem, a, word_at(mem, a)) == mem,
{
    let b0 = mem[a];
    let b1 = mem[a + 1];
    let b2 = mem[a + 2];
    let b3 = mem[a + 3];
    let w = word_at(mem, a);
    assert(w == b0 as int + b1 as int * 0x100 + b2 as int * 0x1_0000 + b3 as int * 0x100_0000);
    assert(w % 0x100 == b0 && (w / 0x100) % 0x100 == b1 && (w / 0x1_0000) % 0x100 == b2
        && w / 0x100_0000 == b3) by (nonlinear_arith)
        requires
            w == b0 as int + b1 as int * 0x100 + b2 as int * 0x1_0000 + b3 as int * 0x100_0000,
            b0 < 0x100, b1 < 0x100, b2 < 0x100, b3 < 0x100,
    ;
    assert(store_word(mem, a, w) =~= mem);
}

/// The slice of `code` from `i` to `j` is stored from `at + i` on.
proof fn lemma_code_slice(mem: Seq<u8>, at: int, code: Seq<u8>, i: int, j: int)
    requires
        code_at(mem, at, code),
        0 <= i <= j <= code.len(),
    ensures
        code_at(mem, at + i, code.subrange(i, j)),
{
    assert forall|k: int| 0 <= k < j - i implies #[trigger] mem[at + i + k] == code.subrange(i, j)[k] by {
        assert(mem[at + (i + k)] == code[i + k]);
    }
}

/// The bytes of `LITW a LITW b DIV LITW b MUL`.
pub open spec fn div_mul_code(a: u32, b: u32) -> Seq<u8> {
    litw(a) + litw(b) + seq![OP_DIV] + litw(b) + seq![OP_MUL]
}

/// `LITW a LITW b DIV LITW b MUL` pushes `(a / b) * b`.
proof fn lemma_div_mul(s: VmState, a: u32, b: u32) -> (s5: VmState)
    requires
        fetchable(s, 17),
        code_at(s.mem, s.ip, div_mul_code(a, b)),
        depth(s) + 2 <= STACK_SIZE / 4,
        b != 0,
    ensures
        run_spec(s, 5) == Step::Running(s5),
        state_wf(s5),
        s5.ip == s.ip + 17,
        stack(s5) == stack(s).push(binary(OP_MUL, binary(OP_DIV, a, b), b)),
        same_below_stacks(s, s5),
{
    let code = div_mul_code(a, b);
    assert(code.len() == 17);
    lemma_code_slice(s.mem, s.ip, code, 0, 5);
    assert(code.subrange(0, 5) =~= litw(a));
    let s1 = lemma_step_litw(s, a);

    lemma_code_kept(s, s1, s.ip, code);
    lemma_code_slice(s1.mem, s.ip, code, 5, 10);
    assert(code.subrange(5, 10) =~= litw(b));
    let s2 = lemma_step_litw(s1, b);

    lemma_code_kept(s1, s2, s.ip, code);
    assert(s2.mem[s2.ip] == OP_DIV) by { assert(s2.mem[s.ip + 10] == code[10]); }
    lemma_nth(s2, 0);
    lemma_nth(s2, 1);
    let s3 = lemma_step_binary(s2, OP_DIV);
    let q = binary(OP_DIV, a, b);
    assert(stack(s3) =~= stack(s).push(q));

    lemma_code_kept(s2, s3, s.ip, code);
    lemma_code_slice(s3.mem, s.ip, code, 11, 16);
    assert(code.subrange(11, 16) =~= litw(b));
    let s4 = lemma_step_litw(s3, b);

    lemma_code_kept(s3, s4, s.ip, code);
    assert(s4.mem[s4.ip] == OP_MUL) by { assert(s4.mem[s.ip + 16] == code[16]); }
    lemma_nth(s4, 0);
    lemma_nth(s4, 1);
    let s5 = lemma_step_binary(s4, OP_MUL);
    assert(stack(s5) =~= stack(s).push(binary(OP_MUL, q, b)));

    lemma_run_step(s, s1, 4);
    lemma_run_step(s1, s2, 3);
    lemma_run_step(s2, s3, 2);
    lemma_run_step(s3, s4, 1);
    lemma_run_step(s4, s5, 0);
    assert(run_spec(s5, 0) == Step::Running(s5));
    s5
}

/// Pushing the same word twice and comparing with EQU leaves 1 on top.
pub proof fn law_equal_words_compare_equal(s: VmState, v: u32)
    requires
        fetchable(s, 11),
        code_at(s.mem, s.ip, litw(v) + litw(v) + seq![OP_EQU]),
        depth(s) + 2 <= STACK_SIZE / 4,
    ensures
        run_spec(s, 3) matches Step::Running(s3) && {
            &&& s3.ip == s.ip + 11
            &&& stack(s3) == stack(s).push(1)
        },
{
    let code = litw(v) + litw(v) + seq![OP_EQU];
    lemma_code_slice(s.mem, s.ip, code, 0, 5);
    assert(code.subrange(0, 5) =~= litw(v));
    let s1 = lemma_step_litw(s, v);
    lemma_code_kept(s, s1, s.ip, code);
    lemma_code_slice(s1.mem, s.ip, code, 5, 10);
    assert(code.subrange(5, 10) =~= litw(v));
    let s2 = lemma_step_litw(s1, v);
    lemma_code_kept(s1, s2, s.ip, code);
    assert(s2.mem[s2.ip] == OP_EQU) by { assert(s2.mem[s.ip + 10] == code[10]); }
    lemma_nth(s2, 0);
    lemma_nth(s2, 1);
    let s3 = lemma_step_binary(s2, OP_EQU);
    assert(stack(s3) =~= stack(s).push(1));
    lemma_run_step(s, s1, 2);
    lemma_run_step(s1, s2, 1);
    lemma_run_step(s2, s3, 0);
    assert(run_spec(s3, 0) == Step::Running(s3));
}

/// Integer division rounds the same way every time: computing `(a / b) * b`
/// twice and subtracting leaves 0 on top.
pub proof fn law_division_rounding_is_stable(s: VmState, a: u32, b: u32)
    requires
        fetchable(s, 35),
        code_at(s.mem, s.ip, div_mul_code(a, b) + div_mul_code(a, b) + seq![OP_SUB]),
        depth(s) + 3 <= STACK_SIZE / 4,
        b != 0,
    ensures
        run_spec(s, 11) matches Step::Running(s11) && {
            &&& s11.ip == s.ip + 35
            &&& stack(s11) == stack(s).push(0)
        },
{
    let code = div_mul_code(a, b) + div_mul_code(a, b) + seq![OP_SUB];
    assert(code.len() == 35);
    lemma_code_slice(s.mem, s.ip, code, 0, 17);
    assert(code.subrange(0, 17) =~= div_mul_code(a, b));
    let s5 = lemma_div_mul(s, a, b);
    let x = binary(OP_MUL, binary(OP_DIV, a, b), b);
    assert(depth(s5) == depth(s) + 1) by { assert(stack(s5).len() == stack(s).len() + 1); }
    lemma_code_kept(s, s5, s.ip, code);
    lemma_code_slice(s5.mem, s.ip, code, 17, 34);
    assert(code.subrange(17, 34) =~= div_mul_code(a, b));
    let s10 = lemma_div_mul(s5, a, b);
    assert(depth(s10) == depth(s) + 2) by { assert(stack(s10).len() == stack(s5).len() + 1); }
    lemma_code_kept(s5, s10, s.ip, code);
    assert(s10.mem[s10.ip] == OP_SUB) by { assert(s10.mem[s.ip + 34] == code[34]); }
    lemma_nth(s10, 0);
    lemma_nth(s10, 1);
    let s11 = lemma_step_binary(s10, OP_SUB);
    assert(binary(OP_SUB, x, x) == 0);
    assert(stack(s11) =~= stack(s).push(0));
    lemma_run_compose(s, 5, 6);
    lemma_run_compose(s5, 5, 1);
    assert(run_spec(s10, 1) == Step::Running(s11)) by {
        lemma_run_step(s10, s11, 0);
        assert(run_spec(s11, 0) == Step::Running(s11));
    }
}

proof fn lemma_step_stack_in_bounds(op: u8, t: VmState)
    requires
        state_wf(t),
    ensures
        step_stack(op, t) matches Step::Running(s2) ==> state_wf(s2),
        !(step_stack(op, t) is Halted),
{
    reveal(step_stack);
}

proof fn lemma_step_alu_in_bounds(op: u8, t: VmState)
    requires
        state_wf(t),
    ensures
        step_alu(op, t) matches Step::Running(s2) ==> state_wf(s2),
        !(step_alu(op, t) is Halted),
{
    reveal(step_alu);
}

proof fn lemma_step_memory_in_bounds(op: u8, t: VmState)
    requires
        state_wf(t),
    ensures
        step_memory(op, t) matches Step::Running(s2) ==> state_wf(s2),
        !(step_memory(op, t) is Halted),
{
    reveal(step_memory);
}

proof fn lemma_step_flow_in_bounds(op: u8, t: VmState)
    requires
        state_wf(t),
    ensures
        step_flow(op, t) matches Step::Running(s2) ==> state_wf(s2),
        !(step_flow(op, t) is Halted),
{
    reveal(step_flow);
}

proof fn lemma_step_return_in_bounds(op: u8, t: VmState)
    requires
        state_wf(t),
    ensures
        step_return(op, t) matches Step::Running(s2) ==> state_wf(s2),
        !(step_return(op, t) is Halted),
{
    reveal(step_return);
}

proof fn lemma_step_locals_in_bounds(op: u8, t: VmState)
    requires
        state_wf(t),
        OP_BEGIN <= op <= OP_SET,
    ensures
        step_locals(op, t) matches Step::Running(s2) ==> state_wf(s2),
        !(step_locals(op, t) is Halted),
{
    reveal(step_locals);
    let base = LOCAL_OFFSET as int;
    assert(ldepth(t) * 4 == t.lp - base);
    assert(depth(t) * 4 == t.sp - SP_OFFSET);
    if depth(t) >= 1 {
        let n = nth(t, 0) as int;
        assert((t.lp + 4 * n - base) % 4 == 0) by (nonlinear_arith) requires (t.lp - base) % 4 == 0;
        assert((t.lp - 4 * n - base) % 4 == 0) by (nonlinear_arith) requires (t.lp - base) % 4 == 0;
    }
}

/// Whatever instruction runs, the three stack cursors stay inside their 1 KiB
/// reservations and the instruction pointer inside memory.
pub proof fn law_step_keeps_stacks_in_bounds(s: VmState)
    requires
        state_wf(s),
    ensures
        step_spec(s) matches Step::Running(s2) ==> state_wf(s2),
        step_spec(s) matches Step::Halted(s2) ==> state_wf(s2),
{
    if s.ip < MEM_SIZE {
        let op = s.mem[s.ip];
        let t = with_ip(s, s.ip + 1);

        lemma_step_stack_in_bounds(op, t);
        lemma_step_alu_in_bounds(op, t);
        lemma_step_memory_in_bounds(op, t);
        lemma_step_flow_in_bounds(op, t);
        lemma_step_return_in_bounds(op, t);
        if OP_BEGIN <= op <= OP_SET {
            lemma_step_locals_in_bounds(op, t);
        }
    } else {
        assert(step_spec(s) == Step::Trapped(Fault::IpOutOfRange));
    }
}

} // verus!

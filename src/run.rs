//! Runs of several steps, and what they do on particular programs.
use vstd::prelude::*;

use crate::cell::wrap_inc;
use crate::machine::{current, faults, halted, initial_state, next_state, MachineState};
use crate::opcode::Opcode;

verus! {

/// The state after at most `n` steps from `s`, with cells of `m` values. The
/// run stops early when the machine halts or faults.
pub open spec fn run(s: MachineState, m: nat, n: nat) -> MachineState
    decreases n,
{
    if n == 0 {
        s
    } else {
        let r = run(s, m, (n - 1) as nat);
        if halted(r) || faults(r) {
            r
        } else {
            next_state(r, m)
        }
    }
}

/// A loop guarded by a sentinel: set the accumulator to `sentinel` and push
/// it, then `Zero`, `Label`, `Inc`, `Compare` and `JumpIfNotZero`.
pub open spec fn counting_loop(sentinel: nat) -> Seq<Opcode> {
    seq![Opcode::Zero] + Seq::new(sentinel, |i: int| Opcode::Inc) + seq![
        Opcode::Push,
        Opcode::Zero,
        Opcode::Label,
        Opcode::Inc,
        Opcode::Compare,
        Opcode::JumpIfNotZero,
    ]
}

/// The state of `counting_loop(sentinel)` once the accumulator has been
/// counted up to `i`.
spec fn counted(sentinel: nat, i: nat) -> MachineState {
    MachineState {
        program: counting_loop(sentinel),
        pc: i + 1,
        accumulator: i,
        stack: seq![],
        jump_table: map![],
        compared: false,
    }
}

proof fn lemma_count_up(sentinel: nat, m: nat, i: nat)
    requires
        i <= sentinel < m,
    ensures
        run(initial_state(counting_loop(sentinel)), m, i + 1) == counted(sentinel, i),
    decreases i,
{
    let p = counting_loop(sentinel);
    assert(p.len() == sentinel + 7);
    if i == 0 {
        assert(p[0] == Opcode::Zero);
        assert(run(initial_state(p), m, 0) == initial_state(p));
    } else {
        lemma_count_up(sentinel, m, (i - 1) as nat);
        let r = counted(sentinel, (i - 1) as nat);
        assert(p[i as int] == Opcode::Inc);
        assert(current(r) == Opcode::Inc);
        assert(wrap_inc((i - 1) as nat, m) == i) by {
            vstd::arithmetic::div_mod::lemma_small_mod(i, m);
        }
    }
}

/// The sentinel loop always halts: the jump table binds only the value 0,
/// so the closing `JumpIfNotZero`, reached with the accumulator at 1, never
/// jumps. The run takes `sentinel + 7` steps and passes through the loop
/// body once, leaving 1 in the accumulator: the number of passes equals the
/// sentinel exactly when the sentinel is 1.
pub proof fn lemma_counting_loop_halts(sentinel: nat, m: nat)
    requires
        1 <= sentinel < m,
    ensures
        !halted(run(initial_state(counting_loop(sentinel)), m, sentinel + 6)),
        halted(run(initial_state(counting_loop(sentinel)), m, sentinel + 7)),
        run(initial_state(counting_loop(sentinel)), m, sentinel + 7).accumulator == 1,
        run(initial_state(counting_loop(sentinel)), m, sentinel + 7).compared == (sentinel == 1),
{
    let p = counting_loop(sentinel);
    let k = sentinel;
    let s0 = initial_state(p);
    assert(p.len() == k + 7);
    lemma_count_up(k, m, k);
    let s1 = run(s0, m, k + 1);
    assert(p[k + 1 as int] == Opcode::Push);
    let s2 = run(s0, m, k + 2);
    assert(s2.stack == seq![k]);
    assert(p[k + 2 as int] == Opcode::Zero);
    let s3 = run(s0, m, k + 3);
    assert(s3.accumulator == 0);
    assert(p[k + 3 as int] == Opcode::Label);
    let s4 = run(s0, m, k + 4);
    assert(s4.jump_table == map![0nat => k + 3]);
    assert(p[k + 4 as int] == Opcode::Inc);
    let s5 = run(s0, m, k + 5);
    assert(s5.accumulator == 1) by {
        vstd::arithmetic::div_mod::lemma_small_mod(1, m);
    }
    assert(p[k + 5 as int] == Opcode::Compare);
    let s6 = run(s0, m, k + 6);
    assert(s6.compared == (k == 1));
    assert(s6.pc == k + 6);
    assert(p[k + 6 as int] == Opcode::JumpIfNotZero);
    assert(!s6.jump_table.contains_key(1));
    let s7 = run(s0, m, k + 7);
    assert(s7.pc == k + 7);
}

} // verus!

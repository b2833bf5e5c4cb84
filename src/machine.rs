//! The execution engine: an accumulator, a stack of cells, a jump table keyed
//! by accumulator values, and a latched comparison flag.
use vstd::prelude::*;

use std::collections::HashMap;

use crate::cell::{wrap_dec, wrap_inc, Cell};
use crate::opcode::Opcode;

verus! {

broadcast use vstd::std_specs::hash::group_hash_axioms;

/// What the caller has to do after a step.
#[derive(Clone, Copy, Debug, PartialEq, Eq, Structural)]
pub enum Effect {
    /// Nothing to do.
    Nothing,
    /// Print this byte as a decimal number.
    PrintNumber(u8),
    /// Print this byte as a character.
    PrintChar(u8),
    /// Show the machine state.
    Dump,
}

/// A step the machine cannot take.
#[derive(Clone, Copy, Debug, PartialEq, Eq, Structural)]
pub enum Fault {
    /// `Swap` with an empty stack: there is no top element to exchange.
    InsufficientStackDepth,
}

/// The abstract state of a machine.
pub struct MachineState {
    pub program: Seq<Opcode>,
    pub pc: nat,
    pub accumulator: nat,
    pub stack: Seq<nat>,
    pub jump_table: Map<nat, nat>,
    pub compared: bool,
}

/// The state of a fresh machine for `program`.
pub open spec fn initial_state(program: Seq<Opcode>) -> MachineState {
    MachineState {
        program,
        pc: 0,
        accumulator: 0,
        stack: seq![],
        jump_table: map![],
        compared: false,
    }
}

/// The top of the stack, or zero when the stack is empty.
pub open spec fn top_or_zero(stack: Seq<nat>) -> nat {
    if stack.len() == 0 {
        0
    } else {
        stack.last()
    }
}

/// The stack without its top element; the empty stack stays empty.
pub open spec fn pop_stack(stack: Seq<nat>) -> Seq<nat> {
    if stack.len() == 0 {
        stack
    } else {
        stack.drop_last()
    }
}

/// The value the jump table binds to the accumulator, if any.
pub open spec fn jump_target(s: MachineState) -> Option<nat> {
    if s.jump_table.contains_key(s.accumulator) {
        Some(s.jump_table[s.accumulator])
    } else {
        None
    }
}

/// `s` after a conditional jump taken when `cond` holds.
pub open spec fn jump_when(s: MachineState, cond: bool) -> MachineState {
    match jump_target(s) {
        Some(target) if cond => MachineState { pc: target, ..s },
        _ => s,
    }
}

/// The effect of `op` on `s` with cells of `m` values, before the program
/// counter moves on.
pub open spec fn execute_op(s: MachineState, op: Opcode, m: nat) -> MachineState {
    match op {
        Opcode::Zero => MachineState { accumulator: 0, ..s },
        Opcode::Push => MachineState { stack: s.stack.push(s.accumulator), ..s },
        Opcode::Pop => MachineState {
            accumulator: top_or_zero(s.stack),
            stack: pop_stack(s.stack),
            ..s
        },
        Opcode::Inc => MachineState { accumulator: wrap_inc(s.accumulator, m), ..s },
        Opcode::Dec => MachineState { accumulator: wrap_dec(s.accumulator, m), ..s },
        Opcode::Label => MachineState { jump_table: s.jump_table.insert(s.accumulator, s.pc), ..s },
        Opcode::JumpIfZero => jump_when(s, s.compared),
        Opcode::JumpIfNotZero => jump_when(s, !s.compared),
        Opcode::Compare => MachineState { compared: s.accumulator == top_or_zero(s.stack), ..s },
        Opcode::Swap => MachineState {
            accumulator: s.stack.last(),
            stack: s.stack.update(s.stack.len() - 1, s.accumulator),
            ..s
        },
        Opcode::OutNum | Opcode::OutChar | Opcode::Debug => s,
    }
}

/// What executing `op` in `s` asks the caller to do.
pub open spec fn effect_of(s: MachineState, op: Opcode) -> Effect {
    match op {
        Opcode::OutNum => Effect::PrintNumber((s.accumulator % 256) as u8),
        Opcode::OutChar => Effect::PrintChar((s.accumulator % 256) as u8),
        Opcode::Debug => Effect::Dump,
        _ => Effect::Nothing,
    }
}

/// The program counter has run past the last instruction.
pub open spec fn halted(s: MachineState) -> bool {
    s.pc >= s.program.len()
}

/// The current instruction of a running machine.
pub open spec fn current(s: MachineState) -> Opcode {
    s.program[s.pc as int]
}

/// The current instruction cannot be executed.
pub open spec fn faults(s: MachineState) -> bool {
    current(s) == Opcode::Swap && s.stack.len() == 0
}

/// The state after executing the current instruction of a running machine.
pub open spec fn next_state(s: MachineState, m: nat) -> MachineState {
    let t = execute_op(s, current(s), m);
    MachineState { pc: t.pc + 1, ..t }
}

/// A LIFO stack of cells; popping an empty stack yields zero.
pub struct Stack<T: Cell> {
    stack: Vec<T>,
}

impl<T: Cell> View for Stack<T> {
    type V = Seq<nat>;

    closed spec fn view(&self) -> Seq<nat> {
        self.stack@.map_values(|c: T| c.value())
    }
}

impl<T: Cell> Stack<T> {
    pub fn new() -> (r: Self)
        ensures
            r@ == Seq::<nat>::empty(),
    {
        let r = Stack { stack: Vec::new() };
        assert(r@ =~= Seq::<nat>::empty());
        r
    }

    /// The elements, bottom first.
    pub fn stack(&self) -> (r: &Vec<T>)
        ensures
            r@.map_values(|c: T| c.value()) == self@,
    {
        &self.stack
    }

    pub fn push(&mut self, value: T)
        ensures
            final(self)@ == old(self)@.push(value.value()),
    {
        self.stack.push(value);
        assert(self@ =~= old(self)@.push(value.value()));
    }

    /// Removes and returns the top element; zero, and no change, when the
    /// stack is empty.
    pub fn pop(&mut self) -> (r: T)
        ensures
            r.value() == top_or_zero(old(self)@),
            final(self)@ == pop_stack(old(self)@),
            old(self)@.len() == 0 ==> r.value() == 0 && final(self)@ == old(self)@,
    {
        match self.stack.pop() {
            Some(v) => {
                assert(self@ =~= old(self)@.drop_last());
                v
            },
            None => T::zero(),
        }
    }

    /// Exchanges the two top elements.
    pub fn swap(&mut self)
        requires
            old(self)@.len() >= 2,
        ensures
            final(self)@ == old(self)@.update(old(self)@.len() - 1, old(self)@[old(self)@.len() - 2]).update(
                old(self)@.len() - 2,
                old(self)@[old(self)@.len() - 1],
            ),
    {
        let top = self.stack.len() - 1;
        let below = top - 1;
        let x = self.stack[top];
        let y = self.stack[below];
        self.stack.set(top, y);
        self.stack.set(below, x);
        assert(self@ =~= old(self)@.update(top as int, old(self)@[below as int]).update(
            below as int,
            old(self)@[top as int],
        ));
    }
}

/// Labels are last-write-wins: when a second `Label` runs with the
/// accumulator value of a first one, the value is bound to the second
/// label's position, whatever the first bound it to.
pub proof fn lemma_label_last_write_wins(first: MachineState, second: MachineState, m: nat)
    requires
        second.accumulator == first.accumulator,
        second.jump_table == execute_op(first, Opcode::Label, m).jump_table,
    ensures
        execute_op(first, Opcode::Label, m).jump_table[first.accumulator] == first.pc,
        execute_op(second, Opcode::Label, m).jump_table.contains_key(first.accumulator),
        execute_op(second, Opcode::Label, m).jump_table[first.accumulator] == second.pc,
{
}

/// Jump targets never lie past the end of the program, and the program
/// counter never runs more than one past it.
pub open spec fn valid(s: MachineState) -> bool {
    &&& s.pc <= s.program.len()
    &&& forall|k: nat| #[trigger] s.jump_table.contains_key(k) ==> s.jump_table[k] < s.program.len()
}

/// The jump table of a machine, keyed by cell value.
pub open spec fn jump_view(t: Map<u64, usize>) -> Map<nat, nat> {
    Map::new(|k: nat| k <= u64::MAX && t.contains_key(k as u64), |k: nat| t[k as u64] as nat)
}

/// The machine: a program, a program counter, and the state the program
/// works on.
pub struct Machine<T: Cell> {
    program: Vec<Opcode>,
    pc: usize,
    jump_table: HashMap<u64, usize>,
    stack: Stack<T>,
    accumulator: T,
    compared: bool,
}

impl<T: Cell> View for Machine<T> {
    type V = MachineState;

    closed spec fn view(&self) -> MachineState {
        MachineState {
            program: self.program@,
            pc: self.pc as nat,
            accumulator: self.accumulator.value(),
            stack: self.stack@,
            jump_table: jump_view(self.jump_table@),
            compared: self.compared,
        }
    }
}

impl<T: Cell> Machine<T> {
    pub open spec fn wf(&self) -> bool {
        valid(self@) && self@.program.len() < usize::MAX
    }

    pub fn new(program: Vec<Opcode>) -> (r: Self)
        requires
            program@.len() < usize::MAX,
        ensures
            r.wf(),
            r@ == initial_state(program@),
    {
        let r = Machine {
            program,
            pc: 0,
            jump_table: HashMap::new(),
            stack: Stack::new(),
            accumulator: T::zero(),
            compared: false,
        };
        assert(r@.jump_table =~= Map::<nat, nat>::empty());
        r
    }

    pub fn accumulator(&self) -> (r: &T)
        ensures
            r.value() == self@.accumulator,
    {
        &self.accumulator
    }

    /// Pushes the accumulator onto the stack.
    pub fn push(&mut self)
        requires
            old(self).wf(),
        ensures
            final(self).wf(),
            final(self)@ == execute_op(old(self)@, Opcode::Push, T::modulus()),
    {
        self.stack.push(self.accumulator);
        assert(self@.jump_table == old(self)@.jump_table);
    }

    /// Pops the stack into the accumulator; an empty stack gives zero.
    pub fn pop(&mut self)
        requires
            old(self).wf(),
        ensures
            final(self).wf(),
            final(self)@ == execute_op(old(self)@, Opcode::Pop, T::modulus()),
            old(self)@.stack.len() == 0 ==> final(self)@.accumulator == 0 && final(self)@.stack
                == old(self)@.stack,
    {
        self.accumulator = self.stack.pop();
        assert(self@.jump_table == old(self)@.jump_table);
    }

    pub fn increment(&mut self)
        requires
            old(self).wf(),
        ensures
            final(self).wf(),
            final(self)@ == execute_op(old(self)@, Opcode::Inc, T::modulus()),
    {
        self.accumulator = self.accumulator.wrapping_inc();
        assert(self@.jump_table == old(self)@.jump_table);
    }

    pub fn decrement(&mut self)
        requires
            old(self).wf(),
        ensures
            final(self).wf(),
            final(self)@ == execute_op(old(self)@, Opcode::Dec, T::modulus()),
    {
        self.accumulator = self.accumulator.wrapping_dec();
        assert(self@.jump_table == old(self)@.jump_table);
    }

    pub fn init_accumulator(&mut self)
        requires
            old(self).wf(),
        ensures
            final(self).wf(),
            final(self)@ == execute_op(old(self)@, Opcode::Zero, T::modulus()),
    {
        self.accumulator = T::zero();
        assert(self@.jump_table == old(self)@.jump_table);
    }

    /// Binds the accumulator's value to the current program counter,
    /// replacing any earlier binding of that value.
    pub fn label(&mut self)
        requires
            old(self).wf(),
            !halted(old(self)@),
        ensures
            final(self).wf(),
            final(self)@ == execute_op(old(self)@, Opcode::Label, T::modulus()),
    {
        let key = self.accumulator.key();
        self.jump_table.insert(key, self.pc);
        assert(self@.jump_table =~= old(self)@.jump_table.insert(old(self)@.accumulator, old(self)@.pc));
    }

    /// Exchanges the accumulator with the top of the stack.
    pub fn swap(&mut self)
        requires
            old(self).wf(),
            old(self)@.stack.len() >= 1,
        ensures
            final(self).wf(),
            final(self)@ == execute_op(old(self)@, Opcode::Swap, T::modulus()),
    {
        self.push();
        self.stack.swap();
        self.pop();
        assert(self@.stack =~= old(self)@.stack.update(old(self)@.stack.len() - 1, old(self)@.accumulator));
    }

    /// Moves the program counter to the target bound to the accumulator's
    /// value, if there is one.
    fn jump(&mut self)
        requires
            old(self).wf(),
        ensures
            final(self).wf(),
            final(self)@ == jump_when(old(self)@, true),
    {
        let key = self.accumulator.key();
        match self.jump_table.get(&key) {
            Some(target) => {
                assert(old(self)@.jump_table.contains_key(key as nat));
                self.pc = *target;
            },
            None => {},
        }
    }

    /// Jumps when the last comparison found the values equal.
    pub fn jump_if_zero(&mut self)
        requires
            old(self).wf(),
        ensures
            final(self).wf(),
            final(self)@ == execute_op(old(self)@, Opcode::JumpIfZero, T::modulus()),
    {
        if self.compared {
            self.jump();
        }
    }

    /// Jumps when the last comparison found the values different.
    pub fn jump_if_not_zero(&mut self)
        requires
            old(self).wf(),
        ensures
            final(self).wf(),
            final(self)@ == execute_op(old(self)@, Opcode::JumpIfNotZero, T::modulus()),
    {
        if !self.compared {
            self.jump();
        }
    }

    /// Records whether the accumulator equals the top of the stack (zero when
    /// the stack is empty).
    pub fn cmp(&mut self)
        requires
            old(self).wf(),
        ensures
            final(self).wf(),
            final(self)@ == execute_op(old(self)@, Opcode::Compare, T::modulus()),
            old(self)@.stack.len() == 0 ==> final(self)@.compared == (old(self)@.accumulator == 0),
    {
        let items = self.stack.stack();
        let n = items.len();
        let same = if n == 0 {
            let zero = T::zero();
            self.accumulator.same_as(&zero)
        } else {
            assert(items@.map_values(|c: T| c.value())[n - 1] == items@[n - 1].value());
            self.accumulator.same_as(&items[n - 1])
        };
        self.compared = same;
        assert(self@.jump_table == old(self)@.jump_table);
    }

    /// The instruction at the program counter; `None` once the machine has
    /// run past the end of its program.
    pub fn fetch(&self) -> (r: Option<Opcode>)
        ensures
            r == (if halted(self@) {
                None
            } else {
                Some(current(self@))
            }),
    {
        if self.pc < self.program.len() {
            Some(self.program[self.pc])
        } else {
            None
        }
    }

    pub fn is_halted(&self) -> (r: bool)
        ensures
            r == halted(self@),
    {
        self.pc >= self.program.len()
    }

    /// Executes the current instruction and moves the program counter on,
    /// returning what the caller has to do. A `Swap` on an empty stack
    /// fails and leaves the machine as it was.
    pub fn step(&mut self) -> (r: Result<Effect, Fault>)
        requires
            old(self).wf(),
            !halted(old(self)@),
        ensures
            final(self).wf(),
            faults(old(self)@) ==> r == Err::<Effect, Fault>(Fault::InsufficientStackDepth)
                && final(self)@ == old(self)@,
            !faults(old(self)@) ==> r == Ok::<Effect, Fault>(
                effect_of(old(self)@, current(old(self)@)),
            ) && final(self)@ == next_state(old(self)@, T::modulus()),
            current(old(self)@) == Opcode::Debug ==> final(self)@ == (MachineState {
                pc: old(self)@.pc + 1,
                ..old(self)@
            }),
    {
        let op = self.program[self.pc];
        let effect = match op {
            Opcode::Zero => {
                self.init_accumulator();
                Effect::Nothing
            },
            Opcode::Push => {
                self.push();
                Effect::Nothing
            },
            Opcode::Pop => {
                self.pop();
                Effect::Nothing
            },
            Opcode::Inc => {
                self.increment();
                Effect::Nothing
            },
            Opcode::Dec => {
                self.decrement();
                Effect::Nothing
            },
            Opcode::OutNum => Effect::PrintNumber(self.accumulator.low_byte()),
            Opcode::OutChar => Effect::PrintChar(self.accumulator.low_byte()),
            Opcode::Label => {
                self.label();
                Effect::Nothing
            },
            Opcode::JumpIfZero => {
                self.jump_if_zero();
                Effect::Nothing
            },
            Opcode::JumpIfNotZero => {
                self.jump_if_not_zero();
                Effect::Nothing
            },
            Opcode::Compare => {
                self.cmp();
                Effect::Nothing
            },
            Opcode::Swap => {
                if self.stack.stack().len() == 0 {
                    return Err(Fault::InsufficientStackDepth);
                }
                self.swap();
                Effect::Nothing
            },
            Opcode::Debug => Effect::Dump,
        };
        self.pc = self.pc + 1;
        Ok(effect)
    }

    pub fn program(&self) -> (r: &Vec<Opcode>)
        ensures
            r@ == self@.program,
    {
        &self.program
    }

    pub fn pc(&self) -> (r: usize)
        ensures
            r == self@.pc,
    {
        self.pc
    }

    /// The stack, bottom first.
    pub fn stack(&self) -> (r: &Vec<T>)
        ensures
            r@.map_values(|c: T| c.value()) == self@.stack,
    {
        self.stack.stack()
    }

    /// The jump table, keyed by cell value.
    pub fn jump_table(&self) -> (r: &HashMap<u64, usize>)
        ensures
            jump_view(r@) == self@.jump_table,
    {
        &self.jump_table
    }

    pub fn compared(&self) -> (r: bool)
        ensures
            r == self@.compared,
    {
        self.compared
    }
}

} // verus!

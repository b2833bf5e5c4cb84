use bsm::machine::{Effect, Fault, Machine, Stack};
use bsm::opcode::Opcode;
use bsm::parser::Parser;

/// Runs a program to its end, collecting what it prints; `None` on a fault
/// or when it is still running after `fuel` steps.
fn output_of(program: Vec<Opcode>, fuel: usize) -> Option<String> {
    let mut vm = Machine::<u8>::new(program);
    if vm.is_halted() {
        return Some(String::new());
    }
    let mut out = String::new();
    for _ in 0..fuel {
        match vm.step() {
            Ok(Effect::PrintNumber(b)) => out.push_str(&b.to_string()),
            Ok(Effect::PrintChar(b)) => out.push(b as char),
            Ok(Effect::Dump) | Ok(Effect::Nothing) => {}
            Err(_) => return None,
        }
        if vm.is_halted() {
            out.push('\n');
            return Some(out);
        }
    }
    None
}

fn run_source(source: &str) -> Option<String> {
    output_of(Parser::parse(source), 10_000)
}

#[test]
fn increment_wraps_to_zero() {
    let mut vm = Machine::<u8>::new(vec![]);
    for _ in 0..255 {
        vm.increment();
    }
    assert_eq!(*vm.accumulator(), 255);
    vm.increment();
    assert_eq!(*vm.accumulator(), 0);
}

#[test]
fn decrement_wraps_to_max() {
    let mut vm = Machine::<u8>::new(vec![]);
    vm.decrement();
    assert_eq!(*vm.accumulator(), 255);

    let mut wide = Machine::<u16>::new(vec![]);
    wide.decrement();
    assert_eq!(*wide.accumulator(), u16::MAX);
    wide.increment();
    assert_eq!(*wide.accumulator(), 0);

    let mut widest = Machine::<u64>::new(vec![]);
    widest.decrement();
    assert_eq!(*widest.accumulator(), u64::MAX);
    widest.increment();
    assert_eq!(*widest.accumulator(), 0);
}

#[test]
fn pop_on_empty_stack_yields_zero() {
    let mut vm = Machine::<u8>::new(vec![]);
    vm.increment();
    vm.increment();
    vm.pop();
    assert_eq!(*vm.accumulator(), 0);
    assert!(vm.stack().is_empty());

    let mut stack = Stack::<u32>::new();
    assert_eq!(stack.pop(), 0);
    stack.push(7);
    assert_eq!(stack.pop(), 7);
    assert_eq!(stack.pop(), 0);
}

#[test]
fn push_then_pop_round_trip() {
    let mut vm = Machine::<u8>::new(vec![]);
    vm.increment();
    vm.push();
    vm.init_accumulator();
    assert_eq!(*vm.accumulator(), 0);
    vm.pop();
    assert_eq!(*vm.accumulator(), 1);
}

#[test]
fn compare_with_empty_stack_compares_with_zero() {
    let mut vm = Machine::<u8>::new(vec![]);
    vm.cmp();
    assert!(vm.compared());
    vm.increment();
    vm.cmp();
    assert!(!vm.compared());
}

#[test]
fn compare_with_top_of_stack() {
    let mut vm = Machine::<u8>::new(vec![]);
    vm.increment();
    vm.push();
    vm.cmp();
    assert!(vm.compared());
    vm.increment();
    vm.cmp();
    assert!(!vm.compared());
}

#[test]
fn second_label_wins() {
    // Zero, Label (pc 1), Label (pc 2): both bind 0; the second wins.
    let mut vm = Machine::<u8>::new(vec![Opcode::Zero, Opcode::Label, Opcode::Label, Opcode::Debug]);
    for _ in 0..3 {
        assert_eq!(vm.step(), Ok(Effect::Nothing));
    }
    assert_eq!(vm.jump_table().get(&0), Some(&2));
    assert_eq!(vm.jump_table().len(), 1);
}

#[test]
fn jump_resumes_after_the_label() {
    // Label at pc 1 with A = 0; Compare (0 == empty top) holds; JumpIfZero
    // goes back to pc 1, and execution resumes at pc 2.
    let program = vec![Opcode::Zero, Opcode::Label, Opcode::Compare, Opcode::JumpIfZero];
    let mut vm = Machine::<u8>::new(program);
    for _ in 0..4 {
        assert_eq!(vm.step(), Ok(Effect::Nothing));
    }
    assert_eq!(vm.pc(), 2);
    assert!(!vm.is_halted());
}

#[test]
fn jump_without_target_falls_through() {
    let mut vm = Machine::<u8>::new(vec![Opcode::Compare, Opcode::JumpIfZero]);
    assert_eq!(vm.step(), Ok(Effect::Nothing));
    assert_eq!(vm.step(), Ok(Effect::Nothing));
    assert_eq!(vm.pc(), 2);
    assert!(vm.is_halted());
}

#[test]
fn jump_if_not_zero_needs_a_failed_compare() {
    let program = vec![Opcode::Label, Opcode::Compare, Opcode::JumpIfNotZero];
    let mut vm = Machine::<u8>::new(program);
    for _ in 0..3 {
        assert_eq!(vm.step(), Ok(Effect::Nothing));
    }
    // A == 0 == empty top: the comparison held, so no jump.
    assert!(vm.is_halted());
}

#[test]
fn swap_exchanges_accumulator_and_top() {
    let mut vm = Machine::<u8>::new(vec![]);
    vm.increment();
    vm.push();
    vm.increment();
    vm.push();
    vm.increment();
    // stack [1, 2], A = 3
    vm.swap();
    assert_eq!(*vm.accumulator(), 2);
    assert_eq!(vm.stack(), &vec![1u8, 3]);
}

#[test]
fn swap_on_empty_stack_faults() {
    let mut vm = Machine::<u8>::new(vec![Opcode::Inc, Opcode::Swap]);
    assert_eq!(vm.step(), Ok(Effect::Nothing));
    assert_eq!(vm.step(), Err(Fault::InsufficientStackDepth));
    assert_eq!(vm.pc(), 1);
    assert_eq!(*vm.accumulator(), 1);
}

#[test]
fn stack_swap_exchanges_top_two() {
    let mut stack = Stack::<u8>::new();
    stack.push(1);
    stack.push(2);
    stack.push(3);
    stack.swap();
    assert_eq!(stack.stack(), &vec![1u8, 3, 2]);
}

#[test]
fn debug_leaves_state_alone() {
    let program = vec![Opcode::Inc, Opcode::Push, Opcode::Label, Opcode::Compare, Opcode::Debug, Opcode::Inc];
    let mut vm = Machine::<u8>::new(program);
    for _ in 0..4 {
        vm.step().unwrap();
    }
    let acc = *vm.accumulator();
    let stack = vm.stack().clone();
    let table = vm.jump_table().clone();
    let compared = vm.compared();
    assert_eq!(vm.fetch(), Some(Opcode::Debug));
    assert_eq!(vm.step(), Ok(Effect::Dump));
    assert_eq!(*vm.accumulator(), acc);
    assert_eq!(vm.stack(), &stack);
    assert_eq!(vm.jump_table(), &table);
    assert_eq!(vm.compared(), compared);
    assert_eq!(vm.pc(), 5);
}

#[test]
fn fetch_past_the_end_is_none() {
    let vm = Machine::<u8>::new(vec![]);
    assert_eq!(vm.fetch(), None);
    assert!(vm.is_halted());
    let vm = Machine::<u8>::new(vec![Opcode::Pop]);
    assert_eq!(vm.fetch(), Some(Opcode::Pop));
}

#[test]
fn output_uses_low_byte() {
    let mut vm = Machine::<u16>::new(vec![Opcode::OutNum, Opcode::OutChar]);
    for _ in 0..300 {
        vm.increment();
    }
    assert_eq!(vm.step(), Ok(Effect::PrintNumber(44)));
    assert_eq!(vm.step(), Ok(Effect::PrintChar(44)));
}

#[test]
fn three_increments_print_three() {
    assert_eq!(run_source("アル中 ! ! ! b"), Some("3\n".to_string()));
}

#[test]
fn out_char_prints_a_character() {
    let mut source = String::from("アル中");
    for _ in 0..65 {
        source.push('!');
    }
    source.push_str("できた");
    assert_eq!(run_source(&source), Some("A\n".to_string()));
}

#[test]
fn mixed_spellings_print_alike() {
    let single = run_source("アル中 ! ! ! b できた");
    let mixed = run_source("アル中 ！ ! ！ ｂ でぎだ");
    assert_eq!(single, mixed);
    assert_eq!(single, Some("3\u{3}\n".to_string()));
}

#[test]
fn sentinel_loop_halts_after_one_pass() {
    for sentinel in [1usize, 2, 3, 255] {
        let mut program = vec![Opcode::Zero];
        for _ in 0..sentinel {
            program.push(Opcode::Inc);
        }
        program.extend([
            Opcode::Push,
            Opcode::Zero,
            Opcode::Label,
            Opcode::Inc,
            Opcode::Compare,
            Opcode::JumpIfNotZero,
        ]);
        let mut vm = Machine::<u8>::new(program);
        let mut steps = 0usize;
        while !vm.is_halted() {
            vm.step().unwrap();
            steps += 1;
        }
        assert_eq!(steps, sentinel + 7);
        assert_eq!(*vm.accumulator(), 1);
        assert_eq!(vm.compared(), sentinel == 1);
    }
}

#[test]
fn empty_program_prints_nothing() {
    assert_eq!(run_source(""), Some(String::new()));
}

//! End-to-end tests: VM source is translated to assembly, the assembly
//! is assembled to binary words, and the words run on a small
//! simulator of the target machine.

use hack_toolchain::assembler::assemble;
use hack_toolchain::code_writer::CodeWriter;
use hack_toolchain::translator::translate_source;

fn strings(lines: &[&str]) -> Vec<String> {
    lines.iter().map(|s| s.to_string()).collect()
}

/// Translates VM source and assembles the result into binary words.
fn build(source: &[&str]) -> Vec<u16> {
    let mut writer = CodeWriter::new("t");
    translate_source(&mut writer, &strings(source)).unwrap();
    let assembly = writer.into_lines();
    let binary = assemble(&assembly).unwrap();
    binary
        .iter()
        .map(|line| u16::from_str_radix(line, 2).unwrap())
        .collect()
}

/// A minimal simulator of the target machine: one address register,
/// one data register, RAM, and the hardwired ALU.
fn run(words: &[u16], ram: &mut Vec<u16>, max_steps: usize) {
    let mut a: u16 = 0;
    let mut d: u16 = 0;
    let mut pc: usize = 0;
    for _ in 0..max_steps {
        if pc >= words.len() {
            break;
        }
        let w = words[pc];
        if w & 0x8000 == 0 {
            a = w;
            pc += 1;
            continue;
        }
        let read_memory = (w >> 12) & 1 == 1;
        let c = (w >> 6) & 0x3F;
        let dst = (w >> 3) & 7;
        let jmp = w & 7;
        let target = a as usize;
        let x = d;
        let y = if read_memory { ram[target] } else { a };
        let out: u16 = match c {
            0b101010 => 0,
            0b111111 => 1,
            0b111010 => 0xFFFF,
            0b001100 => x,
            0b110000 => y,
            0b001101 => !x,
            0b110001 => !y,
            0b001111 => x.wrapping_neg(),
            0b110011 => y.wrapping_neg(),
            0b011111 => x.wrapping_add(1),
            0b110111 => y.wrapping_add(1),
            0b001110 => x.wrapping_sub(1),
            0b110010 => y.wrapping_sub(1),
            0b000010 => x.wrapping_add(y),
            0b010011 => x.wrapping_sub(y),
            0b000111 => y.wrapping_sub(x),
            0b000000 => x & y,
            0b010101 => x | y,
            _ => 0,
        };
        if dst & 0b100 != 0 {
            a = out;
        }
        if dst & 0b001 != 0 {
            ram[target] = out;
        }
        if dst & 0b010 != 0 {
            d = out;
        }
        let signed = out as i16;
        let taken = (jmp & 0b100 != 0 && signed < 0) || (jmp & 0b010 != 0 && signed == 0)
            || (jmp & 0b001 != 0 && signed > 0);
        if taken {
            pc = a as usize;
        } else {
            pc += 1;
        }
    }
}

fn fresh_ram() -> Vec<u16> {
    vec![0u16; 32768]
}

#[test]
fn two_constants_added_leave_fifteen_on_top() {
    let words = build(&["push constant 7", "push constant 8", "add"]);
    let mut ram = fresh_ram();
    ram[0] = 256;
    run(&words, &mut ram, 10_000);
    assert_eq!(ram[0], 257);
    assert_eq!(ram[256], 15);
}

#[test]
fn push_then_pop_round_trips_through_each_base_segment() {
    for (segment, base_reg, base_addr) in
        [("local", 1usize, 300u16), ("argument", 2, 400), ("this", 3, 3000), ("that", 4, 3010)]
    {
        let source = [
            format!("push constant 7"),
            format!("pop {} 2", segment),
            format!("push {} 2", segment),
        ];
        let source_refs: Vec<&str> = source.iter().map(|s| s.as_str()).collect();
        let words = build(&source_refs);
        let mut ram = fresh_ram();
        ram[0] = 256;
        ram[base_reg] = base_addr;
        run(&words, &mut ram, 10_000);
        assert_eq!(ram[base_addr as usize + 2], 7, "segment {}", segment);
        assert_eq!(ram[256], 7, "segment {}", segment);
        assert_eq!(ram[0], 257, "segment {}", segment);
    }
}

#[test]
fn push_then_pop_round_trips_through_temp_pointer_and_static() {
    let words = build(&["push constant 9", "pop temp 3", "push temp 3"]);
    let mut ram = fresh_ram();
    ram[0] = 256;
    run(&words, &mut ram, 10_000);
    assert_eq!(ram[8], 9);
    assert_eq!(ram[256], 9);

    let words = build(&["push constant 11", "pop pointer 1", "push pointer 1"]);
    let mut ram = fresh_ram();
    ram[0] = 256;
    run(&words, &mut ram, 10_000);
    assert_eq!(ram[4], 11);
    assert_eq!(ram[256], 11);

    let words = build(&["push constant 13", "pop static 5", "push static 5"]);
    let mut ram = fresh_ram();
    ram[0] = 256;
    run(&words, &mut ram, 10_000);
    // the static symbol is a variable, allocated at 16
    assert_eq!(ram[16], 13);
    assert_eq!(ram[256], 13);
}

#[test]
fn comparison_pushes_all_ones_for_true_and_zero_for_false() {
    let words = build(&["push constant 3", "push constant 3", "eq"]);
    let mut ram = fresh_ram();
    ram[0] = 256;
    run(&words, &mut ram, 10_000);
    assert_eq!(ram[256], 0xFFFF);
    assert_eq!(ram[0], 257);

    let words = build(&["push constant 4", "push constant 3", "gt"]);
    let mut ram = fresh_ram();
    ram[0] = 256;
    run(&words, &mut ram, 10_000);
    assert_eq!(ram[256], 0xFFFF);

    let words = build(&["push constant 4", "push constant 3", "lt"]);
    let mut ram = fresh_ram();
    ram[0] = 256;
    run(&words, &mut ram, 10_000);
    assert_eq!(ram[256], 0);
}

#[test]
fn call_and_return_restore_the_caller_frame_with_one_net_slot() {
    let words = build(&[
        "call Foo.bar 0",
        "label DONE",
        "goto DONE",
        "function Foo.bar 0",
        "push constant 42",
        "return",
    ]);
    let mut ram = fresh_ram();
    ram[0] = 256;
    ram[1] = 300;
    ram[2] = 400;
    ram[3] = 3000;
    ram[4] = 3010;
    run(&words, &mut ram, 10_000);
    // LCL, ARG, THIS, THAT and SP are back to their pre-call values,
    // plus exactly one net slot of stack growth: the return value.
    assert_eq!(ram[1], 300);
    assert_eq!(ram[2], 400);
    assert_eq!(ram[3], 3000);
    assert_eq!(ram[4], 3010);
    assert_eq!(ram[0], 257);
    assert_eq!(ram[256], 42);
}

#[test]
fn a_function_with_arguments_computes_on_them() {
    let words = build(&[
        "push constant 20",
        "push constant 22",
        "call Adder.go 2",
        "label DONE",
        "goto DONE",
        "function Adder.go 0",
        "push argument 0",
        "push argument 1",
        "add",
        "return",
    ]);
    let mut ram = fresh_ram();
    ram[0] = 256;
    ram[1] = 300;
    ram[2] = 400;
    ram[3] = 3000;
    ram[4] = 3010;
    run(&words, &mut ram, 10_000);
    // the two arguments are replaced by the one return value
    assert_eq!(ram[0], 257);
    assert_eq!(ram[256], 42);
    assert_eq!(ram[1], 300);
    assert_eq!(ram[2], 400);
}

#[test]
fn locals_are_zero_initialized_by_the_entry_loop() {
    let words = build(&[
        "call Foo.go 0",
        "label DONE",
        "goto DONE",
        "function Foo.go 2",
        "push local 0",
        "push local 1",
        "add",
        "return",
    ]);
    let mut ram = fresh_ram();
    ram[0] = 256;
    ram[1] = 300;
    ram[2] = 400;
    ram[3] = 3000;
    ram[4] = 3010;
    // poison the slots the locals will occupy
    ram[261] = 999;
    ram[262] = 999;
    run(&words, &mut ram, 10_000);
    assert_eq!(ram[256], 0);
    assert_eq!(ram[0], 257);
}

#[test]
fn unary_operators_mutate_the_top_slot() {
    let words = build(&["push constant 5", "neg"]);
    let mut ram = fresh_ram();
    ram[0] = 256;
    run(&words, &mut ram, 10_000);
    assert_eq!(ram[256], 5u16.wrapping_neg());
    assert_eq!(ram[0], 257);

    let words = build(&["push constant 0", "not"]);
    let mut ram = fresh_ram();
    ram[0] = 256;
    run(&words, &mut ram, 10_000);
    assert_eq!(ram[256], 0xFFFF);
}

#[test]
fn if_goto_branches_on_a_nonzero_top() {
    let words = build(&[
        "push constant 1",
        "if-goto TAKEN",
        "push constant 7",
        "label TAKEN",
        "push constant 9",
    ]);
    let mut ram = fresh_ram();
    ram[0] = 256;
    run(&words, &mut ram, 10_000);
    // the branch skipped the push of 7; only 9 was pushed
    assert_eq!(ram[0], 257);
    assert_eq!(ram[256], 9);
}

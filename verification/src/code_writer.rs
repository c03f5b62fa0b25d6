//! The VM code generator: translates each VM command into assembly
//! lines.  The writer owns the output line buffer, a disambiguation
//! counter that makes every generated branch and return label unique
//! across one whole program run, the current function name (labels are
//! qualified with it), and the current source-file tag (static
//! variables are namespaced by it).

use vstd::prelude::*;

use crate::text::dec_repr;
use crate::text::str_eq;
use crate::text::to_decimal;
use crate::vm_parser::CommandType;
use crate::vm_parser::VmError;
use crate::vm_parser::VmErrorKind;

verus! {

/// The abstract state of a code writer.
pub struct WriterModel {
    /// Every assembly line emitted so far, in order.
    pub lines: Seq<Seq<char>>,
    /// The disambiguation counter: how many label pairs were minted.
    pub label_count: nat,
    /// The enclosing function name, once one is active.
    pub current_function: Option<Seq<char>>,
    /// The tag that namespaces static variables.
    pub file_name: Seq<char>,
}

pub struct CodeWriter {
    file_name: String,
    output: Vec<String>,
    label_count: usize,
    current_function: Option<String>,
}

impl View for CodeWriter {
    type V = WriterModel;

    closed spec fn view(&self) -> WriterModel {
        WriterModel {
            lines: self.output.deep_view(),
            label_count: self.label_count as nat,
            current_function: match self.current_function {
                Some(f) => Some(f@),
                None => None,
            },
            file_name: self.file_name@,
        }
    }
}

/// A label qualified by the active function: `f$l` inside `f`,
/// bare `l` at top level.
pub open spec fn qualify(cf: Option<Seq<char>>, l: Seq<char>) -> Seq<char> {
    match cf {
        Some(f) => f + "$"@ + l,
        None => l,
    }
}

/// The five lines that push the D register and bump the stack pointer.
pub open spec fn push_d_lines() -> Seq<Seq<char>> {
    seq!["@SP"@, "A=M"@, "M=D"@, "@SP"@, "M=M+1"@]
}

/// A binary stack operation: pop into D, then combine with the new
/// top slot in place.
pub open spec fn binary_op_lines(op_line: Seq<char>) -> Seq<Seq<char>> {
    seq!["@SP"@, "M=M-1"@, "A=M"@, "D=M"@, "@SP"@, "M=M-1"@, "A=M"@, op_line, "@SP"@, "M=M+1"@]
}

/// A unary stack operation: mutate the top slot in place.
pub open spec fn unary_op_lines(op_line: Seq<char>) -> Seq<Seq<char>> {
    seq!["@SP"@, "M=M-1"@, "A=M"@, op_line, "@SP"@, "M=M+1"@]
}

/// A comparison: subtract the operands, branch on the condition to
/// push all-ones (true) or all-zeros (false).  The branch labels carry
/// the counter value `n`, so each occurrence gets its own pair.
pub open spec fn compare_lines(
    at_label: Seq<char>,
    jump_line: Seq<char>,
    def_label: Seq<char>,
    true_setup: Seq<Seq<char>>,
    n: nat,
) -> Seq<Seq<char>> {
    seq![
        "@SP"@,
        "M=M-1"@,
        "A=M"@,
        "D=M"@,
        "@SP"@,
        "M=M-1"@,
        "A=M"@,
        "D=M-D"@,
        at_label + dec_repr(n),
        jump_line,
        "D=0"@,
        "@SP"@,
        "A=M"@,
        "M=D"@,
        "@SP"@,
        "M=M+1"@,
        "@CONTINUE."@ + dec_repr(n),
        "0;JMP"@,
        def_label + dec_repr(n) + ")"@,
    ] + true_setup + seq![
        "@SP"@,
        "A=M"@,
        "M=D"@,
        "@SP"@,
        "M=M+1"@,
        "(CONTINUE."@ + dec_repr(n) + ")"@,
    ]
}

pub open spec fn eq_lines(n: nat) -> Seq<Seq<char>> {
    compare_lines("@EQ."@, "D;JEQ"@, "(EQ."@, seq!["@0"@, "D=A"@, "D=D-1"@], n)
}

pub open spec fn gt_lines(n: nat) -> Seq<Seq<char>> {
    compare_lines("@GT."@, "D;JGT"@, "(GT."@, seq!["D=0"@, "D=D-1"@], n)
}

pub open spec fn lt_lines(n: nat) -> Seq<Seq<char>> {
    compare_lines("@LT."@, "D;JLT"@, "(LT."@, seq!["D=0"@, "D=D-1"@], n)
}

/// Saving one register of the caller's frame: read it and push it.
pub open spec fn save_reg_lines(reg_at: Seq<char>) -> Seq<Seq<char>> {
    seq![reg_at, "D=M"@] + push_d_lines()
}

/// The call protocol: push a fresh return address, save the caller's
/// LCL, ARG, THIS and THAT in that order, point ARG at the first
/// argument (SP − 5 − nargs), point LCL at the new SP, jump to the
/// callee, and define the return label.  `n` is the counter value
/// stamped into the return label.
pub open spec fn call_lines(f: Seq<char>, nargs: nat, n: nat) -> Seq<Seq<char>> {
    seq!["@RETURN."@ + dec_repr(n), "D=A"@] + push_d_lines() + save_reg_lines("@LCL"@)
        + save_reg_lines("@ARG"@) + save_reg_lines("@THIS"@) + save_reg_lines("@THAT"@) + seq![
        "@SP"@,
        "D=M"@,
        "@5"@,
        "D=D-A"@,
        "@"@ + dec_repr(nargs),
        "D=D-A"@,
        "@ARG"@,
        "M=D"@,
        "@SP"@,
        "D=M"@,
        "@LCL"@,
        "M=D"@,
        "@"@ + f,
        "0;JMP"@,
        "(RETURN."@ + dec_repr(n) + ")"@,
    ]
}

/// Restoring one register from the captured frame base in R13, at the
/// fixed negative offset named by `k_at`.
pub open spec fn restore_reg_lines(k_at: Seq<char>, reg_at: Seq<char>) -> Seq<Seq<char>> {
    seq![k_at, "D=A"@, "@R13"@, "A=M-D"@, "D=M"@, reg_at, "M=D"@]
}

/// The return protocol: capture the frame base from LCL in R13 and the
/// saved return address in R14, copy the return value to the base of
/// ARG, set SP just above it, restore THAT, THIS, ARG and LCL in that
/// order, and jump through the saved return address.
pub open spec fn return_lines() -> Seq<Seq<char>> {
    seq!["@LCL"@, "D=M"@, "@R13"@, "M=D"@] + restore_reg_lines("@5"@, "@R14"@) + seq![
        "@SP"@,
        "AM=M-1"@,
        "D=M"@,
        "@ARG"@,
        "A=M"@,
        "M=D"@,
        "@ARG"@,
        "D=M+1"@,
        "@SP"@,
        "M=D"@,
    ] + restore_reg_lines("@1"@, "@THAT"@) + restore_reg_lines("@2"@, "@THIS"@)
        + restore_reg_lines("@3"@, "@ARG"@) + restore_reg_lines("@4"@, "@LCL"@) + seq![
        "@R14"@,
        "A=M"@,
        "0;JMP"@,
    ]
}

/// A function entry: define the function label, then push `k`
/// zero-initialized locals by a counted loop over R13.  `n` is the
/// counter value stamped into the loop labels.
pub open spec fn function_lines(f: Seq<char>, k: nat, n: nat) -> Seq<Seq<char>> {
    seq![
        "("@ + f + ")"@,
        "@"@ + dec_repr(k),
        "D=A"@,
        "@R13"@,
        "M=D"@,
        "(WHILE1."@ + dec_repr(n) + ")"@,
        "@R13"@,
        "D=M"@,
        "@WHILE2."@ + dec_repr(n),
        "D;JEQ"@,
        "@0"@,
        "D=A"@,
    ] + push_d_lines() + seq![
        "@R13"@,
        "D=M"@,
        "@1"@,
        "D=D-A"@,
        "@R13"@,
        "M=D"@,
        "@WHILE1."@ + dec_repr(n),
        "0;JMP"@,
        "(WHILE2."@ + dec_repr(n) + ")"@,
    ]
}

/// The once-per-program bootstrap: set the stack pointer to 256 and
/// call `Sys.init` with no arguments.
pub open spec fn init_lines(n: nat) -> Seq<Seq<char>> {
    seq!["@256"@, "D=A"@, "@SP"@, "M=D"@] + call_lines("Sys.init"@, 0, n)
}

/// Whether an arithmetic operator mints a branch-label pair.
pub open spec fn arith_mints_label(op: Seq<char>) -> bool {
    op == "eq"@ || op == "gt"@ || op == "lt"@
}

/// The nine arithmetic operators.
pub open spec fn valid_arith(op: Seq<char>) -> bool {
    ||| op == "add"@
    ||| op == "sub"@
    ||| op == "neg"@
    ||| op == "eq"@
    ||| op == "gt"@
    ||| op == "lt"@
    ||| op == "and"@
    ||| op == "or"@
    ||| op == "not"@
}

/// The assembly an arithmetic command translates to; `n` is the
/// counter value stamped into the branch labels of a comparison.
pub open spec fn spec_arithmetic_lines(op: Seq<char>, n: nat) -> Seq<Seq<char>> {
    if op == "add"@ {
        binary_op_lines("M=D+M"@)
    } else if op == "sub"@ {
        binary_op_lines("M=M-D"@)
    } else if op == "and"@ {
        binary_op_lines("M=D&M"@)
    } else if op == "or"@ {
        binary_op_lines("M=D|M"@)
    } else if op == "neg"@ {
        unary_op_lines("M=-M"@)
    } else if op == "not"@ {
        unary_op_lines("M=!M"@)
    } else if op == "eq"@ {
        eq_lines(n)
    } else if op == "gt"@ {
        gt_lines(n)
    } else {
        lt_lines(n)
    }
}

/// Pushing a value read through a segment base: set D to the index,
/// form the address with `addr_line`, read, and push D.
pub open spec fn push_via_lines(base_at: Seq<char>, addr_line: Seq<char>, i: nat) -> Seq<
    Seq<char>,
> {
    seq!["@"@ + dec_repr(i), "D=A"@, base_at, addr_line, "D=M"@] + push_d_lines()
}

/// Pushing a constant: set D to the value and push it.
pub open spec fn push_constant_lines(i: nat) -> Seq<Seq<char>> {
    seq!["@"@ + dec_repr(i), "D=A"@] + push_d_lines()
}

/// Pushing a static variable: one symbol per file and index.
pub open spec fn push_static_lines(file: Seq<char>, i: nat) -> Seq<Seq<char>> {
    seq!["@"@ + file + "."@ + dec_repr(i), "D=M"@] + push_d_lines()
}

/// Popping into a segment: form the target address in R13, pop into D,
/// store through R13.
pub open spec fn pop_via_lines(base_at: Seq<char>, addr_line: Seq<char>, i: nat) -> Seq<
    Seq<char>,
> {
    seq![
        "@"@ + dec_repr(i),
        "D=A"@,
        base_at,
        addr_line,
        "@R13"@,
        "M=D"@,
        "@SP"@,
        "AM=M-1"@,
        "D=M"@,
        "@R13"@,
        "A=M"@,
        "M=D"@,
    ]
}

/// Popping into a static variable.
pub open spec fn pop_static_lines(file: Seq<char>, i: nat) -> Seq<Seq<char>> {
    seq!["@SP"@, "M=M-1"@, "A=M"@, "D=M"@, "@"@ + file + "."@ + dec_repr(i), "M=D"@]
}

/// The assembly a push command translates to, or `None` for a segment
/// no push accepts.
pub open spec fn spec_push_lines(file: Seq<char>, seg: Seq<char>, i: nat) -> Option<
    Seq<Seq<char>>,
> {
    if seg == "constant"@ {
        Some(push_constant_lines(i))
    } else if seg == "local"@ {
        Some(push_via_lines("@LCL"@, "A=D+M"@, i))
    } else if seg == "argument"@ {
        Some(push_via_lines("@ARG"@, "A=D+M"@, i))
    } else if seg == "this"@ {
        Some(push_via_lines("@THIS"@, "A=D+M"@, i))
    } else if seg == "that"@ {
        Some(push_via_lines("@THAT"@, "A=D+M"@, i))
    } else if seg == "temp"@ {
        Some(push_via_lines("@5"@, "A=D+A"@, i))
    } else if seg == "pointer"@ {
        Some(push_via_lines("@3"@, "A=D+A"@, i))
    } else if seg == "static"@ {
        Some(push_static_lines(file, i))
    } else {
        None
    }
}

/// The assembly a pop command translates to, or `None` for a segment
/// no pop accepts (`constant` among them).
pub open spec fn spec_pop_lines(file: Seq<char>, seg: Seq<char>, i: nat) -> Option<
    Seq<Seq<char>>,
> {
    if seg == "local"@ {
        Some(pop_via_lines("@LCL"@, "D=D+M"@, i))
    } else if seg == "argument"@ {
        Some(pop_via_lines("@ARG"@, "D=D+M"@, i))
    } else if seg == "this"@ {
        Some(pop_via_lines("@THIS"@, "D=D+M"@, i))
    } else if seg == "that"@ {
        Some(pop_via_lines("@THAT"@, "D=D+M"@, i))
    } else if seg == "temp"@ {
        Some(pop_via_lines("@5"@, "D=D+A"@, i))
    } else if seg == "pointer"@ {
        Some(pop_via_lines("@3"@, "D=D+A"@, i))
    } else if seg == "static"@ {
        Some(pop_static_lines(file, i))
    } else {
        None
    }
}

/// The assembly a push or pop command translates to; only push and pop
/// command types translate at all.
pub open spec fn spec_push_pop_lines(
    cmd: CommandType,
    file: Seq<char>,
    seg: Seq<char>,
    i: nat,
) -> Option<Seq<Seq<char>>> {
    match cmd {
        CommandType::CPush => spec_push_lines(file, seg, i),
        CommandType::CPop => spec_pop_lines(file, seg, i),
        _ => None,
    }
}

proof fn lemma_not_minting(op: Seq<char>)
    requires
        op == "add"@ || op == "sub"@ || op == "neg"@ || op == "and"@ || op == "or"@ || op
            == "not"@,
    ensures
        !arith_mints_label(op),
{
    reveal_strlit("add");
    reveal_strlit("sub");
    reveal_strlit("neg");
    reveal_strlit("and");
    reveal_strlit("or");
    reveal_strlit("not");
    reveal_strlit("eq");
    reveal_strlit("gt");
    reveal_strlit("lt");
    assert("add"@.len() == 3 && "sub"@.len() == 3 && "neg"@.len() == 3 && "and"@.len() == 3
        && "not"@.len() == 3);
    assert("eq"@.len() == 2 && "gt"@.len() == 2 && "lt"@.len() == 2 && "or"@.len() == 2);
    assert("or"@[0] == 'o' && "eq"@[0] == 'e' && "gt"@[0] == 'g' && "lt"@[0] == 'l');
}

/// `prefix` with the decimal rendering of `n` appended.
fn make_counter_label(prefix: &str, n: usize) -> (r: String)
    ensures
        r@ == prefix@ + dec_repr(n as nat),
{
    let mut s = String::from_str(prefix);
    let d = to_decimal(n);
    s.append(d.as_str());
    s
}

/// `prefix` with the decimal rendering of `n` and a closing paren.
fn make_counter_def_label(prefix: &str, n: usize) -> (r: String)
    ensures
        r@ == prefix@ + dec_repr(n as nat) + ")"@,
{
    let mut s = make_counter_label(prefix, n);
    s.append(")");
    s
}

impl CodeWriter {
    /// A fresh writer for one whole program run: empty output, counter
    /// at zero, no active function, tagged with `file_name`.
    pub fn new(file_name: &str) -> (r: CodeWriter)
        ensures
            r@.lines == Seq::<Seq<char>>::empty(),
            r@.label_count == 0,
            r@.current_function is None,
            r@.file_name == file_name@,
    {
        let r = CodeWriter {
            file_name: String::from_str(file_name),
            output: Vec::new(),
            label_count: 0,
            current_function: None,
        };
        proof {
            assert(r.output.deep_view() =~= Seq::<Seq<char>>::empty());
        }
        r
    }

    /// Retags the writer for the next source file; only static
    /// addressing changes.
    pub fn set_file_name(&mut self, file_name: &str)
        ensures
            final(self)@ == (WriterModel { file_name: file_name@, ..old(self)@ }),
    {
        self.file_name = String::from_str(file_name);
    }

    /// The emitted assembly lines.
    pub fn into_lines(self) -> (r: Vec<String>)
        ensures
            r.deep_view() == self@.lines,
    {
        self.output
    }

    fn emit(&mut self, line: &str)
        ensures
            final(self)@ == (WriterModel {
                lines: old(self)@.lines.push(line@),
                ..old(self)@
            }),
    {
        self.output.push(String::from_str(line));
        proof {
            assert(self.output.deep_view() =~= old(self).output.deep_view().push(line@));
        }
    }

    fn emit_owned(&mut self, line: String)
        ensures
            final(self)@ == (WriterModel {
                lines: old(self)@.lines.push(line@),
                ..old(self)@
            }),
    {
        let ghost lv = line@;
        self.output.push(line);
        proof {
            assert(self.output.deep_view() =~= old(self).output.deep_view().push(lv));
        }
    }

    fn emit_push_d(&mut self)
        ensures
            final(self)@ == (WriterModel {
                lines: old(self)@.lines + push_d_lines(),
                ..old(self)@
            }),
    {
        self.emit("@SP");
        self.emit("A=M");
        self.emit("M=D");
        self.emit("@SP");
        self.emit("M=M+1");
        proof {
            assert(self@.lines =~= old(self)@.lines + push_d_lines());
        }
    }

    fn emit_binary(&mut self, op_line: &str)
        ensures
            final(self)@ == (WriterModel {
                lines: old(self)@.lines + binary_op_lines(op_line@),
                ..old(self)@
            }),
    {
        self.emit("@SP");
        self.emit("M=M-1");
        self.emit("A=M");
        self.emit("D=M");
        self.emit("@SP");
        self.emit("M=M-1");
        self.emit("A=M");
        self.emit(op_line);
        self.emit("@SP");
        self.emit("M=M+1");
        proof {
            assert(self@.lines =~= old(self)@.lines + binary_op_lines(op_line@));
        }
    }

    fn emit_unary(&mut self, op_line: &str)
        ensures
            final(self)@ == (WriterModel {
                lines: old(self)@.lines + unary_op_lines(op_line@),
                ..old(self)@
            }),
    {
        self.emit("@SP");
        self.emit("M=M-1");
        self.emit("A=M");
        self.emit(op_line);
        self.emit("@SP");
        self.emit("M=M+1");
        proof {
            assert(self@.lines =~= old(self)@.lines + unary_op_lines(op_line@));
        }
    }

    fn emit_compare(
        &mut self,
        at_label: String,
        jump_line: &str,
        def_label: String,
        via_a: bool,
        Ghost(at_prefix): Ghost<Seq<char>>,
        Ghost(def_prefix): Ghost<Seq<char>>,
    )
        requires
            at_label@ == at_prefix + dec_repr(old(self)@.label_count),
            def_label@ == def_prefix + dec_repr(old(self)@.label_count) + ")"@,
        ensures
            final(self)@ == (WriterModel {
                lines: old(self)@.lines + compare_lines(
                    at_prefix,
                    jump_line@,
                    def_prefix,
                    if via_a {
                        seq!["@0"@, "D=A"@, "D=D-1"@]
                    } else {
                        seq!["D=0"@, "D=D-1"@]
                    },
                    old(self)@.label_count,
                ),
                ..old(self)@
            }),
    {
        let n = self.label_count;
        let cont_at = make_counter_label("@CONTINUE.", n);
        let cont_def = make_counter_def_label("(CONTINUE.", n);
        self.emit("@SP");
        self.emit("M=M-1");
        self.emit("A=M");
        self.emit("D=M");
        self.emit("@SP");
        self.emit("M=M-1");
        self.emit("A=M");
        self.emit("D=M-D");
        self.emit_owned(at_label);
        self.emit(jump_line);
        self.emit("D=0");
        self.emit("@SP");
        self.emit("A=M");
        self.emit("M=D");
        self.emit("@SP");
        self.emit("M=M+1");
        self.emit_owned(cont_at);
        self.emit("0;JMP");
        self.emit_owned(def_label);
        if via_a {
            self.emit("@0");
            self.emit("D=A");
            self.emit("D=D-1");
        } else {
            self.emit("D=0");
            self.emit("D=D-1");
        }
        self.emit("@SP");
        self.emit("A=M");
        self.emit("M=D");
        self.emit("@SP");
        self.emit("M=M+1");
        self.emit_owned(cont_def);
        proof {
            assert(self@.lines =~= old(self)@.lines + compare_lines(
                at_prefix,
                jump_line@,
                def_prefix,
                if via_a {
                    seq!["@0"@, "D=A"@, "D=D-1"@]
                } else {
                    seq!["D=0"@, "D=D-1"@]
                },
                old(self)@.label_count,
            ));
        }
    }

    /// Translates one arithmetic command.  A comparison first bumps the
    /// disambiguation counter and stamps it into its branch labels; an
    /// operator outside the nine is the error it reports, with nothing
    /// written.
    pub fn write_arithmetic(&mut self, command: &str) -> (r: Result<(), VmError>)
        requires
            old(self)@.label_count < usize::MAX as nat,
        ensures
            match r {
                Ok(()) => valid_arith(command@) && final(self)@ == (WriterModel {
                    lines: old(self)@.lines + spec_arithmetic_lines(
                        command@,
                        final(self)@.label_count,
                    ),
                    label_count: old(self)@.label_count + if arith_mints_label(command@) {
                        1nat
                    } else {
                        0nat
                    },
                    ..old(self)@
                }),
                Err(e) => !valid_arith(command@) && final(self)@ == old(self)@ && e.kind
                    == VmErrorKind::InvalidArithmetic && e.text@ == command@ && e.at == 0,
            },
    {
        if str_eq(command, "add") {
            self.emit_binary("M=D+M");
            proof {
                lemma_not_minting(command@);
            }
            Ok(())
        } else if str_eq(command, "sub") {
            self.emit_binary("M=M-D");
            proof {
                lemma_not_minting(command@);
            }
            Ok(())
        } else if str_eq(command, "and") {
            self.emit_binary("M=D&M");
            proof {
                lemma_not_minting(command@);
            }
            Ok(())
        } else if str_eq(command, "or") {
            self.emit_binary("M=D|M");
            proof {
                lemma_not_minting(command@);
            }
            Ok(())
        } else if str_eq(command, "neg") {
            self.emit_unary("M=-M");
            proof {
                lemma_not_minting(command@);
            }
            Ok(())
        } else if str_eq(command, "not") {
            self.emit_unary("M=!M");
            proof {
                lemma_not_minting(command@);
            }
            Ok(())
        } else if str_eq(command, "eq") {
            self.label_count = self.label_count + 1;
            let n = self.label_count;
            let at_label = make_counter_label("@EQ.", n);
            let def_label = make_counter_def_label("(EQ.", n);
            self.emit_compare(at_label, "D;JEQ", def_label, true, Ghost("@EQ."@), Ghost("(EQ."@));
            proof {
                assert(self@.lines =~= old(self)@.lines + eq_lines(n as nat));
            }
            Ok(())
        } else if str_eq(command, "gt") {
            self.label_count = self.label_count + 1;
            let n = self.label_count;
            let at_label = make_counter_label("@GT.", n);
            let def_label = make_counter_def_label("(GT.", n);
            self.emit_compare(at_label, "D;JGT", def_label, false, Ghost("@GT."@), Ghost("(GT."@));
            proof {
                assert(self@.lines =~= old(self)@.lines + gt_lines(n as nat));
            }
            Ok(())
        } else if str_eq(command, "lt") {
            self.label_count = self.label_count + 1;
            let n = self.label_count;
            let at_label = make_counter_label("@LT.", n);
            let def_label = make_counter_def_label("(LT.", n);
            self.emit_compare(at_label, "D;JLT", def_label, false, Ghost("@LT."@), Ghost("(LT."@));
            proof {
                assert(self@.lines =~= old(self)@.lines + lt_lines(n as nat));
            }
            Ok(())
        } else {
            Err(VmError { at: 0, text: String::from_str(command), kind: VmErrorKind::InvalidArithmetic })
        }
    }

    fn emit_push_via(&mut self, base_at: &str, addr_line: &str, index: u32)
        ensures
            final(self)@ == (WriterModel {
                lines: old(self)@.lines + push_via_lines(base_at@, addr_line@, index as nat),
                ..old(self)@
            }),
    {
        let at_index = make_counter_label("@", index as usize);
        self.emit_owned(at_index);
        self.emit("D=A");
        self.emit(base_at);
        self.emit(addr_line);
        self.emit("D=M");
        self.emit_push_d();
        proof {
            assert(self@.lines =~= old(self)@.lines + push_via_lines(
                base_at@,
                addr_line@,
                index as nat,
            ));
        }
    }

    fn emit_pop_via(&mut self, base_at: &str, addr_line: &str, index: u32)
        ensures
            final(self)@ == (WriterModel {
                lines: old(self)@.lines + pop_via_lines(base_at@, addr_line@, index as nat),
                ..old(self)@
            }),
    {
        let at_index = make_counter_label("@", index as usize);
        self.emit_owned(at_index);
        self.emit("D=A");
        self.emit(base_at);
        self.emit(addr_line);
        self.emit("@R13");
        self.emit("M=D");
        self.emit("@SP");
        self.emit("AM=M-1");
        self.emit("D=M");
        self.emit("@R13");
        self.emit("A=M");
        self.emit("M=D");
        proof {
            assert(self@.lines =~= old(self)@.lines + pop_via_lines(
                base_at@,
                addr_line@,
                index as nat,
            ));
        }
    }

    fn make_static_label(&self, index: u32) -> (r: String)
        ensures
            r@ == "@"@ + self@.file_name + "."@ + dec_repr(index as nat),
    {
        let mut s = String::from_str("@");
        s.append(self.file_name.as_str());
        s.append(".");
        let d = to_decimal(index as usize);
        s.append(d.as_str());
        s
    }

    /// Translates one push or pop command.  A segment the command does
    /// not accept, or a command that is neither push nor pop, is the
    /// error it reports, with nothing written.
    pub fn write_push_pop(&mut self, command: CommandType, segment: &str, index: u32) -> (r:
        Result<(), VmError>)
        ensures
            ({
                let res = spec_push_pop_lines(command, old(self)@.file_name, segment@, index as nat);
                match r {
                    Ok(()) => res is Some && final(self)@ == (WriterModel {
                        lines: old(self)@.lines + res->0,
                        ..old(self)@
                    }),
                    Err(e) => res is None && final(self)@ == old(self)@ && e.text@ == segment@
                        && e.at == 0 && e.kind == (if command == CommandType::CPush || command
                        == CommandType::CPop {
                        VmErrorKind::InvalidSegment
                    } else {
                        VmErrorKind::InvalidPushPop
                    }),
                }
            }),
    {
        match command {
            CommandType::CPush => {
                if str_eq(segment, "constant") {
                    let at_index = make_counter_label("@", index as usize);
                    self.emit_owned(at_index);
                    self.emit("D=A");
                    self.emit_push_d();
                    proof {
                        assert(self@.lines =~= old(self)@.lines + push_constant_lines(
                            index as nat,
                        ));
                    }
                    Ok(())
                } else if str_eq(segment, "local") {
                    self.emit_push_via("@LCL", "A=D+M", index);
                    Ok(())
                } else if str_eq(segment, "argument") {
                    self.emit_push_via("@ARG", "A=D+M", index);
                    Ok(())
                } else if str_eq(segment, "this") {
                    self.emit_push_via("@THIS", "A=D+M", index);
                    Ok(())
                } else if str_eq(segment, "that") {
                    self.emit_push_via("@THAT", "A=D+M", index);
                    Ok(())
                } else if str_eq(segment, "temp") {
                    self.emit_push_via("@5", "A=D+A", index);
                    Ok(())
                } else if str_eq(segment, "pointer") {
                    self.emit_push_via("@3", "A=D+A", index);
                    Ok(())
                } else if str_eq(segment, "static") {
                    let at_static = self.make_static_label(index);
                    self.emit_owned(at_static);
                    self.emit("D=M");
                    self.emit_push_d();
                    proof {
                        assert(self@.lines =~= old(self)@.lines + push_static_lines(
                            old(self)@.file_name,
                            index as nat,
                        ));
                    }
                    Ok(())
                } else {
                    Err(
                        VmError {
                            at: 0,
                            text: String::from_str(segment),
                            kind: VmErrorKind::InvalidSegment,
                        },
                    )
                }
            },
            CommandType::CPop => {
                if str_eq(segment, "local") {
                    self.emit_pop_via("@LCL", "D=D+M", index);
                    Ok(())
                } else if str_eq(segment, "argument") {
                    self.emit_pop_via("@ARG", "D=D+M", index);
                    Ok(())
                } else if str_eq(segment, "this") {
                    self.emit_pop_via("@THIS", "D=D+M", index);
                    Ok(())
                } else if str_eq(segment, "that") {
                    self.emit_pop_via("@THAT", "D=D+M", index);
                    Ok(())
                } else if str_eq(segment, "temp") {
                    self.emit_pop_via("@5", "D=D+A", index);
                    Ok(())
                } else if str_eq(segment, "pointer") {
                    self.emit_pop_via("@3", "D=D+A", index);
                    Ok(())
                } else if str_eq(segment, "static") {
                    let at_static = self.make_static_label(index);
                    self.emit("@SP");
                    self.emit("M=M-1");
                    self.emit("A=M");
                    self.emit("D=M");
                    self.emit_owned(at_static);
                    self.emit("M=D");
                    proof {
                        assert(self@.lines =~= old(self)@.lines + pop_static_lines(
                            old(self)@.file_name,
                            index as nat,
                        ));
                    }
                    Ok(())
                } else {
                    Err(
                        VmError {
                            at: 0,
                            text: String::from_str(segment),
                            kind: VmErrorKind::InvalidSegment,
                        },
                    )
                }
            },
            _ => Err(
                VmError {
                    at: 0,
                    text: String::from_str(segment),
                    kind: VmErrorKind::InvalidPushPop,
                },
            ),
        }
    }

    fn emit_save_reg(&mut self, reg_at: &str)
        ensures
            final(self)@ == (WriterModel {
                lines: old(self)@.lines + save_reg_lines(reg_at@),
                ..old(self)@
            }),
    {
        self.emit(reg_at);
        self.emit("D=M");
        self.emit_push_d();
        proof {
            assert(self@.lines =~= old(self)@.lines + save_reg_lines(reg_at@));
        }
    }

    fn emit_restore_reg(&mut self, k_at: &str, reg_at: &str)
        ensures
            final(self)@ == (WriterModel {
                lines: old(self)@.lines + restore_reg_lines(k_at@, reg_at@),
                ..old(self)@
            }),
    {
        self.emit(k_at);
        self.emit("D=A");
        self.emit("@R13");
        self.emit("A=M-D");
        self.emit("D=M");
        self.emit(reg_at);
        self.emit("M=D");
        proof {
            assert(self@.lines =~= old(self)@.lines + restore_reg_lines(k_at@, reg_at@));
        }
    }

    /// Writes the call protocol for `call function_name num_args`,
    /// minting a fresh return label.
    pub fn write_call(&mut self, function_name: &str, num_args: u32)
        requires
            old(self)@.label_count < usize::MAX as nat,
        ensures
            final(self)@ == (WriterModel {
                lines: old(self)@.lines + call_lines(
                    function_name@,
                    num_args as nat,
                    old(self)@.label_count + 1,
                ),
                label_count: old(self)@.label_count + 1,
                ..old(self)@
            }),
    {
        self.label_count = self.label_count + 1;
        let n = self.label_count;
        let ret_at = make_counter_label("@RETURN.", n);
        let ret_def = make_counter_def_label("(RETURN.", n);
        let nargs_at = make_counter_label("@", num_args as usize);
        let mut callee_at = String::from_str("@");
        callee_at.append(function_name);
        self.emit_owned(ret_at);
        self.emit("D=A");
        self.emit_push_d();
        self.emit_save_reg("@LCL");
        self.emit_save_reg("@ARG");
        self.emit_save_reg("@THIS");
        self.emit_save_reg("@THAT");
        self.emit("@SP");
        self.emit("D=M");
        self.emit("@5");
        self.emit("D=D-A");
        self.emit_owned(nargs_at);
        self.emit("D=D-A");
        self.emit("@ARG");
        self.emit("M=D");
        self.emit("@SP");
        self.emit("D=M");
        self.emit("@LCL");
        self.emit("M=D");
        self.emit_owned(callee_at);
        self.emit("0;JMP");
        self.emit_owned(ret_def);
        proof {
            assert(self@.lines =~= old(self)@.lines + call_lines(
                function_name@,
                num_args as nat,
                n as nat,
            ));
        }
    }

    /// Writes the return protocol.
    pub fn write_return(&mut self)
        ensures
            final(self)@ == (WriterModel {
                lines: old(self)@.lines + return_lines(),
                ..old(self)@
            }),
    {
        self.emit("@LCL");
        self.emit("D=M");
        self.emit("@R13");
        self.emit("M=D");
        self.emit_restore_reg("@5", "@R14");
        self.emit("@SP");
        self.emit("AM=M-1");
        self.emit("D=M");
        self.emit("@ARG");
        self.emit("A=M");
        self.emit("M=D");
        self.emit("@ARG");
        self.emit("D=M+1");
        self.emit("@SP");
        self.emit("M=D");
        self.emit_restore_reg("@1", "@THAT");
        self.emit_restore_reg("@2", "@THIS");
        self.emit_restore_reg("@3", "@ARG");
        self.emit_restore_reg("@4", "@LCL");
        self.emit("@R14");
        self.emit("A=M");
        self.emit("0;JMP");
        proof {
            assert(self@.lines =~= old(self)@.lines + return_lines());
        }
    }

    /// Writes a function entry for `function function_name num_locals`,
    /// minting fresh loop labels and making the function current.
    pub fn write_function(&mut self, function_name: &str, num_locals: u32)
        requires
            old(self)@.label_count < usize::MAX as nat,
        ensures
            final(self)@ == (WriterModel {
                lines: old(self)@.lines + function_lines(
                    function_name@,
                    num_locals as nat,
                    old(self)@.label_count + 1,
                ),
                label_count: old(self)@.label_count + 1,
                current_function: Some(function_name@),
                file_name: old(self)@.file_name,
            }),
    {
        self.label_count = self.label_count + 1;
        let n = self.label_count;
        self.current_function = Some(String::from_str(function_name));
        let mut def = String::from_str("(");
        def.append(function_name);
        def.append(")");
        let locals_at = make_counter_label("@", num_locals as usize);
        let while1_at = make_counter_label("@WHILE1.", n);
        let while1_def = make_counter_def_label("(WHILE1.", n);
        let while2_at = make_counter_label("@WHILE2.", n);
        let while2_def = make_counter_def_label("(WHILE2.", n);
        self.emit_owned(def);
        self.emit_owned(locals_at);
        self.emit("D=A");
        self.emit("@R13");
        self.emit("M=D");
        self.emit_owned(while1_def);
        self.emit("@R13");
        self.emit("D=M");
        self.emit_owned(while2_at);
        self.emit("D;JEQ");
        self.emit("@0");
        self.emit("D=A");
        self.emit_push_d();
        self.emit("@R13");
        self.emit("D=M");
        self.emit("@1");
        self.emit("D=D-A");
        self.emit("@R13");
        self.emit("M=D");
        self.emit_owned(while1_at);
        self.emit("0;JMP");
        self.emit_owned(while2_def);
        proof {
            assert(self@.lines =~= old(self)@.lines + function_lines(
                function_name@,
                num_locals as nat,
                n as nat,
            ));
        }
    }

    /// Writes the once-per-program bootstrap.
    pub fn write_init(&mut self)
        requires
            old(self)@.label_count < usize::MAX as nat,
        ensures
            final(self)@ == (WriterModel {
                lines: old(self)@.lines + init_lines(old(self)@.label_count + 1),
                label_count: old(self)@.label_count + 1,
                ..old(self)@
            }),
    {
        self.emit("@256");
        self.emit("D=A");
        self.emit("@SP");
        self.emit("M=D");
        self.write_call("Sys.init", 0);
        proof {
            assert(self@.lines =~= old(self)@.lines + init_lines(old(self)@.label_count + 1));
        }
    }

    /// Writes a label definition, qualified by the active function.
    pub fn write_label(&mut self, label: &str)
        ensures
            final(self)@ == (WriterModel {
                lines: old(self)@.lines.push(
                    "("@ + qualify(old(self)@.current_function, label@) + ")"@,
                ),
                ..old(self)@
            }),
    {
        let mut line = String::from_str("(");
        match &self.current_function {
            Some(f) => {
                let q = f.clone();
                line.append(q.as_str());
                line.append("$");
                line.append(label);
                line.append(")");
            },
            None => {
                line.append(label);
                line.append(")");
            },
        }
        proof {
            assert(line@ =~= "("@ + qualify(old(self)@.current_function, label@) + ")"@);
        }
        self.emit_owned(line);
    }

    /// Writes an unconditional jump to a label, qualified by the
    /// active function.
    pub fn write_goto(&mut self, label: &str)
        ensures
            final(self)@ == (WriterModel {
                lines: old(self)@.lines + seq![
                    "@"@ + qualify(old(self)@.current_function, label@),
                    "0;JMP"@,
                ],
                ..old(self)@
            }),
    {
        let mut line = String::from_str("@");
        match &self.current_function {
            Some(f) => {
                let q = f.clone();
                line.append(q.as_str());
                line.append("$");
                line.append(label);
            },
            None => {
                line.append(label);
            },
        }
        proof {
            assert(line@ =~= "@"@ + qualify(old(self)@.current_function, label@));
        }
        self.emit_owned(line);
        self.emit("0;JMP");
        proof {
            assert(self@.lines =~= old(self)@.lines + seq![
                "@"@ + qualify(old(self)@.current_function, label@),
                "0;JMP"@,
            ]);
        }
    }

    /// Writes a conditional branch: pops one value and jumps to the
    /// qualified label when it is nonzero.
    pub fn write_if(&mut self, label: &str)
        ensures
            final(self)@ == (WriterModel {
                lines: old(self)@.lines + seq![
                    "@SP"@,
                    "AM=M-1"@,
                    "D=M"@,
                    "@"@ + qualify(old(self)@.current_function, label@),
                    "D;JNE"@,
                ],
                ..old(self)@
            }),
    {
        let mut line = String::from_str("@");
        match &self.current_function {
            Some(f) => {
                let q = f.clone();
                line.append(q.as_str());
                line.append("$");
                line.append(label);
            },
            None => {
                line.append(label);
            },
        }
        proof {
            assert(line@ =~= "@"@ + qualify(old(self)@.current_function, label@));
        }
        self.emit("@SP");
        self.emit("AM=M-1");
        self.emit("D=M");
        self.emit_owned(line);
        self.emit("D;JNE");
        proof {
            assert(self@.lines =~= old(self)@.lines + seq![
                "@SP"@,
                "AM=M-1"@,
                "D=M"@,
                "@"@ + qualify(old(self)@.current_function, label@),
                "D;JNE"@,
            ]);
        }
    }
}

/// Two VM labels sharing a name but belonging to two different
/// functions do not collide in the generated assembly: their qualified
/// names differ.
pub proof fn lemma_qualified_labels_distinct(f1: Seq<char>, f2: Seq<char>, l: Seq<char>)
    requires
        f1 != f2,
    ensures
        qualify(Some(f1), l) != qualify(Some(f2), l),
{
    reveal_strlit("$");
    if qualify(Some(f1), l) == qualify(Some(f2), l) {
        let s1 = f1 + "$"@ + l;
        let s2 = f2 + "$"@ + l;
        assert(s1.len() == f1.len() + 1 + l.len());
        assert(s2.len() == f2.len() + 1 + l.len());
        assert(f1.len() == f2.len());
        assert(f1 =~= f2) by {
            assert(forall|k: int| 0 <= k < f1.len() ==> s1[k] == f1[k] && s2[k] == f2[k]);
        }
    }
}

/// The prefixes of the labels the writer mints: each ends in its only
/// `.`, and what follows is the decimal counter.
pub open spec fn minted_label_prefix(p: Seq<char>) -> bool {
    ||| p == "(EQ."@
    ||| p == "(GT."@
    ||| p == "(LT."@
    ||| p == "(CONTINUE."@
    ||| p == "(RETURN."@
    ||| p == "(WHILE1."@
    ||| p == "(WHILE2."@
}

proof fn lemma_prefix_digits_injective(p1: Seq<char>, n1: nat, p2: Seq<char>, n2: nat)
    requires
        p1.len() > 0,
        p2.len() > 0,
        p1.last() == '.',
        p2.last() == '.',
        forall|k: int| 0 <= k < p1.len() - 1 ==> p1[k] != '.',
        forall|k: int| 0 <= k < p2.len() - 1 ==> p2[k] != '.',
        p1 != p2 || n1 != n2,
    ensures
        p1 + dec_repr(n1) != p2 + dec_repr(n2),
{
    crate::text::lemma_dec_repr(n1);
    crate::text::lemma_dec_repr(n2);
    let d1 = dec_repr(n1);
    let d2 = dec_repr(n2);
    let s1 = p1 + d1;
    let s2 = p2 + d2;
    if s1 == s2 {
        assert(forall|k: int|
            p1.len() <= k < s1.len() ==> crate::text::is_digit(#[trigger] s1[k]));
        assert(forall|k: int|
            p2.len() <= k < s2.len() ==> crate::text::is_digit(#[trigger] s2[k]));
        assert(s1[p1.len() - 1] == '.');
        assert(s2[p2.len() - 1] == '.');
        assert(forall|c: char| crate::text::is_digit(c) ==> c != '.');
        assert(p1.len() == p2.len()) by {
            if p1.len() < p2.len() {
                assert(crate::text::is_digit(s1[p2.len() - 1]));
            }
            if p2.len() < p1.len() {
                assert(crate::text::is_digit(s2[p1.len() - 1]));
            }
        }
        assert(p1 =~= p2) by {
            assert(forall|k: int| 0 <= k < p1.len() ==> s1[k] == p1[k] && s2[k] == p2[k]);
        }
        assert(d1 =~= d2) by {
            assert(forall|k: int|
                0 <= k < d1.len() ==> s1[p1.len() + k] == d1[k] && s2[p2.len() + k] == d2[k]);
        }
        crate::text::lemma_dec_repr_injective(n1, n2);
        assert(n1 == n2 && p1 == p2);
    }
}

/// Every comparison, call and function entry mints labels stamped with
/// a counter value the writer never reuses: the label-definition lines
/// generated for two different mints — a different prefix, a different
/// counter value, or both — never coincide, so repeated `eq`, `gt`,
/// `lt` and `call` commands in one program never define the same label
/// twice.
pub proof fn lemma_generated_labels_unique(p1: Seq<char>, n1: nat, p2: Seq<char>, n2: nat)
    requires
        minted_label_prefix(p1),
        minted_label_prefix(p2),
        p1 != p2 || n1 != n2,
    ensures
        p1 + dec_repr(n1) + ")"@ != p2 + dec_repr(n2) + ")"@,
{
    reveal_strlit("(EQ.");
    reveal_strlit("(GT.");
    reveal_strlit("(LT.");
    reveal_strlit("(CONTINUE.");
    reveal_strlit("(RETURN.");
    reveal_strlit("(WHILE1.");
    reveal_strlit("(WHILE2.");
    reveal_strlit(")");
    lemma_prefix_digits_injective(p1, n1, p2, n2);
    if p1 + dec_repr(n1) + ")"@ == p2 + dec_repr(n2) + ")"@ {
        let s1 = p1 + dec_repr(n1) + ")"@;
        let s2 = p2 + dec_repr(n2) + ")"@;
        assert((p1 + dec_repr(n1)) =~= s1.take(s1.len() - 1));
        assert((p2 + dec_repr(n2)) =~= s2.take(s2.len() - 1));
    }
}

} // verus!

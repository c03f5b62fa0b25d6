//! The generator-to-assembler conformance law: every assembly line the
//! VM code generator emits is one the assembler accepts — address and
//! label commands always are, and each fixed compute template splits
//! into legal dest, comp and jump fields.

use vstd::prelude::*;

use crate::asm_parser::CommandType;
use crate::asm_parser::spec_command_type;
use crate::asm_parser::spec_comp_field;
use crate::asm_parser::spec_dest_field;
use crate::asm_parser::spec_jump_field;
use crate::code::valid_comp;
use crate::code::valid_dest;
use crate::code::valid_jump;
use crate::code_writer::WriterModel;
use crate::code_writer::arith_mints_label;
use crate::code_writer::call_lines;
use crate::code_writer::compare_lines;
use crate::code_writer::function_lines;
use crate::code_writer::init_lines;
use crate::code_writer::push_d_lines;
use crate::code_writer::qualify;
use crate::code_writer::return_lines;
use crate::code_writer::spec_arithmetic_lines;
use crate::code_writer::spec_push_pop_lines;
use crate::code_writer::valid_arith;
use crate::text::all_digits;
use crate::text::dec_repr;
use crate::text::dec_value;
use crate::text::find_from;
use crate::translator::Translated;
use crate::translator::spec_program;
use crate::translator::spec_program_from;
use crate::translator::spec_translate;
use crate::vm_parser::spec_vm_lines;
use crate::vm_parser::CommandType as CmdType;
use crate::vm_parser::spec_keyword_type;

verus! {

/// A line the assembler's second pass accepts: address and label
/// commands always encode, a compute command needs legal fields.
pub open spec fn line_assembles(l: Seq<char>) -> bool {
    match spec_command_type(l) {
        CommandType::ACommand => true,
        CommandType::LCommand => true,
        CommandType::CCommand => valid_dest(spec_dest_field(l)) && valid_comp(spec_comp_field(l))
            && valid_jump(spec_jump_field(l)),
    }
}

/// Every line of a stream is accepted.
pub open spec fn all_lines_assemble(ls: Seq<Seq<char>>) -> bool {
    forall|k: int| 0 <= k < ls.len() ==> line_assembles(#[trigger] ls[k])
}

/// Each fixed compute template the generator uses splits into legal
/// dest, comp and jump fields.
pub proof fn lemma_template_lines_assemble()
    ensures
        line_assembles("D=A"@),
        line_assembles("D=M"@),
        line_assembles("M=D"@),
        line_assembles("A=M"@),
        line_assembles("M=M+1"@),
        line_assembles("M=M-1"@),
        line_assembles("AM=M-1"@),
        line_assembles("D=M-D"@),
        line_assembles("M=D+M"@),
        line_assembles("M=M-D"@),
        line_assembles("M=D&M"@),
        line_assembles("M=D|M"@),
        line_assembles("M=-M"@),
        line_assembles("M=!M"@),
        line_assembles("D;JEQ"@),
        line_assembles("D;JGT"@),
        line_assembles("D;JLT"@),
        line_assembles("D;JNE"@),
        line_assembles("D=0"@),
        line_assembles("0;JMP"@),
        line_assembles("D=D-1"@),
        line_assembles("D=D-A"@),
        line_assembles("A=D+M"@),
        line_assembles("A=D+A"@),
        line_assembles("D=D+M"@),
        line_assembles("D=D+A"@),
        line_assembles("A=M-D"@),
        line_assembles("D=M+1"@),
{
    assert(line_assembles("D=A"@)) by {
        let l = "D=A"@;
        reveal_strlit("A");
        reveal_strlit("D");
        reveal_strlit("D=A");
        reveal_strlit("null");
        assert(find_from(l, '=', 0) == Some(1int)) by {
            reveal_with_fuel(find_from, 5);
        }
        assert(find_from(l, ';', 0) is None) by {
            reveal_with_fuel(find_from, 5);
        }
        assert(spec_dest_field(l) =~= "D"@);
        assert(spec_comp_field(l) =~= "A"@);
        assert(spec_jump_field(l) =~= "null"@);
    }
    assert(line_assembles("D=M"@)) by {
        let l = "D=M"@;
        reveal_strlit("D");
        reveal_strlit("D=M");
        reveal_strlit("M");
        reveal_strlit("null");
        assert(find_from(l, '=', 0) == Some(1int)) by {
            reveal_with_fuel(find_from, 5);
        }
        assert(find_from(l, ';', 0) is None) by {
            reveal_with_fuel(find_from, 5);
        }
        assert(spec_dest_field(l) =~= "D"@);
        assert(spec_comp_field(l) =~= "M"@);
        assert(spec_jump_field(l) =~= "null"@);
    }
    assert(line_assembles("M=D"@)) by {
        let l = "M=D"@;
        reveal_strlit("D");
        reveal_strlit("M");
        reveal_strlit("M=D");
        reveal_strlit("null");
        assert(find_from(l, '=', 0) == Some(1int)) by {
            reveal_with_fuel(find_from, 5);
        }
        assert(find_from(l, ';', 0) is None) by {
            reveal_with_fuel(find_from, 5);
        }
        assert(spec_dest_field(l) =~= "M"@);
        assert(spec_comp_field(l) =~= "D"@);
        assert(spec_jump_field(l) =~= "null"@);
    }
    assert(line_assembles("A=M"@)) by {
        let l = "A=M"@;
        reveal_strlit("A");
        reveal_strlit("A=M");
        reveal_strlit("M");
        reveal_strlit("null");
        assert(find_from(l, '=', 0) == Some(1int)) by {
            reveal_with_fuel(find_from, 5);
        }
        assert(find_from(l, ';', 0) is None) by {
            reveal_with_fuel(find_from, 5);
        }
        assert(spec_dest_field(l) =~= "A"@);
        assert(spec_comp_field(l) =~= "M"@);
        assert(spec_jump_field(l) =~= "null"@);
    }
    assert(line_assembles("M=M+1"@)) by {
        let l = "M=M+1"@;
        reveal_strlit("M");
        reveal_strlit("M+1");
        reveal_strlit("M=M+1");
        reveal_strlit("null");
        assert(find_from(l, '=', 0) == Some(1int)) by {
            reveal_with_fuel(find_from, 7);
        }
        assert(find_from(l, ';', 0) is None) by {
            reveal_with_fuel(find_from, 7);
        }
        assert(spec_dest_field(l) =~= "M"@);
        assert(spec_comp_field(l) =~= "M+1"@);
        assert(spec_jump_field(l) =~= "null"@);
    }
    assert(line_assembles("M=M-1"@)) by {
        let l = "M=M-1"@;
        reveal_strlit("M");
        reveal_strlit("M-1");
        reveal_strlit("M=M-1");
        reveal_strlit("null");
        assert(find_from(l, '=', 0) == Some(1int)) by {
            reveal_with_fuel(find_from, 7);
        }
        assert(find_from(l, ';', 0) is None) by {
            reveal_with_fuel(find_from, 7);
        }
        assert(spec_dest_field(l) =~= "M"@);
        assert(spec_comp_field(l) =~= "M-1"@);
        assert(spec_jump_field(l) =~= "null"@);
    }
    assert(line_assembles("AM=M-1"@)) by {
        let l = "AM=M-1"@;
        reveal_strlit("AM");
        reveal_strlit("AM=M-1");
        reveal_strlit("M-1");
        reveal_strlit("null");
        assert(find_from(l, '=', 0) == Some(2int)) by {
            reveal_with_fuel(find_from, 8);
        }
        assert(find_from(l, ';', 0) is None) by {
            reveal_with_fuel(find_from, 8);
        }
        assert(spec_dest_field(l) =~= "AM"@);
        assert(spec_comp_field(l) =~= "M-1"@);
        assert(spec_jump_field(l) =~= "null"@);
    }
    assert(line_assembles("D=M-D"@)) by {
        let l = "D=M-D"@;
        reveal_strlit("D");
        reveal_strlit("D=M-D");
        reveal_strlit("M-D");
        reveal_strlit("null");
        assert(find_from(l, '=', 0) == Some(1int)) by {
            reveal_with_fuel(find_from, 7);
        }
        assert(find_from(l, ';', 0) is None) by {
            reveal_with_fuel(find_from, 7);
        }
        assert(spec_dest_field(l) =~= "D"@);
        assert(spec_comp_field(l) =~= "M-D"@);
        assert(spec_jump_field(l) =~= "null"@);
    }
    assert(line_assembles("M=D+M"@)) by {
        let l = "M=D+M"@;
        reveal_strlit("D+M");
        reveal_strlit("M");
        reveal_strlit("M=D+M");
        reveal_strlit("null");
        assert(find_from(l, '=', 0) == Some(1int)) by {
            reveal_with_fuel(find_from, 7);
        }
        assert(find_from(l, ';', 0) is None) by {
            reveal_with_fuel(find_from, 7);
        }
        assert(spec_dest_field(l) =~= "M"@);
        assert(spec_comp_field(l) =~= "D+M"@);
        assert(spec_jump_field(l) =~= "null"@);
    }
    assert(line_assembles("M=M-D"@)) by {
        let l = "M=M-D"@;
        reveal_strlit("M");
        reveal_strlit("M-D");
        reveal_strlit("M=M-D");
        reveal_strlit("null");
        assert(find_from(l, '=', 0) == Some(1int)) by {
            reveal_with_fuel(find_from, 7);
        }
        assert(find_from(l, ';', 0) is None) by {
            reveal_with_fuel(find_from, 7);
        }
        assert(spec_dest_field(l) =~= "M"@);
        assert(spec_comp_field(l) =~= "M-D"@);
        assert(spec_jump_field(l) =~= "null"@);
    }
    assert(line_assembles("M=D&M"@)) by {
        let l = "M=D&M"@;
        reveal_strlit("D&M");
        reveal_strlit("M");
        reveal_strlit("M=D&M");
        reveal_strlit("null");
        assert(find_from(l, '=', 0) == Some(1int)) by {
            reveal_with_fuel(find_from, 7);
        }
        assert(find_from(l, ';', 0) is None) by {
            reveal_with_fuel(find_from, 7);
        }
        assert(spec_dest_field(l) =~= "M"@);
        assert(spec_comp_field(l) =~= "D&M"@);
        assert(spec_jump_field(l) =~= "null"@);
    }
    assert(line_assembles("M=D|M"@)) by {
        let l = "M=D|M"@;
        reveal_strlit("D|M");
        reveal_strlit("M");
        reveal_strlit("M=D|M");
        reveal_strlit("null");
        assert(find_from(l, '=', 0) == Some(1int)) by {
            reveal_with_fuel(find_from, 7);
        }
        assert(find_from(l, ';', 0) is None) by {
            reveal_with_fuel(find_from, 7);
        }
        assert(spec_dest_field(l) =~= "M"@);
        assert(spec_comp_field(l) =~= "D|M"@);
        assert(spec_jump_field(l) =~= "null"@);
    }
    assert(line_assembles("M=-M"@)) by {
        let l = "M=-M"@;
        reveal_strlit("-M");
        reveal_strlit("M");
        reveal_strlit("M=-M");
        reveal_strlit("null");
        assert(find_from(l, '=', 0) == Some(1int)) by {
            reveal_with_fuel(find_from, 6);
        }
        assert(find_from(l, ';', 0) is None) by {
            reveal_with_fuel(find_from, 6);
        }
        assert(spec_dest_field(l) =~= "M"@);
        assert(spec_comp_field(l) =~= "-M"@);
        assert(spec_jump_field(l) =~= "null"@);
    }
    assert(line_assembles("M=!M"@)) by {
        let l = "M=!M"@;
        reveal_strlit("!M");
        reveal_strlit("M");
        reveal_strlit("M=!M");
        reveal_strlit("null");
        assert(find_from(l, '=', 0) == Some(1int)) by {
            reveal_with_fuel(find_from, 6);
        }
        assert(find_from(l, ';', 0) is None) by {
            reveal_with_fuel(find_from, 6);
        }
        assert(spec_dest_field(l) =~= "M"@);
        assert(spec_comp_field(l) =~= "!M"@);
        assert(spec_jump_field(l) =~= "null"@);
    }
    assert(line_assembles("D;JEQ"@)) by {
        let l = "D;JEQ"@;
        reveal_strlit("D");
        reveal_strlit("D;JEQ");
        reveal_strlit("JEQ");
        reveal_strlit("null");
        assert(find_from(l, '=', 0) is None) by {
            reveal_with_fuel(find_from, 7);
        }
        assert(find_from(l, ';', 0) == Some(1int)) by {
            reveal_with_fuel(find_from, 7);
        }
        assert(spec_dest_field(l) =~= "null"@);
        assert(spec_comp_field(l) =~= "D"@);
        assert(spec_jump_field(l) =~= "JEQ"@);
    }
    assert(line_assembles("D;JGT"@)) by {
        let l = "D;JGT"@;
        reveal_strlit("D");
        reveal_strlit("D;JGT");
        reveal_strlit("JGT");
        reveal_strlit("null");
        assert(find_from(l, '=', 0) is None) by {
            reveal_with_fuel(find_from, 7);
        }
        assert(find_from(l, ';', 0) == Some(1int)) by {
            reveal_with_fuel(find_from, 7);
        }
        assert(spec_dest_field(l) =~= "null"@);
        assert(spec_comp_field(l) =~= "D"@);
        assert(spec_jump_field(l) =~= "JGT"@);
    }
    assert(line_assembles("D;JLT"@)) by {
        let l = "D;JLT"@;
        reveal_strlit("D");
        reveal_strlit("D;JLT");
        reveal_strlit("JLT");
        reveal_strlit("null");
        assert(find_from(l, '=', 0) is None) by {
            reveal_with_fuel(find_from, 7);
        }
        assert(find_from(l, ';', 0) == Some(1int)) by {
            reveal_with_fuel(find_from, 7);
        }
        assert(spec_dest_field(l) =~= "null"@);
        assert(spec_comp_field(l) =~= "D"@);
        assert(spec_jump_field(l) =~= "JLT"@);
    }
    assert(line_assembles("D;JNE"@)) by {
        let l = "D;JNE"@;
        reveal_strlit("D");
        reveal_strlit("D;JNE");
        reveal_strlit("JNE");
        reveal_strlit("null");
        assert(find_from(l, '=', 0) is None) by {
            reveal_with_fuel(find_from, 7);
        }
        assert(find_from(l, ';', 0) == Some(1int)) by {
            reveal_with_fuel(find_from, 7);
        }
        assert(spec_dest_field(l) =~= "null"@);
        assert(spec_comp_field(l) =~= "D"@);
        assert(spec_jump_field(l) =~= "JNE"@);
    }
    assert(line_assembles("D=0"@)) by {
        let l = "D=0"@;
        reveal_strlit("0");
        reveal_strlit("D");
        reveal_strlit("D=0");
        reveal_strlit("null");
        assert(find_from(l, '=', 0) == Some(1int)) by {
            reveal_with_fuel(find_from, 5);
        }
        assert(find_from(l, ';', 0) is None) by {
            reveal_with_fuel(find_from, 5);
        }
        assert(spec_dest_field(l) =~= "D"@);
        assert(spec_comp_field(l) =~= "0"@);
        assert(spec_jump_field(l) =~= "null"@);
    }
    assert(line_assembles("0;JMP"@)) by {
        let l = "0;JMP"@;
        reveal_strlit("0");
        reveal_strlit("0;JMP");
        reveal_strlit("JMP");
        reveal_strlit("null");
        assert(find_from(l, '=', 0) is None) by {
            reveal_with_fuel(find_from, 7);
        }
        assert(find_from(l, ';', 0) == Some(1int)) by {
            reveal_with_fuel(find_from, 7);
        }
        assert(spec_dest_field(l) =~= "null"@);
        assert(spec_comp_field(l) =~= "0"@);
        assert(spec_jump_field(l) =~= "JMP"@);
    }
    assert(line_assembles("D=D-1"@)) by {
        let l = "D=D-1"@;
        reveal_strlit("D");
        reveal_strlit("D-1");
        reveal_strlit("D=D-1");
        reveal_strlit("null");
        assert(find_from(l, '=', 0) == Some(1int)) by {
            reveal_with_fuel(find_from, 7);
        }
        assert(find_from(l, ';', 0) is None) by {
            reveal_with_fuel(find_from, 7);
        }
        assert(spec_dest_field(l) =~= "D"@);
        assert(spec_comp_field(l) =~= "D-1"@);
        assert(spec_jump_field(l) =~= "null"@);
    }
    assert(line_assembles("D=D-A"@)) by {
        let l = "D=D-A"@;
        reveal_strlit("D");
        reveal_strlit("D-A");
        reveal_strlit("D=D-A");
        reveal_strlit("null");
        assert(find_from(l, '=', 0) == Some(1int)) by {
            reveal_with_fuel(find_from, 7);
        }
        assert(find_from(l, ';', 0) is None) by {
            reveal_with_fuel(find_from, 7);
        }
        assert(spec_dest_field(l) =~= "D"@);
        assert(spec_comp_field(l) =~= "D-A"@);
        assert(spec_jump_field(l) =~= "null"@);
    }
    assert(line_assembles("A=D+M"@)) by {
        let l = "A=D+M"@;
        reveal_strlit("A");
        reveal_strlit("A=D+M");
        reveal_strlit("D+M");
        reveal_strlit("null");
        assert(find_from(l, '=', 0) == Some(1int)) by {
            reveal_with_fuel(find_from, 7);
        }
        assert(find_from(l, ';', 0) is None) by {
            reveal_with_fuel(find_from, 7);
        }
        assert(spec_dest_field(l) =~= "A"@);
        assert(spec_comp_field(l) =~= "D+M"@);
        assert(spec_jump_field(l) =~= "null"@);
    }
    assert(line_assembles("A=D+A"@)) by {
        let l = "A=D+A"@;
        reveal_strlit("A");
        reveal_strlit("A=D+A");
        reveal_strlit("D+A");
        reveal_strlit("null");
        assert(find_from(l, '=', 0) == Some(1int)) by {
            reveal_with_fuel(find_from, 7);
        }
        assert(find_from(l, ';', 0) is None) by {
            reveal_with_fuel(find_from, 7);
        }
        assert(spec_dest_field(l) =~= "A"@);
        assert(spec_comp_field(l) =~= "D+A"@);
        assert(spec_jump_field(l) =~= "null"@);
    }
    assert(line_assembles("D=D+M"@)) by {
        let l = "D=D+M"@;
        reveal_strlit("D");
        reveal_strlit("D+M");
        reveal_strlit("D=D+M");
        reveal_strlit("null");
        assert(find_from(l, '=', 0) == Some(1int)) by {
            reveal_with_fuel(find_from, 7);
        }
        assert(find_from(l, ';', 0) is None) by {
            reveal_with_fuel(find_from, 7);
        }
        assert(spec_dest_field(l) =~= "D"@);
        assert(spec_comp_field(l) =~= "D+M"@);
        assert(spec_jump_field(l) =~= "null"@);
    }
    assert(line_assembles("D=D+A"@)) by {
        let l = "D=D+A"@;
        reveal_strlit("D");
        reveal_strlit("D+A");
        reveal_strlit("D=D+A");
        reveal_strlit("null");
        assert(find_from(l, '=', 0) == Some(1int)) by {
            reveal_with_fuel(find_from, 7);
        }
        assert(find_from(l, ';', 0) is None) by {
            reveal_with_fuel(find_from, 7);
        }
        assert(spec_dest_field(l) =~= "D"@);
        assert(spec_comp_field(l) =~= "D+A"@);
        assert(spec_jump_field(l) =~= "null"@);
    }
    assert(line_assembles("A=M-D"@)) by {
        let l = "A=M-D"@;
        reveal_strlit("A");
        reveal_strlit("A=M-D");
        reveal_strlit("M-D");
        reveal_strlit("null");
        assert(find_from(l, '=', 0) == Some(1int)) by {
            reveal_with_fuel(find_from, 7);
        }
        assert(find_from(l, ';', 0) is None) by {
            reveal_with_fuel(find_from, 7);
        }
        assert(spec_dest_field(l) =~= "A"@);
        assert(spec_comp_field(l) =~= "M-D"@);
        assert(spec_jump_field(l) =~= "null"@);
    }
    assert(line_assembles("D=M+1"@)) by {
        let l = "D=M+1"@;
        reveal_strlit("D");
        reveal_strlit("D=M+1");
        reveal_strlit("M+1");
        reveal_strlit("null");
        assert(find_from(l, '=', 0) == Some(1int)) by {
            reveal_with_fuel(find_from, 7);
        }
        assert(find_from(l, ';', 0) is None) by {
            reveal_with_fuel(find_from, 7);
        }
        assert(spec_dest_field(l) =~= "D"@);
        assert(spec_comp_field(l) =~= "M+1"@);
        assert(spec_jump_field(l) =~= "null"@);
    }
}

/// Any address command assembles: a numeric symbol is emitted
/// literally and any other symbol resolves or is allocated.
pub proof fn lemma_a_line(l: Seq<char>)
    requires
        l.len() > 0,
        l[0] == '@',
    ensures
        line_assembles(l),
{
}

/// Any label command assembles: it emits no word.
pub proof fn lemma_l_line(l: Seq<char>)
    requires
        l.len() > 0,
        l[0] == '(',
    ensures
        line_assembles(l),
{
}

/// Concatenating accepted streams keeps them accepted.
pub proof fn lemma_concat_assembles(a: Seq<Seq<char>>, b: Seq<Seq<char>>)
    requires
        all_lines_assemble(a),
        all_lines_assemble(b),
    ensures
        all_lines_assemble(a + b),
{
    assert forall|k: int| 0 <= k < (a + b).len() implies line_assembles(#[trigger] (a + b)[k]) by {
        if k < a.len() {
            assert((a + b)[k] == a[k]);
        } else {
            assert((a + b)[k] == b[k - a.len()]);
        }
    }
}

proof fn lemma_push_d_assembles()
    ensures
        all_lines_assemble(push_d_lines()),
{
    lemma_template_lines_assemble();
    reveal_strlit("@SP");
    let ls = push_d_lines();
    assert forall|k: int| 0 <= k < ls.len() implies line_assembles(#[trigger] ls[k]) by {
        if ls[k] == "@SP"@ {
            lemma_a_line(ls[k]);
        }
    }
}

proof fn lemma_compare_assembles(
    at_prefix: Seq<char>,
    jump_line: Seq<char>,
    def_prefix: Seq<char>,
    true_setup: Seq<Seq<char>>,
    n: nat,
)
    requires
        at_prefix.len() > 0,
        at_prefix[0] == '@',
        def_prefix.len() > 0,
        def_prefix[0] == '(',
        line_assembles(jump_line),
        all_lines_assemble(true_setup),
    ensures
        all_lines_assemble(compare_lines(at_prefix, jump_line, def_prefix, true_setup, n)),
{
    lemma_template_lines_assemble();
    reveal_strlit("@SP");
    reveal_strlit("@0");
    reveal_strlit("@CONTINUE.");
    reveal_strlit("(CONTINUE.");
    let ls = compare_lines(at_prefix, jump_line, def_prefix, true_setup, n);
    assert forall|k: int| 0 <= k < ls.len() implies line_assembles(#[trigger] ls[k]) by {
        if ls[k] == "@SP"@ || ls[k] == at_prefix + dec_repr(n) || ls[k] == "@CONTINUE."@
            + dec_repr(n) {
            lemma_a_line(ls[k]);
        } else if ls[k] == def_prefix + dec_repr(n) + ")"@ || ls[k] == "(CONTINUE."@ + dec_repr(n)
            + ")"@ {
            lemma_l_line(ls[k]);
        } else if 19 <= k < 19 + true_setup.len() {
            assert(ls[k] == true_setup[k - 19]);
        }
    }
}

/// Every line a translated arithmetic command emits, the assembler
/// accepts.
pub proof fn lemma_arithmetic_assembles(op: Seq<char>, n: nat)
    requires
        valid_arith(op),
    ensures
        all_lines_assemble(spec_arithmetic_lines(op, n)),
{
    lemma_template_lines_assemble();
    reveal_strlit("@SP");
    reveal_strlit("@0");
    reveal_strlit("@EQ.");
    reveal_strlit("(EQ.");
    reveal_strlit("@GT.");
    reveal_strlit("(GT.");
    reveal_strlit("@LT.");
    reveal_strlit("(LT.");
    if op == "eq"@ || op == "gt"@ || op == "lt"@ {
        let setup_eq = seq!["@0"@, "D=A"@, "D=D-1"@];
        let setup_cmp = seq!["D=0"@, "D=D-1"@];
        assert(all_lines_assemble(setup_eq)) by {
            assert forall|k: int| 0 <= k < setup_eq.len() implies line_assembles(
                #[trigger] setup_eq[k],
            ) by {
                if setup_eq[k] == "@0"@ {
                    lemma_a_line(setup_eq[k]);
                }
            }
        }
        assert(all_lines_assemble(setup_cmp)) by {
            assert forall|k: int| 0 <= k < setup_cmp.len() implies line_assembles(
                #[trigger] setup_cmp[k],
            ) by {
            }
        }
        if op == "eq"@ {
            lemma_compare_assembles("@EQ."@, "D;JEQ"@, "(EQ."@, setup_eq, n);
        } else if op == "gt"@ {
            lemma_compare_assembles("@GT."@, "D;JGT"@, "(GT."@, setup_cmp, n);
        } else {
            lemma_compare_assembles("@LT."@, "D;JLT"@, "(LT."@, setup_cmp, n);
        }
    } else {
        let ls = spec_arithmetic_lines(op, n);
        assert forall|k: int| 0 <= k < ls.len() implies line_assembles(#[trigger] ls[k]) by {
            if ls[k] == "@SP"@ {
                lemma_a_line(ls[k]);
            }
        }
    }
}

/// Every line a translated push or pop command emits, the assembler
/// accepts.
pub proof fn lemma_push_pop_assembles(
    cmd: CmdType,
    file: Seq<char>,
    seg: Seq<char>,
    i: nat,
)
    ensures
        match spec_push_pop_lines(cmd, file, seg, i) {
            Some(ls) => all_lines_assemble(ls),
            None => true,
        },
{
    lemma_template_lines_assemble();
    lemma_push_d_assembles();
    reveal_strlit("@");
    reveal_strlit("@SP");
    reveal_strlit("@LCL");
    reveal_strlit("@ARG");
    reveal_strlit("@THIS");
    reveal_strlit("@THAT");
    reveal_strlit("@5");
    reveal_strlit("@3");
    reveal_strlit("@R13");
    match spec_push_pop_lines(cmd, file, seg, i) {
        Some(ls) => {
            assert forall|k: int| 0 <= k < ls.len() implies line_assembles(#[trigger] ls[k]) by {
                if ls[k].len() > 0 && ls[k][0] == '@' {
                    lemma_a_line(ls[k]);
                }
            }
        },
        None => {},
    }
}

/// Every line a translated label, goto or if-goto command emits, the
/// assembler accepts, whatever the label and the active function.
pub proof fn lemma_branching_assembles(cf: Option<Seq<char>>, l: Seq<char>)
    ensures
        line_assembles("("@ + qualify(cf, l) + ")"@),
        line_assembles("@"@ + qualify(cf, l)),
        all_lines_assemble(
            seq!["@SP"@, "AM=M-1"@, "D=M"@, "@"@ + qualify(cf, l), "D;JNE"@],
        ),
{
    lemma_template_lines_assemble();
    reveal_strlit("(");
    reveal_strlit("@");
    reveal_strlit("@SP");
    lemma_l_line("("@ + qualify(cf, l) + ")"@);
    lemma_a_line("@"@ + qualify(cf, l));
    let ls = seq!["@SP"@, "AM=M-1"@, "D=M"@, "@"@ + qualify(cf, l), "D;JNE"@];
    assert forall|k: int| 0 <= k < ls.len() implies line_assembles(#[trigger] ls[k]) by {
        if ls[k] == "@SP"@ {
            lemma_a_line(ls[k]);
        }
    }
}

/// Every line a translated call emits, the assembler accepts,
/// whatever the callee name and argument count.
pub proof fn lemma_call_assembles(f: Seq<char>, nargs: nat, n: nat)
    ensures
        all_lines_assemble(call_lines(f, nargs, n)),
{
    lemma_template_lines_assemble();
    lemma_push_d_assembles();
    reveal_strlit("@");
    reveal_strlit("@SP");
    reveal_strlit("@LCL");
    reveal_strlit("@ARG");
    reveal_strlit("@THIS");
    reveal_strlit("@THAT");
    reveal_strlit("@5");
    reveal_strlit("@RETURN.");
    reveal_strlit("(RETURN.");
    let ls = call_lines(f, nargs, n);
    assert forall|k: int| 0 <= k < ls.len() implies line_assembles(#[trigger] ls[k]) by {
        if ls[k].len() > 0 && ls[k][0] == '@' {
            lemma_a_line(ls[k]);
        } else if ls[k] == "(RETURN."@ + dec_repr(n) + ")"@ {
            lemma_l_line(ls[k]);
        }
    }
}

/// Every line of the return protocol, the assembler accepts.
pub proof fn lemma_return_assembles()
    ensures
        all_lines_assemble(return_lines()),
{
    lemma_template_lines_assemble();
    reveal_strlit("@SP");
    reveal_strlit("@LCL");
    reveal_strlit("@ARG");
    reveal_strlit("@THIS");
    reveal_strlit("@THAT");
    reveal_strlit("@R13");
    reveal_strlit("@R14");
    reveal_strlit("@1");
    reveal_strlit("@2");
    reveal_strlit("@3");
    reveal_strlit("@4");
    reveal_strlit("@5");
    let ls = return_lines();
    assert forall|k: int| 0 <= k < ls.len() implies line_assembles(#[trigger] ls[k]) by {
        if ls[k].len() > 0 && ls[k][0] == '@' {
            lemma_a_line(ls[k]);
        }
    }
}

/// Every line a translated function entry emits, the assembler
/// accepts, whatever the function name and local count.
pub proof fn lemma_function_assembles(f: Seq<char>, k: nat, n: nat)
    ensures
        all_lines_assemble(function_lines(f, k, n)),
{
    lemma_template_lines_assemble();
    lemma_push_d_assembles();
    reveal_strlit("(");
    reveal_strlit("@");
    reveal_strlit("@SP");
    reveal_strlit("@R13");
    reveal_strlit("@0");
    reveal_strlit("@1");
    reveal_strlit("@WHILE1.");
    reveal_strlit("(WHILE1.");
    reveal_strlit("@WHILE2.");
    reveal_strlit("(WHILE2.");
    let ls = function_lines(f, k, n);
    assert forall|j: int| 0 <= j < ls.len() implies line_assembles(#[trigger] ls[j]) by {
        if ls[j].len() > 0 && ls[j][0] == '@' {
            lemma_a_line(ls[j]);
        } else if ls[j].len() > 0 && ls[j][0] == '(' {
            lemma_l_line(ls[j]);
        }
    }
}

/// Every line of the bootstrap, the assembler accepts.
pub proof fn lemma_init_assembles(n: nat)
    ensures
        all_lines_assemble(init_lines(n)),
{
    lemma_template_lines_assemble();
    lemma_call_assembles("Sys.init"@, 0, n);
    reveal_strlit("@256");
    reveal_strlit("@SP");
    let head = seq!["@256"@, "D=A"@, "@SP"@, "M=D"@];
    assert(all_lines_assemble(head)) by {
        assert forall|k: int| 0 <= k < head.len() implies line_assembles(#[trigger] head[k]) by {
            if head[k].len() > 0 && head[k][0] == '@' {
                lemma_a_line(head[k]);
            }
        }
    }
    lemma_concat_assembles(head, call_lines("Sys.init"@, 0, n));
}

proof fn lemma_translate_assembles_from(ws: Seq<Seq<Seq<char>>>, w: WriterModel, i: int)
    requires
        0 <= i <= ws.len(),
        all_lines_assemble(w.lines),
    ensures
        match spec_translate(ws, w, i) {
            Translated::Done { writer } => all_lines_assemble(writer.lines),
            Translated::Failed { writer, .. } => all_lines_assemble(writer.lines),
        },
    decreases ws.len() - i,
{
    if i < ws.len() {
        let line = ws[i];
        if line.len() == 0 {
        } else {
            match spec_keyword_type(line[0]) {
                None => {},
                Some(CmdType::CArithmetic) => {
                    let n2 = w.label_count + if arith_mints_label(line[0]) {
                        1nat
                    } else {
                        0nat
                    };
                    lemma_arithmetic_assembles(line[0], n2);
                    lemma_concat_assembles(w.lines, spec_arithmetic_lines(line[0], n2));
                    lemma_translate_assembles_from(
                        ws,
                        WriterModel {
                            lines: w.lines + spec_arithmetic_lines(line[0], n2),
                            label_count: n2,
                            ..w
                        },
                        i + 1,
                    );
                },
                Some(CmdType::CPush) | Some(CmdType::CPop) => {
                    if line.len() < 3 || !(line[2].len() > 0 && all_digits(line[2]) && dec_value(
                        line[2],
                    ) <= u32::MAX) {
                    } else {
                        match spec_push_pop_lines(
                            spec_keyword_type(line[0])->0,
                            w.file_name,
                            line[1],
                            dec_value(line[2]),
                        ) {
                            None => {},
                            Some(ls) => {
                                lemma_push_pop_assembles(
                                    spec_keyword_type(line[0])->0,
                                    w.file_name,
                                    line[1],
                                    dec_value(line[2]),
                                );
                                lemma_concat_assembles(w.lines, ls);
                                lemma_translate_assembles_from(
                                    ws,
                                    WriterModel { lines: w.lines + ls, ..w },
                                    i + 1,
                                );
                            },
                        }
                    }
                },
                Some(CmdType::CLabel) => {
                    if line.len() >= 2 {
                        lemma_branching_assembles(w.current_function, line[1]);
                        let nl = seq!["("@ + qualify(w.current_function, line[1]) + ")"@];
                        assert(all_lines_assemble(nl));
                        lemma_concat_assembles(w.lines, nl);
                        assert(w.lines.push("("@ + qualify(w.current_function, line[1]) + ")"@)
                            =~= w.lines + nl);
                        lemma_translate_assembles_from(
                            ws,
                            WriterModel {
                                lines: w.lines.push(
                                    "("@ + qualify(w.current_function, line[1]) + ")"@,
                                ),
                                ..w
                            },
                            i + 1,
                        );
                    }
                },
                Some(CmdType::CGoto) => {
                    if line.len() >= 2 {
                        lemma_branching_assembles(w.current_function, line[1]);
                        let nl = seq!["@"@ + qualify(w.current_function, line[1]), "0;JMP"@];
                        assert(all_lines_assemble(nl)) by {
                            lemma_template_lines_assemble();
                            assert(nl[1] == "0;JMP"@);
                        }
                        lemma_concat_assembles(w.lines, nl);
                        lemma_translate_assembles_from(
                            ws,
                            WriterModel { lines: w.lines + nl, ..w },
                            i + 1,
                        );
                    }
                },
                Some(CmdType::CIf) => {
                    if line.len() >= 2 {
                        lemma_branching_assembles(w.current_function, line[1]);
                        let nl = seq![
                            "@SP"@,
                            "AM=M-1"@,
                            "D=M"@,
                            "@"@ + qualify(w.current_function, line[1]),
                            "D;JNE"@,
                        ];
                        lemma_concat_assembles(w.lines, nl);
                        lemma_translate_assembles_from(
                            ws,
                            WriterModel { lines: w.lines + nl, ..w },
                            i + 1,
                        );
                    }
                },
                Some(CmdType::CCall) => {
                    if line.len() < 3 || !(line[2].len() > 0 && all_digits(line[2]) && dec_value(
                        line[2],
                    ) <= u32::MAX) {
                    } else {
                        lemma_call_assembles(line[1], dec_value(line[2]), w.label_count + 1);
                        lemma_concat_assembles(
                            w.lines,
                            call_lines(line[1], dec_value(line[2]), w.label_count + 1),
                        );
                        lemma_translate_assembles_from(
                            ws,
                            WriterModel {
                                lines: w.lines + call_lines(
                                    line[1],
                                    dec_value(line[2]),
                                    w.label_count + 1,
                                ),
                                label_count: w.label_count + 1,
                                ..w
                            },
                            i + 1,
                        );
                    }
                },
                Some(CmdType::CFunction) => {
                    if line.len() < 3 || !(line[2].len() > 0 && all_digits(line[2]) && dec_value(
                        line[2],
                    ) <= u32::MAX) {
                    } else {
                        lemma_function_assembles(line[1], dec_value(line[2]), w.label_count + 1);
                        lemma_concat_assembles(
                            w.lines,
                            function_lines(line[1], dec_value(line[2]), w.label_count + 1),
                        );
                        lemma_translate_assembles_from(
                            ws,
                            WriterModel {
                                lines: w.lines + function_lines(
                                    line[1],
                                    dec_value(line[2]),
                                    w.label_count + 1,
                                ),
                                label_count: w.label_count + 1,
                                current_function: Some(line[1]),
                                file_name: w.file_name,
                            },
                            i + 1,
                        );
                    }
                },
                Some(CmdType::CReturn) => {
                    lemma_return_assembles();
                    lemma_concat_assembles(w.lines, return_lines());
                    lemma_translate_assembles_from(
                        ws,
                        WriterModel { lines: w.lines + return_lines(), ..w },
                        i + 1,
                    );
                },
            }
        }
    }
}

/// The generator's output conforms to the assembler's input grammar:
/// starting from a writer whose every line the assembler accepts (a
/// fresh one holds none), whatever command stream is translated —
/// to completion or up to the first rejected command — every line the
/// writer then holds is one the assembler accepts.
pub proof fn lemma_translation_assembles(ws: Seq<Seq<Seq<char>>>, w: WriterModel)
    requires
        all_lines_assemble(w.lines),
    ensures
        match spec_translate(ws, w, 0) {
            Translated::Done { writer } => all_lines_assemble(writer.lines),
            Translated::Failed { writer, .. } => all_lines_assemble(writer.lines),
        },
{
    lemma_translate_assembles_from(ws, w, 0);
}

proof fn lemma_program_assembles_from(
    files: Seq<(Seq<char>, Seq<Seq<char>>)>,
    w: WriterModel,
    i: int,
)
    requires
        0 <= i <= files.len(),
        all_lines_assemble(w.lines),
    ensures
        all_lines_assemble(spec_program_from(files, w, i).writer.lines),
    decreases files.len() - i,
{
    if i < files.len() {
        let tagged = WriterModel { file_name: files[i].0, ..w };
        match spec_vm_lines(files[i].1) {
            Err(_) => {
                lemma_program_assembles_from(files, tagged, i + 1);
            },
            Ok(ws) => {
                lemma_translation_assembles(ws, tagged);
                match spec_translate(ws, tagged, 0) {
                    Translated::Done { writer } => {
                        lemma_program_assembles_from(files, writer, i + 1);
                    },
                    Translated::Failed { writer, .. } => {
                        lemma_program_assembles_from(files, writer, i + 1);
                    },
                }
            },
        }
    }
}

/// The pipeline law for a whole program run: whatever files are given,
/// every assembly line the run leaves in the writer — the bootstrap,
/// every successful file's code, and whatever a failing file emitted
/// before its offending command — is a line the assembler accepts.
pub proof fn lemma_program_assembles(files: Seq<(Seq<char>, Seq<Seq<char>>)>, name: Seq<char>)
    ensures
        all_lines_assemble(spec_program(files, name).writer.lines),
{
    lemma_init_assembles(1);
    lemma_program_assembles_from(
        files,
        WriterModel {
            lines: init_lines(1),
            label_count: 1,
            current_function: None,
            file_name: name,
        },
        0,
    );
}

} // verus!

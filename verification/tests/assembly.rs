use hack_toolchain::asm_parser::AsmErrorKind;
use hack_toolchain::asm_parser::CommandType;
use hack_toolchain::asm_parser::Parser;
use hack_toolchain::asm_parser::is_a_command;
use hack_toolchain::asm_parser::is_l_command;
use hack_toolchain::asm_parser::pick_out_tokens;
use hack_toolchain::asm_parser::skip_line;
use hack_toolchain::assembler::assemble;
use hack_toolchain::assembler::second_pass;
use hack_toolchain::assembler::sum;
use hack_toolchain::assembler::word_to_binary;
use hack_toolchain::symbol_table::SymbolTable;

fn strings(lines: &[&str]) -> Vec<String> {
    lines.iter().map(|s| s.to_string()).collect()
}

#[test]
fn line_classification_helpers() {
    assert!(skip_line(&String::from("")));
    assert!(skip_line(&String::from("// comment")));
    assert!(!skip_line(&String::from("@1 // trailing")));
    assert!(is_a_command(&String::from("@LOOP")));
    assert!(!is_a_command(&String::from("(LOOP)")));
    assert!(is_l_command(&String::from("(LOOP)")));
    assert!(!is_l_command(&String::from("D=M")));
}

#[test]
fn tokenizer_strips_comments_blanks_and_whitespace() {
    let lines = strings(&["@1 // set A", "  D=M  ", "// whole-line comment", "", "(L)"]);
    let tokens = pick_out_tokens(&lines);
    assert_eq!(tokens, strings(&["@1", "D=M", "(L)"]));
}

#[test]
fn tokenizer_strips_internal_whitespace_from_a_token() {
    let lines = strings(&["D = M+1", "\tA M\t=\tM - 1 ; J G T"]);
    let tokens = pick_out_tokens(&lines);
    assert_eq!(tokens, strings(&["D=M+1", "AM=M-1;JGT"]));
}

#[test]
fn tokenizer_skips_lines_with_nothing_but_whitespace_or_comment() {
    let lines = strings(&["@1", "   // nothing before the comment", "   ", "@2"]);
    let tokens = pick_out_tokens(&lines);
    assert_eq!(tokens, strings(&["@1", "@2"]));
}

#[test]
fn spaced_instructions_assemble_like_compact_ones() {
    let spaced = assemble(&strings(&["D = M + 1", " @ LOOP ", "( LOOP )"])).unwrap();
    let compact = assemble(&strings(&["D=M+1", "@LOOP", "(LOOP)"])).unwrap();
    assert_eq!(spaced, compact);
}

#[test]
fn a_dangling_equals_is_a_hard_error_not_a_silent_word() {
    let err = assemble(&strings(&["x ="])).unwrap_err();
    assert_eq!(err.kind, AsmErrorKind::BadDest);
    assert_eq!(err.text, "x=");
}

#[test]
fn cursor_walks_tokens_with_one_lookahead() {
    let mut parser = Parser::new(strings(&["@2", "D=A", "(END)"]));
    assert!(matches!(parser.command_type(), CommandType::ACommand));
    assert_eq!(parser.symbol(), "2");
    assert!(parser.has_more_commands());
    parser.advance();
    assert!(matches!(parser.command_type(), CommandType::CCommand));
    assert_eq!(parser.dest(), "D");
    assert_eq!(parser.comp(), "A");
    assert_eq!(parser.jump(), "null");
    assert!(parser.has_more_commands());
    parser.advance();
    assert!(matches!(parser.command_type(), CommandType::LCommand));
    assert_eq!(parser.symbol(), "END");
    assert!(!parser.has_more_commands());
}

#[test]
fn symbol_takes_the_text_after_the_marker_only() {
    // only the leading marker goes, not every occurrence
    let parser = Parser::new(strings(&["@a@b"]));
    assert_eq!(parser.symbol(), "a@b");
    // only the enclosing parentheses go
    let parser = Parser::new(strings(&["(x(y))"]));
    assert_eq!(parser.symbol(), "x(y)");
}

#[test]
fn compute_fields_split_on_equals_and_semicolon() {
    let parser = Parser::new(strings(&["AM=M-1;JGT"]));
    assert_eq!(parser.dest(), "AM");
    assert_eq!(parser.comp(), "M-1");
    assert_eq!(parser.jump(), "JGT");
    let parser = Parser::new(strings(&["0;JMP"]));
    assert_eq!(parser.dest(), "null");
    assert_eq!(parser.comp(), "0");
    assert_eq!(parser.jump(), "JMP");
}

#[test]
fn sum_packs_the_three_fields() {
    assert_eq!(sum(2, 42, 7), 0b1110000000000000 + 42 * 64 + 2 * 8 + 7);
    assert_eq!(sum(0, 0, 0), 0b1110000000000000);
}

#[test]
fn word_rendering_is_sixteen_binary_digits_msb_first() {
    assert_eq!(word_to_binary(0), "0000000000000000");
    assert_eq!(word_to_binary(1), "0000000000000001");
    assert_eq!(word_to_binary(43690), "1010101010101010");
    assert_eq!(word_to_binary(u16::MAX), "1111111111111111");
}

#[test]
fn numeric_addresses_emit_literally() {
    let out = assemble(&strings(&["@5", "@32767"])).unwrap();
    assert_eq!(out, strings(&["0000000000000101", "0111111111111111"]));
}

#[test]
fn compute_commands_pack_with_the_a_bit_for_m_forms() {
    // D=M reads memory: a-bit set; D=A does not.
    let out = assemble(&strings(&["D=M", "D=A"])).unwrap();
    assert_eq!(out, strings(&["1111110000010000", "1110110000010000"]));
}

#[test]
fn forward_goto_resolves_to_the_following_instruction_address() {
    // Two instructions precede the label, so END resolves to 2.
    let out = assemble(&strings(&["@END", "0;JMP", "(END)", "@END"])).unwrap();
    assert_eq!(out[0], "0000000000000010");
    assert_eq!(out[2], "0000000000000010");
    // 0;JMP: comp "0" = 101010, no dest, jump 111.
    assert_eq!(out[1], "1110101010000111");
    assert_eq!(out.len(), 3);
}

#[test]
fn variables_allocate_from_sixteen_and_stay_bound() {
    let out = assemble(&strings(&["@x", "@y", "@x"])).unwrap();
    assert_eq!(
        out,
        strings(&["0000000000010000", "0000000000010001", "0000000000010000"])
    );
}

#[test]
fn predefined_symbols_resolve_in_address_commands() {
    let out = assemble(&strings(&["@SP", "@SCREEN", "@KBD", "@R13"])).unwrap();
    assert_eq!(
        out,
        strings(&[
            "0000000000000000",
            "0100000000000000",
            "0110000000000000",
            "0000000000001101"
        ])
    );
}

#[test]
fn labels_emit_no_words() {
    let out = assemble(&strings(&["(A)", "(B)", "@1"])).unwrap();
    assert_eq!(out, strings(&["0000000000000001"]));
}

#[test]
fn empty_source_assembles_to_nothing() {
    let out = assemble(&strings(&[])).unwrap();
    assert!(out.is_empty());
}

#[test]
fn an_illegal_dest_field_is_a_hard_error() {
    let err = assemble(&strings(&["@1", "X=D"])).unwrap_err();
    assert_eq!(err.kind, AsmErrorKind::BadDest);
    assert_eq!(err.at, 1);
    assert_eq!(err.text, "X=D");
}

#[test]
fn assembler_errors_carry_source_line_numbers_past_skipped_lines() {
    let err = assemble(&strings(&["@1", "", "// filler", "X=D"])).unwrap_err();
    // the offending token is the second in the stream, but sits on
    // source line 3
    assert_eq!(err.at, 3);
    assert_eq!(err.kind, AsmErrorKind::BadDest);
}

#[test]
fn an_illegal_comp_field_is_a_hard_error() {
    let err = assemble(&strings(&["D=W"])).unwrap_err();
    assert_eq!(err.kind, AsmErrorKind::BadComp);
    assert_eq!(err.at, 0);
}

#[test]
fn an_illegal_jump_field_is_a_hard_error() {
    let err = assemble(&strings(&["D;JXX"])).unwrap_err();
    assert_eq!(err.kind, AsmErrorKind::BadJump);
    assert_eq!(err.at, 0);
}

#[test]
fn a_program_past_the_address_space_is_rejected() {
    let lines: Vec<String> = (0..32769).map(|_| String::from("@1")).collect();
    let err = assemble(&lines).unwrap_err();
    assert_eq!(err.kind, AsmErrorKind::ProgramTooLarge);
}

#[test]
fn the_second_pass_reuses_known_symbols_without_reallocating() {
    let tokens = strings(&["@first", "@second", "@first", "@SP"]);
    let mut table = SymbolTable::new();
    let words = second_pass(&tokens, &mut table).unwrap();
    assert_eq!(words, vec![16, 17, 16, 0]);
    assert_eq!(table.get_address(&String::from("first")), Some(&16));
    assert_eq!(table.get_address(&String::from("second")), Some(&17));
}

#[test]
fn an_oversized_numeric_address_becomes_a_variable() {
    // 70000 does not fit in 16 bits, so it is treated as a symbol.
    let out = assemble(&strings(&["@70000"])).unwrap();
    assert_eq!(out, strings(&["0000000000010000"]));
}

use hack_toolchain::code_writer::CodeWriter;
use hack_toolchain::translator::translate_program;
use hack_toolchain::translator::translate_source;
use hack_toolchain::vm_parser::CommandType;
use hack_toolchain::vm_parser::Parser;
use hack_toolchain::vm_parser::VmErrorKind;
use hack_toolchain::vm_parser::keyword_type;
use hack_toolchain::vm_parser::parse_lines;
use hack_toolchain::vm_parser::remove_comments;

fn strings(lines: &[&str]) -> Vec<String> {
    lines.iter().map(|s| s.to_string()).collect()
}

fn translate(name: &str, source: &[&str]) -> Vec<String> {
    let mut writer = CodeWriter::new(name);
    translate_source(&mut writer, &strings(source)).unwrap();
    writer.into_lines()
}

#[test]
fn comments_are_stripped_from_vm_lines() {
    assert_eq!(remove_comments(String::from("push constant 1 // go")), "push constant 1 ");
    assert_eq!(remove_comments(String::from("add")), "add");
}

#[test]
fn vm_lines_split_into_words() {
    let words = parse_lines(&strings(&["push constant 7", "add // sum", "// skip", ""])).unwrap();
    assert_eq!(words.len(), 2);
    assert_eq!(words[0], strings(&["push", "constant", "7"]));
    assert_eq!(words[1], strings(&["add"]));
}

#[test]
fn a_line_with_only_whitespace_is_a_shape_error() {
    let err = parse_lines(&strings(&["add", "   "])).unwrap_err();
    assert_eq!(err.at, 1);
    assert_eq!(err.kind, VmErrorKind::NoWords);
}

#[test]
fn keywords_classify_into_the_nine_command_types() {
    for op in ["add", "sub", "neg", "eq", "gt", "lt", "and", "or", "not"] {
        assert_eq!(keyword_type(op), Some(CommandType::CArithmetic));
    }
    assert_eq!(keyword_type("push"), Some(CommandType::CPush));
    assert_eq!(keyword_type("pop"), Some(CommandType::CPop));
    assert_eq!(keyword_type("label"), Some(CommandType::CLabel));
    assert_eq!(keyword_type("goto"), Some(CommandType::CGoto));
    assert_eq!(keyword_type("if-goto"), Some(CommandType::CIf));
    assert_eq!(keyword_type("function"), Some(CommandType::CFunction));
    assert_eq!(keyword_type("call"), Some(CommandType::CCall));
    assert_eq!(keyword_type("return"), Some(CommandType::CReturn));
    assert_eq!(keyword_type("halt"), None);
}

#[test]
fn vm_cursor_reports_command_and_arguments() {
    let words = parse_lines(&strings(&["push constant 7", "add"])).unwrap();
    let mut parser = Parser::new(words);
    assert!(matches!(parser.command_type(), CommandType::CPush));
    assert_eq!(parser.arg1(), "constant");
    assert_eq!(parser.arg2(), 7);
    assert!(parser.has_more_commands());
    parser.advance();
    assert!(matches!(parser.command_type(), CommandType::CArithmetic));
    assert_eq!(parser.arg1(), "add");
    assert!(!parser.has_more_commands());
}

#[test]
fn push_constant_translates_to_the_fixed_template() {
    let lines = translate("t", &["push constant 7"]);
    assert_eq!(lines, strings(&["@7", "D=A", "@SP", "A=M", "M=D", "@SP", "M=M+1"]));
}

#[test]
fn add_translates_to_the_fixed_template() {
    let lines = translate("t", &["add"]);
    assert_eq!(
        lines,
        strings(&["@SP", "M=M-1", "A=M", "D=M", "@SP", "M=M-1", "A=M", "M=D+M", "@SP", "M=M+1"])
    );
}

#[test]
fn pop_local_goes_through_the_base_register() {
    let lines = translate("t", &["pop local 2"]);
    assert_eq!(
        lines,
        strings(&[
            "@2", "D=A", "@LCL", "D=D+M", "@R13", "M=D", "@SP", "AM=M-1", "D=M", "@R13", "A=M",
            "M=D"
        ])
    );
}

#[test]
fn temp_and_pointer_use_fixed_bases() {
    let lines = translate("t", &["push temp 3"]);
    assert_eq!(lines[0..5], strings(&["@3", "D=A", "@5", "A=D+A", "D=M"])[..]);
    let lines = translate("t", &["push pointer 1"]);
    assert_eq!(lines[0..5], strings(&["@1", "D=A", "@3", "A=D+A", "D=M"])[..]);
}

#[test]
fn static_variables_are_namespaced_by_file() {
    let lines = translate("Foo", &["push static 4"]);
    assert_eq!(lines[0], "@Foo.4");
    let lines = translate("Foo", &["pop static 4"]);
    assert_eq!(lines, strings(&["@SP", "M=M-1", "A=M", "D=M", "@Foo.4", "M=D"]));
}

#[test]
fn static_namespace_follows_the_current_file() {
    let mut writer = CodeWriter::new("First");
    translate_source(&mut writer, &strings(&["push static 1"])).unwrap();
    writer.set_file_name("Second");
    translate_source(&mut writer, &strings(&["push static 1"])).unwrap();
    let lines = writer.into_lines();
    assert_eq!(lines[0], "@First.1");
    assert_eq!(lines[7], "@Second.1");
}

#[test]
fn comparisons_mint_numbered_branch_labels() {
    let lines = translate("t", &["eq"]);
    assert!(lines.contains(&String::from("@EQ.1")));
    assert!(lines.contains(&String::from("(EQ.1)")));
    assert!(lines.contains(&String::from("@CONTINUE.1")));
    assert!(lines.contains(&String::from("(CONTINUE.1)")));
    assert!(lines.contains(&String::from("D;JEQ")));
}

#[test]
fn repeated_comparisons_and_calls_mint_globally_unique_labels() {
    let lines = translate(
        "t",
        &["eq", "gt", "lt", "eq", "call f 0", "call f 0", "function g 2", "gt"],
    );
    let mut defs: Vec<&String> = lines.iter().filter(|l| l.starts_with('(')).collect();
    let before = defs.len();
    defs.sort();
    defs.dedup();
    assert_eq!(before, defs.len());
}

#[test]
fn labels_qualify_with_the_enclosing_function() {
    let lines = translate(
        "t",
        &["label TOP", "function Foo.main 0", "label LOOP", "goto LOOP", "if-goto LOOP"],
    );
    assert!(lines.contains(&String::from("(TOP)")));
    assert!(lines.contains(&String::from("(Foo.main$LOOP)")));
    assert!(lines.contains(&String::from("@Foo.main$LOOP")));
    assert!(lines.contains(&String::from("D;JNE")));
}

#[test]
fn same_label_in_two_functions_does_not_collide() {
    let lines = translate(
        "t",
        &["function Foo.a 0", "label LOOP", "function Foo.b 0", "label LOOP"],
    );
    assert!(lines.contains(&String::from("(Foo.a$LOOP)")));
    assert!(lines.contains(&String::from("(Foo.b$LOOP)")));
    let defs: Vec<&String> = lines
        .iter()
        .filter(|l| l.starts_with("(") && l.contains("LOOP"))
        .collect();
    assert_eq!(defs.len(), 2);
    assert_ne!(defs[0], defs[1]);
}

#[test]
fn call_saves_the_frame_and_jumps() {
    let lines = translate("t", &["call Sys.halt 2"]);
    assert_eq!(lines[0], "@RETURN.1");
    assert!(lines.contains(&String::from("@LCL")));
    assert!(lines.contains(&String::from("@Sys.halt")));
    assert_eq!(lines.last().unwrap(), "(RETURN.1)");
    // new ARG = SP - 5 - nargs: the argument count appears literally
    assert!(lines.contains(&String::from("@2")));
}

#[test]
fn the_bootstrap_sets_sp_and_calls_sys_init() {
    let mut writer = CodeWriter::new("t");
    writer.write_init();
    let lines = writer.into_lines();
    assert_eq!(lines[0..4], strings(&["@256", "D=A", "@SP", "M=D"])[..]);
    assert!(lines.contains(&String::from("@Sys.init")));
}

#[test]
fn an_unknown_command_is_reported_with_its_index() {
    let mut writer = CodeWriter::new("t");
    let err = translate_source(&mut writer, &strings(&["add", "halt"])).unwrap_err();
    assert_eq!(err.at, 1);
    assert_eq!(err.kind, VmErrorKind::UnknownCommand);
    assert_eq!(err.text, "halt");
}

#[test]
fn errors_carry_source_line_numbers_past_skipped_lines() {
    let mut writer = CodeWriter::new("t");
    let err = translate_source(
        &mut writer,
        &strings(&["// intro", "push constant 1", "", "bogus"]),
    )
    .unwrap_err();
    // the offending command is the second in the stream, but sits on
    // source line 3
    assert_eq!(err.at, 3);
    assert_eq!(err.kind, VmErrorKind::UnknownCommand);
    assert_eq!(err.text, "bogus");
}

#[test]
fn a_missing_argument_is_reported() {
    let mut writer = CodeWriter::new("t");
    let err = translate_source(&mut writer, &strings(&["push constant"])).unwrap_err();
    assert_eq!(err.kind, VmErrorKind::MissingArg);
    let mut writer = CodeWriter::new("t");
    let err = translate_source(&mut writer, &strings(&["label"])).unwrap_err();
    assert_eq!(err.kind, VmErrorKind::MissingArg);
}

#[test]
fn a_malformed_number_is_reported() {
    let mut writer = CodeWriter::new("t");
    let err = translate_source(&mut writer, &strings(&["push constant x7"])).unwrap_err();
    assert_eq!(err.kind, VmErrorKind::BadNumber);
    assert_eq!(err.text, "x7");
}

#[test]
fn an_unknown_segment_is_reported() {
    let mut writer = CodeWriter::new("t");
    let err = translate_source(&mut writer, &strings(&["push heap 0"])).unwrap_err();
    assert_eq!(err.kind, VmErrorKind::InvalidSegment);
    assert_eq!(err.text, "heap");
}

#[test]
fn popping_a_constant_is_rejected() {
    let mut writer = CodeWriter::new("t");
    let err = translate_source(&mut writer, &strings(&["pop constant 3"])).unwrap_err();
    assert_eq!(err.kind, VmErrorKind::InvalidSegment);
}

#[test]
fn an_invalid_arithmetic_operator_is_rejected_by_the_writer() {
    let mut writer = CodeWriter::new("t");
    let err = writer.write_arithmetic("mul").unwrap_err();
    assert_eq!(err.kind, VmErrorKind::InvalidArithmetic);
    assert_eq!(err.text, "mul");
}

#[test]
fn push_pop_rejects_other_command_types() {
    let mut writer = CodeWriter::new("t");
    let err = writer.write_push_pop(CommandType::CLabel, "local", 0).unwrap_err();
    assert_eq!(err.kind, VmErrorKind::InvalidPushPop);
}

#[test]
fn a_program_run_bootstraps_once_and_retags_per_file() {
    let files = vec![
        (String::from("First.vm"), strings(&["push static 0"])),
        (String::from("Second.vm"), strings(&["push static 0", "eq"])),
    ];
    let (lines, failures) = translate_program("prog", &files);
    assert!(failures.is_empty());
    // the bootstrap opens the program exactly once
    assert_eq!(lines[0..4], strings(&["@256", "D=A", "@SP", "M=D"])[..]);
    assert_eq!(lines.iter().filter(|l| l.as_str() == "@256").count(), 1);
    assert!(lines.contains(&String::from("@Sys.init")));
    // statics are namespaced by each file's tag
    assert!(lines.contains(&String::from("@First.vm.0")));
    assert!(lines.contains(&String::from("@Second.vm.0")));
    // the counter is shared: the bootstrap call minted 1, so eq mints 2
    assert!(lines.contains(&String::from("(EQ.2)")));
}

#[test]
fn a_failing_file_aborts_only_itself() {
    let files = vec![
        (String::from("Good.vm"), strings(&["push constant 1"])),
        (String::from("Bad.vm"), strings(&["bogus"])),
        (String::from("Also.vm"), strings(&["push constant 2"])),
    ];
    let (lines, failures) = translate_program("prog", &files);
    assert_eq!(failures.len(), 1);
    assert_eq!(failures[0].file, 1);
    assert_eq!(failures[0].error.kind, VmErrorKind::UnknownCommand);
    assert_eq!(failures[0].error.text, "bogus");
    // both healthy files' output stands
    assert!(lines.contains(&String::from("@1")));
    assert!(lines.contains(&String::from("@2")));
}

#[test]
fn an_error_keeps_everything_written_before_the_offending_command() {
    let mut writer = CodeWriter::new("t");
    let err = translate_source(&mut writer, &strings(&["push constant 1", "badness"])).unwrap_err();
    assert_eq!(err.at, 1);
    let lines = writer.into_lines();
    assert_eq!(lines, strings(&["@1", "D=A", "@SP", "A=M", "M=D", "@SP", "M=M+1"]));
}

#[test]
fn errors_leave_earlier_output_intact() {
    let mut writer = CodeWriter::new("t");
    translate_source(&mut writer, &strings(&["push constant 1"])).unwrap();
    let err = translate_source(&mut writer, &strings(&["badness"])).unwrap_err();
    assert_eq!(err.kind, VmErrorKind::UnknownCommand);
    let lines = writer.into_lines();
    assert_eq!(lines.len(), 7);
    assert_eq!(lines[0], "@1");
}

//! The VM translation driver: walks a parsed command stream and drives
//! the code writer, validating each command's shape first, so that the
//! writer's panicking inputs are never reached and every error carries
//! the offending position and text.  `translate_commands` reports the
//! index within the command stream; `translate_source` and
//! `translate_program`, which hold the source, report the index of the
//! offending source line.

use vstd::prelude::*;

use crate::code_writer::CodeWriter;
use crate::code_writer::WriterModel;
use crate::code_writer::arith_mints_label;
use crate::code_writer::call_lines;
use crate::code_writer::function_lines;
use crate::code_writer::init_lines;
use crate::code_writer::qualify;
use crate::code_writer::return_lines;
use crate::code_writer::spec_arithmetic_lines;
use crate::code_writer::spec_push_pop_lines;
use crate::text::all_digits;
use crate::text::dec_value;
use crate::text::parse_u32;
use crate::vm_parser::CommandType;
use crate::vm_parser::VmError;
use crate::vm_parser::VmErrorKind;
use crate::vm_parser::command_line;
use crate::vm_parser::parse_lines;
use crate::vm_parser::spec_command_line;
use crate::vm_parser::spec_keyword_type;
use crate::vm_parser::spec_vm_lines;

verus! {

/// What translating a command stream yields: the writer state after
/// the last command, or the first offending command.
pub enum Translated {
    Done { writer: WriterModel },
    Failed { at: int, text: Seq<char>, kind: VmErrorKind, writer: WriterModel },
}

/// Whether `t` finished with exactly this writer state.
pub open spec fn trans_done(t: Translated, w: WriterModel) -> bool {
    match t {
        Translated::Done { writer } => writer == w,
        Translated::Failed { .. } => false,
    }
}

/// Whether `t` failed with exactly this report, leaving the writer in
/// exactly this state: everything written before the offending command
/// stays.
pub open spec fn trans_failed(
    t: Translated,
    e_at: int,
    e_text: Seq<char>,
    e_kind: VmErrorKind,
    w: WriterModel,
) -> bool {
    match t {
        Translated::Done { .. } => false,
        Translated::Failed { at, text, kind, writer } => at == e_at && text == e_text && kind
            == e_kind && writer == w,
    }
}

/// One whole translation over the word groups from index `i` on,
/// starting from writer state `w`: each command appends its assembly,
/// comparisons, calls and function entries bump the counter, and a
/// function entry changes the active function.  The first command with
/// an unknown keyword, a missing argument, a malformed number or a
/// segment its command does not accept stops the run.
pub open spec fn spec_translate(ws: Seq<Seq<Seq<char>>>, w: WriterModel, i: int) -> Translated
    decreases ws.len() - i,
{
    if i < 0 || i >= ws.len() {
        Translated::Done { writer: w }
    } else {
        let line = ws[i];
        if line.len() == 0 {
            Translated::Failed { at: i, text: Seq::empty(), kind: VmErrorKind::NoWords, writer: w }
        } else {
            match spec_keyword_type(line[0]) {
                None => Translated::Failed {
                    at: i,
                    text: line[0],
                    kind: VmErrorKind::UnknownCommand,
                    writer: w,
                },
                Some(CommandType::CArithmetic) => {
                    let n2 = w.label_count + if arith_mints_label(line[0]) {
                        1nat
                    } else {
                        0nat
                    };
                    spec_translate(
                        ws,
                        WriterModel {
                            lines: w.lines + spec_arithmetic_lines(line[0], n2),
                            label_count: n2,
                            ..w
                        },
                        i + 1,
                    )
                },
                Some(CommandType::CPush) | Some(CommandType::CPop) => {
                    if line.len() < 3 {
                        Translated::Failed { at: i, text: line[0], kind: VmErrorKind::MissingArg, writer: w }
                    } else if !(line[2].len() > 0 && all_digits(line[2]) && dec_value(line[2])
                        <= u32::MAX) {
                        Translated::Failed { at: i, text: line[2], kind: VmErrorKind::BadNumber, writer: w }
                    } else {
                        match spec_push_pop_lines(
                            spec_keyword_type(line[0])->0,
                            w.file_name,
                            line[1],
                            dec_value(line[2]),
                        ) {
                            None => Translated::Failed {
                                at: i,
                                text: line[1],
                                kind: VmErrorKind::InvalidSegment,
                                writer: w,
                            },
                            Some(ls) => spec_translate(
                                ws,
                                WriterModel { lines: w.lines + ls, ..w },
                                i + 1,
                            ),
                        }
                    }
                },
                Some(CommandType::CLabel) => {
                    if line.len() < 2 {
                        Translated::Failed { at: i, text: line[0], kind: VmErrorKind::MissingArg, writer: w }
                    } else {
                        spec_translate(
                            ws,
                            WriterModel {
                                lines: w.lines.push(
                                    "("@ + qualify(w.current_function, line[1]) + ")"@,
                                ),
                                ..w
                            },
                            i + 1,
                        )
                    }
                },
                Some(CommandType::CGoto) => {
                    if line.len() < 2 {
                        Translated::Failed { at: i, text: line[0], kind: VmErrorKind::MissingArg, writer: w }
                    } else {
                        spec_translate(
                            ws,
                            WriterModel {
                                lines: w.lines + seq![
                                    "@"@ + qualify(w.current_function, line[1]),
                                    "0;JMP"@,
                                ],
                                ..w
                            },
                            i + 1,
                        )
                    }
                },
                Some(CommandType::CIf) => {
                    if line.len() < 2 {
                        Translated::Failed { at: i, text: line[0], kind: VmErrorKind::MissingArg, writer: w }
                    } else {
                        spec_translate(
                            ws,
                            WriterModel {
                                lines: w.lines + seq![
                                    "@SP"@,
                                    "AM=M-1"@,
                                    "D=M"@,
                                    "@"@ + qualify(w.current_function, line[1]),
                                    "D;JNE"@,
                                ],
                                ..w
                            },
                            i + 1,
                        )
                    }
                },
                Some(CommandType::CCall) => {
                    if line.len() < 3 {
                        Translated::Failed { at: i, text: line[0], kind: VmErrorKind::MissingArg, writer: w }
                    } else if !(line[2].len() > 0 && all_digits(line[2]) && dec_value(line[2])
                        <= u32::MAX) {
                        Translated::Failed { at: i, text: line[2], kind: VmErrorKind::BadNumber, writer: w }
                    } else {
                        spec_translate(
                            ws,
                            WriterModel {
                                lines: w.lines + call_lines(
                                    line[1],
                                    dec_value(line[2]),
                                    w.label_count + 1,
                                ),
                                label_count: w.label_count + 1,
                                ..w
                            },
                            i + 1,
                        )
                    }
                },
                Some(CommandType::CFunction) => {
                    if line.len() < 3 {
                        Translated::Failed { at: i, text: line[0], kind: VmErrorKind::MissingArg, writer: w }
                    } else if !(line[2].len() > 0 && all_digits(line[2]) && dec_value(line[2])
                        <= u32::MAX) {
                        Translated::Failed { at: i, text: line[2], kind: VmErrorKind::BadNumber, writer: w }
                    } else {
                        spec_translate(
                            ws,
                            WriterModel {
                                lines: w.lines + function_lines(
                                    line[1],
                                    dec_value(line[2]),
                                    w.label_count + 1,
                                ),
                                label_count: w.label_count + 1,
                                current_function: Some(line[1]),
                                file_name: w.file_name,
                            },
                            i + 1,
                        )
                    }
                },
                Some(CommandType::CReturn) => {
                    spec_translate(
                        ws,
                        WriterModel { lines: w.lines + return_lines(), ..w },
                        i + 1,
                    )
                },
            }
        }
    }
}

/// Translates a parsed command stream, appending to the writer.
pub fn translate_commands(writer: &mut CodeWriter, words: &Vec<Vec<String>>) -> (r: Result<
    (),
    VmError,
>)
    requires
        old(writer)@.label_count + words.deep_view().len() <= usize::MAX,
    ensures
        match r {
            Ok(()) => trans_done(
                spec_translate(words.deep_view(), old(writer)@, 0),
                final(writer)@,
            ),
            Err(e) => trans_failed(
                spec_translate(words.deep_view(), old(writer)@, 0),
                e.at as int,
                e.text@,
                e.kind,
                final(writer)@,
            ),
        },
{
    let ghost wv = words.deep_view();
    let ghost w0 = old(writer)@;
    let n = words.len();
    let mut i: usize = 0;
    while i < n
        invariant
            n == words@.len(),
            wv == words.deep_view(),
            w0 == old(writer)@,
            i <= n,
            writer@.label_count + (n - i) <= usize::MAX,
            spec_translate(wv, w0, 0) == spec_translate(wv, writer@, i as int),
        decreases n - i,
    {
        let line = &words[i];
        proof {
            assert(line.deep_view() == wv[i as int]);
        }
        if line.len() == 0 {
            return Err(VmError { at: i, text: String::new(), kind: VmErrorKind::NoWords });
        }
        proof {
            assert(line.deep_view()[0] == line@[0]@);
        }
        let kind = match crate::vm_parser::keyword_type(line[0].as_str()) {
            None => {
                return Err(
                    VmError { at: i, text: line[0].clone(), kind: VmErrorKind::UnknownCommand },
                );
            },
            Some(k) => k,
        };
        match kind {
            CommandType::CArithmetic => {
                match writer.write_arithmetic(line[0].as_str()) {
                    Ok(()) => {},
                    Err(e) => {
                        return Err(e);
                    },
                }
            },
            CommandType::CPush | CommandType::CPop => {
                if line.len() < 3 {
                    return Err(
                        VmError { at: i, text: line[0].clone(), kind: VmErrorKind::MissingArg },
                    );
                }
                proof {
                    assert(line.deep_view()[1] == line@[1]@);
                    assert(line.deep_view()[2] == line@[2]@);
                }
                let index = match parse_u32(line[2].as_str()) {
                    None => {
                        return Err(
                            VmError { at: i, text: line[2].clone(), kind: VmErrorKind::BadNumber },
                        );
                    },
                    Some(v) => v,
                };
                match writer.write_push_pop(kind, line[1].as_str(), index) {
                    Ok(()) => {},
                    Err(e) => {
                        return Err(VmError { at: i, text: e.text, kind: e.kind });
                    },
                }
            },
            CommandType::CLabel => {
                if line.len() < 2 {
                    return Err(
                        VmError { at: i, text: line[0].clone(), kind: VmErrorKind::MissingArg },
                    );
                }
                proof {
                    assert(line.deep_view()[1] == line@[1]@);
                }
                writer.write_label(line[1].as_str());
            },
            CommandType::CGoto => {
                if line.len() < 2 {
                    return Err(
                        VmError { at: i, text: line[0].clone(), kind: VmErrorKind::MissingArg },
                    );
                }
                proof {
                    assert(line.deep_view()[1] == line@[1]@);
                }
                writer.write_goto(line[1].as_str());
            },
            CommandType::CIf => {
                if line.len() < 2 {
                    return Err(
                        VmError { at: i, text: line[0].clone(), kind: VmErrorKind::MissingArg },
                    );
                }
                proof {
                    assert(line.deep_view()[1] == line@[1]@);
                }
                writer.write_if(line[1].as_str());
            },
            CommandType::CCall => {
                if line.len() < 3 {
                    return Err(
                        VmError { at: i, text: line[0].clone(), kind: VmErrorKind::MissingArg },
                    );
                }
                proof {
                    assert(line.deep_view()[1] == line@[1]@);
                    assert(line.deep_view()[2] == line@[2]@);
                }
                let nargs = match parse_u32(line[2].as_str()) {
                    None => {
                        return Err(
                            VmError { at: i, text: line[2].clone(), kind: VmErrorKind::BadNumber },
                        );
                    },
                    Some(v) => v,
                };
                writer.write_call(line[1].as_str(), nargs);
            },
            CommandType::CFunction => {
                if line.len() < 3 {
                    return Err(
                        VmError { at: i, text: line[0].clone(), kind: VmErrorKind::MissingArg },
                    );
                }
                proof {
                    assert(line.deep_view()[1] == line@[1]@);
                    assert(line.deep_view()[2] == line@[2]@);
                }
                let nlocals = match parse_u32(line[2].as_str()) {
                    None => {
                        return Err(
                            VmError { at: i, text: line[2].clone(), kind: VmErrorKind::BadNumber },
                        );
                    },
                    Some(v) => v,
                };
                writer.write_function(line[1].as_str(), nlocals);
            },
            CommandType::CReturn => {
                writer.write_return();
            },
        }
        i += 1;
    }
    Ok(())
}

/// Translates one file's VM source text, appending to the writer:
/// reads the lines into word groups, then translates them.  An error
/// carries the index of the offending source line (comment and blank
/// lines included in the count) and the offending text.
pub fn translate_source(writer: &mut CodeWriter, lines: &Vec<String>) -> (r: Result<(), VmError>)
    requires
        old(writer)@.label_count + lines.deep_view().len() <= usize::MAX,
    ensures
        match r {
            Ok(()) => spec_vm_lines(lines.deep_view()) matches Ok(ws) && trans_done(
                spec_translate(ws, old(writer)@, 0),
                final(writer)@,
            ),
            Err(e) => match spec_vm_lines(lines.deep_view()) {
                Err(j) => e.at as int == j && e.kind == VmErrorKind::NoWords && e.text@
                    == lines.deep_view()[j] && final(writer)@ == old(writer)@,
                Ok(ws) => spec_translate(ws, old(writer)@, 0) matches Translated::Failed {
                    at,
                    text,
                    kind,
                    writer: wf,
                } && e.at as int == spec_command_line(lines.deep_view(), at, 0) && e.text@ == text
                    && e.kind == kind && final(writer)@ == wf,
            },
        },
{
    let words = match parse_lines(lines) {
        Ok(ws) => ws,
        Err(e) => {
            return Err(e);
        },
    };
    proof {
        crate::translator::lemma_vm_lines_bound(lines.deep_view());
    }
    match translate_commands(writer, &words) {
        Ok(()) => Ok(()),
        Err(e) => {
            // map the offending command back to its source line
            proof {
                match spec_vm_lines(lines.deep_view()) {
                    Ok(ws) => {
                        lemma_translate_counter(ws, old(writer)@, 0);
                    },
                    Err(_) => {},
                }
            }
            let line = command_line(lines, e.at);
            Err(VmError { at: line, text: e.text, kind: e.kind })
        },
    }
}

/// A surviving source line yields at most one word group, so the
/// stream is no longer than the source.
pub proof fn lemma_vm_lines_bound(lines: Seq<Seq<char>>)
    ensures
        spec_vm_lines(lines) matches Ok(ws) ==> ws.len() <= lines.len(),
{
    lemma_vm_lines_bound_from(lines, 0);
}

proof fn lemma_vm_lines_bound_from(lines: Seq<Seq<char>>, i: int)
    requires
        0 <= i <= lines.len(),
    ensures
        crate::vm_parser::spec_vm_lines_from(lines, i) matches Ok(ws) ==> ws.len() <= lines.len()
            - i,
    decreases lines.len() - i,
{
    if i < lines.len() {
        lemma_vm_lines_bound_from(lines, i + 1);
    }
}

/// Each command mints at most one label pair, so a translation run
/// raises the counter by at most the number of commands; and a failure
/// is reported at a position inside the stream the run walked.
pub proof fn lemma_translate_counter(ws: Seq<Seq<Seq<char>>>, w: WriterModel, i: int)
    requires
        0 <= i <= ws.len(),
    ensures
        match spec_translate(ws, w, i) {
            Translated::Done { writer } => writer.label_count <= w.label_count + (ws.len() - i),
            Translated::Failed { at, writer, .. } => writer.label_count <= w.label_count + (
            ws.len() - i) && i <= at < ws.len(),
        },
    decreases ws.len() - i,
{
    if i < ws.len() {
        let line = ws[i];
        if line.len() == 0 {
        } else {
            match spec_keyword_type(line[0]) {
                None => {},
                Some(CommandType::CArithmetic) => {
                    let n2 = w.label_count + if arith_mints_label(line[0]) {
                        1nat
                    } else {
                        0nat
                    };
                    lemma_translate_counter(
                        ws,
                        WriterModel {
                            lines: w.lines + spec_arithmetic_lines(line[0], n2),
                            label_count: n2,
                            ..w
                        },
                        i + 1,
                    );
                },
                Some(CommandType::CPush) | Some(CommandType::CPop) => {
                    if line.len() < 3 || !(line[2].len() > 0 && all_digits(line[2]) && dec_value(
                        line[2],
                    ) <= u32::MAX) {
                    } else {
                        match spec_push_pop_lines(
                            spec_keyword_type(line[0])->0,
                            w.file_name,
                            line[1],
                            dec_value(line[2]),
                        ) {
                            None => {},
                            Some(ls) => {
                                lemma_translate_counter(
                                    ws,
                                    WriterModel { lines: w.lines + ls, ..w },
                                    i + 1,
                                );
                            },
                        }
                    }
                },
                Some(CommandType::CLabel) => {
                    if line.len() >= 2 {
                        lemma_translate_counter(
                            ws,
                            WriterModel {
                                lines: w.lines.push(
                                    "("@ + qualify(w.current_function, line[1]) + ")"@,
                                ),
                                ..w
                            },
                            i + 1,
                        );
                    }
                },
                Some(CommandType::CGoto) => {
                    if line.len() >= 2 {
                        lemma_translate_counter(
                            ws,
                            WriterModel {
                                lines: w.lines + seq![
                                    "@"@ + qualify(w.current_function, line[1]),
                                    "0;JMP"@,
                                ],
                                ..w
                            },
                            i + 1,
                        );
                    }
                },
                Some(CommandType::CIf) => {
                    if line.len() >= 2 {
                        lemma_translate_counter(
                            ws,
                            WriterModel {
                                lines: w.lines + seq![
                                    "@SP"@,
                                    "AM=M-1"@,
                                    "D=M"@,
                                    "@"@ + qualify(w.current_function, line[1]),
                                    "D;JNE"@,
                                ],
                                ..w
                            },
                            i + 1,
                        );
                    }
                },
                Some(CommandType::CCall) => {
                    if line.len() < 3 || !(line[2].len() > 0 && all_digits(line[2]) && dec_value(
                        line[2],
                    ) <= u32::MAX) {
                    } else {
                        lemma_translate_counter(
                            ws,
                            WriterModel {
                                lines: w.lines + call_lines(
                                    line[1],
                                    dec_value(line[2]),
                                    w.label_count + 1,
                                ),
                                label_count: w.label_count + 1,
                                ..w
                            },
                            i + 1,
                        );
                    }
                },
                Some(CommandType::CFunction) => {
                    if line.len() < 3 || !(line[2].len() > 0 && all_digits(line[2]) && dec_value(
                        line[2],
                    ) <= u32::MAX) {
                    } else {
                        lemma_translate_counter(
                            ws,
                            WriterModel {
                                lines: w.lines + function_lines(
                                    line[1],
                                    dec_value(line[2]),
                                    w.label_count + 1,
                                ),
                                label_count: w.label_count + 1,
                                current_function: Some(line[1]),
                                file_name: w.file_name,
                            },
                            i + 1,
                        );
                    }
                },
                Some(CommandType::CReturn) => {
                    lemma_translate_counter(
                        ws,
                        WriterModel { lines: w.lines + return_lines(), ..w },
                        i + 1,
                    );
                },
            }
        }
    }
}

/// One failing file of a program run: which file, and what its
/// translation reported.  The other files' output stands.
#[derive(Debug)]
pub struct FileFailure {
    pub file: usize,
    pub error: VmError,
}

/// The spec-level view of one file failure.
pub struct ProgramFailure {
    pub file: int,
    pub at: int,
    pub text: Seq<char>,
    pub kind: VmErrorKind,
}

/// What a whole program run yields: the writer state after the last
/// file, and every file that failed, in order.
pub struct ProgramRun {
    pub writer: WriterModel,
    pub failures: Seq<ProgramFailure>,
}

/// The per-file inputs as mathematical values: each file's static tag
/// and its source lines.
pub open spec fn files_view(files: Seq<(String, Vec<String>)>) -> Seq<(Seq<char>, Seq<Seq<char>>)> {
    files.map(|i: int, p: (String, Vec<String>)| (p.0@, p.1.deep_view()))
}

/// The spec-level view of the failures an exec run collected.
pub open spec fn failures_view(fs: Seq<FileFailure>) -> Seq<ProgramFailure> {
    fs.map(
        |i: int, f: FileFailure|
            ProgramFailure {
                file: f.file as int,
                at: f.error.at as int,
                text: f.error.text@,
                kind: f.error.kind,
            },
    )
}

/// How many source lines the first `i` files hold in all.
pub open spec fn lines_total(files: Seq<(Seq<char>, Seq<Seq<char>>)>, i: int) -> int
    decreases i,
{
    if i <= 0 {
        0
    } else {
        lines_total(files, i - 1) + files[i - 1].1.len()
    }
}

pub proof fn lemma_lines_total_mono(files: Seq<(Seq<char>, Seq<Seq<char>>)>, i: int, j: int)
    requires
        i <= j,
    ensures
        lines_total(files, i) <= lines_total(files, j),
    decreases j - i,
{
    if i < j {
        lemma_lines_total_mono(files, i, j - 1);
    }
}

/// A program run over the files from index `i` on, starting from
/// writer state `w`: each file retags the writer, then translates.  A
/// failing file contributes its failure and aborts only itself: the
/// run goes on with the next file, and what earlier files emitted
/// stands.
pub open spec fn spec_program_from(
    files: Seq<(Seq<char>, Seq<Seq<char>>)>,
    w: WriterModel,
    i: int,
) -> ProgramRun
    decreases files.len() - i,
{
    if i < 0 || i >= files.len() {
        ProgramRun { writer: w, failures: Seq::empty() }
    } else {
        let tagged = WriterModel { file_name: files[i].0, ..w };
        match spec_vm_lines(files[i].1) {
            Err(j) => {
                let rest = spec_program_from(files, tagged, i + 1);
                ProgramRun {
                    writer: rest.writer,
                    failures: seq![
                        ProgramFailure {
                            file: i,
                            at: j,
                            text: files[i].1[j],
                            kind: VmErrorKind::NoWords,
                        },
                    ] + rest.failures,
                }
            },
            Ok(ws) => match spec_translate(ws, tagged, 0) {
                Translated::Done { writer } => spec_program_from(files, writer, i + 1),
                Translated::Failed { at, text, kind, writer } => {
                    let rest = spec_program_from(files, writer, i + 1);
                    ProgramRun {
                        writer: rest.writer,
                        failures: seq![
                            ProgramFailure {
                                file: i,
                                at: spec_command_line(files[i].1, at, 0),
                                text,
                                kind,
                            },
                        ] + rest.failures,
                    }
                },
            },
        }
    }
}

/// A whole program run: a fresh writer tagged `name`, the bootstrap
/// exactly once (stack pointer to 256, then `call Sys.init 0`), then
/// every file in order, sharing one disambiguation counter.
pub open spec fn spec_program(files: Seq<(Seq<char>, Seq<Seq<char>>)>, name: Seq<char>) -> ProgramRun {
    spec_program_from(
        files,
        WriterModel {
            lines: init_lines(1),
            label_count: 1,
            current_function: None,
            file_name: name,
        },
        0,
    )
}

/// Puts already-collected failures in front of a run's.
pub open spec fn program_compose(pre: Seq<ProgramFailure>, run: ProgramRun) -> ProgramRun {
    ProgramRun { writer: run.writer, failures: pre + run.failures }
}

/// Translates a whole program: the bootstrap once, then each file —
/// its static tag, then its source — in order, over one shared
/// counter.  Returns every assembly line emitted and every file that
/// failed; a failing file aborts only itself.
pub fn translate_program(name: &str, files: &Vec<(String, Vec<String>)>) -> (r: (
    Vec<String>,
    Vec<FileFailure>,
))
    requires
        1 + lines_total(files_view(files@), files@.len() as int) <= usize::MAX,
    ensures
        ({
            let run = spec_program(files_view(files@), name@);
            r.0.deep_view() == run.writer.lines && failures_view(r.1@) == run.failures
        }),
{
    let ghost fv = files_view(files@);
    let mut writer = CodeWriter::new(name);
    writer.write_init();
    let mut failures: Vec<FileFailure> = Vec::new();
    let n = files.len();
    let mut i: usize = 0;
    while i < n
        invariant
            n == files@.len(),
            fv == files_view(files@),
            i <= n,
            writer@.label_count <= 1 + lines_total(fv, i as int),
            1 + lines_total(fv, n as int) <= usize::MAX,
            spec_program(fv, name@) == program_compose(
                failures_view(failures@),
                spec_program_from(fv, writer@, i as int),
            ),
        decreases n - i,
    {
        let entry = &files[i];
        proof {
            assert(fv[i as int] == (entry.0@, entry.1.deep_view()));
            lemma_lines_total_mono(fv, i + 1, n as int);
        }
        writer.set_file_name(entry.0.as_str());
        let ghost tagged = writer@;
        let ghost old_failures = failures_view(failures@);
        match translate_source(&mut writer, &entry.1) {
            Ok(()) => {
                proof {
                    match spec_vm_lines(fv[i as int].1) {
                        Ok(ws) => {
                            lemma_translate_counter(ws, tagged, 0);
                            lemma_vm_lines_bound(fv[i as int].1);
                        },
                        Err(_) => {},
                    }
                }
            },
            Err(e) => {
                proof {
                    match spec_vm_lines(fv[i as int].1) {
                        Ok(ws) => {
                            lemma_translate_counter(ws, tagged, 0);
                            lemma_vm_lines_bound(fv[i as int].1);
                        },
                        Err(_) => {},
                    }
                }
                let failure = FileFailure { file: i, error: e };
                let ghost pf = ProgramFailure {
                    file: i as int,
                    at: failure.error.at as int,
                    text: failure.error.text@,
                    kind: failure.error.kind,
                };
                failures.push(failure);
                proof {
                    assert(failures_view(failures@) =~= old_failures.push(pf));
                    assert(forall|rest: Seq<ProgramFailure>|
                        old_failures.push(pf) + rest =~= old_failures + (seq![pf] + rest));
                }
            },
        }
        i += 1;
    }
    proof {
        assert(spec_program_from(fv, writer@, n as int) == (ProgramRun {
            writer: writer@,
            failures: Seq::empty(),
        }));
        assert(failures_view(failures@) + Seq::<ProgramFailure>::empty() =~= failures_view(
            failures@,
        ));
    }
    (writer.into_lines(), failures)
}

} // verus!

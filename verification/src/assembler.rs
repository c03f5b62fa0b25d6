//! The assembler driver: runs two passes over a token stream, packs
//! each command into a 16-bit instruction word, and renders each word
//! as a 16-character binary line.
//!
//! Pass 1 records every label at the address of the instruction that
//! follows it.  Pass 2 emits one word per address or compute command:
//! a numeric address literally, a known symbol at its address, an
//! unknown symbol at the next free variable address (starting at 16),
//! and a compute command as `111` + a-bit + comp + dest + jump.

use vstd::prelude::*;

use crate::asm_parser::AsmError;
use crate::asm_parser::AsmErrorKind;
use crate::asm_parser::CommandType;
use crate::asm_parser::classify_token;
use crate::asm_parser::pick_out_tokens;
use crate::asm_parser::spec_command_type;
use crate::asm_parser::spec_comp_field;
use crate::asm_parser::spec_dest_field;
use crate::asm_parser::spec_is_a_command;
use crate::asm_parser::spec_is_l_command;
use crate::asm_parser::spec_jump_field;
use crate::asm_parser::spec_symbol;
use crate::asm_parser::spec_token_line;
use crate::asm_parser::spec_tokens;
use crate::asm_parser::token_comp;
use crate::asm_parser::token_dest;
use crate::asm_parser::token_jump;
use crate::asm_parser::token_symbol;
use crate::code::comp;
use crate::code::comp_reads_memory;
use crate::code::comp_uses_memory;
use crate::code::dest;
use crate::code::is_valid_comp;
use crate::code::is_valid_dest;
use crate::code::is_valid_jump;
use crate::code::jump;
use crate::code::spec_comp;
use crate::code::spec_dest;
use crate::code::spec_jump;
use crate::code::valid_comp;
use crate::code::valid_dest;
use crate::code::valid_jump;
use crate::symbol_table::SymbolTable;
use crate::symbol_table::predefined_symbols;
use crate::text::all_digits;
use crate::text::dec_value;
use crate::text::parse_u16;
use crate::text::push_char;

verus! {

/// Largest instruction address the 15-bit program space can hold.
pub open spec fn max_address() -> int {
    0x7FFF
}

/// How many instruction words the first `i` tokens occupy: labels take
/// no word, every other command takes one.
pub open spec fn instr_count(toks: Seq<Seq<char>>, i: int) -> int
    decreases i,
{
    if i <= 0 {
        0
    } else {
        instr_count(toks, i - 1) + if spec_is_l_command(toks[i - 1]) {
            0int
        } else {
            1int
        }
    }
}

pub proof fn lemma_instr_count_mono(toks: Seq<Seq<char>>, i: int, j: int)
    requires
        i <= j,
    ensures
        instr_count(toks, i) <= instr_count(toks, j),
    decreases j - i,
{
    if i < j {
        lemma_instr_count_mono(toks, i, j - 1);
    }
}

/// The table pass 1 builds, walking the tokens from index `i` with the
/// bindings in `m`: each label is bound to the address of the
/// instruction that follows it, last definition winning.
pub open spec fn labels_from(
    toks: Seq<Seq<char>>,
    m: Map<Seq<char>, u16>,
    i: int,
) -> Map<Seq<char>, u16>
    decreases toks.len() - i,
{
    if i < 0 || i >= toks.len() {
        m
    } else if spec_is_l_command(toks[i]) {
        labels_from(toks, m.insert(spec_symbol(toks[i]), instr_count(toks, i) as u16), i + 1)
    } else {
        labels_from(toks, m, i + 1)
    }
}

/// The word a compute command packs to: `111`, then the a-bit (set
/// exactly when the comp expression reads memory), then the 6-bit comp
/// code, the dest bits and the jump bits.
pub open spec fn spec_c_word(d: Seq<char>, c: Seq<char>, j: Seq<char>) -> u16 {
    (0b1110000000000000 + (if comp_reads_memory(c) {
        0b1000000000000int
    } else {
        0int
    }) + (spec_comp(c) as int) * 64 + (spec_dest(d) as int) * 8 + (spec_jump(j) as int)) as u16
}

/// What pass 2 produces: the emitted words together with the final
/// table and variable counter, or the first offending command.
pub enum Pass2 {
    Good { words: Seq<u16>, table: Map<Seq<char>, u16>, next_var: int },
    Bad { at: int, text: Seq<char>, kind: AsmErrorKind },
}

/// Puts `w` in front of whatever `p` emitted.
pub open spec fn pass2_prepend(w: u16, p: Pass2) -> Pass2 {
    match p {
        Pass2::Good { words, table, next_var } => Pass2::Good {
            words: seq![w] + words,
            table,
            next_var,
        },
        Pass2::Bad { .. } => p,
    }
}

/// Whether `p` succeeded with exactly these words and this table.
pub open spec fn pass2_good(p: Pass2, words: Seq<u16>, table: Map<Seq<char>, u16>) -> bool {
    match p {
        Pass2::Good { words: w, table: t, next_var } => w == words && t == table,
        Pass2::Bad { .. } => false,
    }
}

/// Whether `p` failed with exactly this report.
pub open spec fn pass2_bad(p: Pass2, e_at: int, e_text: Seq<char>, e_kind: AsmErrorKind) -> bool {
    match p {
        Pass2::Good { .. } => false,
        Pass2::Bad { at, text, kind } => at == e_at && text == e_text && kind == e_kind,
    }
}

/// Puts a whole prefix in front of whatever `p` emitted.
pub open spec fn pass2_compose(prefix: Seq<u16>, p: Pass2) -> Pass2 {
    match p {
        Pass2::Good { words, table, next_var } => Pass2::Good {
            words: prefix + words,
            table,
            next_var,
        },
        Pass2::Bad { .. } => p,
    }
}

/// Pass 2 from token `i` on, with table `m` and next free variable
/// address `next_var`.  A numeric address command emits its value; a
/// known symbol emits its address; an unknown symbol is bound to
/// `next_var` first.  A compute command with an illegal dest, comp or
/// jump field is the error it reports.
pub open spec fn spec_pass2(
    toks: Seq<Seq<char>>,
    m: Map<Seq<char>, u16>,
    next_var: int,
    i: int,
) -> Pass2
    decreases toks.len() - i,
{
    if i < 0 || i >= toks.len() {
        Pass2::Good { words: Seq::empty(), table: m, next_var }
    } else {
        let t = toks[i];
        match spec_command_type(t) {
            CommandType::LCommand => spec_pass2(toks, m, next_var, i + 1),
            CommandType::ACommand => {
                let sym = spec_symbol(t);
                if sym.len() > 0 && all_digits(sym) && dec_value(sym) <= u16::MAX {
                    pass2_prepend(dec_value(sym) as u16, spec_pass2(toks, m, next_var, i + 1))
                } else if m.contains_key(sym) {
                    pass2_prepend(m[sym], spec_pass2(toks, m, next_var, i + 1))
                } else if next_var <= u16::MAX {
                    pass2_prepend(
                        next_var as u16,
                        spec_pass2(toks, m.insert(sym, next_var as u16), next_var + 1, i + 1),
                    )
                } else {
                    Pass2::Bad { at: i, text: t, kind: AsmErrorKind::TooManyVariables }
                }
            },
            CommandType::CCommand => {
                let d = spec_dest_field(t);
                let c = spec_comp_field(t);
                let j = spec_jump_field(t);
                if !valid_dest(d) {
                    Pass2::Bad { at: i, text: t, kind: AsmErrorKind::BadDest }
                } else if !valid_comp(c) {
                    Pass2::Bad { at: i, text: t, kind: AsmErrorKind::BadComp }
                } else if !valid_jump(j) {
                    Pass2::Bad { at: i, text: t, kind: AsmErrorKind::BadJump }
                } else {
                    pass2_prepend(spec_c_word(d, c, j), spec_pass2(toks, m, next_var, i + 1))
                }
            },
        }
    }
}

/// Packs encoded dest, comp and jump fields into one instruction word:
/// the top three bits are `111`, then comp (7 bits, a-bit included),
/// dest (3 bits) and jump (3 bits).
pub fn sum(dest: u16, comp: u16, jump: u16) -> (r: u16)
    requires
        dest < 8,
        comp < 128,
        jump < 8,
    ensures
        r == 0b1110000000000000 + comp * 64 + dest * 8 + jump,
{
    0b1110000000000000u16 + comp * 64 + dest * 8 + jump
}

/// Pass 1: records every label, binding it to the address of the next
/// instruction.  The address counter never advances past a label.
pub fn first_pass(tokens: &Vec<String>, table: &mut SymbolTable)
    requires
        instr_count(tokens.deep_view(), tokens.deep_view().len() as int) <= max_address(),
    ensures
        final(table)@ == labels_from(tokens.deep_view(), old(table)@, 0),
{
    let ghost lv = tokens.deep_view();
    let ghost m0 = old(table)@;
    let n = tokens.len();
    let mut counter: u16 = 0;
    let mut i: usize = 0;
    while i < n
        invariant
            n == tokens@.len(),
            lv == tokens.deep_view(),
            i <= n,
            counter as int == instr_count(lv, i as int),
            instr_count(lv, lv.len() as int) <= max_address(),
            labels_from(lv, m0, 0) == labels_from(lv, table@, i as int),
        decreases n - i,
    {
        let t = &tokens[i];
        proof {
            assert(t@ == lv[i as int]);
            lemma_instr_count_mono(lv, i + 1, lv.len() as int);
        }
        match classify_token(t.as_str()) {
            CommandType::LCommand => {
                let sym = token_symbol(t.as_str());
                table.add_entry(sym.as_str(), counter);
            },
            _ => {
                counter = counter + 1;
            },
        }
        i += 1;
    }
}

/// Pass 2: emits one word per address or compute command, allocating
/// variable addresses from 16 up, and reports the first command whose
/// fields do not encode.
pub fn second_pass(tokens: &Vec<String>, table: &mut SymbolTable) -> (r: Result<Vec<u16>, AsmError>)
    ensures
        match r {
            Ok(words) => pass2_good(
                spec_pass2(tokens.deep_view(), old(table)@, 16, 0),
                words@,
                final(table)@,
            ),
            Err(e) => pass2_bad(
                spec_pass2(tokens.deep_view(), old(table)@, 16, 0),
                e.at as int,
                e.text@,
                e.kind,
            ),
        },
{
    let ghost lv = tokens.deep_view();
    let ghost m0 = old(table)@;
    let n = tokens.len();
    let mut out: Vec<u16> = Vec::new();
    let mut next_var: u32 = 16;
    let mut i: usize = 0;
    while i < n
        invariant
            n == tokens@.len(),
            lv == tokens.deep_view(),
            m0 == old(table)@,
            i <= n,
            16 <= next_var <= 0x10000,
            spec_pass2(lv, m0, 16, 0) == pass2_compose(
                out@,
                spec_pass2(lv, table@, next_var as int, i as int),
            ),
        decreases n - i,
    {
        let t = &tokens[i];
        proof {
            assert(t@ == lv[i as int]);
        }
        let ghost old_out = out@;
        match classify_token(t.as_str()) {
            CommandType::LCommand => {},
            CommandType::ACommand => {
                let sym = token_symbol(t.as_str());
                match parse_u16(sym.as_str()) {
                    Some(v) => {
                        out.push(v);
                    },
                    None => {
                        match table.get_address(&sym) {
                            Some(addr) => {
                                let a = *addr;
                                out.push(a);
                            },
                            None => {
                                if next_var > u16::MAX as u32 {
                                    return Err(
                                        AsmError {
                                            at: i,
                                            text: t.clone(),
                                            kind: AsmErrorKind::TooManyVariables,
                                        },
                                    );
                                }
                                let v = next_var as u16;
                                table.add_entry(sym.as_str(), v);
                                next_var = next_var + 1;
                                out.push(v);
                            },
                        }
                    },
                }
            },
            CommandType::CCommand => {
                let d = token_dest(t.as_str());
                let c = token_comp(t.as_str());
                let j = token_jump(t.as_str());
                if !is_valid_dest(d.as_str()) {
                    return Err(AsmError { at: i, text: t.clone(), kind: AsmErrorKind::BadDest });
                }
                if !is_valid_comp(c.as_str()) {
                    return Err(AsmError { at: i, text: t.clone(), kind: AsmErrorKind::BadComp });
                }
                if !is_valid_jump(j.as_str()) {
                    return Err(AsmError { at: i, text: t.clone(), kind: AsmErrorKind::BadJump });
                }
                let dc = dest(d.as_str());
                let cc = comp(c.as_str());
                let jc = jump(j.as_str());
                let abit: u16 = if comp_uses_memory(c.as_str()) {
                    64
                } else {
                    0
                };
                let word = sum(dc as u16, cc as u16 + abit, jc as u16);
                proof {
                    assert(word == spec_c_word(
                        spec_dest_field(t@),
                        spec_comp_field(t@),
                        spec_jump_field(t@),
                    ));
                }
                out.push(word);
            },
        }
        proof {
            assert(forall|rest: Seq<u16>, w: u16| old_out + (seq![w] + rest) =~= old_out.push(w)
                + rest);
        }
        i += 1;
    }
    proof {
        assert(out@ + Seq::<u16>::empty() =~= out@);
    }
    Ok(out)
}

/// The binary rendering of the low `width` bits of `v`, most
/// significant bit first.
pub open spec fn bin_repr(v: int, width: nat) -> Seq<char>
    decreases width,
{
    if width == 0 {
        Seq::empty()
    } else {
        bin_repr(v / 2, (width - 1) as nat).push(
            if v % 2 == 1 {
                '1'
            } else {
                '0'
            },
        )
    }
}

fn bin_rec(v: u16, width: usize) -> (r: String)
    ensures
        r@ == bin_repr(v as int, width as nat),
    decreases width,
{
    if width == 0 {
        String::new()
    } else {
        let mut s = bin_rec(v / 2, width - 1);
        push_char(
            &mut s,
            if v % 2 == 1 {
                '1'
            } else {
                '0'
            },
        );
        s
    }
}

/// Renders one instruction word as its 16-character '0'/'1' line,
/// most significant bit first.
pub fn word_to_binary(w: u16) -> (r: String)
    ensures
        r@ == bin_repr(w as int, 16),
{
    bin_rec(w, 16)
}

/// What assembling a whole source text yields: the output lines, or
/// the first error.
pub enum AsmOutcome {
    Lines { lines: Seq<Seq<char>> },
    Fail { at: int, text: Seq<char>, kind: AsmErrorKind },
}

/// The whole assembler pipeline over the source lines: tokenize, check
/// the program fits the 15-bit program space, run pass 1 from the
/// predefined table, run pass 2, and render each word in binary.
pub open spec fn spec_assemble(lines: Seq<Seq<char>>) -> AsmOutcome {
    let toks = spec_tokens(lines);
    if instr_count(toks, toks.len() as int) > max_address() {
        AsmOutcome::Fail { at: 0, text: Seq::empty(), kind: AsmErrorKind::ProgramTooLarge }
    } else {
        match spec_pass2(toks, labels_from(toks, predefined_symbols(), 0), 16, 0) {
            Pass2::Good { words, .. } => AsmOutcome::Lines {
                lines: words.map(|k: int, w: u16| bin_repr(w as int, 16)),
            },
            Pass2::Bad { at, text, kind } => AsmOutcome::Fail {
                at: spec_token_line(lines, at, 0),
                text,
                kind,
            },
        }
    }
}

/// Pass 2 reports a position inside the token stream it walked.
proof fn lemma_pass2_at_bound(toks: Seq<Seq<char>>, m: Map<Seq<char>, u16>, next_var: int, i: int)
    requires
        0 <= i <= toks.len(),
    ensures
        match spec_pass2(toks, m, next_var, i) {
            Pass2::Good { .. } => true,
            Pass2::Bad { at, .. } => i <= at < toks.len(),
        },
    decreases toks.len() - i,
{
    if i < toks.len() {
        let t = toks[i];
        match spec_command_type(t) {
            CommandType::LCommand => {
                lemma_pass2_at_bound(toks, m, next_var, i + 1);
            },
            CommandType::ACommand => {
                let sym = spec_symbol(t);
                if sym.len() > 0 && all_digits(sym) && dec_value(sym) <= u16::MAX {
                    lemma_pass2_at_bound(toks, m, next_var, i + 1);
                } else if m.contains_key(sym) {
                    lemma_pass2_at_bound(toks, m, next_var, i + 1);
                } else if next_var <= u16::MAX {
                    lemma_pass2_at_bound(toks, m.insert(sym, next_var as u16), next_var + 1, i + 1);
                }
            },
            CommandType::CCommand => {
                if valid_dest(spec_dest_field(t)) && valid_comp(spec_comp_field(t)) && valid_jump(
                    spec_jump_field(t),
                ) {
                    lemma_pass2_at_bound(toks, m, next_var, i + 1);
                }
            },
        }
    }
}

/// Whether the outcome is success with exactly these output lines.
pub open spec fn outcome_lines(o: AsmOutcome, ls: Seq<Seq<char>>) -> bool {
    match o {
        AsmOutcome::Lines { lines } => lines == ls,
        AsmOutcome::Fail { .. } => false,
    }
}

/// Whether the outcome is failure with exactly this report.
pub open spec fn outcome_fail(o: AsmOutcome, e_at: int, e_text: Seq<char>, e_kind: AsmErrorKind) -> bool {
    match o {
        AsmOutcome::Lines { .. } => false,
        AsmOutcome::Fail { at, text, kind } => at == e_at && text == e_text && kind == e_kind,
    }
}

/// Assembles a whole source text: one 16-character binary line per
/// address or compute command, in source order.
pub fn assemble(lines: &Vec<String>) -> (r: Result<Vec<String>, AsmError>)
    ensures
        match r {
            Ok(out) => outcome_lines(spec_assemble(lines.deep_view()), out.deep_view()),
            Err(e) => outcome_fail(
                spec_assemble(lines.deep_view()),
                e.at as int,
                e.text@,
                e.kind,
            ),
        },
{
    let tokens = pick_out_tokens(lines);
    let ghost tv = tokens.deep_view();
    // hold the program to the 15-bit program space
    let n = tokens.len();
    let mut count: usize = 0;
    let mut i: usize = 0;
    while i < n
        invariant
            n == tokens@.len(),
            tv == tokens.deep_view(),
            i <= n,
            count <= i,
            count as int == instr_count(tv, i as int),
        decreases n - i,
    {
        let t = &tokens[i];
        proof {
            assert(t@ == tv[i as int]);
        }
        match classify_token(t.as_str()) {
            CommandType::LCommand => {},
            _ => {
                count = count + 1;
            },
        }
        i += 1;
    }
    if count > 0x7FFF {
        return Err(
            AsmError { at: 0, text: String::new(), kind: AsmErrorKind::ProgramTooLarge },
        );
    }
    let mut table = SymbolTable::new();
    first_pass(&tokens, &mut table);
    let words = match second_pass(&tokens, &mut table) {
        Ok(ws) => ws,
        Err(e) => {
            // map the offending token back to its source line
            proof {
                lemma_pass2_at_bound(tv, labels_from(tv, predefined_symbols(), 0), 16, 0);
            }
            let line = crate::asm_parser::token_line(lines, e.at);
            return Err(AsmError { at: line, text: e.text, kind: e.kind });
        },
    };
    let m = words.len();
    let mut out: Vec<String> = Vec::new();
    let mut k: usize = 0;
    while k < m
        invariant
            m == words@.len(),
            k <= m,
            out.deep_view() =~= words@.take(k as int).map(|j: int, w: u16| bin_repr(w as int, 16)),
        decreases m - k,
    {
        let ghost old_out = out.deep_view();
        let line = word_to_binary(words[k]);
        out.push(line);
        proof {
            assert(out.deep_view() =~= old_out.push(line@));
            assert(out.deep_view() =~= words@.take(k + 1).map(
                |j: int, w: u16| bin_repr(w as int, 16),
            ));
        }
        k += 1;
    }
    proof {
        assert(words@.take(m as int) =~= words@);
        assert(out.deep_view() =~= words@.map(|j: int, w: u16| bin_repr(w as int, 16)));
    }
    Ok(out)
}

/// A well-formed output line: exactly 16 characters, each '0' or '1'.
pub open spec fn is_binary_line(l: Seq<char>) -> bool {
    l.len() == 16 && (forall|j: int| 0 <= j < l.len() ==> l[j] == '0' || #[trigger] l[j] == '1')
}

proof fn lemma_bin_repr_shape(v: int, width: nat)
    ensures
        bin_repr(v, width).len() == width,
        forall|j: int|
            0 <= j < width ==> bin_repr(v, width)[j] == '0' || #[trigger] bin_repr(v, width)[j]
                == '1',
    decreases width,
{
    if width > 0 {
        lemma_bin_repr_shape(v / 2, (width - 1) as nat);
        let s = bin_repr(v, width);
        assert(forall|j: int|
            0 <= j < width - 1 ==> s[j] == bin_repr(v / 2, (width - 1) as nat)[j]);
    }
}

/// Whatever the assembler accepts, every line it emits is exactly 16
/// characters of '0' and '1', most significant bit first.
pub proof fn lemma_output_lines_are_binary(lines: Seq<Seq<char>>)
    ensures
        match spec_assemble(lines) {
            AsmOutcome::Lines { lines: ls } => forall|k: int|
                0 <= k < ls.len() ==> is_binary_line(#[trigger] ls[k]),
            AsmOutcome::Fail { .. } => true,
        },
{
    match spec_assemble(lines) {
        AsmOutcome::Lines { lines: ls } => {
            assert forall|k: int| 0 <= k < ls.len() implies is_binary_line(#[trigger] ls[k]) by {
                let toks = spec_tokens(lines);
                match spec_pass2(toks, labels_from(toks, predefined_symbols(), 0), 16, 0) {
                    Pass2::Good { words, .. } => {
                        assert(ls[k] == bin_repr(words[k] as int, 16));
                        lemma_bin_repr_shape(words[k] as int, 16);
                    },
                    Pass2::Bad { .. } => {},
                }
            }
        },
        AsmOutcome::Fail { .. } => {},
    }
}

proof fn lemma_labels_preserve(toks: Seq<Seq<char>>, m: Map<Seq<char>, u16>, k: int, s: Seq<char>)
    requires
        forall|j: int|
            k <= j < toks.len() && spec_is_l_command(#[trigger] toks[j]) ==> spec_symbol(toks[j])
                != s,
    ensures
        labels_from(toks, m, k).contains_key(s) == m.contains_key(s),
        m.contains_key(s) ==> labels_from(toks, m, k)[s] == m[s],
    decreases toks.len() - k,
{
    if 0 <= k < toks.len() {
        if spec_is_l_command(toks[k]) {
            lemma_labels_preserve(
                toks,
                m.insert(spec_symbol(toks[k]), instr_count(toks, k) as u16),
                k + 1,
                s,
            );
        } else {
            lemma_labels_preserve(toks, m, k + 1, s);
        }
    }
}

proof fn lemma_label_resolution_from(
    toks: Seq<Seq<char>>,
    m: Map<Seq<char>, u16>,
    k: int,
    i: int,
)
    requires
        0 <= k <= i < toks.len(),
        spec_is_l_command(toks[i]),
        forall|j: int|
            i < j < toks.len() && spec_is_l_command(#[trigger] toks[j]) ==> spec_symbol(toks[j])
                != spec_symbol(toks[i]),
    ensures
        labels_from(toks, m, k).contains_key(spec_symbol(toks[i])),
        labels_from(toks, m, k)[spec_symbol(toks[i])] == instr_count(toks, i) as u16,
    decreases i - k,
{
    let s = spec_symbol(toks[i]);
    if k == i {
        lemma_labels_preserve(toks, m.insert(s, instr_count(toks, i) as u16), i + 1, s);
    } else {
        if spec_is_l_command(toks[k]) {
            lemma_label_resolution_from(
                toks,
                m.insert(spec_symbol(toks[k]), instr_count(toks, k) as u16),
                k + 1,
                i,
            );
        } else {
            lemma_label_resolution_from(toks, m, k + 1, i);
        }
    }
}

/// A `goto` to a label defined anywhere in the program — forward
/// references included — resolves, after pass 1, to the count of
/// address and compute commands that precede the label's definition:
/// the address of the instruction that follows it.  (When a label is
/// defined more than once, the last definition wins; the premise
/// rules the others out.)
pub proof fn lemma_label_resolution(toks: Seq<Seq<char>>, m: Map<Seq<char>, u16>, i: int)
    requires
        0 <= i < toks.len(),
        spec_is_l_command(toks[i]),
        forall|j: int|
            i < j < toks.len() && spec_is_l_command(#[trigger] toks[j]) ==> spec_symbol(toks[j])
                != spec_symbol(toks[i]),
    ensures
        labels_from(toks, m, 0).contains_key(spec_symbol(toks[i])),
        labels_from(toks, m, 0)[spec_symbol(toks[i])] == instr_count(toks, i) as u16,
{
    lemma_label_resolution_from(toks, m, 0, i);
}

/// Pass 2 allocates variables lazily and stably: over the commands
/// `@x`, `@y`, `@x` — with `x` and `y` distinct non-numeric symbols
/// unknown to the table — the first reference to `x` is assigned the
/// first free address 16, the next distinct symbol `y` gets 17, and
/// re-referencing `x` yields 16 again.
pub proof fn lemma_variable_allocation(t1: Seq<char>, t2: Seq<char>, m: Map<Seq<char>, u16>)
    requires
        spec_is_a_command(t1),
        spec_is_a_command(t2),
        !(spec_symbol(t1).len() > 0 && all_digits(spec_symbol(t1)) && dec_value(spec_symbol(t1))
            <= u16::MAX),
        !(spec_symbol(t2).len() > 0 && all_digits(spec_symbol(t2)) && dec_value(spec_symbol(t2))
            <= u16::MAX),
        !m.contains_key(spec_symbol(t1)),
        !m.contains_key(spec_symbol(t2)),
        spec_symbol(t1) != spec_symbol(t2),
    ensures
        pass2_good(
            spec_pass2(seq![t1, t2, t1], m, 16, 0),
            seq![16u16, 17u16, 16u16],
            m.insert(spec_symbol(t1), 16).insert(spec_symbol(t2), 17),
        ),
{
    let toks = seq![t1, t2, t1];
    let s1 = spec_symbol(t1);
    let s2 = spec_symbol(t2);
    let m1 = m.insert(s1, 16);
    let m2 = m1.insert(s2, 17);
    assert(toks[0] == t1 && toks[1] == t2 && toks[2] == t1);
    assert(spec_pass2(toks, m2, 18, 3) == (Pass2::Good {
        words: Seq::<u16>::empty(),
        table: m2,
        next_var: 18,
    }));
    assert(m2.contains_key(s1) && m2[s1] == 16);
    assert(spec_pass2(toks, m2, 18, 2) == pass2_prepend(16u16, spec_pass2(toks, m2, 18, 3)));
    assert(spec_pass2(toks, m1, 17, 1) == pass2_prepend(17u16, spec_pass2(toks, m2, 18, 2)));
    assert(spec_pass2(toks, m, 16, 0) == pass2_prepend(16u16, spec_pass2(toks, m1, 17, 1)));
    assert(seq![16u16] + (seq![17u16] + (seq![16u16] + Seq::<u16>::empty())) =~= seq![
        16u16,
        17u16,
        16u16,
    ]);
}

} // verus!

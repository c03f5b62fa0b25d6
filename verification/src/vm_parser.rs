//! The VM parser: turns line-oriented VM source into a stream of
//! whitespace-delimited word groups, one group per surviving line, with
//! the same one-way lookahead cursor as the assembly parser.

use vstd::prelude::*;

use crate::text::all_digits;
use crate::text::dec_value;
use crate::text::parse_u32;
use crate::text::split_line_words;
use crate::text::split_words;
use crate::text::strip_comment;
use crate::text::strip_comment_str;
use crate::text::str_eq;

verus! {

#[derive(Clone, Copy, PartialEq, Eq, Structural, Debug)]
pub enum CommandType {
    CArithmetic,
    CPush,
    CPop,
    CLabel,
    CGoto,
    CIf,
    CFunction,
    CReturn,
    CCall,
}

/// What went wrong while reading or translating VM source.  `at` is
/// the index of the offending source line or command; `text` is the
/// offending text.
#[derive(Clone, Copy, PartialEq, Eq, Structural, Debug)]
pub enum VmErrorKind {
    NoWords,
    UnknownCommand,
    MissingArg,
    BadNumber,
    InvalidArithmetic,
    InvalidSegment,
    InvalidPushPop,
}

#[derive(Debug)]
pub struct VmError {
    pub at: usize,
    pub text: String,
    pub kind: VmErrorKind,
}

/// The command class a first word names, if it names one.
pub open spec fn spec_keyword_type(w: Seq<char>) -> Option<CommandType> {
    if w == "add"@ || w == "sub"@ || w == "neg"@ || w == "eq"@ || w == "gt"@ || w == "lt"@ || w
        == "and"@ || w == "or"@ || w == "not"@ {
        Some(CommandType::CArithmetic)
    } else if w == "push"@ {
        Some(CommandType::CPush)
    } else if w == "pop"@ {
        Some(CommandType::CPop)
    } else if w == "label"@ {
        Some(CommandType::CLabel)
    } else if w == "goto"@ {
        Some(CommandType::CGoto)
    } else if w == "if-goto"@ {
        Some(CommandType::CIf)
    } else if w == "function"@ {
        Some(CommandType::CFunction)
    } else if w == "call"@ {
        Some(CommandType::CCall)
    } else if w == "return"@ {
        Some(CommandType::CReturn)
    } else {
        None
    }
}

/// Classifies a first word.
pub fn keyword_type(w: &str) -> (r: Option<CommandType>)
    ensures
        r == spec_keyword_type(w@),
{
    if str_eq(w, "add") || str_eq(w, "sub") || str_eq(w, "neg") || str_eq(w, "eq") || str_eq(
        w,
        "gt",
    ) || str_eq(w, "lt") || str_eq(w, "and") || str_eq(w, "or") || str_eq(w, "not") {
        Some(CommandType::CArithmetic)
    } else if str_eq(w, "push") {
        Some(CommandType::CPush)
    } else if str_eq(w, "pop") {
        Some(CommandType::CPop)
    } else if str_eq(w, "label") {
        Some(CommandType::CLabel)
    } else if str_eq(w, "goto") {
        Some(CommandType::CGoto)
    } else if str_eq(w, "if-goto") {
        Some(CommandType::CIf)
    } else if str_eq(w, "function") {
        Some(CommandType::CFunction)
    } else if str_eq(w, "call") {
        Some(CommandType::CCall)
    } else if str_eq(w, "return") {
        Some(CommandType::CReturn)
    } else {
        None
    }
}

/// A line to drop before parsing: blank, or opening with `//`.
pub open spec fn spec_vm_skip_line(s: Seq<char>) -> bool {
    s.len() == 0 || (s.len() >= 2 && s[0] == '/' && s[1] == '/')
}

/// The word groups of a VM source text from line `i` on: each
/// surviving line's words after comment stripping, or the index of the
/// first surviving line without a word.
pub open spec fn spec_vm_lines_from(lines: Seq<Seq<char>>, i: int) -> Result<
    Seq<Seq<Seq<char>>>,
    int,
>
    decreases lines.len() - i,
{
    if i < 0 || i >= lines.len() {
        Ok(Seq::empty())
    } else if spec_vm_skip_line(lines[i]) {
        spec_vm_lines_from(lines, i + 1)
    } else {
        let words = split_words(strip_comment(lines[i]));
        if words.len() == 0 {
            Err(i)
        } else {
            match spec_vm_lines_from(lines, i + 1) {
                Ok(ws) => Ok(seq![words] + ws),
                Err(j) => Err(j),
            }
        }
    }
}

/// The word groups of a VM source text.
pub open spec fn spec_vm_lines(lines: Seq<Seq<char>>) -> Result<Seq<Seq<Seq<char>>>, int> {
    spec_vm_lines_from(lines, 0)
}

/// The index of the source line the `k`-th command (counting the
/// surviving lines from line `i`) comes from; the line count when
/// there is no such command.
pub open spec fn spec_command_line(lines: Seq<Seq<char>>, k: int, i: int) -> int
    decreases lines.len() - i,
{
    if i < 0 || i >= lines.len() {
        lines.len() as int
    } else if spec_vm_skip_line(lines[i]) {
        spec_command_line(lines, k, i + 1)
    } else if k <= 0 {
        i
    } else {
        spec_command_line(lines, k - 1, i + 1)
    }
}

/// Maps the `k`-th command of a parsed source text back to the index
/// of the line it came from.
pub fn command_line(lines: &Vec<String>, k: usize) -> (r: usize)
    requires
        spec_vm_lines(lines.deep_view()) matches Ok(ws) && (k as int) < ws.len(),
    ensures
        r as int == spec_command_line(lines.deep_view(), k as int, 0),
        (r as int) < lines.deep_view().len(),
{
    let ghost lv = lines.deep_view();
    let n = lines.len();
    let mut remaining: usize = k;
    let mut i: usize = 0;
    while i < n
        invariant
            n == lines@.len(),
            lv == lines.deep_view(),
            i <= n,
            remaining <= k,
            spec_vm_lines_from(lv, i as int) matches Ok(ws) && ws.len() > remaining as int,
            spec_command_line(lv, k as int, 0) == spec_command_line(
                lv,
                remaining as int,
                i as int,
            ),
        decreases n - i,
    {
        let line = &lines[i];
        proof {
            assert(lv[i as int] == line@);
        }
        let skip = {
            let ln = line.as_str().unicode_len();
            if ln == 0 {
                true
            } else {
                ln >= 2 && line.as_str().get_char(0) == '/' && line.as_str().get_char(1) == '/'
            }
        };
        if !skip {
            if remaining == 0 {
                return i;
            }
            remaining -= 1;
        }
        i += 1;
    }
    proof {
        assert(spec_vm_lines_from(lv, n as int) == Ok::<Seq<Seq<Seq<char>>>, int>(Seq::empty()));
        assert(false);
    }
    0
}

/// `line` up to its first `//` comment.
pub fn remove_comments(line: String) -> (r: String)
    ensures
        r@ == strip_comment(line@),
{
    strip_comment_str(line.as_str())
}

/// Reads VM source into word groups: drops blank and comment-opening
/// lines, strips inline comments, and splits each surviving line into
/// words.  A surviving line without a word is a shape error, reported
/// with its line index and text.
pub fn parse_lines(lines: &Vec<String>) -> (r: Result<Vec<Vec<String>>, VmError>)
    ensures
        match r {
            Ok(ws) => spec_vm_lines(lines.deep_view()) == Ok::<_, int>(ws.deep_view()),
            Err(e) => spec_vm_lines(lines.deep_view()) == Err::<Seq<Seq<Seq<char>>>, _>(
                e.at as int,
            ) && e.kind == VmErrorKind::NoWords && e.text@ == lines.deep_view()[e.at as int],
        },
{
    let ghost lv = lines.deep_view();
    let n = lines.len();
    let mut out: Vec<Vec<String>> = Vec::new();
    let mut i: usize = 0;
    while i < n
        invariant
            n == lines@.len(),
            lv == lines.deep_view(),
            i <= n,
            spec_vm_lines(lv) == (match spec_vm_lines_from(lv, i as int) {
                Ok(ws) => Ok::<Seq<Seq<Seq<char>>>, int>(out.deep_view() + ws),
                Err(j) => Err::<Seq<Seq<Seq<char>>>, int>(j),
            }),
        decreases n - i,
    {
        let line = &lines[i];
        proof {
            assert(lv[i as int] == line@);
        }
        let skip = {
            let ln = line.as_str().unicode_len();
            if ln == 0 {
                true
            } else {
                ln >= 2 && line.as_str().get_char(0) == '/' && line.as_str().get_char(1) == '/'
            }
        };
        if !skip {
            let stripped = strip_comment_str(line.as_str());
            let words = split_line_words(stripped.as_str());
            if words.len() == 0 {
                return Err(VmError { at: i, text: line.clone(), kind: VmErrorKind::NoWords });
            }
            let ghost old_out = out.deep_view();
            let ghost wv = words.deep_view();
            out.push(words);
            proof {
                assert(out.deep_view() =~= old_out.push(wv));
                assert(forall|ws: Seq<Seq<Seq<char>>>|
                    old_out.push(wv) + ws =~= old_out + (seq![wv] + ws));
            }
        }
        i += 1;
    }
    proof {
        assert(spec_vm_lines_from(lv, n as int) == Ok::<Seq<Seq<Seq<char>>>, int>(Seq::empty()));
        match spec_vm_lines(lv) {
            Ok(ws) => {
                assert(out.deep_view() + Seq::<Seq<Seq<char>>>::empty() =~= out.deep_view());
            },
            Err(_) => {},
        }
    }
    Ok(out)
}

/// The one-way cursor over the word groups: a current group and one
/// group of lookahead.
pub struct Parser {
    lines: Vec<Vec<String>>,
    pos: usize,
}

impl Parser {
    /// The whole stream of word groups the cursor walks.
    pub closed spec fn spec_lines(&self) -> Seq<Seq<Seq<char>>> {
        self.lines.deep_view()
    }

    /// The index of the current group.
    pub closed spec fn spec_pos(&self) -> int {
        self.pos as int
    }

    pub open spec fn wf(&self) -> bool {
        self.spec_pos() <= self.spec_lines().len()
    }

    /// Whether a current group exists.
    pub open spec fn has_current(&self) -> bool {
        self.spec_pos() < self.spec_lines().len()
    }

    /// The current word group.
    pub open spec fn current(&self) -> Seq<Seq<char>> {
        self.spec_lines()[self.spec_pos()]
    }

    /// A cursor standing on the first group of `lines`.
    pub fn new(lines: Vec<Vec<String>>) -> (r: Parser)
        ensures
            r.wf(),
            r.spec_lines() == lines.deep_view(),
            r.spec_pos() == 0,
    {
        Parser { lines, pos: 0 }
    }

    /// Whether a group of lookahead remains beyond the current one.
    pub fn has_more_commands(&self) -> (r: bool)
        requires
            self.wf(),
        ensures
            r == (self.spec_pos() + 1 < self.spec_lines().len()),
    {
        let remaining = self.lines.len() - self.pos;
        remaining > 1
    }

    /// Shifts the lookahead into the current slot.
    pub fn advance(&mut self)
        requires
            old(self).wf(),
            old(self).has_current(),
        ensures
            final(self).wf(),
            final(self).spec_lines() == old(self).spec_lines(),
            final(self).spec_pos() == old(self).spec_pos() + 1,
    {
        let n = self.lines.len();
        assert(self.pos < n);
        self.pos = self.pos + 1;
    }

    /// Classifies the current command by its first word.
    pub fn command_type(&self) -> (r: CommandType)
        requires
            self.wf(),
            self.has_current(),
            self.current().len() > 0,
            spec_keyword_type(self.current()[0]) is Some,
        ensures
            Some(r) == spec_keyword_type(self.current()[0]),
    {
        let words = &self.lines[self.pos];
        proof {
            assert(words.deep_view() == self.current());
            assert(words.deep_view()[0] == words@[0]@);
        }
        let w = &words[0];
        keyword_type(w.as_str()).unwrap()
    }

    /// The first argument: the operator itself for arithmetic
    /// commands, the second word otherwise.
    pub fn arg1(&self) -> (r: String)
        requires
            self.wf(),
            self.has_current(),
            self.current().len() > 0,
            spec_keyword_type(self.current()[0]) is Some,
            spec_keyword_type(self.current()[0]) != Some(CommandType::CArithmetic)
                ==> self.current().len() >= 2,
        ensures
            spec_keyword_type(self.current()[0]) == Some(CommandType::CArithmetic) ==> r@
                == self.current()[0],
            spec_keyword_type(self.current()[0]) != Some(CommandType::CArithmetic) ==> r@
                == self.current()[1],
    {
        let words = &self.lines[self.pos];
        proof {
            assert(words.deep_view() == self.current());
            assert(words.deep_view()[0] == words@[0]@);
        }
        let w = &words[0];
        match keyword_type(w.as_str()).unwrap() {
            CommandType::CArithmetic => w.clone(),
            _ => {
                proof {
                    assert(words.deep_view()[1] == words@[1]@);
                }
                words[1].clone()
            },
        }
    }

    /// The numeric second argument (the third word), for push, pop,
    /// function and call commands.
    pub fn arg2(&self) -> (r: u32)
        requires
            self.wf(),
            self.has_current(),
            self.current().len() >= 3,
            self.current()[2].len() > 0,
            all_digits(self.current()[2]),
            dec_value(self.current()[2]) <= u32::MAX,
        ensures
            r as nat == dec_value(self.current()[2]),
    {
        let words = &self.lines[self.pos];
        proof {
            assert(words.deep_view() == self.current());
            assert(words.deep_view()[2] == words@[2]@);
        }
        parse_u32(words[2].as_str()).unwrap()
    }
}

} // verus!

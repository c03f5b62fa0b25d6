//! The assembly parser: turns line-oriented symbolic-assembly text into
//! a token stream, classifies each token, and splits compute commands
//! into their dest/comp/jump fields.  The cursor consumes tokens one
//! way, with one token of lookahead and no rewind.

use vstd::prelude::*;

use crate::text::find_char;
use crate::text::find_first;
use crate::text::lemma_find_first;
use crate::text::remove_spaces;
use crate::text::remove_spaces_str;
use crate::text::strip_comment;

verus! {

#[derive(Clone, Copy, PartialEq, Eq, Structural, Debug)]
pub enum CommandType {
    ACommand,
    CCommand,
    LCommand,
}

/// What went wrong while assembling.  `at` is the position of the
/// offending input: `assemble` reports the index of the offending
/// source line, `second_pass` the index of the offending command in
/// the token stream; `text` is the offending token.
#[derive(Clone, Copy, PartialEq, Eq, Structural, Debug)]
pub enum AsmErrorKind {
    BadDest,
    BadComp,
    BadJump,
    TooManyVariables,
    ProgramTooLarge,
}

#[derive(Debug)]
pub struct AsmError {
    pub at: usize,
    pub text: String,
    pub kind: AsmErrorKind,
}

/// A token beginning with `@` is an address command.
pub open spec fn spec_is_a_command(t: Seq<char>) -> bool {
    t.len() > 0 && t[0] == '@'
}

/// A token beginning with `(` is a label command.
pub open spec fn spec_is_l_command(t: Seq<char>) -> bool {
    t.len() > 0 && t[0] == '('
}

/// Address if it starts with `@`, label if it starts with `(`,
/// otherwise a compute command.
pub open spec fn spec_command_type(t: Seq<char>) -> CommandType {
    if spec_is_a_command(t) {
        CommandType::ACommand
    } else if spec_is_l_command(t) {
        CommandType::LCommand
    } else {
        CommandType::CCommand
    }
}

/// The symbol a token carries: the text after the leading `@` for an
/// address command, the text between the enclosing parentheses for a
/// label command.
pub open spec fn spec_symbol(t: Seq<char>) -> Seq<char> {
    if spec_is_a_command(t) {
        t.subrange(1, t.len() as int)
    } else {
        let opened = if spec_is_l_command(t) {
            t.subrange(1, t.len() as int)
        } else {
            t
        };
        if opened.len() > 0 && opened.last() == ')' {
            opened.drop_last()
        } else {
            opened
        }
    }
}

/// The dest field of a compute token: the part before `=`, or "null"
/// when there is no `=`.
pub open spec fn spec_dest_field(t: Seq<char>) -> Seq<char> {
    match find_first(t, '=') {
        Some(e) => t.take(e),
        None => "null"@,
    }
}

/// The comp field of a compute token: the part between the `=` (or the
/// start) and the `;` (or the end); empty when the `=` comes after the
/// `;`, which no legal token has.
pub open spec fn spec_comp_field(t: Seq<char>) -> Seq<char> {
    let start = match find_first(t, '=') {
        Some(e) => e + 1,
        None => 0,
    };
    let end = match find_first(t, ';') {
        Some(sc) => sc,
        None => t.len() as int,
    };
    if start <= end {
        t.subrange(start, end)
    } else {
        Seq::empty()
    }
}

/// The jump field of a compute token: the part after `;`, or "null"
/// when there is no `;`.
pub open spec fn spec_jump_field(t: Seq<char>) -> Seq<char> {
    match find_first(t, ';') {
        Some(sc) => t.subrange(sc + 1, t.len() as int),
        None => "null"@,
    }
}

/// A blank line, or one that opens with `//`.  Such a line yields no
/// token; so does any other line that is left empty once its comment
/// and whitespace go (see `spec_token_of_line`).
pub open spec fn spec_skip_line(s: Seq<char>) -> bool {
    s.len() == 0 || (s.len() >= 2 && s[0] == '/' && s[1] == '/')
}

/// The token a line yields: the comment-stripped text with every
/// whitespace character removed — or nothing, when nothing is left
/// (blank and comment-only lines, however indented).
pub open spec fn spec_token_of_line(s: Seq<char>) -> Option<Seq<char>> {
    let t = remove_spaces(strip_comment(s));
    if t.len() == 0 {
        None
    } else {
        Some(t)
    }
}

/// The token stream of a source text, read from line `i` on: one token
/// per line that has one.
pub open spec fn spec_tokens_from(lines: Seq<Seq<char>>, i: int) -> Seq<Seq<char>>
    decreases lines.len() - i,
{
    if i < 0 || i >= lines.len() {
        Seq::empty()
    } else {
        match spec_token_of_line(lines[i]) {
            None => spec_tokens_from(lines, i + 1),
            Some(t) => seq![t] + spec_tokens_from(lines, i + 1),
        }
    }
}

/// The token stream of a source text.
pub open spec fn spec_tokens(lines: Seq<Seq<char>>) -> Seq<Seq<char>> {
    spec_tokens_from(lines, 0)
}

/// The index of the source line the `k`-th token (counting from line
/// `i`) comes from; the line count when there is no such token.
pub open spec fn spec_token_line(lines: Seq<Seq<char>>, k: int, i: int) -> int
    decreases lines.len() - i,
{
    if i < 0 || i >= lines.len() {
        lines.len() as int
    } else {
        match spec_token_of_line(lines[i]) {
            None => spec_token_line(lines, k, i + 1),
            Some(_) => if k <= 0 {
                i
            } else {
                spec_token_line(lines, k - 1, i + 1)
            },
        }
    }
}

/// Maps the `k`-th token of a source text back to the index of the
/// line it came from.
pub fn token_line(lines: &Vec<String>, k: usize) -> (r: usize)
    requires
        (k as int) < spec_tokens(lines.deep_view()).len(),
    ensures
        r as int == spec_token_line(lines.deep_view(), k as int, 0),
        (r as int) < lines.deep_view().len(),
{
    let ghost lv = lines.deep_view();
    let n = lines.len();
    let mut remaining: usize = k;
    let mut i: usize = 0;
    while i < n
        invariant
            n == lines@.len(),
            lv == lines.deep_view(),
            i <= n,
            remaining <= k,
            spec_tokens_from(lv, i as int).len() > remaining as int,
            spec_token_line(lv, k as int, 0) == spec_token_line(lv, remaining as int, i as int),
        decreases n - i,
    {
        let line = &lines[i];
        proof {
            assert(lv[i as int] == line@);
        }
        let stripped = crate::text::strip_comment_str(line.as_str());
        let token = remove_spaces_str(stripped.as_str());
        if token.as_str().unicode_len() > 0 {
            proof {
                assert(spec_token_of_line(lv[i as int]) == Some(token@));
            }
            if remaining == 0 {
                return i;
            }
            remaining -= 1;
        } else {
            proof {
                assert(spec_token_of_line(lv[i as int]) is None);
            }
        }
        i += 1;
    }
    proof {
        assert(spec_tokens_from(lv, n as int) =~= Seq::<Seq<char>>::empty());
        assert(false);
    }
    0
}

/// Whether a line is blank or opens with a comment.
pub fn skip_line(string: &String) -> (r: bool)
    ensures
        r == spec_skip_line(string@),
{
    let n = string.as_str().unicode_len();
    if n == 0 {
        return true;
    }
    if n >= 2 && string.as_str().get_char(0) == '/' && string.as_str().get_char(1) == '/' {
        return true;
    }
    false
}

/// Whether a token is an address command.
pub fn is_a_command(line: &String) -> (r: bool)
    ensures
        r == spec_is_a_command(line@),
{
    let n = line.as_str().unicode_len();
    n > 0 && line.as_str().get_char(0) == '@'
}

/// Whether a token is a label command.
pub fn is_l_command(line: &String) -> (r: bool)
    ensures
        r == spec_is_l_command(line@),
{
    let n = line.as_str().unicode_len();
    n > 0 && line.as_str().get_char(0) == '('
}

/// Tokenizes assembly source: strips each line's inline comment and
/// every whitespace character, keeps what is left as the line's one
/// token, and drops lines with nothing left (blank and comment-only
/// lines, however indented).
pub fn pick_out_tokens(lines: &Vec<String>) -> (r: Vec<String>)
    ensures
        r.deep_view() == spec_tokens(lines.deep_view()),
{
    let ghost lv = lines.deep_view();
    let n = lines.len();
    let mut out: Vec<String> = Vec::new();
    let mut i: usize = 0;
    while i < n
        invariant
            n == lines@.len(),
            lv == lines.deep_view(),
            i <= n,
            spec_tokens(lv) == out.deep_view() + spec_tokens_from(lv, i as int),
        decreases n - i,
    {
        let line = &lines[i];
        proof {
            assert(lv[i as int] == line@);
        }
        let stripped = crate::text::strip_comment_str(line.as_str());
        let token = remove_spaces_str(stripped.as_str());
        if token.as_str().unicode_len() > 0 {
            proof {
                assert(spec_token_of_line(lv[i as int]) == Some(token@));
            }
            let ghost old_out = out.deep_view();
            let ghost tv = token@;
            out.push(token);
            proof {
                assert(out.deep_view() =~= old_out.push(tv));
                assert(forall|ts: Seq<Seq<char>>|
                    old_out.push(tv) + ts =~= old_out + (seq![tv] + ts));
            }
        } else {
            proof {
                assert(spec_token_of_line(lv[i as int]) is None);
            }
        }
        i += 1;
    }
    proof {
        assert(spec_tokens_from(lv, n as int) == Seq::<Seq<char>>::empty());
        assert(out.deep_view() + Seq::<Seq<char>>::empty() =~= out.deep_view());
    }
    out
}

/// Classifies one token.
pub fn classify_token(t: &str) -> (r: CommandType)
    ensures
        r == spec_command_type(t@),
{
    let n = t.unicode_len();
    if n == 0 {
        return CommandType::CCommand;
    }
    let c = t.get_char(0);
    if c == '@' {
        CommandType::ACommand
    } else if c == '(' {
        CommandType::LCommand
    } else {
        CommandType::CCommand
    }
}

/// The symbol of one token.
pub fn token_symbol(t: &str) -> (r: String)
    ensures
        r@ == spec_symbol(t@),
{
    let n = t.unicode_len();
    if n > 0 && t.get_char(0) == '@' {
        let part = t.substring_char(1, n);
        proof {
            assert(part@ =~= t@.subrange(1, t@.len() as int));
        }
        String::from_str(part)
    } else {
        let start: usize = if n > 0 && t.get_char(0) == '(' {
            1
        } else {
            0
        };
        let end: usize = if n > start && t.get_char(n - 1) == ')' {
            n - 1
        } else {
            n
        };
        let part = t.substring_char(start, end);
        proof {
            let opened = if spec_is_l_command(t@) {
                t@.subrange(1, t@.len() as int)
            } else {
                t@
            };
            if end < n {
                assert(part@ =~= opened.drop_last());
            } else {
                assert(part@ =~= opened);
            }
        }
        String::from_str(part)
    }
}

/// The dest field of one token.
pub fn token_dest(t: &str) -> (r: String)
    ensures
        r@ == spec_dest_field(t@),
{
    proof {
        lemma_find_first(t@, '=');
    }
    match find_char(t, '=') {
        None => String::from_str("null"),
        Some(e) => {
            let part = t.substring_char(0, e);
            proof {
                assert(part@ =~= t@.take(e as int));
            }
            String::from_str(part)
        },
    }
}

/// The comp field of one token.
pub fn token_comp(t: &str) -> (r: String)
    ensures
        r@ == spec_comp_field(t@),
{
    proof {
        lemma_find_first(t@, '=');
        lemma_find_first(t@, ';');
    }
    let n = t.unicode_len();
    let start = match find_char(t, '=') {
        Some(e) => e + 1,
        None => 0,
    };
    let end = match find_char(t, ';') {
        Some(sc) => sc,
        None => n,
    };
    if start <= end {
        let part = t.substring_char(start, end);
        proof {
            assert(part@ =~= t@.subrange(start as int, end as int));
        }
        String::from_str(part)
    } else {
        String::new()
    }
}

/// The jump field of one token.
pub fn token_jump(t: &str) -> (r: String)
    ensures
        r@ == spec_jump_field(t@),
{
    proof {
        lemma_find_first(t@, ';');
    }
    let n = t.unicode_len();
    match find_char(t, ';') {
        None => String::from_str("null"),
        Some(sc) => {
            let part = t.substring_char(sc + 1, n);
            proof {
                assert(part@ =~= t@.subrange(sc + 1, t@.len() as int));
            }
            String::from_str(part)
        },
    }
}

/// The one-way cursor over a token stream: a current token and one
/// token of lookahead.
pub struct Parser {
    tokens: Vec<String>,
    pos: usize,
}

impl Parser {
    /// The whole token stream the cursor walks.
    pub closed spec fn spec_tokens(&self) -> Seq<Seq<char>> {
        self.tokens.deep_view()
    }

    /// The index of the current token.
    pub closed spec fn spec_pos(&self) -> int {
        self.pos as int
    }

    pub open spec fn wf(&self) -> bool {
        self.spec_pos() <= self.spec_tokens().len()
    }

    /// Whether a current token exists.
    pub open spec fn has_current(&self) -> bool {
        self.spec_pos() < self.spec_tokens().len()
    }

    /// The current token.
    pub open spec fn current(&self) -> Seq<char> {
        self.spec_tokens()[self.spec_pos()]
    }

    /// A cursor standing on the first token of `tokens`.
    pub fn new(tokens: Vec<String>) -> (r: Parser)
        ensures
            r.wf(),
            r.spec_tokens() == tokens.deep_view(),
            r.spec_pos() == 0,
    {
        Parser { tokens, pos: 0 }
    }

    /// Whether a token of lookahead remains beyond the current one.
    pub fn has_more_commands(&self) -> (r: bool)
        requires
            self.wf(),
        ensures
            r == (self.spec_pos() + 1 < self.spec_tokens().len()),
    {
        let remaining = self.tokens.len() - self.pos;
        remaining > 1
    }

    /// Shifts the lookahead into the current slot.
    pub fn advance(&mut self)
        requires
            old(self).wf(),
            old(self).has_current(),
        ensures
            final(self).wf(),
            final(self).spec_tokens() == old(self).spec_tokens(),
            final(self).spec_pos() == old(self).spec_pos() + 1,
    {
        let n = self.tokens.len();
        assert(self.pos < n);
        self.pos = self.pos + 1;
    }

    /// Classifies the current token.
    pub fn command_type(&self) -> (r: CommandType)
        requires
            self.wf(),
            self.has_current(),
        ensures
            r == spec_command_type(self.current()),
    {
        let t = &self.tokens[self.pos];
        proof {
            assert(t@ == self.current());
        }
        classify_token(t.as_str())
    }

    /// The symbol of the current address or label token.
    pub fn symbol(&self) -> (r: String)
        requires
            self.wf(),
            self.has_current(),
        ensures
            r@ == spec_symbol(self.current()),
    {
        let t = &self.tokens[self.pos];
        proof {
            assert(t@ == self.current());
        }
        token_symbol(t.as_str())
    }

    /// The dest field of the current compute token.
    pub fn dest(&self) -> (r: String)
        requires
            self.wf(),
            self.has_current(),
        ensures
            r@ == spec_dest_field(self.current()),
    {
        let t = &self.tokens[self.pos];
        proof {
            assert(t@ == self.current());
        }
        token_dest(t.as_str())
    }

    /// The comp field of the current compute token.
    pub fn comp(&self) -> (r: String)
        requires
            self.wf(),
            self.has_current(),
        ensures
            r@ == spec_comp_field(self.current()),
    {
        let t = &self.tokens[self.pos];
        proof {
            assert(t@ == self.current());
        }
        token_comp(t.as_str())
    }

    /// The jump field of the current compute token.
    pub fn jump(&self) -> (r: String)
        requires
            self.wf(),
            self.has_current(),
        ensures
            r@ == spec_jump_field(self.current()),
    {
        let t = &self.tokens[self.pos];
        proof {
            assert(t@ == self.current());
        }
        token_jump(t.as_str())
    }
}

} // verus!

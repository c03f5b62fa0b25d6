//! Character-level text utilities shared by the assembler and the VM
//! translator: searching, comparing, and building strings, plus decimal
//! conversion in both directions.

use vstd::prelude::*;

verus! {

/// First index of `c` in `s` at or after position `i`, if any.
pub open spec fn find_from(s: Seq<char>, c: char, i: int) -> Option<int>
    decreases s.len() - i,
{
    if i < 0 || i >= s.len() {
        None
    } else if s[i] == c {
        Some(i)
    } else {
        find_from(s, c, i + 1)
    }
}

/// First index of `c` in `s`, if any.
pub open spec fn find_first(s: Seq<char>, c: char) -> Option<int> {
    find_from(s, c, 0)
}

/// Whether `c` occurs anywhere in `s`.
pub open spec fn has_char(s: Seq<char>, c: char) -> bool {
    find_first(s, c) is Some
}

pub proof fn lemma_find_from(s: Seq<char>, c: char, i: int)
    requires
        0 <= i <= s.len(),
    ensures
        match find_from(s, c, i) {
            Some(j) => i <= j < s.len() && s[j] == c && (forall|k: int| i <= k < j ==> s[k] != c),
            None => forall|k: int| i <= k < s.len() ==> s[k] != c,
        },
    decreases s.len() - i,
{
    if i < s.len() && s[i] != c {
        lemma_find_from(s, c, i + 1);
    }
}

pub proof fn lemma_find_first(s: Seq<char>, c: char)
    ensures
        match find_first(s, c) {
            Some(j) => 0 <= j < s.len() && s[j] == c && (forall|k: int| 0 <= k < j ==> s[k] != c),
            None => forall|k: int| 0 <= k < s.len() ==> s[k] != c,
        },
{
    lemma_find_from(s, c, 0);
}

/// Index of the first occurrence of `c` in `s`, scanning left to right.
pub fn find_char(s: &str, c: char) -> (r: Option<usize>)
    ensures
        match r {
            Some(j) => find_first(s@, c) == Some(j as int),
            None => find_first(s@, c) is None,
        },
{
    let n = s.unicode_len();
    let mut i: usize = 0;
    while i < n
        invariant
            n as nat == s@.len(),
            i <= n,
            find_first(s@, c) == find_from(s@, c, i as int),
        decreases n - i,
    {
        if s.get_char(i) == c {
            return Some(i);
        }
        i += 1;
    }
    None
}

/// Whether `c` occurs anywhere in `s`.
pub fn str_has_char(s: &str, c: char) -> (r: bool)
    ensures
        r == has_char(s@, c),
{
    find_char(s, c).is_some()
}

/// Character-by-character string equality.
pub fn str_eq(a: &str, b: &str) -> (r: bool)
    ensures
        r == (a@ == b@),
{
    let na = a.unicode_len();
    let nb = b.unicode_len();
    if na != nb {
        return false;
    }
    let mut i: usize = 0;
    while i < na
        invariant
            na as nat == a@.len(),
            nb as nat == b@.len(),
            na == nb,
            i <= na,
            forall|k: int| 0 <= k < i ==> a@[k] == b@[k],
        decreases na - i,
    {
        if a.get_char(i) != b.get_char(i) {
            return false;
        }
        i += 1;
    }
    proof {
        assert(a@ =~= b@);
    }
    true
}

/// `s` with every whitespace character removed, order kept.
pub open spec fn remove_spaces(s: Seq<char>) -> Seq<char>
    decreases s.len(),
{
    if s.len() == 0 {
        Seq::empty()
    } else if is_space(s.last()) {
        remove_spaces(s.drop_last())
    } else {
        remove_spaces(s.drop_last()).push(s.last())
    }
}

/// Copies `s`, dropping every whitespace character.
pub fn remove_spaces_str(s: &str) -> (r: String)
    ensures
        r@ == remove_spaces(s@),
{
    let n = s.unicode_len();
    let mut out = String::new();
    let mut i: usize = 0;
    while i < n
        invariant
            n as nat == s@.len(),
            i <= n,
            out@ == remove_spaces(s@.take(i as int)),
        decreases n - i,
    {
        let ch = s.get_char(i);
        proof {
            assert(s@.take(i + 1).drop_last() =~= s@.take(i as int));
            assert(s@.take(i + 1).last() == s@[i as int]);
        }
        if !is_space_char(ch) {
            push_char(&mut out, ch);
        }
        i += 1;
    }
    proof {
        assert(s@.take(n as int) =~= s@);
    }
    out
}

/// Relies on `String::push` from std: appends one character at the end.
#[verifier::external_body]
pub fn push_char(s: &mut String, c: char)
    ensures
        final(s)@ == old(s)@.push(c),
{
    s.push(c);
}

/// The whitespace characters that separate words on a source line.
pub open spec fn is_space(c: char) -> bool {
    c == ' ' || c == '\t' || c == '\r' || c == '\n'
}

fn is_space_char(c: char) -> (r: bool)
    ensures
        r == is_space(c),
{
    c == ' ' || c == '\t' || c == '\r' || c == '\n'
}

/// First position at or after `i` (and before `limit`) holding a
/// non-space character.
pub open spec fn first_non_space_from(s: Seq<char>, i: int, limit: int) -> Option<int>
    decreases limit - i,
{
    if i < 0 || i >= limit {
        None
    } else if !is_space(s[i]) {
        Some(i)
    } else {
        first_non_space_from(s, i + 1, limit)
    }
}

/// First position at or after `i` holding a space, or `limit` when none
/// comes before it.
pub open spec fn first_space_from(s: Seq<char>, i: int, limit: int) -> int
    decreases limit - i,
{
    if i < 0 || i >= limit {
        limit
    } else if is_space(s[i]) {
        i
    } else {
        first_space_from(s, i + 1, limit)
    }
}

pub proof fn lemma_first_non_space_from(s: Seq<char>, i: int, limit: int)
    requires
        0 <= i <= limit <= s.len(),
    ensures
        match first_non_space_from(s, i, limit) {
            Some(b) => i <= b < limit && !is_space(s[b]) && (forall|k: int|
                i <= k < b ==> is_space(s[k])),
            None => forall|k: int| i <= k < limit ==> is_space(s[k]),
        },
    decreases limit - i,
{
    if i < limit && is_space(s[i]) {
        lemma_first_non_space_from(s, i + 1, limit);
    }
}

pub proof fn lemma_first_space_from(s: Seq<char>, i: int, limit: int)
    requires
        0 <= i <= limit <= s.len(),
    ensures
        i <= first_space_from(s, i, limit) <= limit,
        forall|k: int| i <= k < first_space_from(s, i, limit) ==> !is_space(s[k]),
        first_space_from(s, i, limit) < limit ==> is_space(s[first_space_from(s, i, limit)]),
    decreases limit - i,
{
    if i < limit && !is_space(s[i]) {
        lemma_first_space_from(s, i + 1, limit);
    }
}

/// The whitespace-delimited words of `s`, reading from position `i` on.
pub open spec fn split_words_from(s: Seq<char>, i: int) -> Seq<Seq<char>>
    decreases s.len() - i,
    via split_words_from_decreases
{
    match first_non_space_from(s, i, s.len() as int) {
        None => Seq::empty(),
        Some(b) => {
            let e = first_space_from(s, b, s.len() as int);
            seq![s.subrange(b, e)] + split_words_from(s, e)
        },
    }
}

#[via_fn]
proof fn split_words_from_decreases(s: Seq<char>, i: int) {
    if 0 <= i <= s.len() {
        lemma_first_non_space_from(s, i, s.len() as int);
        match first_non_space_from(s, i, s.len() as int) {
            None => {},
            Some(b) => {
                lemma_first_space_from(s, b, s.len() as int);
            },
        }
    }
}

/// The whitespace-delimited words of `s`.
pub open spec fn split_words(s: Seq<char>) -> Seq<Seq<char>> {
    split_words_from(s, 0)
}

/// First index at or after `i` where a `//` comment begins.
pub open spec fn find_comment_from(s: Seq<char>, i: int) -> Option<int>
    decreases s.len() - i,
{
    if i < 0 || i + 1 >= s.len() {
        None
    } else if s[i] == '/' && s[i + 1] == '/' {
        Some(i)
    } else {
        find_comment_from(s, i + 1)
    }
}

/// `s` up to (not including) its first `//` comment.
pub open spec fn strip_comment(s: Seq<char>) -> Seq<char> {
    match find_comment_from(s, 0) {
        Some(i) => s.take(i),
        None => s,
    }
}

pub proof fn lemma_find_comment_from(s: Seq<char>, i: int)
    requires
        0 <= i,
    ensures
        match find_comment_from(s, i) {
            Some(j) => i <= j && j + 1 < s.len() && s[j] == '/' && s[j + 1] == '/',
            None => true,
        },
    decreases s.len() - i,
{
    if i + 1 < s.len() && !(s[i] == '/' && s[i + 1] == '/') {
        lemma_find_comment_from(s, i + 1);
    }
}

/// Position of the first `//` in `s`, if any.
pub fn find_comment(s: &str) -> (r: Option<usize>)
    ensures
        match r {
            Some(j) => find_comment_from(s@, 0) == Some(j as int),
            None => find_comment_from(s@, 0) is None,
        },
{
    let n = s.unicode_len();
    if n == 0 {
        return None;
    }
    let mut i: usize = 0;
    while i < n - 1
        invariant
            n as nat == s@.len(),
            n >= 1,
            i <= n,
            find_comment_from(s@, 0) == find_comment_from(s@, i as int),
        decreases n - i,
    {
        if s.get_char(i) == '/' && s.get_char(i + 1) == '/' {
            return Some(i);
        }
        i += 1;
    }
    None
}

/// Copies `s` up to (not including) its first `//` comment.
pub fn strip_comment_str(s: &str) -> (r: String)
    ensures
        r@ == strip_comment(s@),
{
    match find_comment(s) {
        None => String::from_str(s),
        Some(i) => {
            proof {
                lemma_find_comment_from(s@, 0);
            }
            let part = s.substring_char(0, i);
            proof {
                assert(part@ =~= s@.take(i as int));
            }
            String::from_str(part)
        },
    }
}

/// Splits `s` into its whitespace-delimited words.
pub fn split_line_words(s: &str) -> (r: Vec<String>)
    ensures
        r.deep_view() == split_words(s@),
{
    let n = s.unicode_len();
    let mut out: Vec<String> = Vec::new();
    let mut i: usize = 0;
    loop
        invariant
            n as nat == s@.len(),
            i <= n,
            split_words(s@) == out.deep_view() + split_words_from(s@, i as int),
        decreases n - i,
    {
        let ghost i0 = i;
        // skip leading spaces
        while i < n && is_space_char(s.get_char(i))
            invariant
                n as nat == s@.len(),
                i0 <= i <= n,
                split_words(s@) == out.deep_view() + split_words_from(s@, i as int),
            decreases n - i,
        {
            proof {
                assert(first_non_space_from(s@, i as int, n as int) == first_non_space_from(
                    s@,
                    i + 1,
                    n as int,
                ));
            }
            i += 1;
        }
        if i >= n {
            proof {
                assert(split_words_from(s@, i as int) =~= Seq::<Seq<char>>::empty());
                assert(split_words(s@) =~= out.deep_view());
            }
            return out;
        }
        let b = i;
        let mut e = i;
        while e < n && !is_space_char(s.get_char(e))
            invariant
                n as nat == s@.len(),
                b <= e <= n,
                first_space_from(s@, b as int, n as int) == first_space_from(
                    s@,
                    e as int,
                    n as int,
                ),
            decreases n - e,
        {
            e += 1;
        }
        proof {
            assert(first_non_space_from(s@, i as int, n as int) == Some(b as int));
            assert(first_space_from(s@, e as int, n as int) == e as int);
            assert(first_space_from(s@, b as int, n as int) == first_space_from(
                s@,
                b as int + 1,
                n as int,
            ));
            lemma_first_space_from(s@, b as int + 1, n as int);
            assert(e > b);
        }
        let word = String::from_str(s.substring_char(b, e));
        let ghost old_out = out.deep_view();
        out.push(word);
        proof {
            assert(out.deep_view() =~= old_out.push(word@));
            assert(split_words_from(s@, i as int) == seq![s@.subrange(b as int, e as int)]
                + split_words_from(s@, e as int));
            assert(split_words(s@) =~= out.deep_view() + split_words_from(s@, e as int));
        }
        i = e;
    }
}

/// The decimal digit character for `d` (meaningful for `d < 10`).
pub open spec fn digit_char(d: nat) -> char {
    if d == 0 {
        '0'
    } else if d == 1 {
        '1'
    } else if d == 2 {
        '2'
    } else if d == 3 {
        '3'
    } else if d == 4 {
        '4'
    } else if d == 5 {
        '5'
    } else if d == 6 {
        '6'
    } else if d == 7 {
        '7'
    } else if d == 8 {
        '8'
    } else if d == 9 {
        '9'
    } else {
        '0'
    }
}

/// The usual decimal rendering of `n`: no sign, no leading zeros
/// (except for `n == 0` itself).
pub open spec fn dec_repr(n: nat) -> Seq<char>
    decreases n,
{
    if n < 10 {
        seq![digit_char(n)]
    } else {
        dec_repr(n / 10).push(digit_char(n % 10))
    }
}

pub open spec fn is_digit(c: char) -> bool {
    '0' <= c && c <= '9'
}

pub open spec fn all_digits(s: Seq<char>) -> bool {
    forall|i: int| 0 <= i < s.len() ==> is_digit(#[trigger] s[i])
}

/// Numeric value of a digit character (10 for a non-digit).
pub open spec fn digit_val(c: char) -> nat {
    if c == '0' {
        0
    } else if c == '1' {
        1
    } else if c == '2' {
        2
    } else if c == '3' {
        3
    } else if c == '4' {
        4
    } else if c == '5' {
        5
    } else if c == '6' {
        6
    } else if c == '7' {
        7
    } else if c == '8' {
        8
    } else if c == '9' {
        9
    } else {
        10
    }
}

/// The number a digit string denotes, most significant digit first.
pub open spec fn dec_value(s: Seq<char>) -> nat
    decreases s.len(),
{
    if s.len() == 0 {
        0
    } else {
        dec_value(s.drop_last()) * 10 + digit_val(s.last())
    }
}

/// A decimal rendering consists of digits and denotes the number it
/// was made from.
pub proof fn lemma_dec_repr(n: nat)
    ensures
        dec_repr(n).len() >= 1,
        all_digits(dec_repr(n)),
        dec_value(dec_repr(n)) == n,
    decreases n,
{
    if n < 10 {
        assert(dec_repr(n) =~= seq![digit_char(n)]);
        assert(dec_repr(n).drop_last() =~= Seq::<char>::empty());
        assert(dec_repr(n).last() == digit_char(n));
        assert(digit_val(digit_char(n)) == n);
        assert(dec_value(dec_repr(n)) == dec_value(Seq::<char>::empty()) * 10 + n);
    } else {
        lemma_dec_repr(n / 10);
        let s = dec_repr(n / 10).push(digit_char(n % 10));
        assert(s.drop_last() =~= dec_repr(n / 10));
        assert(s.last() == digit_char(n % 10));
        assert(forall|i: int| 0 <= i < s.len() ==> is_digit(#[trigger] s[i])) by {
            assert(forall|i: int| 0 <= i < s.len() - 1 ==> s[i] == dec_repr(n / 10)[i]);
        }
    }
}

/// Two distinct numbers have distinct decimal renderings.
pub proof fn lemma_dec_repr_injective(m: nat, n: nat)
    requires
        m != n,
    ensures
        dec_repr(m) != dec_repr(n),
{
    lemma_dec_repr(m);
    lemma_dec_repr(n);
}

/// A prefix of a digit-valued string never denotes more than the whole.
pub proof fn lemma_dec_value_take(s: Seq<char>, i: int)
    requires
        0 <= i <= s.len(),
    ensures
        dec_value(s.take(i)) <= dec_value(s),
    decreases s.len() - i,
{
    if i < s.len() {
        assert(s.take(i + 1).drop_last() =~= s.take(i));
        assert(s.take(i + 1).last() == s[i]);
        lemma_dec_value_take(s, i + 1);
    } else {
        assert(s.take(i) =~= s);
    }
}

fn digit_of(d: usize) -> (c: char)
    requires
        d < 10,
    ensures
        c == digit_char(d as nat),
{
    if d == 0 {
        '0'
    } else if d == 1 {
        '1'
    } else if d == 2 {
        '2'
    } else if d == 3 {
        '3'
    } else if d == 4 {
        '4'
    } else if d == 5 {
        '5'
    } else if d == 6 {
        '6'
    } else if d == 7 {
        '7'
    } else if d == 8 {
        '8'
    } else {
        '9'
    }
}

/// Renders `n` in decimal.
pub fn to_decimal(n: usize) -> (r: String)
    ensures
        r@ == dec_repr(n as nat),
    decreases n,
{
    if n < 10 {
        let mut s = String::new();
        push_char(&mut s, digit_of(n));
        proof {
            assert(s@ =~= seq![digit_char(n as nat)]);
        }
        s
    } else {
        let mut s = to_decimal(n / 10);
        push_char(&mut s, digit_of(n % 10));
        s
    }
}

fn digit_val_of(c: char) -> (d: u32)
    requires
        is_digit(c),
    ensures
        d as nat == digit_val(c),
        d < 10,
{
    if c == '0' {
        0
    } else if c == '1' {
        1
    } else if c == '2' {
        2
    } else if c == '3' {
        3
    } else if c == '4' {
        4
    } else if c == '5' {
        5
    } else if c == '6' {
        6
    } else if c == '7' {
        7
    } else if c == '8' {
        8
    } else {
        9
    }
}

fn is_digit_char(c: char) -> (r: bool)
    ensures
        r == is_digit(c),
{
    '0' <= c && c <= '9'
}

/// Reads `s` as an unsigned decimal number that fits in 16 bits.
/// Returns `None` when `s` is empty, holds a non-digit, or denotes a
/// number above `u16::MAX`.
pub fn parse_u16(s: &str) -> (r: Option<u16>)
    ensures
        match r {
            Some(v) => s@.len() > 0 && all_digits(s@) && v as nat == dec_value(s@),
            None => s@.len() == 0 || !all_digits(s@) || dec_value(s@) > u16::MAX,
        },
{
    let n = s.unicode_len();
    if n == 0 {
        return None;
    }
    let mut acc: u32 = 0;
    let mut i: usize = 0;
    while i < n
        invariant
            n as nat == s@.len(),
            i <= n,
            all_digits(s@.take(i as int)),
            acc as nat == dec_value(s@.take(i as int)),
            acc <= u16::MAX,
        decreases n - i,
    {
        let c = s.get_char(i);
        if !is_digit_char(c) {
            assert(!all_digits(s@));
            return None;
        }
        let d = digit_val_of(c);
        acc = acc * 10 + d;
        proof {
            assert(s@.take(i + 1).drop_last() =~= s@.take(i as int));
            assert(s@.take(i + 1).last() == s@[i as int]);
            assert(all_digits(s@.take(i + 1))) by {
                assert(forall|k: int|
                    0 <= k < i + 1 ==> is_digit(#[trigger] s@.take(i + 1)[k])) by {
                    assert(forall|k: int| 0 <= k < i ==> s@.take(i + 1)[k] == s@.take(i as int)[k]);
                }
            }
        }
        if acc > u16::MAX as u32 {
            proof {
                lemma_dec_value_take(s@, i + 1);
            }
            return None;
        }
        i += 1;
    }
    proof {
        assert(s@.take(n as int) =~= s@);
    }
    Some(acc as u16)
}

/// Reads `s` as an unsigned decimal number that fits in 32 bits.
/// Returns `None` when `s` is empty, holds a non-digit, or denotes a
/// number above `u32::MAX`.
pub fn parse_u32(s: &str) -> (r: Option<u32>)
    ensures
        match r {
            Some(v) => s@.len() > 0 && all_digits(s@) && v as nat == dec_value(s@),
            None => s@.len() == 0 || !all_digits(s@) || dec_value(s@) > u32::MAX,
        },
{
    let n = s.unicode_len();
    if n == 0 {
        return None;
    }
    let mut acc: u64 = 0;
    let mut i: usize = 0;
    while i < n
        invariant
            n as nat == s@.len(),
            i <= n,
            all_digits(s@.take(i as int)),
            acc as nat == dec_value(s@.take(i as int)),
            acc <= u32::MAX,
        decreases n - i,
    {
        let c = s.get_char(i);
        if !is_digit_char(c) {
            assert(!all_digits(s@));
            return None;
        }
        let d = digit_val_of(c);
        acc = acc * 10 + d as u64;
        proof {
            assert(s@.take(i + 1).drop_last() =~= s@.take(i as int));
            assert(s@.take(i + 1).last() == s@[i as int]);
            assert(all_digits(s@.take(i + 1))) by {
                assert(forall|k: int|
                    0 <= k < i + 1 ==> is_digit(#[trigger] s@.take(i + 1)[k])) by {
                    assert(forall|k: int| 0 <= k < i ==> s@.take(i + 1)[k] == s@.take(i as int)[k]);
                }
            }
        }
        if acc > u32::MAX as u64 {
            proof {
                lemma_dec_value_take(s@, i + 1);
            }
            return None;
        }
        i += 1;
    }
    proof {
        assert(s@.take(n as int) =~= s@);
    }
    Some(acc as u32)
}

} // verus!

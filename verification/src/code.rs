//! The instruction encoder: fixed mappings from dest/comp/jump mnemonics
//! to their bit patterns.  All three functions are total; an unrecognized
//! mnemonic yields the null code, and callers that need to reject such
//! input check validity first (see the assembler driver).

use vstd::prelude::*;

use crate::text::has_char;
use crate::text::str_eq;
use crate::text::str_has_char;

verus! {

/// The 3-bit destination code: one bit each for A, D and M.
pub open spec fn spec_dest(m: Seq<char>) -> u8 {
    if m == "M"@ {
        0b001
    } else if m == "D"@ {
        0b010
    } else if m == "MD"@ {
        0b011
    } else if m == "A"@ {
        0b100
    } else if m == "AM"@ {
        0b101
    } else if m == "AD"@ {
        0b110
    } else if m == "AMD"@ {
        0b111
    } else {
        0b000
    }
}

/// The 3-bit jump-condition code; `000` means no jump.
pub open spec fn spec_jump(m: Seq<char>) -> i8 {
    if m == "JGT"@ {
        0b001
    } else if m == "JEQ"@ {
        0b010
    } else if m == "JGE"@ {
        0b011
    } else if m == "JLT"@ {
        0b100
    } else if m == "JNE"@ {
        0b101
    } else if m == "JLE"@ {
        0b110
    } else if m == "JMP"@ {
        0b111
    } else {
        0b000
    }
}

/// The 6-bit ALU control code.  The A-form and M-form of an expression
/// share one code: whether the A register or the memory word is read is
/// a separate instruction bit that the encoder does not set.
pub open spec fn spec_comp(m: Seq<char>) -> i8 {
    if m == "0"@ {
        0b101010
    } else if m == "1"@ {
        0b111111
    } else if m == "-1"@ {
        0b111010
    } else if m == "D"@ {
        0b001100
    } else if m == "A"@ || m == "M"@ {
        0b110000
    } else if m == "!D"@ {
        0b001101
    } else if m == "!A"@ || m == "!M"@ {
        0b110001
    } else if m == "-D"@ {
        0b001111
    } else if m == "-A"@ || m == "-M"@ {
        0b110011
    } else if m == "D+1"@ {
        0b011111
    } else if m == "A+1"@ || m == "M+1"@ {
        0b110111
    } else if m == "D-1"@ {
        0b001110
    } else if m == "A-1"@ || m == "M-1"@ {
        0b110010
    } else if m == "D+A"@ || m == "D+M"@ {
        0b000010
    } else if m == "D-A"@ || m == "D-M"@ {
        0b010011
    } else if m == "A-D"@ || m == "M-D"@ {
        0b000111
    } else if m == "D&A"@ || m == "D&M"@ {
        0b000000
    } else if m == "D|A"@ || m == "D|M"@ {
        0b010101
    } else {
        0
    }
}

/// The 8 legal destination fields (including the absent one, "null").
pub open spec fn valid_dest(m: Seq<char>) -> bool {
    ||| m == "null"@
    ||| m == "M"@
    ||| m == "D"@
    ||| m == "MD"@
    ||| m == "A"@
    ||| m == "AM"@
    ||| m == "AD"@
    ||| m == "AMD"@
}

/// The 8 legal jump fields (including the absent one, "null").
pub open spec fn valid_jump(m: Seq<char>) -> bool {
    ||| m == "null"@
    ||| m == "JGT"@
    ||| m == "JEQ"@
    ||| m == "JGE"@
    ||| m == "JLT"@
    ||| m == "JNE"@
    ||| m == "JLE"@
    ||| m == "JMP"@
}

/// The legal compute expressions, in both their A-form and M-form.
pub open spec fn valid_comp(m: Seq<char>) -> bool {
    ||| m == "0"@
    ||| m == "1"@
    ||| m == "-1"@
    ||| m == "D"@
    ||| m == "A"@
    ||| m == "M"@
    ||| m == "!D"@
    ||| m == "!A"@
    ||| m == "!M"@
    ||| m == "-D"@
    ||| m == "-A"@
    ||| m == "-M"@
    ||| m == "D+1"@
    ||| m == "A+1"@
    ||| m == "M+1"@
    ||| m == "D-1"@
    ||| m == "A-1"@
    ||| m == "M-1"@
    ||| m == "D+A"@
    ||| m == "D+M"@
    ||| m == "D-A"@
    ||| m == "D-M"@
    ||| m == "A-D"@
    ||| m == "M-D"@
    ||| m == "D&A"@
    ||| m == "D&M"@
    ||| m == "D|A"@
    ||| m == "D|M"@
}

/// Encodes a destination mnemonic; anything unrecognized (including
/// "null" and the empty string) gets the null code `000`.
pub fn dest(mnemonic: &str) -> (r: u8)
    ensures
        r == spec_dest(mnemonic@),
        r < 8,
{
    if str_eq(mnemonic, "M") {
        0b001
    } else if str_eq(mnemonic, "D") {
        0b010
    } else if str_eq(mnemonic, "MD") {
        0b011
    } else if str_eq(mnemonic, "A") {
        0b100
    } else if str_eq(mnemonic, "AM") {
        0b101
    } else if str_eq(mnemonic, "AD") {
        0b110
    } else if str_eq(mnemonic, "AMD") {
        0b111
    } else {
        0b000
    }
}

/// Encodes a jump mnemonic; anything unrecognized (including "null")
/// gets the no-jump code `000`.
pub fn jump(mnemonic: &str) -> (r: i8)
    ensures
        r == spec_jump(mnemonic@),
        0 <= r < 8,
{
    if str_eq(mnemonic, "JGT") {
        0b001
    } else if str_eq(mnemonic, "JEQ") {
        0b010
    } else if str_eq(mnemonic, "JGE") {
        0b011
    } else if str_eq(mnemonic, "JLT") {
        0b100
    } else if str_eq(mnemonic, "JNE") {
        0b101
    } else if str_eq(mnemonic, "JLE") {
        0b110
    } else if str_eq(mnemonic, "JMP") {
        0b111
    } else {
        0b000
    }
}

/// Encodes a compute mnemonic; the A-form and M-form of an expression
/// yield the same code, and anything unrecognized yields 0.
pub fn comp(mnemonic: &str) -> (r: i8)
    ensures
        r == spec_comp(mnemonic@),
        0 <= r < 64,
{
    if str_eq(mnemonic, "0") {
        0b101010
    } else if str_eq(mnemonic, "1") {
        0b111111
    } else if str_eq(mnemonic, "-1") {
        0b111010
    } else if str_eq(mnemonic, "D") {
        0b001100
    } else if str_eq(mnemonic, "A") || str_eq(mnemonic, "M") {
        0b110000
    } else if str_eq(mnemonic, "!D") {
        0b001101
    } else if str_eq(mnemonic, "!A") || str_eq(mnemonic, "!M") {
        0b110001
    } else if str_eq(mnemonic, "-D") {
        0b001111
    } else if str_eq(mnemonic, "-A") || str_eq(mnemonic, "-M") {
        0b110011
    } else if str_eq(mnemonic, "D+1") {
        0b011111
    } else if str_eq(mnemonic, "A+1") || str_eq(mnemonic, "M+1") {
        0b110111
    } else if str_eq(mnemonic, "D-1") {
        0b001110
    } else if str_eq(mnemonic, "A-1") || str_eq(mnemonic, "M-1") {
        0b110010
    } else if str_eq(mnemonic, "D+A") || str_eq(mnemonic, "D+M") {
        0b000010
    } else if str_eq(mnemonic, "D-A") || str_eq(mnemonic, "D-M") {
        0b010011
    } else if str_eq(mnemonic, "A-D") || str_eq(mnemonic, "M-D") {
        0b000111
    } else if str_eq(mnemonic, "D&A") || str_eq(mnemonic, "D&M") {
        0b000000
    } else if str_eq(mnemonic, "D|A") || str_eq(mnemonic, "D|M") {
        0b010101
    } else {
        0
    }
}

/// Checks a destination field against the 8 legal forms.
pub fn is_valid_dest(mnemonic: &str) -> (r: bool)
    ensures
        r == valid_dest(mnemonic@),
{
    str_eq(mnemonic, "null") || str_eq(mnemonic, "M") || str_eq(mnemonic, "D") || str_eq(
        mnemonic,
        "MD",
    ) || str_eq(mnemonic, "A") || str_eq(mnemonic, "AM") || str_eq(mnemonic, "AD") || str_eq(
        mnemonic,
        "AMD",
    )
}

/// Checks a jump field against the 8 legal forms.
pub fn is_valid_jump(mnemonic: &str) -> (r: bool)
    ensures
        r == valid_jump(mnemonic@),
{
    str_eq(mnemonic, "null") || str_eq(mnemonic, "JGT") || str_eq(mnemonic, "JEQ") || str_eq(
        mnemonic,
        "JGE",
    ) || str_eq(mnemonic, "JLT") || str_eq(mnemonic, "JNE") || str_eq(mnemonic, "JLE") || str_eq(
        mnemonic,
        "JMP",
    )
}

/// Checks a compute field against the legal expressions.
pub fn is_valid_comp(mnemonic: &str) -> (r: bool)
    ensures
        r == valid_comp(mnemonic@),
{
    str_eq(mnemonic, "0") || str_eq(mnemonic, "1") || str_eq(mnemonic, "-1") || str_eq(
        mnemonic,
        "D",
    ) || str_eq(mnemonic, "A") || str_eq(mnemonic, "M") || str_eq(mnemonic, "!D") || str_eq(
        mnemonic,
        "!A",
    ) || str_eq(mnemonic, "!M") || str_eq(mnemonic, "-D") || str_eq(mnemonic, "-A") || str_eq(
        mnemonic,
        "-M",
    ) || str_eq(mnemonic, "D+1") || str_eq(mnemonic, "A+1") || str_eq(mnemonic, "M+1") || str_eq(
        mnemonic,
        "D-1",
    ) || str_eq(mnemonic, "A-1") || str_eq(mnemonic, "M-1") || str_eq(mnemonic, "D+A") || str_eq(
        mnemonic,
        "D+M",
    ) || str_eq(mnemonic, "D-A") || str_eq(mnemonic, "D-M") || str_eq(mnemonic, "A-D") || str_eq(
        mnemonic,
        "M-D",
    ) || str_eq(mnemonic, "D&A") || str_eq(mnemonic, "D&M") || str_eq(mnemonic, "D|A") || str_eq(
        mnemonic,
        "D|M",
    )
}

/// Whether a compute mnemonic reads the memory word rather than the A
/// register: exactly when the letter `M` occurs in it.
pub open spec fn comp_reads_memory(m: Seq<char>) -> bool {
    has_char(m, 'M')
}

/// Checks whether a compute mnemonic is an M-form (reads memory).
pub fn comp_uses_memory(mnemonic: &str) -> (r: bool)
    ensures
        r == comp_reads_memory(mnemonic@),
{
    str_has_char(mnemonic, 'M')
}

} // verus!

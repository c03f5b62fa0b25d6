use hack_toolchain::code::comp;
use hack_toolchain::code::dest;
use hack_toolchain::code::is_valid_comp;
use hack_toolchain::code::is_valid_dest;
use hack_toolchain::code::is_valid_jump;
use hack_toolchain::code::jump;

#[test]
fn dest_unrecognized_and_null_encode_to_zero() {
    assert_eq!(dest(""), 0b000);
    assert_eq!(dest("bogus"), 0b000);
    assert_eq!(dest("null"), 0b000);
}

#[test]
fn dest_full_set_encodes_all_ones() {
    assert_eq!(dest("AMD"), 0b111);
}

#[test]
fn dest_single_targets() {
    assert_eq!(dest("M"), 0b001);
    assert_eq!(dest("D"), 0b010);
    assert_eq!(dest("MD"), 0b011);
    assert_eq!(dest("A"), 0b100);
    assert_eq!(dest("AM"), 0b101);
    assert_eq!(dest("AD"), 0b110);
}

#[test]
fn comp_a_form_and_m_form_share_codes() {
    assert_eq!(comp("A"), comp("M"));
    assert_eq!(comp("!A"), comp("!M"));
    assert_eq!(comp("-A"), comp("-M"));
    assert_eq!(comp("A+1"), comp("M+1"));
    assert_eq!(comp("A-1"), comp("M-1"));
    assert_eq!(comp("D+A"), comp("D+M"));
    assert_eq!(comp("D-A"), comp("D-M"));
    assert_eq!(comp("A-D"), comp("M-D"));
    assert_eq!(comp("D&A"), comp("D&M"));
    assert_eq!(comp("D|A"), comp("D|M"));
}

#[test]
fn comp_fixed_codes() {
    assert_eq!(comp("0"), 0b101010);
    assert_eq!(comp("1"), 0b111111);
    assert_eq!(comp("-1"), 0b111010);
    assert_eq!(comp("D"), 0b001100);
    assert_eq!(comp("A"), 0b110000);
    assert_eq!(comp("!D"), 0b001101);
    assert_eq!(comp("D+1"), 0b011111);
    assert_eq!(comp("D-1"), 0b001110);
    assert_eq!(comp("D+A"), 0b000010);
    assert_eq!(comp("D-A"), 0b010011);
    assert_eq!(comp("A-D"), 0b000111);
    assert_eq!(comp("D&A"), 0b000000);
    assert_eq!(comp("D|A"), 0b010101);
    assert_eq!(comp("garbage"), 0);
}

#[test]
fn jump_fixed_codes() {
    assert_eq!(jump("JGT"), 0b001);
    assert_eq!(jump("JEQ"), 0b010);
    assert_eq!(jump("JGE"), 0b011);
    assert_eq!(jump("JLT"), 0b100);
    assert_eq!(jump("JNE"), 0b101);
    assert_eq!(jump("JLE"), 0b110);
    assert_eq!(jump("JMP"), 0b111);
    assert_eq!(jump("null"), 0b000);
    assert_eq!(jump(""), 0b000);
}

#[test]
fn validity_checks_accept_exactly_the_legal_fields() {
    assert!(is_valid_dest("null"));
    assert!(is_valid_dest("AMD"));
    assert!(!is_valid_dest(""));
    assert!(!is_valid_dest("X"));
    assert!(is_valid_comp("D+M"));
    assert!(is_valid_comp("0"));
    assert!(!is_valid_comp(""));
    assert!(!is_valid_comp("M+D"));
    assert!(is_valid_jump("null"));
    assert!(is_valid_jump("JNE"));
    assert!(!is_valid_jump("JXX"));
}

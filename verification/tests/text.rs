use lelwel::backend::rust::RustOutput;
use lelwel::backend::text::{indent, push_decimal, trim};

#[test]
fn indent_prefixes_each_line() {
    assert_eq!(indent("a\nb\n", 1), "    a\n    b\n");
    assert_eq!(indent("a\nb", 2), "        a\n        b");
}

#[test]
fn indent_drops_empty_lines() {
    assert_eq!(indent("a\n\n\nb\n", 1), "    a\n    b\n");
    assert_eq!(indent("\n", 3), "");
    assert_eq!(indent("", 3), "");
}

#[test]
fn indent_takes_carriage_return_with_line_feed() {
    assert_eq!(indent("a\r\nb\r\n", 1), "    a\n    b\n");
    assert_eq!(indent("a\rb", 1), "    a\rb");
}

#[test]
fn trim_removes_white_space_at_both_ends() {
    assert_eq!(trim("  a b \t\n"), "a b");
    assert_eq!(trim("\u{3000}x\u{85}"), "x");
    assert_eq!(trim("   "), "");
}

#[test]
fn par_to_arg_keeps_the_names() {
    assert_eq!(RustOutput::par_to_arg("a: u32, b: &str"), "a, b");
    assert_eq!(RustOutput::par_to_arg("diag: &mut Diag"), "diag");
    assert_eq!(RustOutput::par_to_arg("no colon here"), "");
    assert_eq!(RustOutput::par_to_arg(""), "");
}

#[test]
fn indent_keeps_the_white_space_inside_a_line() {
    assert_eq!(indent("  a  \n\tb\n", 1), "      a  \n    \tb\n");
    assert_eq!(indent("   \n", 1), "       \n");
}

#[test]
fn indent_at_level_zero_only_drops_empty_lines() {
    assert_eq!(indent("a\n\nb", 0), "a\nb");
}

#[test]
fn indent_ends_in_a_line_feed_only_if_the_text_does() {
    assert_eq!(indent("a\n\n", 1), "    a\n");
    assert_eq!(indent("a\n ", 1), "    a\n     ");
    assert_eq!(indent("\n\na", 1), "    a");
}

#[test]
fn trim_keeps_the_white_space_inside() {
    assert_eq!(trim("\r\n a \u{a0} b \u{2003}"), "a \u{a0} b");
    assert_eq!(trim("\u{1c}a"), "\u{1c}a");
    assert_eq!(trim(""), "");
}

#[test]
fn par_to_arg_takes_what_stands_after_the_last_comma() {
    assert_eq!(RustOutput::par_to_arg("a: Vec<(u8, u8)>, b: u8"), "a, b");
    assert_eq!(RustOutput::par_to_arg("x:y:z"), "x,y");
    assert_eq!(RustOutput::par_to_arg(":"), "");
    assert_eq!(RustOutput::par_to_arg("a: u8, : u8"), "a, ");
    assert_eq!(RustOutput::par_to_arg("self_: &'a mut T"), "self_");
}

#[test]
fn decimal_numerals_have_no_leading_zeros() {
    let mut out = String::from("n=");
    push_decimal(&mut out, 0);
    out.push(' ');
    push_decimal(&mut out, 7);
    out.push(' ');
    push_decimal(&mut out, 10);
    out.push(' ');
    push_decimal(&mut out, 1203);
    out.push(' ');
    push_decimal(&mut out, u64::MAX);
    assert_eq!(out, "n=0 7 10 1203 18446744073709551615");
}

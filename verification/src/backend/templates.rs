//! The pieces of code that rule bodies are put together from. Each is given
//! as the text it stands for, and as a function that writes that text.

use crate::backend::text::{decimal, indent, indented, push_decimal};
use vstd::prelude::*;

verus! {

/// The call of the rule `name` one level deeper, with the shared arguments
/// and then its own.
pub open spec fn rule_call_text(name: Seq<char>, common_args: Seq<char>, args: Seq<char>, level: nat) -> Seq<char> {
    indented(
        "let r#"@ + name + " = Self::r#"@ + name + "(depth + 1, input"@ + common_args + args + ")?;\n"@,
        level,
    )
}

/// Writes [`rule_call_text`].
pub(crate) fn rule_call(name: &str, common_args: &str, args: &str, level: usize) -> (r: String)
    ensures
        r@ == rule_call_text(name@, common_args@, args@, level as nat),
{
    let mut s = String::from_str("let r#");
    s.append(name);
    s.append(" = Self::r#");
    s.append(name);
    s.append("(depth + 1, input");
    s.append(common_args);
    s.append(args);
    s.append(")?;\n");
    indent(s.as_str(), level)
}

/// The statement that takes one token of the kind `name`, or fails expecting
/// it.
pub open spec fn token_consume_text(name: Seq<char>, level: nat) -> Seq<char> {
    indented(
        "let r#"@ + name + " = consume_"@ + name + "!(input);\n"@,
        level,
    )
}

/// Writes [`token_consume_text`].
pub(crate) fn token_consume(name: &str, level: usize) -> (r: String)
    ensures
        r@ == token_consume_text(name@, level as nat),
{
    let mut s = String::from_str("let r#");
    s.append(name);
    s.append(" = consume_");
    s.append(name);
    s.append("!(input);\n");
    indent(s.as_str(), level)
}

/// The opening of a sequence whose failure is caught.
pub open spec fn boundary_open_text(level: nat) -> Seq<char> {
    indented(
        "(|| {\n"@,
        level,
    )
}

/// Writes [`boundary_open_text`].
pub(crate) fn boundary_open(level: usize) -> (r: String)
    ensures
        r@ == boundary_open_text(level as nat),
{
    let s = String::from_str("(|| {\n");
    indent(s.as_str(), level)
}

/// The end of a caught sequence: it succeeds if the current token matches
/// `pat`, and else fails expecting `expected`.
pub open spec fn follow_check_text(pat: Seq<char>, expected: Seq<char>, level: nat) -> Seq<char> {
    indented(
        "match input.current().kind {\n    "@ + pat + " => {\n        Ok(())\n    }\n    _ => {\n        return err!["@ + expected + "]\n    }\n}\n"@,
        level,
    )
}

/// Writes [`follow_check_text`].
pub(crate) fn follow_check(pat: &str, expected: &str, level: usize) -> (r: String)
    ensures
        r@ == follow_check_text(pat@, expected@, level as nat),
{
    let mut s = String::from_str("match input.current().kind {\n    ");
    s.append(pat);
    s.append(" => {\n        Ok(())\n    }\n    _ => {\n        return err![");
    s.append(expected);
    s.append("]\n    }\n}\n");
    indent(s.as_str(), level)
}

/// The opening of a dispatch on the current token.
pub open spec fn match_open_text(level: nat) -> Seq<char> {
    indented(
        "match input.current().kind {\n"@,
        level,
    )
}

/// Writes [`match_open_text`].
pub(crate) fn match_open(level: usize) -> (r: String)
    ensures
        r@ == match_open_text(level as nat),
{
    let s = String::from_str("match input.current().kind {\n");
    indent(s.as_str(), level)
}

/// The opening of the branch taken on `pat`, under the condition `pred` if
/// there is one.
pub open spec fn arm_open_text(pat: Seq<char>, pred: Seq<char>, level: nat) -> Seq<char> {
    indented(
        pat + pred + " => {\n"@,
        level,
    )
}

/// Writes [`arm_open_text`].
pub(crate) fn arm_open(pat: &str, pred: &str, level: usize) -> (r: String)
    ensures
        r@ == arm_open_text(pat@, pred@, level as nat),
{
    let mut s = String::from_str(pat);
    s.append(pred);
    s.append(" => {\n");
    indent(s.as_str(), level)
}

/// The value of a branch inside a caught dispatch.
pub open spec fn arm_ok_text(level: nat) -> Seq<char> {
    indented(
        "Ok(())\n"@,
        level,
    )
}

/// Writes [`arm_ok_text`].
pub(crate) fn arm_ok(level: usize) -> (r: String)
    ensures
        r@ == arm_ok_text(level as nat),
{
    let s = String::from_str("Ok(())\n");
    indent(s.as_str(), level)
}

/// The end of a branch.
pub open spec fn arm_close_text(level: nat) -> Seq<char> {
    indented(
        "}\n"@,
        level,
    )
}

/// Writes [`arm_close_text`].
pub(crate) fn arm_close(level: usize) -> (r: String)
    ensures
        r@ == arm_close_text(level as nat),
{
    let s = String::from_str("}\n");
    indent(s.as_str(), level)
}

/// The last branch of a dispatch, which fails expecting `expected`, and the
/// end of the dispatch.
pub open spec fn match_default_text(expected: Seq<char>, level: nat) -> Seq<char> {
    indented(
        "    _ => {\n        return err!["@ + expected + "]\n    }\n}\n"@,
        level,
    )
}

/// Writes [`match_default_text`].
pub(crate) fn match_default(expected: &str, level: usize) -> (r: String)
    ensures
        r@ == match_default_text(expected@, level as nat),
{
    let mut s = String::from_str("    _ => {\n        return err![");
    s.append(expected);
    s.append("]\n    }\n}\n");
    indent(s.as_str(), level)
}

/// The opening of a repetition: the loop, and the branch that runs the
/// operand on `pat`.
pub open spec fn star_open_text(pat: Seq<char>, pred: Seq<char>, level: nat) -> Seq<char> {
    indented(
        "loop {\n    match input.current().kind {\n        "@ + pat + pred + " => {\n"@,
        level,
    )
}

/// Writes [`star_open_text`].
pub(crate) fn star_open(pat: &str, pred: &str, level: usize) -> (r: String)
    ensures
        r@ == star_open_text(pat@, pred@, level as nat),
{
    let mut s = String::from_str("loop {\n    match input.current().kind {\n        ");
    s.append(pat);
    s.append(pred);
    s.append(" => {\n");
    indent(s.as_str(), level)
}

/// The rest of a repetition: it ends on `follow_pat`, and fails expecting
/// `expected` on anything else.
pub open spec fn star_close_text(follow_pat: Seq<char>, expected: Seq<char>, level: nat) -> Seq<char> {
    indented(
        "        }\n        "@ + follow_pat + " => break,\n        _ => {\n            return err!["@ + expected + "]\n        }\n    }\n}\n"@,
        level,
    )
}

/// Writes [`star_close_text`].
pub(crate) fn star_close(follow_pat: &str, expected: &str, level: usize) -> (r: String)
    ensures
        r@ == star_close_text(follow_pat@, expected@, level as nat),
{
    let mut s = String::from_str("        }\n        ");
    s.append(follow_pat);
    s.append(" => break,\n        _ => {\n            return err![");
    s.append(expected);
    s.append("]\n        }\n    }\n}\n");
    indent(s.as_str(), level)
}

/// The opening of a repetition that runs at least once.
pub open spec fn plus_open_text(pat: Seq<char>, pred: Seq<char>, level: nat) -> Seq<char> {
    indented(
        "let mut is_first = true;\nloop {\n    match input.current().kind {\n        "@ + pat + pred + " => {\n"@,
        level,
    )
}

/// Writes [`plus_open_text`].
pub(crate) fn plus_open(pat: &str, pred: &str, level: usize) -> (r: String)
    ensures
        r@ == plus_open_text(pat@, pred@, level as nat),
{
    let mut s = String::from_str("let mut is_first = true;\nloop {\n    match input.current().kind {\n        ");
    s.append(pat);
    s.append(pred);
    s.append(" => {\n");
    indent(s.as_str(), level)
}

/// The rest of a repetition that runs at least once: after the first round it
/// ends on `follow_pat`; it fails expecting `first` in the first round, and
/// `first` and `follow` in a later one.
pub open spec fn plus_close_text(follow_pat: Seq<char>, first: Seq<char>, follow: Seq<char>, level: nat) -> Seq<char> {
    indented(
        "        }\n        "@ + follow_pat + " if !is_first => break,\n        _ if is_first => {\n            return err!["@ + first + "]\n        }\n        _ => {\n            return err!["@ + first + ",\n                        "@ + follow + "]\n        }\n    }\n    is_first = false;\n}\n"@,
        level,
    )
}

/// Writes [`plus_close_text`].
pub(crate) fn plus_close(follow_pat: &str, first: &str, follow: &str, level: usize) -> (r: String)
    ensures
        r@ == plus_close_text(follow_pat@, first@, follow@, level as nat),
{
    let mut s = String::from_str("        }\n        ");
    s.append(follow_pat);
    s.append(" if !is_first => break,\n        _ if is_first => {\n            return err![");
    s.append(first);
    s.append("]\n        }\n        _ => {\n            return err![");
    s.append(first);
    s.append(",\n                        ");
    s.append(follow);
    s.append("]\n        }\n    }\n    is_first = false;\n}\n");
    indent(s.as_str(), level)
}

/// The opening of an optional part, after `binding`, and the branch that runs
/// the operand on `pat`.
pub open spec fn option_open_text(binding: Seq<char>, pat: Seq<char>, pred: Seq<char>, level: nat) -> Seq<char> {
    indented(
        binding + "match input.current().kind {\n    "@ + pat + pred + " => {\n"@,
        level,
    )
}

/// Writes [`option_open_text`].
pub(crate) fn option_open(binding: &str, pat: &str, pred: &str, level: usize) -> (r: String)
    ensures
        r@ == option_open_text(binding@, pat@, pred@, level as nat),
{
    let mut s = String::from_str(binding);
    s.append("match input.current().kind {\n    ");
    s.append(pat);
    s.append(pred);
    s.append(" => {\n");
    indent(s.as_str(), level)
}

/// The start of the statement that binds the value of an optional part to
/// `name`.
pub open spec fn option_binding_text(name: Seq<char>) -> Seq<char> {
    "let r#"@ + name + " = "@
}

/// Writes [`option_binding_text`].
pub(crate) fn option_binding(name: &str) -> (r: String)
    ensures
        r@ == option_binding_text(name@),
{
    let mut s = String::from_str("let r#");
    s.append(name);
    s.append(" = ");
    s
}

/// The value of an optional part that is present.
pub open spec fn option_some_text(name: Seq<char>, level: nat) -> Seq<char> {
    indented(
        "Some("@ + name + ")\n"@,
        level,
    )
}

/// Writes [`option_some_text`].
pub(crate) fn option_some(name: &str, level: usize) -> (r: String)
    ensures
        r@ == option_some_text(name@, level as nat),
{
    let mut s = String::from_str("Some(");
    s.append(name);
    s.append(")\n");
    indent(s.as_str(), level)
}

/// The rest of an optional part: on `follow_pat` it is absent, and on
/// anything else it fails expecting `expected`. Where it is `named` it has a
/// value.
pub open spec fn option_close_text(follow_pat: Seq<char>, named: bool, expected: Seq<char>, level: nat) -> Seq<char> {
    indented(
        "    }\n    "@ + follow_pat + " => "@ + (if named { "None,"@ } else { "{}"@ }) + "\n    _ => {\n        return err!["@ + expected + "]\n    }\n}"@ + (if named { ";"@ } else { ""@ }) + "\n"@,
        level,
    )
}

/// Writes [`option_close_text`].
pub(crate) fn option_close(follow_pat: &str, named: bool, expected: &str, level: usize) -> (r: String)
    ensures
        r@ == option_close_text(follow_pat@, named, expected@, level as nat),
{
    let mut s = String::from_str("    }\n    ");
    s.append(follow_pat);
    s.append(" => ");
    s.append(if named { "None," } else { "{}" });
    s.append("\n    _ => {\n        return err![");
    s.append(expected);
    s.append("]\n    }\n}");
    s.append(if named { ";" } else { "" });
    s.append("\n");
    indent(s.as_str(), level)
}

/// What stands for a semantic action that has no code: it stops the parser
/// and names the action by its number `val` and its place.
pub open spec fn action_missing_text(val: u64, line: u64, column: u64) -> Seq<char> {
    "    todo!(\"semantic action "@ + decimal(val as nat) + " at "@ + decimal(line as nat) + ":"@ + decimal(column as nat) + "\");\n"@
}

/// Writes [`action_missing_text`].
pub(crate) fn action_missing(val: u64, line: u64, column: u64) -> (r: String)
    ensures
        r@ == action_missing_text(val, line, column),
{
    let mut s = String::from_str("    todo!(\"semantic action ");
    push_decimal(&mut s, val);
    s.append(" at ");
    push_decimal(&mut s, line);
    s.append(":");
    push_decimal(&mut s, column);
    s.append("\");\n");
    s
}

/// The semantic action with the number `val`: a comment, and its code.
pub open spec fn action_code_text(val: u64, code: Seq<char>, level: nat) -> Seq<char> {
    indented(
        "    // semantic action "@ + decimal(val as nat) + "\n"@ + code + "\n"@,
        level,
    )
}

/// Writes [`action_code_text`].
pub(crate) fn action_code(val: u64, code: &str, level: usize) -> (r: String)
    ensures
        r@ == action_code_text(val, code@, level as nat),
{
    let mut s = String::from_str("    // semantic action ");
    push_decimal(&mut s, val);
    s.append("\n");
    s.append(code);
    s.append("\n");
    indent(s.as_str(), level)
}

/// What stands for an error handler that has no code.
pub open spec fn handler_missing_text(val: u64, line: u64, column: u64) -> Seq<char> {
    "    todo!(\"error handler "@ + decimal(val as nat) + " at "@ + decimal(line as nat) + ":"@ + decimal(column as nat) + "\");\n"@
}

/// Writes [`handler_missing_text`].
pub(crate) fn handler_missing(val: u64, line: u64, column: u64) -> (r: String)
    ensures
        r@ == handler_missing_text(val, line, column),
{
    let mut s = String::from_str("    todo!(\"error handler ");
    push_decimal(&mut s, val);
    s.append(" at ");
    push_decimal(&mut s, line);
    s.append(":");
    push_decimal(&mut s, column);
    s.append("\");\n");
    s
}

/// The error handler with the number `val`: a comment, and its code.
pub open spec fn handler_code_text(val: u64, code: Seq<char>, level: nat) -> Seq<char> {
    indented(
        "    // error handler "@ + decimal(val as nat) + "\n"@ + code + "\n"@,
        level,
    )
}

/// Writes [`handler_code_text`].
pub(crate) fn handler_code(val: u64, code: &str, level: usize) -> (r: String)
    ensures
        r@ == handler_code_text(val, code@, level as nat),
{
    let mut s = String::from_str("    // error handler ");
    push_decimal(&mut s, val);
    s.append("\n");
    s.append(code);
    s.append("\n");
    indent(s.as_str(), level)
}

/// The opening of what follows a caught part: it takes the failure of the
/// part.
pub open spec fn recovery_open_text(level: nat) -> Seq<char> {
    indented(
        "})().or_else(|error_code| {\n    // error handling\n"@,
        level,
    )
}

/// Writes [`recovery_open_text`].
pub(crate) fn recovery_open(level: usize) -> (r: String)
    ensures
        r@ == recovery_open_text(level as nat),
{
    let s = String::from_str("})().or_else(|error_code| {\n    // error handling\n");
    indent(s.as_str(), level)
}

/// The first thing that is done with a failure: a fatal one is passed on as
/// it is, whatever the current token. Only a syntax error goes further.
pub open spec fn recovery_fatal_text(level: nat) -> Seq<char> {
    indented(
        "    if FATAL_FAILURE.with(|fatal| fatal.get()) {\n        return Err(error_code);\n    }\n"@,
        level,
    )
}

/// Writes [`recovery_fatal_text`].
pub(crate) fn recovery_fatal(level: usize) -> (r: String)
    ensures
        r@ == recovery_fatal_text(level as nat),
{
    let s = String::from_str("    if FATAL_FAILURE.with(|fatal| fatal.get()) {\n        return Err(error_code);\n    }\n");
    indent(s.as_str(), level)
}

/// The second thing that is done with a failure: at the end of input it is
/// passed on as it is.
pub open spec fn recovery_end_text(level: nat) -> Seq<char> {
    indented(
        "    if input.current().kind == TokenKind::EOF {\n        return Err(error_code);\n    }\n"@,
        level,
    )
}

/// Writes [`recovery_end_text`].
pub(crate) fn recovery_end(level: usize) -> (r: String)
    ensures
        r@ == recovery_end_text(level as nat),
{
    let s = String::from_str("    if input.current().kind == TokenKind::EOF {\n        return Err(error_code);\n    }\n");
    indent(s.as_str(), level)
}

/// The opening of recovery: tokens are inspected one by one, and on
/// `follow_pat` the handler runs.
pub open spec fn recovery_loop_text(follow_pat: Seq<char>, level: nat) -> Seq<char> {
    indented(
        "    let error_range = input.current().range;\n    loop {\n        match input.current().kind {\n            "@ + follow_pat + " => {\n"@,
        level,
    )
}

/// Writes [`recovery_loop_text`].
pub(crate) fn recovery_loop(follow_pat: &str, level: usize) -> (r: String)
    ensures
        r@ == recovery_loop_text(follow_pat@, level as nat),
{
    let mut s = String::from_str("    let error_range = input.current().range;\n    loop {\n        match input.current().kind {\n            ");
    s.append(follow_pat);
    s.append(" => {\n");
    indent(s.as_str(), level)
}

/// The end of the branch that runs the handler: the caught part has
/// succeeded.
pub open spec fn recovery_resume_text(level: nat) -> Seq<char> {
    indented(
        "                return Ok(())\n            }\n"@,
        level,
    )
}

/// Writes [`recovery_resume_text`].
pub(crate) fn recovery_resume(level: usize) -> (r: String)
    ensures
        r@ == recovery_resume_text(level as nat),
{
    let s = String::from_str("                return Ok(())\n            }\n");
    indent(s.as_str(), level)
}

/// The branch that gives recovery up on `cancel_pat` and passes the failure
/// on.
pub open spec fn recovery_cancel_text(cancel_pat: Seq<char>, level: nat) -> Seq<char> {
    indented(
        "            "@ + cancel_pat + " => {\n                return Err(error_code)\n            }\n"@,
        level,
    )
}

/// Writes [`recovery_cancel_text`].
pub(crate) fn recovery_cancel(cancel_pat: &str, level: usize) -> (r: String)
    ensures
        r@ == recovery_cancel_text(cancel_pat@, level as nat),
{
    let mut s = String::from_str("            ");
    s.append(cancel_pat);
    s.append(" => {\n                return Err(error_code)\n            }\n");
    indent(s.as_str(), level)
}

/// The branch that passes the failure on at the end of input, which is never
/// skipped; the branch that skips one token; and the end of recovery.
pub open spec fn recovery_close_text(level: nat) -> Seq<char> {
    indented(
        "            _ if input.current().kind == TokenKind::EOF => {\n                return Err(error_code)\n            }\n            _ => {\n                input.advance();\n            }\n       }\n   }\n})?;\n"@,
        level,
    )
}

/// Writes [`recovery_close_text`].
pub(crate) fn recovery_close(level: usize) -> (r: String)
    ensures
        r@ == recovery_close_text(level as nat),
{
    let s = String::from_str("            _ if input.current().kind == TokenKind::EOF => {\n                return Err(error_code)\n            }\n            _ => {\n                input.advance();\n            }\n       }\n   }\n})?;\n");
    indent(s.as_str(), level)
}

} // verus!

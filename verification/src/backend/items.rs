//! The declarations that a parser file holds beside its rules: the token
//! kinds, the patterns and values that stand for them, the error and depth
//! guard macros, and how tokens are shown.

use crate::backend::rust::RustOutput;
use crate::backend::text::{
    chars_of, decimal, line_ranges, lines, pieces, push_decimal, push_slice, trim, trim_range,
    trimmed,
};
use crate::frontend::ast::{element_at, get_element, Element, ElementKind, Module};
use vstd::prelude::*;

verus! {

/// The opening of the enumeration of token kinds; the end of input comes
/// first.
pub const TOKENS_OPEN: &'static str = "#[derive(PartialEq, Clone, Debug)]\npub enum TokenKind {\n    EOF,\n";

/// The end of the enumeration of token kinds.
pub const TOKENS_CLOSE: &'static str = "}\n\n";

/// The pattern of the end of input.
pub const PATTERN_EOF: &'static str = "macro_rules! pattern_EOF { () => { TokenKind::EOF } }\n";

/// The value that stands for the end of input in an error.
pub const DEFAULT_EOF: &'static str = "macro_rules! default_EOF { () => { TokenKind::EOF } }\n";

/// The failure with a list of expected tokens, where the grammar has no error
/// type.
pub const ERR_PLAIN: &'static str = "macro_rules! err { [$($tk:expr),*] => { Err(vec![$($tk),*]) } }\n\n";

/// The opening of the display of token kinds; the end of input comes first.
pub const DISPLAY_OPEN: &'static str = "use std::fmt;\nimpl fmt::Display for TokenKind {\n    fn fmt(&self, f: &mut fmt::Formatter) -> fmt::Result {\n        match self {\n            pattern_EOF!() => write!(f, \"end of file\"),\n";

/// The end of the display of token kinds.
pub const DISPLAY_CLOSE: &'static str = "        }\n    }\n}\n\n";

/// The mark of a fatal failure. The depth guard sets it, and what follows a
/// caught part asks for it, so that a fatal failure is told from a syntax
/// error whatever its value and whatever the token stream shows.
pub const FATAL_MARK: &'static str = "thread_local! {\n    static FATAL_FAILURE: std::cell::Cell<bool> = std::cell::Cell::new(false);\n}\n\n";

/// The comment before the preamble.
pub const PREAMBLE_MARK: &'static str = "// preamble\n";

/// The call of the depth guard at the start of a rule.
pub const LIMIT_CHECK: &'static str = "check_limit!(input, depth);\n";

/// The end of a rule.
pub const RULE_CLOSE: &'static str = "    }\n";

/// The end of the parser.
pub const PARSER_CLOSE: &'static str = "}\n";

/// The error type of a parser whose grammar declares none.
pub const PLAIN_ERROR_TYPE: &'static str = "Vec<TokenKind>";

/// The head of the parser file: a comment that names the generator and its
/// `version`, the lints that generated code needs, and the import of the
/// tokens.
pub open spec fn file_head_text(version: Seq<char>) -> Seq<char> {
    "// generated by lelwel "@ + version + "\n\n#![allow(non_snake_case)]\n#![allow(unused_variables)]\n\nuse super::token::*;\n\n"@
}

/// Writes [`file_head_text`].
pub(crate) fn file_head(version: &str) -> (r: String)
    ensures
        r@ == file_head_text(version@),
{
    let mut s = String::from_str("// generated by lelwel ");
    s.append(version);
    s.append("\n\n#![allow(non_snake_case)]\n#![allow(unused_variables)]\n\nuse super::token::*;\n\n");
    s
}

/// The variant of a token without a payload.
pub open spec fn token_plain_text(name: Seq<char>) -> Seq<char> {
    "    "@ + name + ",\n"@
}

/// Writes [`token_plain_text`].
pub(crate) fn token_plain(name: &str) -> (r: String)
    ensures
        r@ == token_plain_text(name@),
{
    let mut s = String::from_str("    ");
    s.append(name);
    s.append(",\n");
    s
}

/// The variant of a token with a payload of the type `ty`.
pub open spec fn token_payload_text(name: Seq<char>, ty: Seq<char>) -> Seq<char> {
    "    "@ + name + "("@ + ty + "),\n"@
}

/// Writes [`token_payload_text`].
pub(crate) fn token_payload(name: &str, ty: &str) -> (r: String)
    ensures
        r@ == token_payload_text(name@, ty@),
{
    let mut s = String::from_str("    ");
    s.append(name);
    s.append("(");
    s.append(ty);
    s.append("),\n");
    s
}

/// The pattern of a token without a payload.
pub open spec fn pattern_plain_text(name: Seq<char>) -> Seq<char> {
    "macro_rules! pattern_"@ + name + " { () => { TokenKind::"@ + name + " } }\n"@
}

/// Writes [`pattern_plain_text`].
pub(crate) fn pattern_plain(name: &str) -> (r: String)
    ensures
        r@ == pattern_plain_text(name@),
{
    let mut s = String::from_str("macro_rules! pattern_");
    s.append(name);
    s.append(" { () => { TokenKind::");
    s.append(name);
    s.append(" } }\n");
    s
}

/// The pattern of a token with a payload, whatever the payload.
pub open spec fn pattern_payload_text(name: Seq<char>) -> Seq<char> {
    "macro_rules! pattern_"@ + name + " { () => { TokenKind::"@ + name + "(_) } }\n"@
}

/// Writes [`pattern_payload_text`].
pub(crate) fn pattern_payload(name: &str) -> (r: String)
    ensures
        r@ == pattern_payload_text(name@),
{
    let mut s = String::from_str("macro_rules! pattern_");
    s.append(name);
    s.append(" { () => { TokenKind::");
    s.append(name);
    s.append("(_) } }\n");
    s
}

/// The value that stands for a token without a payload in an error.
pub open spec fn default_plain_text(name: Seq<char>) -> Seq<char> {
    "macro_rules! default_"@ + name + " { () => { TokenKind::"@ + name + " } }\n"@
}

/// Writes [`default_plain_text`].
pub(crate) fn default_plain(name: &str) -> (r: String)
    ensures
        r@ == default_plain_text(name@),
{
    let mut s = String::from_str("macro_rules! default_");
    s.append(name);
    s.append(" { () => { TokenKind::");
    s.append(name);
    s.append(" } }\n");
    s
}

/// The value that stands for a token with a payload in an error: the token
/// with the default of its type `ty`.
pub open spec fn default_payload_text(name: Seq<char>, ty: Seq<char>) -> Seq<char> {
    "macro_rules! default_"@ + name + " { () => { TokenKind::"@ + name + "("@ + ty + "::default()) } }\n"@
}

/// Writes [`default_payload_text`].
pub(crate) fn default_payload(name: &str, ty: &str) -> (r: String)
    ensures
        r@ == default_payload_text(name@, ty@),
{
    let mut s = String::from_str("macro_rules! default_");
    s.append(name);
    s.append(" { () => { TokenKind::");
    s.append(name);
    s.append("(");
    s.append(ty);
    s.append("::default()) } }\n");
    s
}

/// The failure with a list of expected tokens, turned into the error type
/// `code` of the grammar.
pub open spec fn err_typed_text(code: Seq<char>) -> Seq<char> {
    "macro_rules! err { [$($tk:expr),*] => { Err("@ + code + "::from(vec![$($tk),*])) } }\n\n"@
}

/// Writes [`err_typed_text`].
pub(crate) fn err_typed(code: &str) -> (r: String)
    ensures
        r@ == err_typed_text(code@),
{
    let mut s = String::from_str("macro_rules! err { [$($tk:expr),*] => { Err(");
    s.append(code);
    s.append("::from(vec![$($tk),*])) } }\n\n");
    s
}

/// The depth guard where the grammar has the error type `code`: deeper than
/// `limit`, the input is finalised, the failure is marked as fatal, and a
/// fatal error is returned.
pub open spec fn limit_typed_text(limit: u64, code: Seq<char>) -> Seq<char> {
    "#[allow(unused_macros)]\nmacro_rules! check_limit {\n    ($input:ident, $depth:expr) => {\n        if $depth > "@ + decimal(limit as nat) + " {\n            $input.finalize();\n            FATAL_FAILURE.with(|fatal| fatal.set(true));\n            return Err("@ + code + "::from(\"exceeded recursion depth limit\"));\n        }\n    }\n}\n\n"@
}

/// Writes [`limit_typed_text`].
pub(crate) fn limit_typed(limit: u64, code: &str) -> (r: String)
    ensures
        r@ == limit_typed_text(limit, code@),
{
    let mut s = String::from_str("#[allow(unused_macros)]\nmacro_rules! check_limit {\n    ($input:ident, $depth:expr) => {\n        if $depth > ");
    push_decimal(&mut s, limit);
    s.append(" {\n            $input.finalize();\n            FATAL_FAILURE.with(|fatal| fatal.set(true));\n            return Err(");
    s.append(code);
    s.append("::from(\"exceeded recursion depth limit\"));\n        }\n    }\n}\n\n");
    s
}

/// The depth guard where the grammar has no error type: deeper than `limit`,
/// the parser stops.
pub open spec fn limit_plain_text(limit: u64) -> Seq<char> {
    "#[allow(unused_macros)]\nmacro_rules! check_limit {\n    ($input:ident, $depth:expr) => {\n        if $depth > "@ + decimal(limit as nat) + " {\n            panic!(\"exceeded recursion depth limit\");\n        }\n    }\n}\n\n"@
}

/// Writes [`limit_plain_text`].
pub(crate) fn limit_plain(limit: u64) -> (r: String)
    ensures
        r@ == limit_plain_text(limit),
{
    let mut s = String::from_str("#[allow(unused_macros)]\nmacro_rules! check_limit {\n    ($input:ident, $depth:expr) => {\n        if $depth > ");
    push_decimal(&mut s, limit);
    s.append(" {\n            panic!(\"exceeded recursion depth limit\");\n        }\n    }\n}\n\n");
    s
}

/// The taking of a token without a payload: its value is the range of the
/// token.
pub open spec fn consume_plain_text(name: Seq<char>) -> Seq<char> {
    "macro_rules! consume_"@ + name + " {\n    ($input:ident) => {\n        if let TokenKind::"@ + name + " = $input.current().kind {\n            let range = $input.current().range;\n            $input.advance();\n            range\n        } else {\n            return err![default_"@ + name + "!()]\n        }\n    }\n}\n"@
}

/// Writes [`consume_plain_text`].
pub(crate) fn consume_plain(name: &str) -> (r: String)
    ensures
        r@ == consume_plain_text(name@),
{
    let mut s = String::from_str("macro_rules! consume_");
    s.append(name);
    s.append(" {\n    ($input:ident) => {\n        if let TokenKind::");
    s.append(name);
    s.append(" = $input.current().kind {\n            let range = $input.current().range;\n            $input.advance();\n            range\n        } else {\n            return err![default_");
    s.append(name);
    s.append("!()]\n        }\n    }\n}\n");
    s
}

/// The taking of a token with a payload: its value is the payload and the
/// range of the token.
pub open spec fn consume_payload_text(name: Seq<char>) -> Seq<char> {
    "macro_rules! consume_"@ + name + " {\n    ($input:ident) => {\n        if let TokenKind::"@ + name + "(value) = $input.current().kind {\n            let range = $input.current().range;\n            $input.advance();\n            (value, range)\n        } else {\n            return err![default_"@ + name + "!()]\n        }\n    }\n}\n"@
}

/// Writes [`consume_payload_text`].
pub(crate) fn consume_payload(name: &str) -> (r: String)
    ensures
        r@ == consume_payload_text(name@),
{
    let mut s = String::from_str("macro_rules! consume_");
    s.append(name);
    s.append(" {\n    ($input:ident) => {\n        if let TokenKind::");
    s.append(name);
    s.append("(value) = $input.current().kind {\n            let range = $input.current().range;\n            $input.advance();\n            (value, range)\n        } else {\n            return err![default_");
    s.append(name);
    s.append("!()]\n        }\n    }\n}\n");
    s
}

/// How the token `name` is shown: as `shown`.
pub open spec fn display_arm_text(name: Seq<char>, shown: Seq<char>) -> Seq<char> {
    "            pattern_"@ + name + "!() => write!(f, \"{}\", r###\""@ + shown + "\"###),\n"@
}

/// Writes [`display_arm_text`].
pub(crate) fn display_arm(name: &str, shown: &str) -> (r: String)
    ensures
        r@ == display_arm_text(name@, shown@),
{
    let mut s = String::from_str("            pattern_");
    s.append(name);
    s.append("!() => write!(f, \"{}\", r###\"");
    s.append(shown);
    s.append("\"###),\n");
    s
}

/// The parser type and its entry: it takes the mark of a fatal failure
/// away, advances to the first token, runs the start rule at depth 0, and
/// fails expecting the end of input if a token is left.
pub open spec fn parser_head_text(common_pars: Seq<char>, start_pars: Seq<char>, start_ret: Seq<char>, common_args: Seq<char>, error_type: Seq<char>) -> Seq<char> {
    "pub struct Parser;\n\nimpl<'a> Parser {\n    pub fn parse<Input: TokenStream>(input: &mut Input"@ + common_pars + start_pars + ") -> Result<"@ + start_ret + ", "@ + error_type + "> {\n        FATAL_FAILURE.with(|fatal| fatal.set(false));\n        input.advance();\n        let out = Self::start(0, input"@ + common_args + ")?;\n        if input.current().kind != TokenKind::EOF {\n            return err![default_EOF!()]\n        }\n        Ok(out)\n    }\n"@
}

/// Writes [`parser_head_text`].
pub(crate) fn parser_head(common_pars: &str, start_pars: &str, start_ret: &str, common_args: &str, error_type: &str) -> (r: String)
    ensures
        r@ == parser_head_text(common_pars@, start_pars@, start_ret@, common_args@, error_type@),
{
    let mut s = String::from_str("pub struct Parser;\n\nimpl<'a> Parser {\n    pub fn parse<Input: TokenStream>(input: &mut Input");
    s.append(common_pars);
    s.append(start_pars);
    s.append(") -> Result<");
    s.append(start_ret);
    s.append(", ");
    s.append(error_type);
    s.append("> {\n        FATAL_FAILURE.with(|fatal| fatal.set(false));\n        input.advance();\n        let out = Self::start(0, input");
    s.append(common_args);
    s.append(")?;\n        if input.current().kind != TokenKind::EOF {\n            return err![default_EOF!()]\n        }\n        Ok(out)\n    }\n");
    s
}

/// The signature of the start rule.
pub open spec fn start_header_text(common_pars: Seq<char>, pars: Seq<char>, ret: Seq<char>, error_type: Seq<char>) -> Seq<char> {
    "    fn start<Input: TokenStream>(depth: u16, input: &mut Input"@ + common_pars + pars + ") -> Result<"@ + ret + ", "@ + error_type + "> {\n"@
}

/// Writes [`start_header_text`].
pub(crate) fn start_header(common_pars: &str, pars: &str, ret: &str, error_type: &str) -> (r: String)
    ensures
        r@ == start_header_text(common_pars@, pars@, ret@, error_type@),
{
    let mut s = String::from_str("    fn start<Input: TokenStream>(depth: u16, input: &mut Input");
    s.append(common_pars);
    s.append(pars);
    s.append(") -> Result<");
    s.append(ret);
    s.append(", ");
    s.append(error_type);
    s.append("> {\n");
    s
}

/// The signature of the rule `name`.
pub open spec fn rule_header_text(name: Seq<char>, common_pars: Seq<char>, pars: Seq<char>, ret: Seq<char>, error_type: Seq<char>) -> Seq<char> {
    "    fn r#"@ + name + "<Input: TokenStream>(depth: u16, input: &mut Input"@ + common_pars + pars + ") -> Result<"@ + ret + ", "@ + error_type + "> {\n"@
}

/// Writes [`rule_header_text`].
pub(crate) fn rule_header(name: &str, common_pars: &str, pars: &str, ret: &str, error_type: &str) -> (r: String)
    ensures
        r@ == rule_header_text(name@, common_pars@, pars@, ret@, error_type@),
{
    let mut s = String::from_str("    fn r#");
    s.append(name);
    s.append("<Input: TokenStream>(depth: u16, input: &mut Input");
    s.append(common_pars);
    s.append(pars);
    s.append(") -> Result<");
    s.append(ret);
    s.append(", ");
    s.append(error_type);
    s.append("> {\n");
    s
}

/// The lines of a preamble: the first `n` of `ls`, each trimmed and ended
/// by a line feed.
pub open spec fn trimmed_lines(ls: Seq<Seq<char>>, n: nat) -> Seq<char>
    decreases n,
{
    if n == 0 || n > ls.len() {
        Seq::empty()
    } else {
        trimmed_lines(ls, (n - 1) as nat) + trimmed(ls[n - 1]) + "\n"@
    }
}

/// The preamble of the grammar, if it has one, line by line, and an empty
/// line.
pub open spec fn preamble_text(m: &Module) -> Seq<char> {
    (match element_at(m.elements@, m.preamble) {
        Some(e) => match e.kind {
            ElementKind::Preamble { code } => {
                let ls = lines(trimmed(m.table.name_of(code)));
                PREAMBLE_MARK@ + trimmed_lines(ls, ls.len())
            },
            _ => PREAMBLE_MARK@,
        },
        None => Seq::empty(),
    }) + "\n"@
}

/// The sections of the parser file that hold one entry for each token.
#[derive(Clone, Copy, PartialEq, Eq, Structural, Debug)]
pub enum Section {
    /// The enumeration of token kinds.
    Tokens,
    /// The patterns that match a token.
    Patterns,
    /// The values that stand for a token in an error.
    Defaults,
    /// The macros that take a token.
    Consumes,
    /// How a token is shown.
    Display,
}

/// The entry that the element `e` has in `section`. Only a token has
/// entries, and every token has one in each section.
pub open spec fn entry_text(m: &Module, section: Section, e: &Element) -> Seq<char> {
    match e.kind {
        ElementKind::Token { name, ty, sym } => {
            let n = m.table.name_of(name);
            match section {
                Section::Tokens => if ty.is_empty() {
                    token_plain_text(n)
                } else {
                    token_payload_text(n, m.table.name_of(ty))
                },
                Section::Patterns => if ty.is_empty() {
                    pattern_plain_text(n)
                } else {
                    pattern_payload_text(n)
                },
                Section::Defaults => if ty.is_empty() {
                    default_plain_text(n)
                } else {
                    default_payload_text(n, m.table.name_of(ty))
                },
                Section::Consumes => if ty.is_empty() {
                    consume_plain_text(n)
                } else {
                    consume_payload_text(n)
                },
                Section::Display => if sym.is_empty() {
                    display_arm_text(n, n)
                } else {
                    display_arm_text(n, m.table.name_of(sym))
                },
            }
        },
        _ => Seq::empty(),
    }
}

/// The entries that the first `n` elements have in `section`, in the order
/// of the elements.
pub open spec fn entries_text(m: &Module, section: Section, n: nat) -> Seq<char>
    decreases n,
{
    if n == 0 || n > m.elements@.len() {
        Seq::empty()
    } else {
        entries_text(m, section, (n - 1) as nat) + entry_text(m, section, &m.elements@[n - 1])
    }
}

/// The enumeration of token kinds: the end of input, and the tokens.
pub open spec fn tokens_text(m: &Module) -> Seq<char> {
    TOKENS_OPEN@ + entries_text(m, Section::Tokens, m.elements@.len()) + TOKENS_CLOSE@
}

/// The patterns of the end of input and of the tokens, and an empty line.
pub open spec fn patterns_text(m: &Module) -> Seq<char> {
    PATTERN_EOF@ + entries_text(m, Section::Patterns, m.elements@.len()) + "\n"@
}

/// The values that stand for the end of input and for every token, and an
/// empty line.
pub open spec fn defaults_text(m: &Module) -> Seq<char> {
    DEFAULT_EOF@ + entries_text(m, Section::Defaults, m.elements@.len()) + "\n"@
}

/// The macros that take a token, one for every token, and an empty line.
pub open spec fn consumes_text(m: &Module) -> Seq<char> {
    entries_text(m, Section::Consumes, m.elements@.len()) + "\n"@
}

/// How the end of input and the tokens are shown.
pub open spec fn display_text(m: &Module) -> Seq<char> {
    DISPLAY_OPEN@ + entries_text(m, Section::Display, m.elements@.len()) + DISPLAY_CLOSE@
}

/// The error type that the grammar declares, if it declares one.
pub open spec fn declared_error_type(m: &Module) -> Option<Seq<char>> {
    match element_at(m.elements@, m.error) {
        Some(e) => match e.kind {
            ElementKind::ErrorCode { code } => Some(trimmed(m.table.name_of(code))),
            _ => None,
        },
        None => None,
    }
}

/// The failure with a list of expected tokens.
pub open spec fn error_macro_text(m: &Module) -> Seq<char> {
    match declared_error_type(m) {
        Some(code) => err_typed_text(code),
        None => ERR_PLAIN@,
    }
}

/// The depth beyond which a rule fails: what the grammar declares, or 128.
pub open spec fn depth_limit(m: &Module) -> u16 {
    match element_at(m.elements@, m.limit) {
        Some(e) => match e.kind {
            ElementKind::Limit { depth } => depth,
            _ => 128,
        },
        None => 128,
    }
}

/// The mark of a fatal failure, and the depth guard: a fatal error where the
/// grammar declares an error type, and else a stop.
pub open spec fn check_limit_text(m: &Module) -> Seq<char> {
    FATAL_MARK@ + match declared_error_type(m) {
        Some(code) => limit_typed_text(depth_limit(m) as u64, code),
        None => limit_plain_text(depth_limit(m) as u64),
    }
}

/// The error type that the grammar declares, if it declares one.
pub(crate) fn error_type_of(module: &Module) -> (r: Option<String>)
    ensures
        match r {
            Some(s) => declared_error_type(module) == Some(s@),
            None => declared_error_type(module) is None,
        },
{
    match get_element(&module.elements, module.error) {
        Some(e) => match &e.kind {
            ElementKind::ErrorCode { code } => Some(trim(module.table.name(*code))),
            _ => None,
        },
        None => None,
    }
}

/// The depth beyond which a rule fails.
pub(crate) fn limit_of(module: &Module) -> (r: u16)
    ensures
        r == depth_limit(module),
{
    match get_element(&module.elements, module.limit) {
        Some(e) => match &e.kind {
            ElementKind::Limit { depth } => *depth,
            _ => 128,
        },
        None => 128,
    }
}

/// Writes [`entry_text`].
pub(crate) fn entry(module: &Module, section: Section, e: &Element) -> (r: String)
    ensures
        r@ == entry_text(module, section, e),
{
    match &e.kind {
        ElementKind::Token { name, ty, sym } => {
            let n = module.table.name(*name);
            match section {
                Section::Tokens => if ty.is_empty() {
                    token_plain(n)
                } else {
                    token_payload(n, module.table.name(*ty))
                },
                Section::Patterns => if ty.is_empty() {
                    pattern_plain(n)
                } else {
                    pattern_payload(n)
                },
                Section::Defaults => if ty.is_empty() {
                    default_plain(n)
                } else {
                    default_payload(n, module.table.name(*ty))
                },
                Section::Consumes => if ty.is_empty() {
                    consume_plain(n)
                } else {
                    consume_payload(n)
                },
                Section::Display => if sym.is_empty() {
                    display_arm(n, n)
                } else {
                    display_arm(n, module.table.name(*sym))
                },
            }
        },
        _ => String::new(),
    }
}

/// Writes the entries that the elements have in `section`.
fn output_entries(module: &Module, section: Section, output: &mut String)
    ensures
        final(output)@ == old(output)@ + entries_text(module, section, module.elements@.len()),
{
    let mut i: usize = 0;
    assert(output@ =~= old(output)@ + entries_text(module, section, 0));
    while i < module.elements.len()
        invariant
            i <= module.elements.len(),
            output@ == old(output)@ + entries_text(module, section, i as nat),
        decreases module.elements.len() - i,
    {
        let ghost done = entries_text(module, section, i as nat);
        let line = entry(module, section, &module.elements[i]);
        output.append(line.as_str());
        i += 1;
        assert(output@ =~= old(output)@ + (done + line@));
    }
}

impl RustOutput {
    /// Writes the preamble.
    pub fn output_preamble(module: &Module, output: &mut String)
        ensures
            final(output)@ == old(output)@ + preamble_text(module),
    {
        match get_element(&module.elements, module.preamble) {
            Some(e) => {
                output.append(PREAMBLE_MARK);
                match &e.kind {
                    ElementKind::Preamble { code } => {
                        let text = trim(module.table.name(*code));
                        let v = chars_of(text.as_str());
                        let ranges = line_ranges(&v);
                        let ghost ls = lines(v@);
                        let ghost start = output@;
                        let mut k: usize = 0;
                        assert(output@ =~= start + trimmed_lines(ls, 0));
                        while k < ranges.len()
                            invariant
                                k <= ranges.len(),
                                ls == lines(v@),
                                pieces(v@, ranges@) == ls,
                                forall|i: int|
                                    0 <= i < ranges.len() ==> #[trigger] ranges[i].0 <= ranges[i].1
                                        <= v.len(),
                                output@ == start + trimmed_lines(ls, k as nat),
                            decreases ranges.len() - k,
                        {
                            let ghost done = trimmed_lines(ls, k as nat);
                            let r = trim_range(&v, ranges[k].0, ranges[k].1);
                            assert(ls[k as int] == v@.subrange(
                                ranges[k as int].0 as int,
                                ranges[k as int].1 as int,
                            )) by {
                                assert(pieces(v@, ranges@)[k as int] == v@.subrange(
                                    ranges[k as int].0 as int,
                                    ranges[k as int].1 as int,
                                ));
                            }
                            push_slice(output, &v, r.0, r.1);
                            output.append("\n");
                            assert(pieces(v@, ranges@).len() == ranges.len());
                            k += 1;
                            assert(output@ =~= start + (done + trimmed(ls[k - 1]) + "\n"@));
                        }
                        assert(pieces(v@, ranges@).len() == ranges.len());
                    },
                    _ => {},
                }
            },
            None => {},
        }
        output.append("\n");
        assert(output@ =~= old(output)@ + preamble_text(module));
    }

    /// Writes the enumeration of token kinds.
    pub fn output_tokens(module: &Module, output: &mut String)
        ensures
            final(output)@ == old(output)@ + tokens_text(module),
    {
        output.append(TOKENS_OPEN);
        output_entries(module, Section::Tokens, output);
        output.append(TOKENS_CLOSE);
        assert(output@ =~= old(output)@ + tokens_text(module));
    }

    /// Writes the patterns that match a token.
    pub fn output_patterns(module: &Module, output: &mut String)
        ensures
            final(output)@ == old(output)@ + patterns_text(module),
    {
        output.append(PATTERN_EOF);
        output_entries(module, Section::Patterns, output);
        output.append("\n");
        assert(output@ =~= old(output)@ + patterns_text(module));
    }

    /// Writes the values that stand for a token in an error.
    pub fn output_defaults(module: &Module, output: &mut String)
        ensures
            final(output)@ == old(output)@ + defaults_text(module),
    {
        output.append(DEFAULT_EOF);
        output_entries(module, Section::Defaults, output);
        output.append("\n");
        assert(output@ =~= old(output)@ + defaults_text(module));
    }

    /// Writes the failure with a list of expected tokens.
    pub fn output_error(module: &Module, output: &mut String)
        ensures
            final(output)@ == old(output)@ + error_macro_text(module),
    {
        match error_type_of(module) {
            Some(code) => output.append(err_typed(code.as_str()).as_str()),
            None => output.append(ERR_PLAIN),
        }
    }

    /// Writes the depth guard.
    pub fn output_check_limit(module: &Module, output: &mut String)
        ensures
            final(output)@ == old(output)@ + check_limit_text(module),
    {
        let limit = limit_of(module);
        output.append(FATAL_MARK);
        match error_type_of(module) {
            Some(code) => output.append(limit_typed(limit as u64, code.as_str()).as_str()),
            None => output.append(limit_plain(limit as u64).as_str()),
        }
        assert(output@ =~= old(output)@ + check_limit_text(module));
    }

    /// Writes the macros that take a token.
    pub fn output_consumes(module: &Module, output: &mut String)
        ensures
            final(output)@ == old(output)@ + consumes_text(module),
    {
        output_entries(module, Section::Consumes, output);
        output.append("\n");
        assert(output@ =~= old(output)@ + consumes_text(module));
    }

    /// Writes how tokens are shown.
    pub fn output_display(module: &Module, output: &mut String)
        ensures
            final(output)@ == old(output)@ + display_text(module),
    {
        output.append(DISPLAY_OPEN);
        output_entries(module, Section::Display, output);
        output.append(DISPLAY_CLOSE);
        assert(output@ =~= old(output)@ + display_text(module));
    }
}

} // verus!

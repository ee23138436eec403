//! The files that a new project starts from, and where they go.

use crate::backend::rust::RustOutput;
use vstd::prelude::*;

verus! {

/// The file that holds the parser.
pub const PARSER_FILE: &'static str = "parser.rs";

/// The file that holds the tokens and the token stream.
pub const TOKEN_FILE: &'static str = "token.rs";

/// The file of a module that holds the runtime. It is written anew each time.
pub const MODULE_FILE: &'static str = "mod.rs";

/// The file of a module that is the user's to fill in. It is written once and
/// left alone from then on.
pub const STUB_FILE: &'static str = "imp.rs";

/// The directory of the lexer.
pub const LEXER_DIR: &'static str = "lexer";

/// The directory of the symbol table.
pub const SYMBOL_DIR: &'static str = "symbol";

/// The directory of the diagnostics.
pub const DIAG_DIR: &'static str = "diag";

/// The directory of the syntax tree.
pub const AST_DIR: &'static str = "ast";

/// A grammar to start from: a start rule that runs one action, and the
/// action.
pub const LLW_SKEL: &'static str = "start:\n  #1\n;\n\nstart#1 {\n    Ok(())\n}";

/// The user's part of the lexer to start from: a start state that ends the
/// input and refuses everything else.
pub const LEXER_STUB: &'static str = "use super::*;\n\nimpl Lexer {\n    pub fn state_start(&mut self) -> Transition {\n        match self.consume() {\n            // TODO\n            None => self.emit(TokenKind::EOF),\n            _ => {\n                self.error(\"invalid token\");\n                self.ignore()\n            }\n        }\n    }\n}";

/// The user's part of the symbol table to start from: the macro that
/// predefines names, and no names.
pub const SYMBOL_STUB: &'static str = "use super::*;\n\nmacro_rules! predefine {\n    ( $([$id:ident, $name:expr]),* $(,)? ) => {\n        #[repr(usize)]\n        #[allow(clippy::upper_case_acronyms)]\n        enum Predef {\n            EMPTY,\n            $($id),*\n        }\n        impl Symbol {\n            pub const EMPTY: Symbol = Symbol(Predef::EMPTY as u32);\n            $(\n            pub const $id: Symbol = Symbol(Predef::$id as u32);\n            )*\n        }\n        impl StringTable {\n            pub fn init(&mut self) {\n                self.alloc(\"\");\n                $(self.alloc($name);)*\n            }\n        }\n    }\n}\n\npredefine! {\n    // TODO\n}";

/// The user's part of the diagnostics to start from: the error codes for a
/// syntax error, with the tokens that were expected, and for a fatal error of
/// the parser, with its message, and how they are shown.
pub const DIAG_STUB: &'static str = "use super::super::parser::*;\n\n#[derive(Debug)]\npub enum Code {\n    SyntaxError(Vec<TokenKind>),\n    ParserError(&'static str),\n    // TODO\n                \n}\n\nimpl From<Vec<TokenKind>> for Code {\n    fn from(error: Vec<TokenKind>) -> Code {\n        Code::SyntaxError(error)\n    }\n}\n\nimpl From<&'static str> for Code {\n    fn from(error: &'static str) -> Code {\n        Code::ParserError(error)\n    }\n}\n\nimpl std::fmt::Display for Code {\n    fn fmt(&self, f: &mut std::fmt::Formatter<'_>) -> std::fmt::Result {\n        match self {\n            Code::SyntaxError(expected) => {\n                if expected.len() > 1 {\n                    write!(f, \"invalid syntax, expected one of: \")?;\n                } else {\n                    write!(f, \"invalid syntax, expected: \")?;\n                }\n                let mut count = 0;\n                for e in expected {\n                    count += 1;\n                    let s = format!( \"{}\", e);\n                    let s = if s.starts_with('<') && s.ends_with('>') && s.len() > 2 {\n                        s\n                    } else {\n                        format!(\"'{}'\", s)\n                    };\n                    if count < expected.len() {\n                        write!(f, \"{}, \", s)?;\n                    } else {\n                        write!(f, \"{}\", s)?;\n                    }\n                }\n                write!(f, \".\")\n            }\n            Code::ParserError(msg) => {\n                write!(f, \"{}\", msg)\n            }\n        }\n    }\n}";

/// The user's part of the syntax tree to start from.
pub const AST_STUB: &'static str = "use super::*;\n\n// TODO";

/// A file to write.
#[derive(Debug)]
pub struct OutputFile {
    /// The directory of the file below the target directory. It is empty
    /// for a file in the target directory itself.
    pub dir: String,
    /// The name of the file.
    pub name: String,
    /// What the file holds.
    pub text: String,
}

impl View for OutputFile {
    type V = (Seq<char>, Seq<char>, Seq<char>);

    open spec fn view(&self) -> (Seq<char>, Seq<char>, Seq<char>) {
        (self.dir@, self.name@, self.text@)
    }
}

/// The files of the module in `dir`, each as its directory, its name and
/// its text: the runtime, and the user's part unless it `exists`.
pub open spec fn module_files(
    dir: Seq<char>,
    runtime: Seq<char>,
    stub: Seq<char>,
    exists: bool,
) -> Seq<(Seq<char>, Seq<char>, Seq<char>)> {
    if exists {
        seq![(dir, MODULE_FILE@, runtime)]
    } else {
        seq![(dir, MODULE_FILE@, runtime), (dir, STUB_FILE@, stub)]
    }
}

/// The directories, names and texts of `files`.
pub open spec fn views(files: Seq<OutputFile>) -> Seq<(Seq<char>, Seq<char>, Seq<char>)> {
    Seq::new(files.len(), |i: int| files[i]@)
}

/// Writes [`module_files`].
fn create_module(dir: &str, runtime: &str, stub: &str, exists: bool) -> (r: Vec<OutputFile>)
    ensures
        views(r@) == module_files(dir@, runtime@, stub@, exists),
{
    let mut r: Vec<OutputFile> = Vec::new();
    r.push(
        OutputFile {
            dir: String::from_str(dir),
            name: String::from_str(MODULE_FILE),
            text: String::from_str(runtime),
        },
    );
    if !exists {
        r.push(
            OutputFile {
                dir: String::from_str(dir),
                name: String::from_str(STUB_FILE),
                text: String::from_str(stub),
            },
        );
    }
    assert(views(r@) =~= module_files(dir@, runtime@, stub@, exists));
    r
}

impl RustOutput {
    /// The text of a grammar to start from.
    pub fn create_llw_skel() -> (r: String)
        ensures
            r@ == LLW_SKEL@,
    {
        String::from_str(LLW_SKEL)
    }

    /// The file of the tokens: it holds the `runtime`.
    pub fn create_token(runtime: &str) -> (r: OutputFile)
        ensures
            r@ == (Seq::<char>::empty(), TOKEN_FILE@, runtime@),
    {
        OutputFile {
            dir: String::new(),
            name: String::from_str(TOKEN_FILE),
            text: String::from_str(runtime),
        }
    }

    /// The files of the lexer: the `runtime`, and the user's part to start
    /// from unless it `exists` already.
    pub fn create_lexer(runtime: &str, exists: bool) -> (r: Vec<OutputFile>)
        ensures
            views(r@) == module_files(LEXER_DIR@, runtime@, LEXER_STUB@, exists),
    {
        create_module(LEXER_DIR, runtime, LEXER_STUB, exists)
    }

    /// The files of the symbol table: the `runtime`, and the user's part to start
    /// from unless it `exists` already.
    pub fn create_symbol(runtime: &str, exists: bool) -> (r: Vec<OutputFile>)
        ensures
            views(r@) == module_files(SYMBOL_DIR@, runtime@, SYMBOL_STUB@, exists),
    {
        create_module(SYMBOL_DIR, runtime, SYMBOL_STUB, exists)
    }

    /// The files of the diagnostics: the `runtime`, and the user's part to start
    /// from unless it `exists` already.
    pub fn create_diag(runtime: &str, exists: bool) -> (r: Vec<OutputFile>)
        ensures
            views(r@) == module_files(DIAG_DIR@, runtime@, DIAG_STUB@, exists),
    {
        create_module(DIAG_DIR, runtime, DIAG_STUB, exists)
    }

    /// The files of the syntax tree: the `runtime`, and the user's part to start
    /// from unless it `exists` already.
    pub fn create_ast(runtime: &str, exists: bool) -> (r: Vec<OutputFile>)
        ensures
            views(r@) == module_files(AST_DIR@, runtime@, AST_STUB@, exists),
    {
        create_module(AST_DIR, runtime, AST_STUB, exists)
    }
}

} // verus!

//! The behaviour of a generated parser, run on the kinds of a sequence of
//! tokens. Each function here computes what the function of the same name
//! in [`crate::semantics`] states.

use crate::backend::items::{error_type_of, limit_of};
use crate::backend::regex::branch_expected;
use crate::backend::text::{chars_of, push_decimal};
use crate::frontend::ast::{get_element, ElementKind, Module, Regex, RegexKind};
use crate::frontend::symbol::{Symbol, SymbolSet};
use crate::semantics;
use crate::semantics::{Input, Resync, Run};
use vstd::prelude::*;

verus! {

/// How the run of a construct ends.
#[derive(Debug, PartialEq, Eq)]
pub enum Outcome {
    /// It succeeded, and the current token is the one at `pos`.
    Parsed { pos: usize },
    /// A syntax error: one of `expected` should have stood where the failure
    /// arose. The current token is the one at `pos`.
    SyntaxError { expected: Vec<Symbol>, pos: usize },
    /// The depth limit was exceeded, and the grammar has an error type.
    ParserError,
    /// The depth limit was exceeded, and the grammar has no error type.
    Abort,
    /// The run came to an action or an error handler that has no code.
    Missing { handler: bool, val: u64, line: u32, column: u32 },
    /// The run was cut short: it took more steps than it was given.
    Unfinished,
}

impl View for Outcome {
    type V = Run;

    open spec fn view(&self) -> Run {
        match self {
            Outcome::Parsed { pos } => Run::Parsed { pos: *pos as nat },
            Outcome::SyntaxError { expected, pos } => Run::SyntaxError {
                expected: expected@,
                pos: *pos as nat,
            },
            Outcome::ParserError => Run::ParserError,
            Outcome::Abort => Run::Abort,
            Outcome::Missing { handler, val, line, column } => Run::Missing {
                handler: *handler,
                val: *val,
                line: *line,
                column: *column,
            },
            Outcome::Unfinished => Run::Unfinished,
        }
    }
}

/// The kind of the token at `pos`.
pub fn lookahead(inp: &Input, pos: usize) -> (la: Symbol)
    ensures
        la == semantics::lookahead(inp, pos as nat),
{
    if pos < inp.tokens.len() {
        inp.tokens[pos]
    } else {
        inp.eof
    }
}

/// The place after the token at `pos`.
fn advance(inp: &Input, pos: usize) -> (next: usize)
    ensures
        next == semantics::advance(inp, pos as nat),
{
    if pos < inp.tokens.len() {
        pos + 1
    } else {
        pos
    }
}

/// Whether the pattern of `set` matches the kind `la`.
pub fn accepts(inp: &Input, set: &SymbolSet, la: Symbol) -> (b: bool)
    ensures
        b == semantics::accepts(inp, set@, la),
{
    if set.is_empty() {
        la == inp.eof
    } else {
        set.contains(la)
    }
}

/// The tokens that an error lists for `set`.
pub fn expected(inp: &Input, set: &SymbolSet) -> (r: Vec<Symbol>)
    ensures
        r@ == semantics::expected(inp, set@),
{
    if set.is_empty() {
        let mut r: Vec<Symbol> = Vec::new();
        r.push(inp.eof);
        assert(r@ =~= seq![inp.eof]);
        r
    } else {
        set.to_vec()
    }
}

/// The place of the predicate that guards the branch `regex`, if one does.
fn guard_of(module: &Module, regex: &Regex) -> (r: Option<usize>)
    ensures
        r == semantics::guard_of(module, regex),
    decreases *regex,
{
    match &regex.kind {
        RegexKind::Concat { ops, .. } => {
            if ops.len() > 0 {
                match &ops[0].kind {
                    RegexKind::Predicate { elem, .. } => match get_element(&module.elements, *elem) {
                        Some(e) => match &e.kind {
                            ElementKind::Predicate { .. } => *elem,
                            _ => None,
                        },
                        None => None,
                    },
                    _ => None,
                }
            } else {
                None
            }
        },
        RegexKind::Paren { op } => guard_of(module, op),
        _ => None,
    }
}

/// Whether the branch `regex` may be taken as far as its predicate goes.
fn guard_holds(module: &Module, inp: &Input, regex: &Regex) -> (b: bool)
    ensures
        b == semantics::guard_holds(module, inp, regex),
{
    match guard_of(module, regex) {
        Some(at) => at >= inp.truths.len() || inp.truths[at],
        None => true,
    }
}

/// Whether the branch `op` is taken on the kind `la`.
fn takes(module: &Module, inp: &Input, op: &Regex, la: Symbol) -> (b: bool)
    ensures
        b == semantics::takes(module, inp, op, la),
{
    match &op.kind {
        RegexKind::ErrorHandler { .. } => false,
        _ => accepts(inp, &op.predict, la) && guard_holds(module, inp, op),
    }
}

/// The place of the branch that a dispatch over `ops` takes on `la`, or the
/// length of `ops`.
pub fn selected(module: &Module, inp: &Input, ops: &Vec<Regex>, la: Symbol) -> (at: usize)
    ensures
        at == semantics::selected(module, inp, ops@, la, 0),
        at <= ops.len(),
{
    let mut i: usize = 0;
    while i < ops.len()
        invariant
            i <= ops.len(),
            semantics::selected(module, inp, ops@, la, i as nat) == semantics::selected(
                module,
                inp,
                ops@,
                la,
                0,
            ),
        decreases ops.len() - i,
    {
        if takes(module, inp, &ops[i], la) {
            return i;
        }
        i += 1;
    }
    i
}

/// Recovery from `pos` on: whether parsing goes on, and where recovery
/// stopped.
pub fn resync(inp: &Input, follow: &SymbolSet, cancel: &SymbolSet, pos: usize) -> (r: (bool, usize))
    ensures
        semantics::resync(inp, follow@, cancel@, pos as nat) == (if r.0 {
            Resync::Resume { pos: r.1 as nat }
        } else {
            Resync::GiveUp { pos: r.1 as nat }
        }),
{
    let mut at: usize = pos;
    loop
        invariant
            semantics::resync(inp, follow@, cancel@, at as nat) == semantics::resync(
                inp,
                follow@,
                cancel@,
                pos as nat,
            ),
        decreases inp.tokens.len() - at,
    {
        let la = lookahead(inp, at);
        if accepts(inp, follow, la) {
            return (true, at);
        }
        if !cancel.is_empty() && cancel.contains(la) {
            return (false, at);
        }
        if la == inp.eof || at >= inp.tokens.len() {
            return (false, at);
        }
        at += 1;
    }
}

/// What the depth guard of a rule that is entered at `depth` does.
pub fn depth_guard(module: &Module, depth: u32) -> (r: Option<Outcome>)
    ensures
        match r {
            Some(o) => semantics::depth_guard(module, depth as nat) == Some(o@),
            None => semantics::depth_guard(module, depth as nat) is None,
        },
{
    if depth > limit_of(module) as u32 {
        match error_type_of(module) {
            Some(_) => Some(Outcome::ParserError),
            None => Some(Outcome::Abort),
        }
    } else {
        None
    }
}

/// The taking of one token of the kind `kind`.
pub fn take(inp: &Input, kind: Symbol, pos: usize) -> (r: Outcome)
    ensures
        r@ == semantics::take(inp, kind, pos as nat),
{
    if lookahead(inp, pos) == kind {
        Outcome::Parsed { pos: advance(inp, pos) }
    } else {
        let mut expected: Vec<Symbol> = Vec::new();
        expected.push(kind);
        assert(expected@ =~= seq![kind]);
        Outcome::SyntaxError { expected, pos }
    }
}

/// The run of `regex` from the token at `pos`, at the depth `depth`, with
/// the fuel `fuel`.
pub fn run(module: &Module, inp: &Input, regex: &Regex, pos: usize, depth: u32, fuel: usize) -> (r:
    Outcome)
    ensures
        r@ == semantics::run(module, inp, regex, pos as nat, depth as nat, fuel as nat),
    decreases fuel, *regex, 0nat,
{
    match &regex.kind {
        RegexKind::Id { name, elem } => match get_element(&module.elements, *elem) {
            Some(e) => match &e.kind {
                ElementKind::Rule { regex: body, .. } => {
                    if depth == u32::MAX {
                        return match error_type_of(module) {
                            Some(_) => Outcome::ParserError,
                            None => Outcome::Abort,
                        };
                    }
                    match depth_guard(module, depth + 1) {
                        Some(r) => r,
                        None => {
                            if fuel == 0 {
                                Outcome::Unfinished
                            } else {
                                run(module, inp, body, pos, depth + 1, fuel - 1)
                            }
                        },
                    }
                },
                ElementKind::Token { .. } => take(inp, *name, pos),
                _ => Outcome::Parsed { pos },
            },
            None => Outcome::Parsed { pos },
        },
        RegexKind::Str { elem, .. } => match get_element(&module.elements, *elem) {
            Some(e) => match &e.kind {
                ElementKind::Token { name, .. } => take(inp, *name, pos),
                _ => Outcome::Parsed { pos },
            },
            None => Outcome::Parsed { pos },
        },
        RegexKind::Concat { ops, error } => {
            let body = run_sequence(module, inp, ops, pos, depth, fuel);
            match error {
                Some(e) => recover(module, inp, e, body, depth, fuel),
                None => body,
            }
        },
        RegexKind::Or { ops, error } => {
            let body = run_dispatch(module, inp, ops, pos, depth, fuel);
            match error {
                Some(e) => recover(module, inp, e, body, depth, fuel),
                None => body,
            }
        },
        RegexKind::Star { op } => run_star(module, inp, regex, op, pos, depth, fuel),
        RegexKind::Plus { op } => run_plus(module, inp, regex, op, pos, depth, fuel),
        RegexKind::Option { op } => {
            let la = lookahead(inp, pos);
            if accepts(inp, &op.first, la) && guard_holds(module, inp, op) {
                run(module, inp, op, pos, depth, fuel)
            } else if accepts(inp, &regex.follow, la) {
                Outcome::Parsed { pos }
            } else {
                Outcome::SyntaxError { expected: expected(inp, &regex.predict), pos }
            }
        },
        RegexKind::Paren { op } => run(module, inp, op, pos, depth, fuel),
        RegexKind::Action { val, elem } => {
            if has_code(module, *elem, false) {
                Outcome::Parsed { pos }
            } else {
                Outcome::Missing {
                    handler: false,
                    val: *val,
                    line: regex.range.start.line,
                    column: regex.range.start.column,
                }
            }
        },
        RegexKind::ErrorHandler { val, elem } => {
            if has_code(module, *elem, true) {
                Outcome::Parsed { pos }
            } else {
                Outcome::Missing {
                    handler: true,
                    val: *val,
                    line: regex.range.start.line,
                    column: regex.range.start.column,
                }
            }
        },
        _ => Outcome::Parsed { pos },
    }
}

/// Whether `elem` leads to the code of an action or, if `handler`, of an
/// error handler.
fn has_code(module: &Module, elem: Option<usize>, handler: bool) -> (b: bool)
    ensures
        b == semantics::has_code(module, elem, handler),
{
    match get_element(&module.elements, elem) {
        Some(e) => match &e.kind {
            ElementKind::ErrorHandler { .. } => handler,
            ElementKind::Action { .. } => !handler,
            _ => false,
        },
        None => false,
    }
}

/// The run of the operands of a sequence.
fn run_sequence(
    module: &Module,
    inp: &Input,
    ops: &Vec<Regex>,
    pos: usize,
    depth: u32,
    fuel: usize,
) -> (r: Outcome)
    ensures
        r@ == semantics::run_sequence(
            module,
            inp,
            ops@,
            0,
            pos as nat,
            depth as nat,
            fuel as nat,
        ),
    decreases fuel, ops@, 0nat,
{
    let mut i: usize = 0;
    let mut at: usize = pos;
    while i < ops.len()
        invariant
            i <= ops.len(),
            semantics::run_sequence(
                module,
                inp,
                ops@,
                i as nat,
                at as nat,
                depth as nat,
                fuel as nat,
            ) == semantics::run_sequence(module, inp, ops@, 0, pos as nat, depth as nat, fuel as nat),
        decreases ops.len() - i,
    {
        let op = &ops[i];
        let first = match &op.kind {
            RegexKind::ErrorHandler { .. } => {
                if accepts(inp, &op.follow, lookahead(inp, at)) {
                    Outcome::Parsed { pos: at }
                } else {
                    Outcome::SyntaxError { expected: expected(inp, &op.follow), pos: at }
                }
            },
            _ => run(module, inp, op, at, depth, fuel),
        };
        match first {
            Outcome::Parsed { pos: next } => {
                at = next;
                i += 1;
            },
            other => {
                return other;
            },
        }
    }
    Outcome::Parsed { pos: at }
}

/// The run of an alternation.
fn run_dispatch(
    module: &Module,
    inp: &Input,
    ops: &Vec<Regex>,
    pos: usize,
    depth: u32,
    fuel: usize,
) -> (r: Outcome)
    ensures
        r@ == semantics::run_dispatch(module, inp, ops@, pos as nat, depth as nat, fuel as nat),
    decreases fuel, ops@, 0nat,
{
    let at = selected(module, inp, ops, lookahead(inp, pos));
    if at < ops.len() {
        run(module, inp, &ops[at], pos, depth, fuel)
    } else {
        let all = branch_expected(ops);
        Outcome::SyntaxError { expected: expected(inp, &all), pos }
    }
}

/// What becomes of the outcome `body` of a part that the handler `error`
/// catches.
fn recover(
    module: &Module,
    inp: &Input,
    error: &Regex,
    body: Outcome,
    depth: u32,
    fuel: usize,
) -> (r: Outcome)
    ensures
        r@ == semantics::recover(module, inp, error, body@, depth as nat, fuel as nat),
    decreases fuel, *error, 1nat,
{
    match body {
        Outcome::SyntaxError { expected, pos } => {
            if lookahead(inp, pos) == inp.eof {
                Outcome::SyntaxError { expected, pos }
            } else {
                let (resume, at) = resync(inp, &error.follow, &error.cancel, pos);
                if resume {
                    run(module, inp, error, at, depth, fuel)
                } else {
                    Outcome::SyntaxError { expected, pos: at }
                }
            }
        },
        other => other,
    }
}

/// The run of the repetition `regex` of `op`.
fn run_star(
    module: &Module,
    inp: &Input,
    regex: &Regex,
    op: &Regex,
    pos: usize,
    depth: u32,
    fuel: usize,
) -> (r: Outcome)
    ensures
        r@ == semantics::run_star(module, inp, regex, op, pos as nat, depth as nat, fuel as nat),
    decreases fuel, *op, 1nat,
{
    let mut at: usize = pos;
    let mut left: usize = fuel;
    loop
        invariant
            left <= fuel,
            semantics::run_star(module, inp, regex, op, at as nat, depth as nat, left as nat)
                == semantics::run_star(
                module,
                inp,
                regex,
                op,
                pos as nat,
                depth as nat,
                fuel as nat,
            ),
        decreases left,
    {
        let la = lookahead(inp, at);
        if accepts(inp, &op.first, la) && guard_holds(module, inp, op) {
            if left == 0 {
                return Outcome::Unfinished;
            }
            match run(module, inp, op, at, depth, left - 1) {
                Outcome::Parsed { pos: next } => {
                    at = next;
                    left = left - 1;
                },
                other => {
                    return other;
                },
            }
        } else if accepts(inp, &regex.follow, la) {
            return Outcome::Parsed { pos: at };
        } else {
            return Outcome::SyntaxError { expected: expected(inp, &regex.predict), pos: at };
        }
    }
}

/// The run of the repetition `regex` of `op` that runs at least once.
fn run_plus(
    module: &Module,
    inp: &Input,
    regex: &Regex,
    op: &Regex,
    pos: usize,
    depth: u32,
    fuel: usize,
) -> (r: Outcome)
    ensures
        r@ == semantics::run_plus(
            module,
            inp,
            regex,
            op,
            true,
            pos as nat,
            depth as nat,
            fuel as nat,
        ),
    decreases fuel, *op, 1nat,
{
    let mut at: usize = pos;
    let mut left: usize = fuel;
    let mut is_first = true;
    loop
        invariant
            left <= fuel,
            semantics::run_plus(
                module,
                inp,
                regex,
                op,
                is_first,
                at as nat,
                depth as nat,
                left as nat,
            ) == semantics::run_plus(
                module,
                inp,
                regex,
                op,
                true,
                pos as nat,
                depth as nat,
                fuel as nat,
            ),
        decreases left,
    {
        let la = lookahead(inp, at);
        if accepts(inp, &op.first, la) && guard_holds(module, inp, op) {
            if left == 0 {
                return Outcome::Unfinished;
            }
            match run(module, inp, op, at, depth, left - 1) {
                Outcome::Parsed { pos: next } => {
                    at = next;
                    left = left - 1;
                    is_first = false;
                },
                other => {
                    return other;
                },
            }
        } else if accepts(inp, &regex.follow, la) && !is_first {
            return Outcome::Parsed { pos: at };
        } else if is_first {
            return Outcome::SyntaxError { expected: expected(inp, &op.first), pos: at };
        } else {
            let mut all = expected(inp, &op.first);
            let mut rest = expected(inp, &regex.follow);
            all.append(&mut rest);
            return Outcome::SyntaxError { expected: all, pos: at };
        }
    }
}

/// What the entry makes of the outcome `start` of the start rule.
pub fn entry(inp: &Input, start: Outcome) -> (r: Outcome)
    ensures
        r@ == semantics::entry(inp, start@),
{
    match start {
        Outcome::Parsed { pos } => {
            if lookahead(inp, pos) != inp.eof {
                let mut expected: Vec<Symbol> = Vec::new();
                expected.push(inp.eof);
                assert(expected@ =~= seq![inp.eof]);
                Outcome::SyntaxError { expected, pos }
            } else {
                Outcome::Parsed { pos }
            }
        },
        other => other,
    }
}

/// The run of the parser on `inp` with the fuel `fuel`. It is `None` where
/// the module has no start rule.
pub fn parse(module: &Module, inp: &Input, fuel: usize) -> (r: Option<Outcome>)
    ensures
        match r {
            Some(o) => semantics::start_body(module) is Some && o@ == semantics::parse(
                module,
                inp,
                fuel as nat,
            ),
            None => semantics::start_body(module) is None,
        },
{
    match get_element(&module.elements, module.start) {
        Some(e) => match &e.kind {
            ElementKind::Start { regex, .. } => Some(
                entry(inp, run(module, inp, regex, 0, 0, fuel)),
            ),
            _ => None,
        },
        None => None,
    }
}

/// The place of the first token with the name `kind` among the elements;
/// the number of elements if there is none.
fn token_place(module: &Module, kind: Symbol) -> (at: usize)
    ensures
        at == semantics::token_place(module, kind, 0),
        at <= module.elements.len(),
{
    let mut i: usize = 0;
    while i < module.elements.len()
        invariant
            i <= module.elements.len(),
            semantics::token_place(module, kind, i as nat) == semantics::token_place(
                module,
                kind,
                0,
            ),
        decreases module.elements.len() - i,
    {
        match &module.elements[i].kind {
            ElementKind::Token { name, .. } => {
                if *name == kind {
                    return i;
                }
            },
            _ => {},
        }
        i += 1;
    }
    i
}

/// How the kind `kind` is shown.
pub fn label<'a>(module: &'a Module, inp: &Input, kind: Symbol) -> (r: &'a str)
    ensures
        r@ == semantics::label(module, inp, kind),
{
    if kind == inp.eof {
        return "end of file";
    }
    let at = token_place(module, kind);
    if at < module.elements.len() {
        match &module.elements[at].kind {
            ElementKind::Token { name, sym, .. } => {
                if sym.is_empty() {
                    module.table.name(*name)
                } else {
                    module.table.name(*sym)
                }
            },
            _ => module.table.name(kind),
        }
    } else {
        module.table.name(kind)
    }
}

/// Appends `label` to `out` as a message names it.
fn push_quoted(out: &mut String, label: &str)
    ensures
        final(out)@ == old(out)@ + semantics::quoted(label@),
{
    let v = chars_of(label);
    if v.len() > 2 && v[0] == '<' && v[v.len() - 1] == '>' {
        out.append(label);
    } else {
        out.append("'");
        out.append(label);
        out.append("'");
        assert(out@ =~= old(out)@ + ("'"@ + label@ + "'"@));
    }
}

/// The message of a failure, if `outcome` is one, as the diagnostics that a
/// project starts from word it.
pub fn message(module: &Module, inp: &Input, outcome: &Outcome) -> (r: Option<String>)
    ensures
        match r {
            Some(text) => semantics::message(module, inp, outcome@) == Some(text@),
            None => semantics::message(module, inp, outcome@) is None,
        },
{
    match outcome {
        Outcome::SyntaxError { expected, .. } => {
            let mut text = if expected.len() > 1 {
                String::from_str("invalid syntax, expected one of: ")
            } else {
                String::from_str("invalid syntax, expected: ")
            };
            let ghost head = text@;
            let mut i: usize = 0;
            assert(text@ =~= head + semantics::listed(module, inp, expected@, 0));
            while i < expected.len()
                invariant
                    i <= expected.len(),
                    text@ == head + semantics::listed(module, inp, expected@, i as nat),
                decreases expected.len() - i,
            {
                let ghost done = semantics::listed(module, inp, expected@, i as nat);
                let ghost name = semantics::quoted(semantics::label(module, inp, expected@[i as int]));
                if i > 0 {
                    text.append(", ");
                }
                push_quoted(&mut text, label(module, inp, expected[i]));
                proof {
                    if i == 0 {
                        assert(done =~= Seq::<char>::empty());
                        assert(text@ =~= head + name);
                    } else {
                        assert(text@ =~= head + (done + ", "@ + name));
                    }
                }
                i += 1;
            }
            text.append(".");
            Some(text)
        },
        Outcome::ParserError => Some(String::from_str("exceeded recursion depth limit")),
        Outcome::Abort => Some(String::from_str("exceeded recursion depth limit")),
        Outcome::Missing { handler, val, line, column } => {
            let mut text = String::from_str("not yet implemented: ");
            text.append(if *handler { "error handler " } else { "semantic action " });
            push_decimal(&mut text, *val);
            text.append(" at ");
            push_decimal(&mut text, *line as u64);
            text.append(":");
            push_decimal(&mut text, *column as u64);
            Some(text)
        },
        _ => None,
    }
}

} // verus!

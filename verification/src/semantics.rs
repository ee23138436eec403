//! What a generated parser does with a sequence of tokens.
//!
//! The back end writes this behaviour as text. Here it is a function of the
//! grammar and the tokens, so that it can be stated, proved and run: which
//! branch a dispatch takes, when a repetition ends, how a failure is
//! recovered from, when the depth guard strikes, and what the entry demands.
//! User code is left out: an action that has code does nothing, and a
//! predicate holds or does not for the whole run.
//!
//! A run is given fuel, since a grammar may loop without taking a token.
//! Each call of a rule and each round of a repetition takes one unit from
//! what runs within it and after it; where none is left, the run is cut
//! short.

use crate::backend::generator::{default_of, error_text, pattern_of, pattern_text};
use crate::backend::items::{declared_error_type, depth_limit};
use crate::backend::regex::{branch_predicts, predicate_text, predicts};
use crate::backend::text::decimal;
use crate::frontend::ast::{element_at, ElementKind, Module, Regex, RegexKind};
use crate::frontend::symbol::{in_order, lemma_in_order, StringTable, Symbol};
use vstd::prelude::*;

verus! {

/// What a parser runs on.
#[derive(Debug)]
pub struct Input {
    /// The kinds of the tokens, in order.
    pub tokens: Vec<Symbol>,
    /// The handle that stands for the end of input in the sets of the
    /// grammar. It is the kind of the token after the last.
    pub eof: Symbol,
    /// For each place in the module's list of elements, whether the
    /// predicate at that place holds. One beyond the end holds.
    pub truths: Vec<bool>,
}

/// How the run of a construct ends.
pub enum Run {
    /// It succeeded, and the current token is the one at `pos`.
    Parsed { pos: nat },
    /// A syntax error: one of `expected` should have stood where the failure
    /// arose. The current token is the one at `pos`.
    SyntaxError { expected: Seq<Symbol>, pos: nat },
    /// The depth limit was exceeded, and the grammar has an error type: the
    /// parser returns a fatal error.
    ParserError,
    /// The depth limit was exceeded, and the grammar has no error type: the
    /// parser stops.
    Abort,
    /// The run came to an action or an error handler that has no code: the
    /// parser stops, and names what is missing by its number and its place.
    Missing { handler: bool, val: u64, line: u32, column: u32 },
    /// The run was cut short: it took more steps than it was given.
    Unfinished,
}

/// The kind of the token at `pos`.
pub open spec fn lookahead(inp: &Input, pos: nat) -> Symbol {
    if pos < inp.tokens@.len() {
        inp.tokens@[pos as int]
    } else {
        inp.eof
    }
}

/// The place after the token at `pos`. There is none after the end.
pub open spec fn advance(inp: &Input, pos: nat) -> nat {
    if pos < inp.tokens@.len() {
        pos + 1
    } else {
        pos
    }
}

/// Whether the pattern of `set` matches the kind `la`. The empty set is
/// matched by the end of input.
pub open spec fn accepts(inp: &Input, set: Seq<Symbol>, la: Symbol) -> bool {
    if set.len() == 0 {
        la == inp.eof
    } else {
        set.contains(la)
    }
}

/// The tokens that an error lists for `set`. For the empty set it lists the
/// end of input.
pub open spec fn expected(inp: &Input, set: Seq<Symbol>) -> Seq<Symbol> {
    if set.len() == 0 {
        seq![inp.eof]
    } else {
        set
    }
}

/// The place of the predicate that guards the branch `regex`, if one does.
pub open spec fn guard_of(m: &Module, regex: &Regex) -> Option<usize>
    decreases regex,
{
    match regex.kind {
        RegexKind::Concat { ops, error } => if ops.len() > 0 {
            match ops[0].kind {
                RegexKind::Predicate { val, elem } => match element_at(m.elements@, elem) {
                    Some(e) => if e.kind is Predicate {
                        elem
                    } else {
                        None
                    },
                    None => None,
                },
                _ => None,
            }
        } else {
            None
        },
        RegexKind::Paren { op } => guard_of(m, &*op),
        _ => None,
    }
}

/// Whether the branch `regex` may be taken as far as its predicate goes.
pub open spec fn guard_holds(m: &Module, inp: &Input, regex: &Regex) -> bool {
    match guard_of(m, regex) {
        Some(at) => at >= inp.truths@.len() || inp.truths@[at as int],
        None => true,
    }
}

/// Whether the branch `op` is taken on the kind `la`.
pub open spec fn takes(m: &Module, inp: &Input, op: &Regex, la: Symbol) -> bool {
    !(op.kind is ErrorHandler) && accepts(inp, op.predict@, la) && guard_holds(m, inp, op)
}

/// The place of the branch that a dispatch over `ops` takes on `la`, looking
/// from the place `from` on: the first that is taken. It is the length of
/// `ops` if none is.
pub open spec fn selected(m: &Module, inp: &Input, ops: Seq<Regex>, la: Symbol, from: nat) -> nat
    decreases ops.len() - from,
{
    if from >= ops.len() {
        ops.len()
    } else if takes(m, inp, &ops[from as int], la) {
        from
    } else {
        selected(m, inp, ops, la, from + 1)
    }
}

/// What recovery does with the tokens from `pos` on.
pub enum Resync {
    /// The token at `pos` can follow: the handler runs, and parsing goes on.
    Resume { pos: nat },
    /// The token at `pos` cancels recovery, or is the end of input: the
    /// failure is passed on.
    GiveUp { pos: nat },
}

/// Recovery from `pos` on: it stops at the first token that can follow the
/// handler, that cancels recovery, or that ends the input, and skips all
/// others. The end of input is never skipped.
pub open spec fn resync(inp: &Input, follow: Seq<Symbol>, cancel: Seq<Symbol>, pos: nat) -> Resync
    decreases inp.tokens@.len() - pos,
{
    let la = lookahead(inp, pos);
    if accepts(inp, follow, la) {
        Resync::Resume { pos }
    } else if cancel.len() > 0 && cancel.contains(la) {
        Resync::GiveUp { pos }
    } else if la == inp.eof || pos >= inp.tokens@.len() {
        Resync::GiveUp { pos }
    } else {
        resync(inp, follow, cancel, pos + 1)
    }
}

/// What the depth guard of a rule that is entered at `depth` does: nothing
/// up to the limit; beyond it, a fatal error, which it marks as such, or a
/// stop.
pub open spec fn depth_guard(m: &Module, depth: nat) -> Option<Run> {
    if depth > depth_limit(m) {
        if declared_error_type(m) is Some {
            Some(Run::ParserError)
        } else {
            Some(Run::Abort)
        }
    } else {
        None
    }
}

/// The run of `regex` from the token at `pos`, at the depth `depth`, with
/// the fuel `fuel`.
///
/// - A token is taken if it is the current one, and else expected.
/// - A rule is entered one level deeper, past its depth guard.
/// - A sequence runs its operands in order and fails where the first of
///   them fails.
/// - An alternation runs the branch that its dispatch takes; if it takes
///   none, all tokens that predict a branch are expected.
/// - A sequence or alternation with an error handler recovers from a syntax
///   error, and from nothing else.
/// - A repetition runs its operand while the current token begins it.
/// - An optional part runs its operand if the current token begins it.
/// - An action or an error handler does nothing; where its code is missing,
///   the parser stops.
pub open spec fn run(m: &Module, inp: &Input, regex: &Regex, pos: nat, depth: nat, fuel: nat) -> Run
    decreases fuel, regex, 0nat,
{
    match regex.kind {
        RegexKind::Id { name, elem } => match element_at(m.elements@, elem) {
            Some(e) => match e.kind {
                ElementKind::Rule { name: rule, ret, pars, regex: body, action } => match depth_guard(
                    m,
                    depth + 1,
                ) {
                    Some(r) => r,
                    None => if fuel == 0 {
                        Run::Unfinished
                    } else {
                        run(m, inp, &body, pos, depth + 1, (fuel - 1) as nat)
                    },
                },
                ElementKind::Token { name: token, ty, sym } => take(inp, name, pos),
                _ => Run::Parsed { pos },
            },
            None => Run::Parsed { pos },
        },
        RegexKind::Str { lit, elem } => match element_at(m.elements@, elem) {
            Some(e) => match e.kind {
                ElementKind::Token { name, ty, sym } => take(inp, name, pos),
                _ => Run::Parsed { pos },
            },
            None => Run::Parsed { pos },
        },
        RegexKind::Concat { ops, error } => match error {
            Some(e) => recover(
                m,
                inp,
                &*e,
                run_sequence(m, inp, ops@, 0, pos, depth, fuel),
                depth,
                fuel,
            ),
            None => run_sequence(m, inp, ops@, 0, pos, depth, fuel),
        },
        RegexKind::Or { ops, error } => match error {
            Some(e) => recover(m, inp, &*e, run_dispatch(m, inp, ops@, pos, depth, fuel), depth, fuel),
            None => run_dispatch(m, inp, ops@, pos, depth, fuel),
        },
        RegexKind::Star { op } => run_star(m, inp, regex, &*op, pos, depth, fuel),
        RegexKind::Plus { op } => run_plus(m, inp, regex, &*op, true, pos, depth, fuel),
        RegexKind::Option { op } => {
            let la = lookahead(inp, pos);
            if accepts(inp, op.first@, la) && guard_holds(m, inp, &*op) {
                run(m, inp, &*op, pos, depth, fuel)
            } else if accepts(inp, regex.follow@, la) {
                Run::Parsed { pos }
            } else {
                Run::SyntaxError { expected: expected(inp, regex.predict@), pos }
            }
        },
        RegexKind::Paren { op } => run(m, inp, &*op, pos, depth, fuel),
        RegexKind::Action { val, elem } => if has_code(m, elem, false) {
            Run::Parsed { pos }
        } else {
            Run::Missing {
                handler: false,
                val,
                line: regex.range.start.line,
                column: regex.range.start.column,
            }
        },
        RegexKind::ErrorHandler { val, elem } => if has_code(m, elem, true) {
            Run::Parsed { pos }
        } else {
            Run::Missing {
                handler: true,
                val,
                line: regex.range.start.line,
                column: regex.range.start.column,
            }
        },
        _ => Run::Parsed { pos },
    }
}

/// Whether `elem` leads to the code of an action or, if `handler`, of an
/// error handler.
pub open spec fn has_code(m: &Module, elem: Option<usize>, handler: bool) -> bool {
    match element_at(m.elements@, elem) {
        Some(e) => if handler {
            e.kind is ErrorHandler
        } else {
            e.kind is Action
        },
        None => false,
    }
}

/// The taking of one token of the kind `kind`.
pub open spec fn take(inp: &Input, kind: Symbol, pos: nat) -> Run {
    if lookahead(inp, pos) == kind {
        Run::Parsed { pos: advance(inp, pos) }
    } else {
        Run::SyntaxError { expected: seq![kind], pos }
    }
}

/// The run of the operands of a sequence from the place `from` on. An error
/// handler among them demands a token that can follow it.
pub open spec fn run_sequence(
    m: &Module,
    inp: &Input,
    ops: Seq<Regex>,
    from: nat,
    pos: nat,
    depth: nat,
    fuel: nat,
) -> Run
    decreases fuel, ops, ops.len() - from,
{
    if from >= ops.len() {
        Run::Parsed { pos }
    } else {
        let op = &ops[from as int];
        let first = if op.kind is ErrorHandler {
            if accepts(inp, op.follow@, lookahead(inp, pos)) {
                Run::Parsed { pos }
            } else {
                Run::SyntaxError { expected: expected(inp, op.follow@), pos }
            }
        } else {
            run(m, inp, op, pos, depth, fuel)
        };
        match first {
            Run::Parsed { pos: next } => run_sequence(m, inp, ops, from + 1, next, depth, fuel),
            other => other,
        }
    }
}

/// The run of an alternation: of the branch that the dispatch takes on the
/// current token. If it takes none, the tokens that predict a branch are
/// expected, in order.
pub open spec fn run_dispatch(
    m: &Module,
    inp: &Input,
    ops: Seq<Regex>,
    pos: nat,
    depth: nat,
    fuel: nat,
) -> Run
    decreases fuel, ops, 0nat,
{
    let at = selected(m, inp, ops, lookahead(inp, pos), 0);
    if 0 <= at < ops.len() {
        run(m, inp, &ops[at as int], pos, depth, fuel)
    } else {
        Run::SyntaxError { expected: expected(inp, in_order(branch_predicts(ops))), pos }
    }
}

/// What becomes of the outcome `body` of a part that the handler `error`
/// catches. A syntax error at the end of input is passed on. From any other
/// syntax error the parser recovers: where a token can follow, the handler
/// runs and the part has succeeded; where recovery gives up, the error is
/// passed on as it was. Every other outcome stays: a fatal failure is
/// passed on whatever the current token. In the text the depth guard marks
/// the failure that it returns, and what follows a caught part asks for the
/// mark before anything else.
pub open spec fn recover(
    m: &Module,
    inp: &Input,
    error: &Regex,
    body: Run,
    depth: nat,
    fuel: nat,
) -> Run
    decreases fuel, error, 1nat,
{
    match body {
        Run::SyntaxError { expected, pos } => if lookahead(inp, pos) == inp.eof {
            body
        } else {
            match resync(inp, error.follow@, error.cancel@, pos) {
                Resync::Resume { pos: at } => run(m, inp, error, at, depth, fuel),
                Resync::GiveUp { pos: at } => Run::SyntaxError { expected, pos: at },
            }
        },
        other => other,
    }
}

/// The run of the repetition `regex` of `op`.
pub open spec fn run_star(
    m: &Module,
    inp: &Input,
    regex: &Regex,
    op: &Regex,
    pos: nat,
    depth: nat,
    fuel: nat,
) -> Run
    decreases fuel, op, 1nat,
{
    let la = lookahead(inp, pos);
    if accepts(inp, op.first@, la) && guard_holds(m, inp, op) {
        if fuel == 0 {
            Run::Unfinished
        } else {
            match run(m, inp, op, pos, depth, (fuel - 1) as nat) {
                Run::Parsed { pos: next } => run_star(
                    m,
                    inp,
                    regex,
                    op,
                    next,
                    depth,
                    (fuel - 1) as nat,
                ),
                other => other,
            }
        }
    } else if accepts(inp, regex.follow@, la) {
        Run::Parsed { pos }
    } else {
        Run::SyntaxError { expected: expected(inp, regex.predict@), pos }
    }
}

/// The run of the repetition `regex` of `op` that runs at least once.
/// `is_first` tells whether no round has run yet: then only a token that
/// begins `op` is expected; later, also one that can follow.
pub open spec fn run_plus(
    m: &Module,
    inp: &Input,
    regex: &Regex,
    op: &Regex,
    is_first: bool,
    pos: nat,
    depth: nat,
    fuel: nat,
) -> Run
    decreases fuel, op, 1nat,
{
    let la = lookahead(inp, pos);
    if accepts(inp, op.first@, la) && guard_holds(m, inp, op) {
        if fuel == 0 {
            Run::Unfinished
        } else {
            match run(m, inp, op, pos, depth, (fuel - 1) as nat) {
                Run::Parsed { pos: next } => run_plus(
                    m,
                    inp,
                    regex,
                    op,
                    false,
                    next,
                    depth,
                    (fuel - 1) as nat,
                ),
                other => other,
            }
        }
    } else if accepts(inp, regex.follow@, la) && !is_first {
        Run::Parsed { pos }
    } else if is_first {
        Run::SyntaxError { expected: expected(inp, op.first@), pos }
    } else {
        Run::SyntaxError { expected: expected(inp, op.first@) + expected(inp, regex.follow@), pos }
    }
}

/// What the entry makes of the outcome `start` of the start rule: after
/// success it demands the end of input.
pub open spec fn entry(inp: &Input, start: Run) -> Run {
    match start {
        Run::Parsed { pos } => if lookahead(inp, pos) != inp.eof {
            Run::SyntaxError { expected: seq![inp.eof], pos }
        } else {
            start
        },
        other => other,
    }
}

/// The body of the start rule, if `m.start` leads to one.
pub open spec fn start_body(m: &Module) -> Option<Regex> {
    match element_at(m.elements@, m.start) {
        Some(e) => match e.kind {
            ElementKind::Start { ret, pars, regex, action } => Some(regex),
            _ => None,
        },
        None => None,
    }
}

/// The run of the parser with the fuel `fuel`: of the start rule at depth 0
/// from the first token, and of the entry's demand after it.
pub open spec fn parse(m: &Module, inp: &Input, fuel: nat) -> Run
    recommends
        start_body(m) is Some,
{
    entry(inp, run(m, inp, &start_body(m)->0, 0, 0, fuel))
}

/// The place of the first token with the name `kind` among the elements
/// from `from` on; the number of elements if there is none.
pub open spec fn token_place(m: &Module, kind: Symbol, from: nat) -> nat
    decreases m.elements@.len() - from,
{
    if from >= m.elements@.len() {
        m.elements@.len()
    } else {
        match m.elements@[from as int].kind {
            ElementKind::Token { name, ty, sym } => if name == kind {
                from
            } else {
                token_place(m, kind, from + 1)
            },
            _ => token_place(m, kind, from + 1),
        }
    }
}

/// How the kind `kind` is shown: the end of input as such, a token by the
/// symbol that it declares or else by its name, and any other kind by its
/// name.
pub open spec fn label(m: &Module, inp: &Input, kind: Symbol) -> Seq<char> {
    let at = token_place(m, kind, 0);
    if kind == inp.eof {
        "end of file"@
    } else if at < m.elements@.len() {
        match m.elements@[at as int].kind {
            ElementKind::Token { name, ty, sym } => if sym.is_empty() {
                m.table.name_of(name)
            } else {
                m.table.name_of(sym)
            },
            _ => m.table.name_of(kind),
        }
    } else {
        m.table.name_of(kind)
    }
}

/// A label as a message names it: as it is if it stands in angle brackets
/// around something, and else in quotes.
pub open spec fn quoted(label: Seq<char>) -> Seq<char> {
    if label.len() > 2 && label[0] == '<' && label.last() == '>' {
        label
    } else {
        "'"@ + label + "'"@
    }
}

/// The first `n` of the `kinds`, each as a message names it, with a comma
/// and a space between each two.
pub open spec fn listed(m: &Module, inp: &Input, kinds: Seq<Symbol>, n: nat) -> Seq<char>
    decreases n,
{
    if n == 0 || n > kinds.len() {
        Seq::empty()
    } else if n == 1 {
        quoted(label(m, inp, kinds[0]))
    } else {
        listed(m, inp, kinds, (n - 1) as nat) + ", "@ + quoted(label(m, inp, kinds[n - 1]))
    }
}

/// The message of a failure, as the diagnostics that a project starts from
/// word it: of a syntax error, what was expected, as one thing or as one of
/// several; of a fatal failure, that the depth limit was exceeded; of
/// missing code, what is missing. A run that has not failed has none.
pub open spec fn message(m: &Module, inp: &Input, run: Run) -> Option<Seq<char>> {
    match run {
        Run::SyntaxError { expected, pos } => Some(
            (if expected.len() > 1 {
                "invalid syntax, expected one of: "@
            } else {
                "invalid syntax, expected: "@
            }) + listed(m, inp, expected, expected.len()) + "."@,
        ),
        Run::ParserError => Some("exceeded recursion depth limit"@),
        Run::Abort => Some("exceeded recursion depth limit"@),
        Run::Missing { handler, val, line, column } => Some(
            "not yet implemented: "@ + (if handler {
                "error handler "@
            } else {
                "semantic action "@
            }) + decimal(val as nat) + " at "@ + decimal(line as nat) + ":"@ + decimal(column as nat),
        ),
        _ => None,
    }
}

/// Whether no token predicts two of the branches among `ops`.
pub open spec fn disjoint_branches(ops: Seq<Regex>) -> bool {
    forall|i: int, j: int, la: Symbol|
        0 <= i < j < ops.len() ==> !(#[trigger] predicts(&ops[i], la) && #[trigger] predicts(
            &ops[j],
            la,
        ))
}

/// Whether no branch among the first `n` of `ops` that has an empty set is
/// taken on `la`. The empty set is written as the pattern of the end of
/// input, so such a branch is taken there, if its predicate holds.
pub open spec fn no_empty_branch_taken(
    m: &Module,
    inp: &Input,
    ops: Seq<Regex>,
    la: Symbol,
    n: int,
) -> bool {
    forall|k: int|
        0 <= k < n && k < ops.len() && (#[trigger] ops[k]).predict@.len() == 0 ==> !takes(
            m,
            inp,
            &ops[k],
            la,
        )
}

/// The dispatch takes no branch before the place `from`.
proof fn lemma_selected_skips(m: &Module, inp: &Input, ops: Seq<Regex>, la: Symbol, from: nat)
    requires
        from <= ops.len(),
        forall|k: int| 0 <= k < from ==> !takes(m, inp, &ops[k], la),
    ensures
        selected(m, inp, ops, la, 0) == selected(m, inp, ops, la, from),
    decreases from,
{
    if from > 0 {
        lemma_selected_skips(m, inp, ops, la, (from - 1) as nat);
    }
}

/// Of an alternation whose branches are disjoint, on a token that predicts
/// the branch at `at`, whose predicate holds: the dispatch takes exactly
/// that branch, and the token predicts no other. Left out is only an
/// alternation in which an earlier branch with an empty set is taken.
pub proof fn lemma_dispatch_takes_the_one_branch(
    m: &Module,
    inp: &Input,
    ops: Seq<Regex>,
    la: Symbol,
    at: int,
)
    requires
        disjoint_branches(ops),
        0 <= at < ops.len(),
        predicts(&ops[at], la),
        guard_holds(m, inp, &ops[at]),
        no_empty_branch_taken(m, inp, ops, la, at),
    ensures
        selected(m, inp, ops, la, 0) == at,
        forall|j: int| 0 <= j < ops.len() && j != at ==> !predicts(&ops[j], la),
{
    assert forall|j: int| 0 <= j < ops.len() && j != at implies !predicts(&ops[j], la) by {
        if j < at {
            assert(!(predicts(&ops[j], la) && predicts(&ops[at], la)));
        } else {
            assert(!(predicts(&ops[at], la) && predicts(&ops[j], la)));
        }
    }
    assert forall|k: int| 0 <= k < at implies !takes(m, inp, &ops[k], la) by {
        if ops[k].predict@.len() > 0 {
            assert(!predicts(&ops[k], la));
        }
    }
    lemma_selected_skips(m, inp, ops, la, at as nat);
    assert(ops[at].predict@.len() > 0);
    assert(takes(m, inp, &ops[at], la));
}

/// Of an alternation, on a token that predicts none of its branches: the
/// dispatch takes no branch, and the run fails where it stands, expecting
/// the tokens that predict some branch. Left out is only an alternation in
/// which a branch with an empty set is taken.
pub proof fn lemma_dispatch_fails_outside_the_branches(
    m: &Module,
    inp: &Input,
    ops: Seq<Regex>,
    pos: nat,
    depth: nat,
    fuel: nat,
)
    requires
        !branch_predicts(ops).contains(lookahead(inp, pos)),
        no_empty_branch_taken(m, inp, ops, lookahead(inp, pos), ops.len() as int),
    ensures
        selected(m, inp, ops, lookahead(inp, pos), 0) == ops.len(),
        run_dispatch(m, inp, ops, pos, depth, fuel) == (Run::SyntaxError {
            expected: expected(inp, in_order(branch_predicts(ops))),
            pos,
        }),
        (exists|s: Symbol| branch_predicts(ops).contains(s)) ==> expected(
            inp,
            in_order(branch_predicts(ops)),
        ).to_set() == branch_predicts(ops),
{
    let la = lookahead(inp, pos);
    assert forall|k: int| 0 <= k < ops.len() implies !takes(m, inp, &ops[k], la) by {
        if ops[k].predict@.len() > 0 && !(ops[k].kind is ErrorHandler) {
            if ops[k].predict@.contains(la) {
                assert(predicts(&ops[k], la));
                assert(branch_predicts(ops).contains(la));
            }
        }
    }
    lemma_selected_skips(m, inp, ops, la, ops.len());
    lemma_in_order(branch_predicts(ops));
    if exists|s: Symbol| branch_predicts(ops).contains(s) {
        let s = choose|s: Symbol| branch_predicts(ops).contains(s);
        let q = in_order(branch_predicts(ops));
        assert(q.to_set().contains(s));
        assert(q.contains(s));
        assert(q.len() > 0);
    }
}

/// Of the entry, after a start rule that has succeeded with a token left
/// that is not the end of input: the parser fails there, expecting the end
/// of input.
pub proof fn lemma_entry_demands_the_end_of_input(m: &Module, inp: &Input, fuel: nat, pos: nat)
    requires
        start_body(m) is Some,
        run(m, inp, &start_body(m)->0, 0, 0, fuel) == (Run::Parsed { pos }),
        pos < inp.tokens@.len(),
        inp.tokens@[pos as int] != inp.eof,
    ensures
        parse(m, inp, fuel) == (Run::SyntaxError { expected: seq![inp.eof], pos }),
{
}

/// The call of a rule that would enter it beyond the depth limit fails
/// fatally, whatever the body of the rule and the tokens: with a fatal error
/// where the grammar has an error type, and else with a stop. A call that
/// enters the rule within the limit runs its body one level deeper.
pub proof fn lemma_depth_guard(
    m: &Module,
    inp: &Input,
    regex: &Regex,
    pos: nat,
    depth: nat,
    fuel: nat,
)
    requires
        regex.kind is Id,
        element_at(m.elements@, regex.kind->Id_elem) is Some,
        element_at(m.elements@, regex.kind->Id_elem)->0.kind is Rule,
    ensures
        depth + 1 > depth_limit(m) && declared_error_type(m) is Some ==> run(
            m,
            inp,
            regex,
            pos,
            depth,
            fuel,
        ) == Run::ParserError,
        depth + 1 > depth_limit(m) && declared_error_type(m) is None ==> run(
            m,
            inp,
            regex,
            pos,
            depth,
            fuel,
        ) == Run::Abort,
        depth + 1 <= depth_limit(m) && fuel > 0 ==> run(m, inp, regex, pos, depth, fuel) == run(
            m,
            inp,
            &element_at(m.elements@, regex.kind->Id_elem)->0.kind->Rule_regex,
            pos,
            depth + 1,
            (fuel - 1) as nat,
        ),
{
}

/// Where the handle for the end of input has the name `EOF`, a set is
/// written as the pattern and as the list of just those tokens that a run
/// accepts and expects for it.
pub proof fn lemma_written_set_is_the_expected(
    table: &StringTable,
    inp: &Input,
    set: Seq<Symbol>,
    level: nat,
)
    requires
        table.name_of(inp.eof) == "EOF"@,
    ensures
        pattern_text(table, set, level) == pattern_text(table, expected(inp, set), level),
        error_text(table, set, level) == error_text(table, expected(inp, set), level),
        forall|la: Symbol| accepts(inp, set, la) <==> expected(inp, set).contains(la),
{
    if set.len() == 0 {
        let one = seq![inp.eof];
        reveal_strlit("EOF");
        reveal_strlit("!()");
        reveal_strlit("pattern_");
        reveal_strlit("pattern_EOF!()");
        reveal_strlit("default_");
        reveal_strlit("default_EOF!()");
        assert(pattern_of(table, inp.eof) =~= "pattern_EOF!()"@);
        assert(default_of(table, inp.eof) =~= "default_EOF!()"@);
        assert(Seq::new(one.len(), |i: int| pattern_of(table, one[i]))[0] == pattern_of(
            table,
            inp.eof,
        ));
        assert(Seq::new(one.len(), |i: int| default_of(table, one[i]))[0] == default_of(
            table,
            inp.eof,
        ));
        assert forall|la: Symbol| accepts(inp, set, la) <==> one.contains(la) by {
            if la == inp.eof {
                assert(one[0] == la);
            }
        }
    }
}

/// A branch is written with a condition just where a run asks whether its
/// predicate holds.
pub proof fn lemma_guard_is_written(m: &Module, regex: &Regex)
    ensures
        guard_of(m, regex) is Some <==> predicate_text(m, regex).len() > 0,
    decreases regex,
{
    reveal_strlit(" if ");
    match regex.kind {
        RegexKind::Paren { op } => {
            lemma_guard_is_written(m, &*op);
        },
        _ => {},
    }
}

/// Where recovery stops, going by what it gives back.
pub open spec fn stop(r: Resync) -> nat {
    match r {
        Resync::Resume { pos } => pos,
        Resync::GiveUp { pos } => pos,
    }
}

/// Recovery skips only tokens that cannot follow the handler, do not cancel
/// recovery, and are not the end of input; and it stops at the first other
/// token: to go on where that token can follow, and else to give up.
pub proof fn lemma_resync_stops_at_the_first_boundary(
    inp: &Input,
    follow: Seq<Symbol>,
    cancel: Seq<Symbol>,
    pos: nat,
)
    ensures
        pos <= stop(resync(inp, follow, cancel, pos)),
        stop(resync(inp, follow, cancel, pos)) <= inp.tokens@.len() || stop(
            resync(inp, follow, cancel, pos),
        ) == pos,
        forall|k: nat|
            pos <= k < stop(resync(inp, follow, cancel, pos)) ==> !accepts(
                inp,
                follow,
                #[trigger] lookahead(inp, k),
            ) && !cancel.contains(lookahead(inp, k)) && lookahead(inp, k) != inp.eof,
        resync(inp, follow, cancel, pos) is Resume <==> accepts(
            inp,
            follow,
            lookahead(inp, stop(resync(inp, follow, cancel, pos))),
        ),
        resync(inp, follow, cancel, pos) is GiveUp ==> cancel.contains(
            lookahead(inp, stop(resync(inp, follow, cancel, pos))),
        ) || lookahead(inp, stop(resync(inp, follow, cancel, pos))) == inp.eof,
    decreases inp.tokens@.len() - pos,
{
    let la = lookahead(inp, pos);
    if !accepts(inp, follow, la) && !(cancel.len() > 0 && cancel.contains(la)) && !(la == inp.eof
        || pos >= inp.tokens@.len()) {
        lemma_resync_stops_at_the_first_boundary(inp, follow, cancel, pos + 1);
        let at = stop(resync(inp, follow, cancel, pos));
        assert forall|k: nat| pos <= k < at implies !accepts(
            inp,
            follow,
            #[trigger] lookahead(inp, k),
        ) && !cancel.contains(lookahead(inp, k)) && lookahead(inp, k) != inp.eof by {
            if k == pos {
                if cancel.len() == 0 {
                    assert(!cancel.contains(la));
                }
            }
        }
    }
}

/// Only a syntax error is recovered from: a fatal failure, a stop at
/// missing code, and a run that was cut short pass through every handler as
/// they are.
pub proof fn lemma_only_syntax_errors_are_recovered(
    m: &Module,
    inp: &Input,
    error: &Regex,
    body: Run,
    depth: nat,
    fuel: nat,
)
    requires
        !(body is SyntaxError),
    ensures
        recover(m, inp, error, body, depth, fuel) == body,
{
}

/// A sequence or alternation with an error handler whose operands fail
/// fatally fails fatally, whatever the current token and whatever can
/// follow the handler: no token is skipped and the handler does not run.
pub proof fn lemma_fatal_failure_passes_a_caught_part(
    m: &Module,
    inp: &Input,
    regex: &Regex,
    pos: nat,
    depth: nat,
    fuel: nat,
)
    requires
        match regex.kind {
            RegexKind::Concat { ops, error } => error is Some && run_sequence(
                m,
                inp,
                ops@,
                0,
                pos,
                depth,
                fuel,
            ) == Run::ParserError,
            RegexKind::Or { ops, error } => error is Some && run_dispatch(
                m,
                inp,
                ops@,
                pos,
                depth,
                fuel,
            ) == Run::ParserError,
            _ => false,
        },
    ensures
        run(m, inp, regex, pos, depth, fuel) == Run::ParserError,
{
    match regex.kind {
        RegexKind::Concat { ops, error } => {
            lemma_only_syntax_errors_are_recovered(
                m,
                inp,
                &*error->0,
                Run::ParserError,
                depth,
                fuel,
            );
        },
        RegexKind::Or { ops, error } => {
            lemma_only_syntax_errors_are_recovered(
                m,
                inp,
                &*error->0,
                Run::ParserError,
                depth,
                fuel,
            );
        },
        _ => {},
    }
}

/// A syntax error at the end of input is passed on by every handler as it
/// is.
pub proof fn lemma_no_recovery_at_the_end_of_input(
    m: &Module,
    inp: &Input,
    error: &Regex,
    expected: Seq<Symbol>,
    pos: nat,
    depth: nat,
    fuel: nat,
)
    requires
        lookahead(inp, pos) == inp.eof,
    ensures
        recover(m, inp, error, Run::SyntaxError { expected, pos }, depth, fuel) == (
        Run::SyntaxError { expected, pos }),
{
}

/// Of a repetition that runs at least once, on a token that neither begins
/// the operand nor ends the repetition: in the first round it fails
/// expecting what begins the operand, and nothing else; in a later round,
/// expecting that and what can follow.
pub proof fn lemma_plus_tells_the_first_round_from_later_ones(
    m: &Module,
    inp: &Input,
    regex: &Regex,
    op: &Regex,
    is_first: bool,
    pos: nat,
    depth: nat,
    fuel: nat,
)
    requires
        !accepts(inp, op.first@, lookahead(inp, pos)),
        is_first || !accepts(inp, regex.follow@, lookahead(inp, pos)),
    ensures
        run_plus(m, inp, regex, op, is_first, pos, depth, fuel) == (Run::SyntaxError {
            expected: if is_first {
                expected(inp, op.first@)
            } else {
                expected(inp, op.first@) + expected(inp, regex.follow@)
            },
            pos,
        }),
{
}

} // verus!

use lelwel::frontend::ast::{Element, ElementKind, Module, Regex, RegexKind};
use lelwel::frontend::symbol::{StringTable, Symbol, SymbolSet};
use lelwel::frontend::token::{Position, Range};
use lelwel::semantics::Input;
use lelwel::simulator::{label, message, parse, resync, run, selected, Outcome};

fn set(items: &[Symbol]) -> SymbolSet {
    let mut s = SymbolSet::new();
    for item in items {
        s.insert(*item);
    }
    s
}

fn node(kind: RegexKind, first: &[Symbol], follow: &[Symbol], predict: &[Symbol]) -> Regex {
    let at = Position { line: 1, column: 1 };
    Regex {
        kind,
        first: set(first),
        follow: set(follow),
        predict: set(predict),
        cancel: set(&[]),
        range: Range { start: at, end: at },
    }
}

/// A reference to the token `name`, which stands at the place `elem`.
fn token(name: Symbol, elem: usize) -> Regex {
    node(RegexKind::Id { name, elem: Some(elem) }, &[name], &[], &[name])
}

fn sequence(ops: Vec<Regex>, first: &[Symbol]) -> Regex {
    node(RegexKind::Concat { ops, error: None }, first, &[], first)
}

fn plain(kind: ElementKind) -> Element {
    Element { kind, used: true }
}

fn input(tokens: &[Symbol], eof: Symbol) -> Input {
    Input { tokens: tokens.to_vec(), eof, truths: vec![] }
}

/// The names of the tokens of the grammars below. Each token stands in the
/// module at the place of its name in this list.
struct Names {
    a: Symbol,
    b: Symbol,
    x: Symbol,
    y: Symbol,
    z: Symbol,
    junk: Symbol,
    eof: Symbol,
    rule: Symbol,
}

const A: usize = 0;
const B: usize = 1;
const X: usize = 2;
const Y: usize = 3;
const Z: usize = 4;
const START: usize = 6;

/// A module with the tokens `A`, `B`, `X`, `Y`, `Z` and `Junk`, the start
/// rule `start`, and the elements `more` after it.
fn module(start: impl FnOnce(&Names) -> Regex, more: impl FnOnce(&Names) -> Vec<Element>) -> (Module, Names) {
    let mut table = StringTable::new();
    let n = Names {
        a: table.intern("A"),
        b: table.intern("B"),
        x: table.intern("X"),
        y: table.intern("Y"),
        z: table.intern("Z"),
        junk: table.intern("Junk"),
        eof: table.intern("EOF"),
        rule: table.intern("rule"),
    };
    let none = Symbol::empty();
    let mut elements = vec![];
    for name in [n.a, n.b, n.x, n.y, n.z, n.junk] {
        elements.push(plain(ElementKind::Token { name, ty: none, sym: none }));
    }
    elements.push(plain(ElementKind::Start { ret: none, pars: none, regex: start(&n), action: None }));
    elements.extend(more(&n));
    let module = Module {
        table,
        elements,
        start: Some(START),
        preamble: None,
        parameters: None,
        error: None,
        limit: None,
    };
    (module, n)
}

fn expected(expected: &[Symbol], pos: usize) -> Option<Outcome> {
    Some(Outcome::SyntaxError { expected: expected.to_vec(), pos })
}

/// `B+` before `Y`.
fn one_or_more(n: &Names) -> Regex {
    node(RegexKind::Plus { op: Box::new(token(n.b, B)) }, &[n.b], &[n.y], &[n.b])
}

#[test]
fn plus_expects_only_its_operand_in_the_first_round() {
    let (module, n) = module(one_or_more, |_| vec![]);
    assert_eq!(parse(&module, &input(&[], n.eof), 100), expected(&[n.b], 0));
    assert_eq!(parse(&module, &input(&[n.z], n.eof), 100), expected(&[n.b], 0));
    assert_eq!(parse(&module, &input(&[n.y], n.eof), 100), expected(&[n.b], 0));
}

#[test]
fn plus_expects_its_operand_or_what_follows_in_a_later_round() {
    let (module, n) = module(one_or_more, |_| vec![]);
    assert_eq!(parse(&module, &input(&[n.b, n.z], n.eof), 100), expected(&[n.b, n.y], 1));
    assert_eq!(parse(&module, &input(&[n.b, n.b, n.b], n.eof), 100), expected(&[n.b, n.y], 3));
}

#[test]
fn plus_ends_on_what_follows_after_a_round() {
    let (module, n) = module(
        |n| sequence(vec![one_or_more(n), token(n.y, Y)], &[n.b]),
        |_| vec![],
    );
    assert_eq!(
        parse(&module, &input(&[n.b, n.b, n.y], n.eof), 100),
        Some(Outcome::Parsed { pos: 3 })
    );
}

/// `(X B !1) Y`, where the handler can be followed by `Y` and is cancelled
/// by `Z`.
fn caught_then_y(n: &Names) -> Regex {
    let handler = |n: &Names| Regex {
        cancel: set(&[n.z]),
        ..node(RegexKind::ErrorHandler { val: 1, elem: Some(7) }, &[], &[n.y], &[])
    };
    let caught = node(
        RegexKind::Concat {
            ops: vec![token(n.x, X), token(n.b, B), handler(n)],
            error: Some(Box::new(handler(n))),
        },
        &[n.x],
        &[n.y],
        &[n.x],
    );
    let group = node(RegexKind::Paren { op: Box::new(caught) }, &[n.x], &[n.y], &[n.x]);
    sequence(vec![group, token(n.y, Y)], &[n.x])
}

fn with_handler(_: &Names) -> Vec<Element> {
    vec![plain(ElementKind::ErrorHandler { code: Symbol::empty() })]
}

#[test]
fn recovery_skips_to_the_token_that_can_follow() {
    let (module, n) = module(caught_then_y, with_handler);
    assert_eq!(
        parse(&module, &input(&[n.x, n.junk, n.junk, n.y], n.eof), 100),
        Some(Outcome::Parsed { pos: 4 })
    );
    assert_eq!(
        parse(&module, &input(&[n.x, n.b, n.y], n.eof), 100),
        Some(Outcome::Parsed { pos: 3 })
    );
}

#[test]
fn recovery_gives_up_at_a_token_that_cancels_it() {
    let (module, n) = module(caught_then_y, with_handler);
    assert_eq!(
        parse(&module, &input(&[n.x, n.junk, n.z], n.eof), 100),
        expected(&[n.b], 2)
    );
    assert_eq!(
        parse(&module, &input(&[n.x, n.junk, n.z, n.y], n.eof), 100),
        expected(&[n.b], 2)
    );
}

#[test]
fn failure_at_the_end_of_input_is_passed_on_at_once() {
    let (module, n) = module(caught_then_y, with_handler);
    assert_eq!(parse(&module, &input(&[n.x], n.eof), 100), expected(&[n.b], 1));
}

#[test]
fn recovery_never_skips_the_end_of_input() {
    let (module, n) = module(caught_then_y, with_handler);
    assert_eq!(
        parse(&module, &input(&[n.x, n.junk, n.junk], n.eof), 100),
        expected(&[n.b], 3)
    );
    let inp = input(&[n.junk, n.junk], n.eof);
    assert_eq!(resync(&inp, &set(&[n.y]), &set(&[]), 0), (false, 2));
    assert_eq!(resync(&inp, &set(&[n.y, n.eof]), &set(&[]), 0), (true, 2));
    assert_eq!(resync(&inp, &set(&[n.y]), &set(&[n.junk]), 0), (false, 0));
}

/// `rule: A rule | B`, entered from the start rule, with the depth limit 2.
fn nested(error_type: bool) -> (Module, Names) {
    let (mut module, n) = module(
        |n| node(RegexKind::Id { name: n.rule, elem: Some(7) }, &[n.a, n.b], &[], &[n.a, n.b]),
        |n| {
            let again = node(RegexKind::Id { name: n.rule, elem: Some(7) }, &[n.a, n.b], &[], &[n.a, n.b]);
            let body = node(
                RegexKind::Or {
                    ops: vec![sequence(vec![token(n.a, A), again], &[n.a]), token(n.b, B)],
                    error: None,
                },
                &[n.a, n.b],
                &[],
                &[n.a, n.b],
            );
            vec![
                plain(ElementKind::Rule {
                    name: n.rule,
                    ret: Symbol::empty(),
                    pars: Symbol::empty(),
                    regex: body,
                    action: None,
                }),
                plain(ElementKind::Limit { depth: 2 }),
            ]
        },
    );
    module.limit = Some(8);
    if error_type {
        let code = module.table.intern("Code");
        module.elements.push(plain(ElementKind::ErrorCode { code }));
        module.error = Some(9);
    }
    (module, n)
}

#[test]
fn depth_guard_strikes_at_the_third_nested_call() {
    let (module, n) = nested(true);
    assert_eq!(parse(&module, &input(&[n.b], n.eof), 100), Some(Outcome::Parsed { pos: 1 }));
    assert_eq!(parse(&module, &input(&[n.a, n.b], n.eof), 100), Some(Outcome::Parsed { pos: 2 }));
    assert_eq!(parse(&module, &input(&[n.a, n.a, n.b], n.eof), 100), Some(Outcome::ParserError));
    assert_eq!(
        parse(&module, &input(&[n.a, n.a, n.a, n.a, n.b], n.eof), 100),
        Some(Outcome::ParserError)
    );
}

#[test]
fn depth_guard_stops_the_parser_without_an_error_type() {
    let (module, n) = nested(false);
    assert_eq!(parse(&module, &input(&[n.a, n.b], n.eof), 100), Some(Outcome::Parsed { pos: 2 }));
    assert_eq!(parse(&module, &input(&[n.a, n.a, n.b], n.eof), 100), Some(Outcome::Abort));
}

#[test]
fn depth_limit_is_128_unless_declared() {
    let (mut module, n) = nested(true);
    module.limit = None;
    let mut tokens = vec![n.a; 127];
    tokens.push(n.b);
    assert_eq!(parse(&module, &input(&tokens, n.eof), 1000), Some(Outcome::Parsed { pos: 128 }));
    tokens.insert(0, n.a);
    assert_eq!(parse(&module, &input(&tokens, n.eof), 1000), Some(Outcome::ParserError));
}

#[test]
fn entry_expects_the_end_of_input() {
    let (module, n) = module(|n| token(n.a, A), |_| vec![]);
    assert_eq!(parse(&module, &input(&[n.a], n.eof), 10), Some(Outcome::Parsed { pos: 1 }));
    assert_eq!(parse(&module, &input(&[n.a, n.a], n.eof), 10), expected(&[n.eof], 1));
    assert_eq!(parse(&module, &input(&[n.a, n.z, n.b], n.eof), 10), expected(&[n.eof], 1));
    assert_eq!(parse(&module, &input(&[], n.eof), 10), expected(&[n.a], 0));
}

#[test]
fn module_without_start_rule_has_no_run() {
    let (mut module, n) = module(|n| token(n.a, A), |_| vec![]);
    module.start = None;
    assert_eq!(parse(&module, &input(&[n.a], n.eof), 10), None);
    module.start = Some(A);
    assert_eq!(parse(&module, &input(&[n.a], n.eof), 10), None);
}

/// `A | ?1 B | !1 | X Y`, where the predicate stands at the place 7.
fn alternatives(n: &Names) -> Vec<Regex> {
    let guarded = sequence(
        vec![node(RegexKind::Predicate { val: 1, elem: Some(7) }, &[], &[], &[]), token(n.b, B)],
        &[n.b],
    );
    vec![
        token(n.a, A),
        guarded,
        node(RegexKind::ErrorHandler { val: 1, elem: None }, &[], &[], &[n.z]),
        sequence(vec![token(n.x, X), token(n.y, Y)], &[n.x]),
    ]
}

fn alternation(n: &Names) -> Regex {
    node(
        RegexKind::Or { ops: alternatives(n), error: None },
        &[n.a, n.b, n.x],
        &[],
        &[n.a, n.b, n.x],
    )
}

fn with_predicate(_: &Names) -> Vec<Element> {
    vec![plain(ElementKind::Predicate { code: Symbol::empty() })]
}

#[test]
fn dispatch_takes_the_branch_that_the_token_predicts() {
    let (module, n) = module(alternation, with_predicate);
    let inp = input(&[], n.eof);
    let ops = alternatives(&n);
    assert_eq!(selected(&module, &inp, &ops, n.a), 0);
    assert_eq!(selected(&module, &inp, &ops, n.b), 1);
    assert_eq!(selected(&module, &inp, &ops, n.x), 3);
    assert_eq!(parse(&module, &input(&[n.x, n.y], n.eof), 10), Some(Outcome::Parsed { pos: 2 }));
    assert_eq!(parse(&module, &input(&[n.b], n.eof), 10), Some(Outcome::Parsed { pos: 1 }));
}

#[test]
fn dispatch_fails_on_other_tokens_expecting_all_branches() {
    let (module, n) = module(alternation, with_predicate);
    let inp = input(&[], n.eof);
    let ops = alternatives(&n);
    assert_eq!(selected(&module, &inp, &ops, n.y), ops.len());
    assert_eq!(selected(&module, &inp, &ops, n.eof), ops.len());
    assert_eq!(parse(&module, &input(&[n.y], n.eof), 10), expected(&[n.a, n.b, n.x], 0));
    assert_eq!(parse(&module, &input(&[], n.eof), 10), expected(&[n.a, n.b, n.x], 0));
}

#[test]
fn error_handler_among_the_operands_is_no_branch() {
    let (module, n) = module(alternation, with_predicate);
    let inp = input(&[], n.eof);
    assert_eq!(selected(&module, &inp, &alternatives(&n), n.z), 4);
    assert_eq!(parse(&module, &input(&[n.z], n.eof), 10), expected(&[n.a, n.b, n.x], 0));
}

#[test]
fn branch_is_not_taken_while_its_predicate_fails() {
    let (module, n) = module(alternation, with_predicate);
    let mut inp = input(&[n.b], n.eof);
    inp.truths = vec![true, true, true, true, true, true, true, false];
    assert_eq!(selected(&module, &inp, &alternatives(&n), n.b), 4);
    assert_eq!(parse(&module, &inp, 10), expected(&[n.a, n.b, n.x], 0));
    inp.truths[7] = true;
    assert_eq!(parse(&module, &inp, 10), Some(Outcome::Parsed { pos: 1 }));
}

#[test]
fn star_ends_on_what_follows_and_fails_on_anything_else() {
    let star = |n: &Names| {
        let repeated = node(RegexKind::Star { op: Box::new(token(n.a, A)) }, &[n.a], &[n.y], &[n.a, n.y]);
        sequence(vec![repeated, token(n.y, Y)], &[n.a, n.y])
    };
    let (module, n) = module(star, |_| vec![]);
    assert_eq!(parse(&module, &input(&[n.y], n.eof), 10), Some(Outcome::Parsed { pos: 1 }));
    assert_eq!(parse(&module, &input(&[n.a, n.a, n.y], n.eof), 10), Some(Outcome::Parsed { pos: 3 }));
    assert_eq!(parse(&module, &input(&[n.a, n.z], n.eof), 10), expected(&[n.a, n.y], 1));
    assert_eq!(parse(&module, &input(&[n.a], n.eof), 10), expected(&[n.a, n.y], 1));
}

#[test]
fn option_runs_its_operand_or_skips_it() {
    let optional = |n: &Names| {
        let part = node(RegexKind::Option { op: Box::new(token(n.a, A)) }, &[n.a], &[n.y], &[n.a, n.y]);
        sequence(vec![part, token(n.y, Y)], &[n.a, n.y])
    };
    let (module, n) = module(optional, |_| vec![]);
    assert_eq!(parse(&module, &input(&[n.y], n.eof), 10), Some(Outcome::Parsed { pos: 1 }));
    assert_eq!(parse(&module, &input(&[n.a, n.y], n.eof), 10), Some(Outcome::Parsed { pos: 2 }));
    assert_eq!(parse(&module, &input(&[n.b], n.eof), 10), expected(&[n.a, n.y], 0));
}

#[test]
fn empty_set_stands_for_the_end_of_input() {
    let last = |n: &Names| node(RegexKind::Star { op: Box::new(token(n.a, A)) }, &[n.a], &[], &[]);
    let (module, n) = module(last, |_| vec![]);
    assert_eq!(parse(&module, &input(&[n.a, n.a], n.eof), 10), Some(Outcome::Parsed { pos: 2 }));
    assert_eq!(parse(&module, &input(&[n.a, n.b], n.eof), 10), expected(&[n.eof], 1));
}

#[test]
fn run_that_makes_no_progress_is_cut_short() {
    let idle = |n: &Names| {
        let nothing = node(RegexKind::Empty, &[n.a], &[], &[n.a]);
        node(RegexKind::Star { op: Box::new(nothing) }, &[n.a], &[n.y], &[n.a, n.y])
    };
    let (module, n) = module(idle, |_| vec![]);
    assert_eq!(parse(&module, &input(&[n.a], n.eof), 1000), Some(Outcome::Unfinished));
    assert_eq!(parse(&module, &input(&[n.y], n.eof), 0), expected(&[n.eof], 0));
}

#[test]
fn sequence_fails_where_its_first_operand_fails() {
    let (module, n) = module(
        |n| sequence(vec![token(n.a, A), token(n.b, B), token(n.x, X)], &[n.a]),
        |_| vec![],
    );
    let inp = input(&[n.a, n.y, n.x], n.eof);
    assert_eq!(parse(&module, &inp, 10), expected(&[n.b], 1));
    let body = sequence(vec![token(n.a, A), token(n.b, B), token(n.x, X)], &[n.a]);
    assert_eq!(run(&module, &inp, &body, 2, 0, 10), Outcome::SyntaxError { expected: vec![n.a], pos: 2 });
}

/// The module of `nested`, in which the token `A` is shown as `<a>` and the
/// token `B` as `<>`.
fn shown() -> (Module, Names) {
    let (mut module, n) = nested(true);
    let angle = module.table.intern("<a>");
    let empty_angle = module.table.intern("<>");
    module.elements[A].kind = ElementKind::Token { name: n.a, ty: Symbol::empty(), sym: angle };
    module.elements[B].kind = ElementKind::Token { name: n.b, ty: Symbol::empty(), sym: empty_angle };
    (module, n)
}

#[test]
fn token_is_shown_by_its_symbol_or_its_name() {
    let (module, n) = shown();
    let inp = input(&[], n.eof);
    assert_eq!(label(&module, &inp, n.a), "<a>");
    assert_eq!(label(&module, &inp, n.b), "<>");
    assert_eq!(label(&module, &inp, n.x), "X");
    assert_eq!(label(&module, &inp, n.eof), "end of file");
    assert_eq!(label(&module, &inp, n.rule), "rule");
}

#[test]
fn syntax_error_names_the_one_token_that_was_expected() {
    let (module, n) = shown();
    let inp = input(&[], n.eof);
    let failure = |kind: Symbol| Outcome::SyntaxError { expected: vec![kind], pos: 0 };
    assert_eq!(message(&module, &inp, &failure(n.x)).unwrap(), "invalid syntax, expected: 'X'.");
    assert_eq!(message(&module, &inp, &failure(n.a)).unwrap(), "invalid syntax, expected: <a>.");
    assert_eq!(message(&module, &inp, &failure(n.b)).unwrap(), "invalid syntax, expected: '<>'.");
    assert_eq!(
        message(&module, &inp, &failure(n.eof)).unwrap(),
        "invalid syntax, expected: 'end of file'."
    );
}

#[test]
fn syntax_error_lists_the_tokens_that_were_expected() {
    let (module, n) = shown();
    let inp = input(&[n.z], n.eof);
    let failure = parse(&module, &inp, 10).unwrap();
    assert_eq!(failure, Outcome::SyntaxError { expected: vec![n.a, n.b], pos: 0 });
    assert_eq!(
        message(&module, &inp, &failure).unwrap(),
        "invalid syntax, expected one of: <a>, '<>'."
    );
    let failure = Outcome::SyntaxError { expected: vec![n.x, n.y, n.eof], pos: 3 };
    assert_eq!(
        message(&module, &inp, &failure).unwrap(),
        "invalid syntax, expected one of: 'X', 'Y', 'end of file'."
    );
    let failure = Outcome::SyntaxError { expected: vec![], pos: 3 };
    assert_eq!(message(&module, &inp, &failure).unwrap(), "invalid syntax, expected: .");
}

#[test]
fn fatal_failure_tells_that_the_depth_limit_was_exceeded() {
    let (module, n) = shown();
    let inp = input(&[n.a, n.a, n.b], n.eof);
    let failure = parse(&module, &inp, 10).unwrap();
    assert_eq!(message(&module, &inp, &failure).unwrap(), "exceeded recursion depth limit");
    assert_eq!(
        message(&module, &inp, &Outcome::Abort).unwrap(),
        "exceeded recursion depth limit"
    );
}

#[test]
fn run_that_has_not_failed_has_no_message() {
    let (module, n) = shown();
    let inp = input(&[n.b], n.eof);
    assert_eq!(message(&module, &inp, &Outcome::Parsed { pos: 1 }), None);
    assert_eq!(message(&module, &inp, &Outcome::Unfinished), None);
}

/// `A #3 B`, where the action has code only if `coded`.
fn with_action(coded: bool) -> (Module, Names) {
    module(
        |n| {
            let elem = if coded { Some(7) } else { None };
            let mut action = node(RegexKind::Action { val: 3, elem }, &[], &[], &[]);
            action.range.start = Position { line: 12, column: 4 };
            sequence(vec![token(n.a, A), action, token(n.b, B)], &[n.a])
        },
        |_| vec![plain(ElementKind::Action { code: Symbol::empty() })],
    )
}

#[test]
fn action_with_code_lets_the_run_go_on() {
    let (module, n) = with_action(true);
    assert_eq!(parse(&module, &input(&[n.a, n.b], n.eof), 10), Some(Outcome::Parsed { pos: 2 }));
}

#[test]
fn action_without_code_stops_the_parser() {
    let (module, n) = with_action(false);
    let inp = input(&[n.a, n.b], n.eof);
    let stopped = parse(&module, &inp, 10).unwrap();
    assert_eq!(stopped, Outcome::Missing { handler: false, val: 3, line: 12, column: 4 });
    assert_eq!(
        message(&module, &inp, &stopped).unwrap(),
        "not yet implemented: semantic action 3 at 12:4"
    );
    assert_eq!(parse(&module, &input(&[n.b], n.eof), 10), expected(&[n.a], 0));
}

#[test]
fn error_handler_without_code_stops_the_parser_when_it_runs() {
    let (module, n) = module(caught_then_y, |_| vec![]);
    let inp = input(&[n.x, n.junk, n.y], n.eof);
    let stopped = parse(&module, &inp, 10).unwrap();
    assert_eq!(stopped, Outcome::Missing { handler: true, val: 1, line: 1, column: 1 });
    assert_eq!(
        message(&module, &inp, &stopped).unwrap(),
        "not yet implemented: error handler 1 at 1:1"
    );
}

/// `rule: (A rule !1) | B`, entered from the start rule, with the depth
/// limit 2 and an error type. The handler can be followed by `B`.
fn nested_in_a_caught_part() -> (Module, Names) {
    let (mut module, n) = module(
        |n| node(RegexKind::Id { name: n.rule, elem: Some(7) }, &[n.a, n.b], &[], &[n.a, n.b]),
        |n| {
            let again = node(RegexKind::Id { name: n.rule, elem: Some(7) }, &[n.a, n.b], &[], &[n.a, n.b]);
            let handler = |n: &Names| node(RegexKind::ErrorHandler { val: 1, elem: Some(10) }, &[], &[n.b], &[]);
            let caught = node(
                RegexKind::Concat {
                    ops: vec![token(n.a, A), again, handler(n)],
                    error: Some(Box::new(handler(n))),
                },
                &[n.a],
                &[],
                &[n.a],
            );
            let body = node(
                RegexKind::Or { ops: vec![caught, token(n.b, B)], error: None },
                &[n.a, n.b],
                &[],
                &[n.a, n.b],
            );
            let code = Symbol::empty();
            vec![
                plain(ElementKind::Rule {
                    name: n.rule,
                    ret: Symbol::empty(),
                    pars: Symbol::empty(),
                    regex: body,
                    action: None,
                }),
                plain(ElementKind::Limit { depth: 2 }),
                plain(ElementKind::ErrorCode { code }),
                plain(ElementKind::ErrorHandler { code }),
            ]
        },
    );
    module.limit = Some(8);
    module.error = Some(9);
    (module, n)
}

#[test]
fn syntax_error_inside_a_caught_part_is_recovered_from() {
    let (module, n) = nested_in_a_caught_part();
    let inp = input(&[n.a, n.x, n.junk, n.b], n.eof);
    assert_eq!(run(&module, &inp, &token(n.b, B), 3, 0, 10), Outcome::Parsed { pos: 4 });
    let rule = node(RegexKind::Id { name: n.rule, elem: Some(7) }, &[n.a, n.b], &[], &[n.a, n.b]);
    assert_eq!(run(&module, &inp, &rule, 0, 0, 10), Outcome::Parsed { pos: 3 });
}

#[test]
fn depth_overflow_inside_a_caught_part_is_not_recovered_from() {
    let (module, n) = nested_in_a_caught_part();
    let within = input(&[n.a, n.b, n.b], n.eof);
    let rule = node(RegexKind::Id { name: n.rule, elem: Some(7) }, &[n.a, n.b], &[], &[n.a, n.b]);
    assert_eq!(run(&module, &within, &rule, 0, 0, 10), Outcome::Parsed { pos: 2 });
    let beyond = input(&[n.a, n.a, n.a, n.b, n.b, n.b], n.eof);
    assert_eq!(run(&module, &beyond, &rule, 0, 0, 10), Outcome::ParserError);
    assert_eq!(parse(&module, &beyond, 10), Some(Outcome::ParserError));
    let at_a_token_that_can_follow = input(&[n.a, n.a, n.b, n.b], n.eof);
    assert_eq!(parse(&module, &at_a_token_that_can_follow, 10), Some(Outcome::ParserError));
    let at_the_end_of_input = input(&[n.a, n.a], n.eof);
    assert_eq!(parse(&module, &at_the_end_of_input, 10), Some(Outcome::ParserError));
}

#[test]
fn stop_at_the_depth_limit_inside_a_caught_part_is_not_recovered_from() {
    let (mut module, n) = nested_in_a_caught_part();
    module.error = None;
    let beyond = input(&[n.a, n.a, n.a, n.b, n.b, n.b], n.eof);
    assert_eq!(parse(&module, &beyond, 10), Some(Outcome::Abort));
}

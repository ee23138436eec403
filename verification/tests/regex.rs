use lelwel::backend::rust::RustOutput;
use lelwel::frontend::ast::{Element, ElementKind, Module, Regex, RegexKind};
use lelwel::frontend::symbol::{StringTable, Symbol, SymbolSet};
use lelwel::frontend::token::{Position, Range};

fn set(items: &[Symbol]) -> SymbolSet {
    let mut s = SymbolSet::new();
    for item in items {
        s.insert(*item);
    }
    s
}

fn at(line: u32, column: u32) -> Range {
    Range { start: Position { line, column }, end: Position { line, column } }
}

fn node(
    kind: RegexKind,
    first: SymbolSet,
    follow: SymbolSet,
    predict: SymbolSet,
    cancel: SymbolSet,
    range: Range,
) -> Regex {
    Regex { kind, first, follow, predict, cancel, range }
}

/// The names that the tests refer to.
struct Names {
    a: Symbol,
    b: Symbol,
    c: Symbol,
    x: Symbol,
    y: Symbol,
    z: Symbol,
    num: Symbol,
    item: Symbol,
    int: Symbol,
    pars: Symbol,
    act_code: Symbol,
    block_code: Symbol,
    handler_code: Symbol,
    pred_code: Symbol,
    plus_lit: Symbol,
}

/// A module with six plain tokens, a token with a payload, a rule with
/// parameters, and the code of two actions, a handler and a predicate.
fn fixture() -> (Module, Names) {
    let mut table = StringTable::new();
    let a = table.intern("A");
    let b = table.intern("B");
    let c = table.intern("C");
    let x = table.intern("X");
    let y = table.intern("Y");
    let z = table.intern("Z");
    let num = table.intern("Num");
    let item = table.intern("item");
    let int = table.intern("i64");
    let pars = table.intern("lhs: i64, ctx: &Ctx");
    let act_code = table.intern("let total = lhs + 1;");
    let block_code = table.intern("let a = 1;\n    let b = 2;\n");
    let handler_code = table.intern("  diag.error(error_code, error_range);  ");
    let pred_code = table.intern(" ctx.allows_b() ");
    let plus_lit = table.intern("\"+\"");
    let module = Module {
        table,
        elements: vec![
            Element { kind: ElementKind::Token { name: a, ty: Symbol::empty(), sym: Symbol::empty() }, used: true },
            Element { kind: ElementKind::Token { name: b, ty: Symbol::empty(), sym: Symbol::empty() }, used: true },
            Element { kind: ElementKind::Token { name: c, ty: Symbol::empty(), sym: Symbol::empty() }, used: true },
            Element { kind: ElementKind::Token { name: x, ty: Symbol::empty(), sym: Symbol::empty() }, used: true },
            Element { kind: ElementKind::Token { name: y, ty: Symbol::empty(), sym: Symbol::empty() }, used: true },
            Element { kind: ElementKind::Token { name: z, ty: Symbol::empty(), sym: Symbol::empty() }, used: true },
            Element { kind: ElementKind::Token { name: num, ty: int, sym: Symbol::empty() }, used: true },
            Element { kind: ElementKind::Rule {
                name: item,
                ret: int,
                pars: pars,
                regex: node(
                    RegexKind::Empty,
                    set(&[]),
                    set(&[]),
                    set(&[]),
                    set(&[]),
                    at(1, 1),
                ),
                action: None,
            }, used: true },
            Element { kind: ElementKind::Action { code: act_code }, used: true },
            Element { kind: ElementKind::Action { code: block_code }, used: true },
            Element { kind: ElementKind::ErrorHandler { code: handler_code }, used: true },
            Element { kind: ElementKind::Predicate { code: pred_code }, used: true },
        ],
        start: None,
        preamble: None,
        parameters: None,
        error: None,
        limit: None,
    };
    (module, Names { a, b, c, x, y, z, num, item, int, pars, act_code, block_code, handler_code, pred_code, plus_lit })
}

#[test]
fn token_reference_takes_one_token() {
    let (module, n) = fixture();
    let regex = node(
        RegexKind::Id { name: n.a, elem: Some(0) },
        set(&[n.a]),
        set(&[]),
        set(&[n.a]),
        set(&[]),
        at(1, 1),
    );
    let expected = [
        "        let r#A = consume_A!(input);",
        "",
    ]
    .join("\n");
    let mut out = String::new();
    RustOutput::output_regex(&module, &regex, &mut out, "", 2);
    assert_eq!(out, expected);
}

#[test]
fn payload_token_reference_takes_one_token() {
    let (module, n) = fixture();
    let regex = node(
        RegexKind::Id { name: n.num, elem: Some(6) },
        set(&[n.num]),
        set(&[]),
        set(&[n.num]),
        set(&[]),
        at(1, 1),
    );
    let expected = [
        "            let r#Num = consume_Num!(input);",
        "",
    ]
    .join("\n");
    let mut out = String::new();
    RustOutput::output_regex(&module, &regex, &mut out, "", 3);
    assert_eq!(out, expected);
}

#[test]
fn rule_reference_calls_the_rule_one_level_deeper() {
    let (module, n) = fixture();
    let regex = node(
        RegexKind::Id { name: n.item, elem: Some(7) },
        set(&[n.a]),
        set(&[]),
        set(&[]),
        set(&[]),
        at(1, 1),
    );
    let expected = [
        "        let r#item = Self::r#item(depth + 1, input, diag, lhs, ctx)?;",
        "",
    ]
    .join("\n");
    let mut out = String::new();
    RustOutput::output_regex(&module, &regex, &mut out, ", diag", 2);
    assert_eq!(out, expected);
}

#[test]
fn rule_reference_without_shared_arguments_passes_its_own() {
    let (module, n) = fixture();
    let regex = node(
        RegexKind::Id { name: n.item, elem: Some(7) },
        set(&[n.a]),
        set(&[]),
        set(&[]),
        set(&[]),
        at(1, 1),
    );
    let expected = [
        "        let r#item = Self::r#item(depth + 1, input, lhs, ctx)?;",
        "",
    ]
    .join("\n");
    let mut out = String::new();
    RustOutput::output_regex(&module, &regex, &mut out, "", 2);
    assert_eq!(out, expected);
}

#[test]
fn literal_takes_the_token_that_it_names() {
    let (module, n) = fixture();
    let regex = node(
        RegexKind::Str { lit: n.plus_lit, elem: Some(0) },
        set(&[n.a]),
        set(&[]),
        set(&[]),
        set(&[]),
        at(1, 1),
    );
    let expected = [
        "        let r#A = consume_A!(input);",
        "",
    ]
    .join("\n");
    let mut out = String::new();
    RustOutput::output_regex(&module, &regex, &mut out, "", 2);
    assert_eq!(out, expected);
}

#[test]
fn sequence_runs_its_operands_in_order() {
    let (module, n) = fixture();
    let regex = node(
        RegexKind::Concat {
            ops: vec![
                node(
                    RegexKind::Id { name: n.a, elem: Some(0) },
                    set(&[n.a]),
                    set(&[]),
                    set(&[n.a]),
                    set(&[]),
                    at(1, 1),
                ),
                node(
                    RegexKind::Id { name: n.b, elem: Some(1) },
                    set(&[n.b]),
                    set(&[]),
                    set(&[n.b]),
                    set(&[]),
                    at(1, 1),
                ),
                node(
                    RegexKind::Action { val: 1, elem: Some(8) },
                    set(&[]),
                    set(&[]),
                    set(&[]),
                    set(&[]),
                    at(1, 1),
                ),
            ],
            error: None,
        },
        set(&[n.a]),
        set(&[]),
        set(&[]),
        set(&[]),
        at(1, 1),
    );
    let expected = [
        "        let r#A = consume_A!(input);",
        "        let r#B = consume_B!(input);",
        "        // semantic action 1",
        "        let total = lhs + 1;",
        "",
    ]
    .join("\n");
    let mut out = String::new();
    RustOutput::output_regex(&module, &regex, &mut out, "", 2);
    assert_eq!(out, expected);
}

#[test]
fn caught_sequence_is_followed_by_recovery() {
    let (module, n) = fixture();
    let regex = node(
        RegexKind::Concat {
            ops: vec![
                node(
                    RegexKind::Id { name: n.x, elem: Some(3) },
                    set(&[n.x]),
                    set(&[]),
                    set(&[n.x]),
                    set(&[]),
                    at(1, 1),
                ),
                node(
                    RegexKind::Id { name: n.b, elem: Some(1) },
                    set(&[n.b]),
                    set(&[]),
                    set(&[n.b]),
                    set(&[]),
                    at(1, 1),
                ),
                node(
                    RegexKind::ErrorHandler { val: 1, elem: Some(10) },
                    set(&[]),
                    set(&[n.y]),
                    set(&[]),
                    set(&[n.z]),
                    at(1, 1),
                ),
            ],
            error: Some(Box::new(node(
                RegexKind::ErrorHandler { val: 1, elem: Some(10) },
                set(&[]),
                set(&[n.y]),
                set(&[]),
                set(&[n.z]),
                at(1, 1),
            ))),
        },
        set(&[n.x]),
        set(&[n.y]),
        set(&[]),
        set(&[]),
        at(1, 1),
    );
    let expected = [
        "        (|| {",
        "            let r#X = consume_X!(input);",
        "            let r#B = consume_B!(input);",
        "            match input.current().kind {",
        "                pattern_Y!() => {",
        "                    Ok(())",
        "                }",
        "                _ => {",
        "                    return err![default_Y!()]",
        "                }",
        "            }",
        "        })().or_else(|error_code| {",
        "            // error handling",
        "            if FATAL_FAILURE.with(|fatal| fatal.get()) {",
        "                return Err(error_code);",
        "            }",
        "            if input.current().kind == TokenKind::EOF {",
        "                return Err(error_code);",
        "            }",
        "            let error_range = input.current().range;",
        "            loop {",
        "                match input.current().kind {",
        "                    pattern_Y!() => {",
        "                        // error handler 1",
        "                        diag.error(error_code, error_range);",
        "                        return Ok(())",
        "                    }",
        "                    pattern_Z!() => {",
        "                        return Err(error_code)",
        "                    }",
        "                    _ if input.current().kind == TokenKind::EOF => {",
        "                        return Err(error_code)",
        "                    }",
        "                    _ => {",
        "                        input.advance();",
        "                    }",
        "               }",
        "           }",
        "        })?;",
        "",
    ]
    .join("\n");
    let mut out = String::new();
    RustOutput::output_regex(&module, &regex, &mut out, "", 2);
    assert_eq!(out, expected);
}

#[test]
fn recovery_without_cancel_set_has_no_cancel_branch() {
    let (module, n) = fixture();
    let regex = node(
        RegexKind::Concat {
            ops: vec![
                node(
                    RegexKind::Id { name: n.x, elem: Some(3) },
                    set(&[n.x]),
                    set(&[]),
                    set(&[n.x]),
                    set(&[]),
                    at(1, 1),
                ),
                node(
                    RegexKind::Id { name: n.b, elem: Some(1) },
                    set(&[n.b]),
                    set(&[]),
                    set(&[n.b]),
                    set(&[]),
                    at(1, 1),
                ),
                node(
                    RegexKind::ErrorHandler { val: 1, elem: Some(10) },
                    set(&[]),
                    set(&[n.y]),
                    set(&[]),
                    set(&[]),
                    at(1, 1),
                ),
            ],
            error: Some(Box::new(node(
                RegexKind::ErrorHandler { val: 1, elem: Some(10) },
                set(&[]),
                set(&[n.y]),
                set(&[]),
                set(&[]),
                at(1, 1),
            ))),
        },
        set(&[n.x]),
        set(&[n.y]),
        set(&[]),
        set(&[]),
        at(1, 1),
    );
    let expected = [
        "        (|| {",
        "            let r#X = consume_X!(input);",
        "            let r#B = consume_B!(input);",
        "            match input.current().kind {",
        "                pattern_Y!() => {",
        "                    Ok(())",
        "                }",
        "                _ => {",
        "                    return err![default_Y!()]",
        "                }",
        "            }",
        "        })().or_else(|error_code| {",
        "            // error handling",
        "            if FATAL_FAILURE.with(|fatal| fatal.get()) {",
        "                return Err(error_code);",
        "            }",
        "            if input.current().kind == TokenKind::EOF {",
        "                return Err(error_code);",
        "            }",
        "            let error_range = input.current().range;",
        "            loop {",
        "                match input.current().kind {",
        "                    pattern_Y!() => {",
        "                        // error handler 1",
        "                        diag.error(error_code, error_range);",
        "                        return Ok(())",
        "                    }",
        "                    _ if input.current().kind == TokenKind::EOF => {",
        "                        return Err(error_code)",
        "                    }",
        "                    _ => {",
        "                        input.advance();",
        "                    }",
        "               }",
        "           }",
        "        })?;",
        "",
    ]
    .join("\n");
    let mut out = String::new();
    RustOutput::output_regex(&module, &regex, &mut out, "", 2);
    assert_eq!(out, expected);
}

#[test]
fn alternation_dispatches_over_its_branches_in_order() {
    let (module, n) = fixture();
    let regex = node(
        RegexKind::Or {
            ops: vec![
                node(
                    RegexKind::Id { name: n.a, elem: Some(0) },
                    set(&[n.a]),
                    set(&[]),
                    set(&[n.a]),
                    set(&[]),
                    at(1, 1),
                ),
                node(
                    RegexKind::Concat {
                        ops: vec![
                            node(
                                RegexKind::Predicate { val: 1, elem: Some(11) },
                                set(&[]),
                                set(&[]),
                                set(&[]),
                                set(&[]),
                                at(1, 1),
                            ),
                            node(
                                RegexKind::Id { name: n.b, elem: Some(1) },
                                set(&[n.b]),
                                set(&[]),
                                set(&[n.b]),
                                set(&[]),
                                at(1, 1),
                            ),
                        ],
                        error: None,
                    },
                    set(&[n.b]),
                    set(&[]),
                    set(&[n.b]),
                    set(&[]),
                    at(1, 1),
                ),
                node(
                    RegexKind::Paren { op: Box::new(node(
                        RegexKind::Id { name: n.c, elem: Some(2) },
                        set(&[n.c]),
                        set(&[]),
                        set(&[n.c]),
                        set(&[]),
                        at(1, 1),
                    )) },
                    set(&[n.c]),
                    set(&[]),
                    set(&[n.c, n.z]),
                    set(&[]),
                    at(1, 1),
                ),
            ],
            error: None,
        },
        set(&[n.a, n.b, n.c]),
        set(&[]),
        set(&[n.a, n.b, n.c, n.z]),
        set(&[]),
        at(1, 1),
    );
    let expected = [
        "        match input.current().kind {",
        "            pattern_A!() => {",
        "                let r#A = consume_A!(input);",
        "            }",
        "            pattern_B!() if ctx.allows_b() => {",
        "                let r#B = consume_B!(input);",
        "            }",
        "            pattern_C!()",
        "            | pattern_Z!() => {",
        "                let r#C = consume_C!(input);",
        "            }",
        "            _ => {",
        "                return err![default_A!(),",
        "                            default_B!(),",
        "                            default_C!(),",
        "                            default_Z!()]",
        "            }",
        "        }",
        "",
    ]
    .join("\n");
    let mut out = String::new();
    RustOutput::output_regex(&module, &regex, &mut out, "", 2);
    assert_eq!(out, expected);
}

#[test]
fn caught_alternation_leaves_the_handler_out_of_the_dispatch() {
    let (module, n) = fixture();
    let regex = node(
        RegexKind::Or {
            ops: vec![
                node(
                    RegexKind::Id { name: n.b, elem: Some(1) },
                    set(&[n.b]),
                    set(&[]),
                    set(&[n.b]),
                    set(&[]),
                    at(1, 1),
                ),
                node(
                    RegexKind::ErrorHandler { val: 2, elem: None },
                    set(&[]),
                    set(&[n.y, n.z]),
                    set(&[]),
                    set(&[]),
                    at(7, 12),
                ),
                node(
                    RegexKind::Id { name: n.a, elem: Some(0) },
                    set(&[n.a]),
                    set(&[]),
                    set(&[n.a]),
                    set(&[]),
                    at(1, 1),
                ),
            ],
            error: Some(Box::new(node(
                RegexKind::ErrorHandler { val: 2, elem: None },
                set(&[]),
                set(&[n.y, n.z]),
                set(&[]),
                set(&[]),
                at(7, 12),
            ))),
        },
        set(&[n.a, n.b]),
        set(&[]),
        set(&[n.a, n.b]),
        set(&[]),
        at(1, 1),
    );
    let expected = [
        "        (|| {",
        "            match input.current().kind {",
        "                pattern_B!() => {",
        "                    let r#B = consume_B!(input);",
        "                    Ok(())",
        "                }",
        "                pattern_A!() => {",
        "                    let r#A = consume_A!(input);",
        "                    Ok(())",
        "                }",
        "                _ => {",
        "                    return err![default_A!(),",
        "                                default_B!()]",
        "                }",
        "            }",
        "        })().or_else(|error_code| {",
        "            // error handling",
        "            if FATAL_FAILURE.with(|fatal| fatal.get()) {",
        "                return Err(error_code);",
        "            }",
        "            if input.current().kind == TokenKind::EOF {",
        "                return Err(error_code);",
        "            }",
        "            let error_range = input.current().range;",
        "            loop {",
        "                match input.current().kind {",
        "                    pattern_Y!()",
        "                    | pattern_Z!() => {",
        "                        // error handler 2",
        "                        todo!(\"error handler 2 at 7:12\");",
        "                        return Ok(())",
        "                    }",
        "                    _ if input.current().kind == TokenKind::EOF => {",
        "                        return Err(error_code)",
        "                    }",
        "                    _ => {",
        "                        input.advance();",
        "                    }",
        "               }",
        "           }",
        "        })?;",
        "",
    ]
    .join("\n");
    let mut out = String::new();
    RustOutput::output_regex(&module, &regex, &mut out, "", 2);
    assert_eq!(out, expected);
}

#[test]
fn star_loops_while_the_operand_begins() {
    let (module, n) = fixture();
    let regex = node(
        RegexKind::Star { op: Box::new(node(
            RegexKind::Id { name: n.a, elem: Some(0) },
            set(&[n.a]),
            set(&[]),
            set(&[n.a]),
            set(&[]),
            at(1, 1),
        )) },
        set(&[n.a]),
        set(&[n.y, n.z]),
        set(&[n.a, n.y, n.z]),
        set(&[]),
        at(1, 1),
    );
    let expected = [
        "        loop {",
        "            match input.current().kind {",
        "                pattern_A!() => {",
        "                    let r#A = consume_A!(input);",
        "                }",
        "                pattern_Y!()",
        "                | pattern_Z!() => break,",
        "                _ => {",
        "                    return err![default_A!(),",
        "                                default_Y!(),",
        "                                default_Z!()]",
        "                }",
        "            }",
        "        }",
        "",
    ]
    .join("\n");
    let mut out = String::new();
    RustOutput::output_regex(&module, &regex, &mut out, "", 2);
    assert_eq!(out, expected);
}

#[test]
fn plus_tells_the_first_round_from_later_ones() {
    let (module, n) = fixture();
    let regex = node(
        RegexKind::Plus { op: Box::new(node(
            RegexKind::Id { name: n.b, elem: Some(1) },
            set(&[n.b]),
            set(&[]),
            set(&[n.b]),
            set(&[]),
            at(1, 1),
        )) },
        set(&[n.b]),
        set(&[n.y]),
        set(&[n.b]),
        set(&[]),
        at(1, 1),
    );
    let expected = [
        "        let mut is_first = true;",
        "        loop {",
        "            match input.current().kind {",
        "                pattern_B!() => {",
        "                    let r#B = consume_B!(input);",
        "                }",
        "                pattern_Y!() if !is_first => break,",
        "                _ if is_first => {",
        "                    return err![default_B!()]",
        "                }",
        "                _ => {",
        "                    return err![default_B!(),",
        "                                default_Y!()]",
        "                }",
        "            }",
        "            is_first = false;",
        "        }",
        "",
    ]
    .join("\n");
    let mut out = String::new();
    RustOutput::output_regex(&module, &regex, &mut out, "", 2);
    assert_eq!(out, expected);
}

#[test]
fn named_option_binds_its_value() {
    let (module, n) = fixture();
    let regex = node(
        RegexKind::Option { op: Box::new(node(
            RegexKind::Id { name: n.num, elem: Some(6) },
            set(&[n.num]),
            set(&[]),
            set(&[n.num]),
            set(&[]),
            at(1, 1),
        )) },
        set(&[n.num]),
        set(&[n.y]),
        set(&[n.y, n.num]),
        set(&[]),
        at(1, 1),
    );
    let expected = [
        "        let r#Num = match input.current().kind {",
        "            pattern_Num!() => {",
        "                let r#Num = consume_Num!(input);",
        "                Some(Num)",
        "            }",
        "            pattern_Y!() => None,",
        "            _ => {",
        "                return err![default_Y!(),",
        "                            default_Num!()]",
        "            }",
        "        };",
        "",
    ]
    .join("\n");
    let mut out = String::new();
    RustOutput::output_regex(&module, &regex, &mut out, "", 2);
    assert_eq!(out, expected);
}

#[test]
fn literal_option_is_named_after_its_token() {
    let (module, n) = fixture();
    let regex = node(
        RegexKind::Option { op: Box::new(node(
            RegexKind::Str { lit: n.plus_lit, elem: Some(0) },
            set(&[n.a]),
            set(&[]),
            set(&[]),
            set(&[]),
            at(1, 1),
        )) },
        set(&[n.a]),
        set(&[]),
        set(&[n.a]),
        set(&[]),
        at(1, 1),
    );
    let expected = [
        "        let r#A = match input.current().kind {",
        "            pattern_A!() => {",
        "                let r#A = consume_A!(input);",
        "                Some(A)",
        "            }",
        "            pattern_EOF!() => None,",
        "            _ => {",
        "                return err![default_A!()]",
        "            }",
        "        };",
        "",
    ]
    .join("\n");
    let mut out = String::new();
    RustOutput::output_regex(&module, &regex, &mut out, "", 2);
    assert_eq!(out, expected);
}

#[test]
fn unnamed_option_has_no_value() {
    let (module, n) = fixture();
    let regex = node(
        RegexKind::Option { op: Box::new(node(
            RegexKind::Paren { op: Box::new(node(
                RegexKind::Concat {
                    ops: vec![
                        node(
                            RegexKind::Id { name: n.a, elem: Some(0) },
                            set(&[n.a]),
                            set(&[]),
                            set(&[n.a]),
                            set(&[]),
                            at(1, 1),
                        ),
                        node(
                            RegexKind::Id { name: n.b, elem: Some(1) },
                            set(&[n.b]),
                            set(&[]),
                            set(&[n.b]),
                            set(&[]),
                            at(1, 1),
                        ),
                    ],
                    error: None,
                },
                set(&[n.a]),
                set(&[]),
                set(&[]),
                set(&[]),
                at(1, 1),
            )) },
            set(&[n.a]),
            set(&[]),
            set(&[]),
            set(&[]),
            at(1, 1),
        )) },
        set(&[n.a]),
        set(&[n.y]),
        set(&[n.a, n.y]),
        set(&[]),
        at(1, 1),
    );
    let expected = [
        "        match input.current().kind {",
        "            pattern_A!() => {",
        "                let r#A = consume_A!(input);",
        "                let r#B = consume_B!(input);",
        "            }",
        "            pattern_Y!() => {}",
        "            _ => {",
        "                return err![default_A!(),",
        "                            default_Y!()]",
        "            }",
        "        }",
        "",
    ]
    .join("\n");
    let mut out = String::new();
    RustOutput::output_regex(&module, &regex, &mut out, "", 2);
    assert_eq!(out, expected);
}

#[test]
fn parentheses_leave_the_operand_as_it_is() {
    let (module, n) = fixture();
    let regex = node(
        RegexKind::Paren { op: Box::new(node(
            RegexKind::Id { name: n.c, elem: Some(2) },
            set(&[n.c]),
            set(&[]),
            set(&[n.c]),
            set(&[]),
            at(1, 1),
        )) },
        set(&[n.c]),
        set(&[]),
        set(&[]),
        set(&[]),
        at(1, 1),
    );
    let expected = [
        "                let r#C = consume_C!(input);",
        "",
    ]
    .join("\n");
    let mut out = String::new();
    RustOutput::output_regex(&module, &regex, &mut out, "", 4);
    assert_eq!(out, expected);
}

#[test]
fn action_of_one_line_is_trimmed() {
    let (module, n) = fixture();
    let regex = node(
        RegexKind::Action { val: 3, elem: Some(8) },
        set(&[]),
        set(&[]),
        set(&[]),
        set(&[]),
        at(1, 1),
    );
    let expected = [
        "        // semantic action 3",
        "        let total = lhs + 1;",
        "",
    ]
    .join("\n");
    let mut out = String::new();
    RustOutput::output_regex(&module, &regex, &mut out, "", 2);
    assert_eq!(out, expected);
}

#[test]
fn action_of_several_lines_stands_as_it_is() {
    let (module, n) = fixture();
    let regex = node(
        RegexKind::Action { val: 4, elem: Some(9) },
        set(&[]),
        set(&[]),
        set(&[]),
        set(&[]),
        at(1, 1),
    );
    let expected = [
        "    // semantic action 4",
        "let a = 1;",
        "    let b = 2;",
        "",
    ]
    .join("\n");
    let mut out = String::new();
    RustOutput::output_regex(&module, &regex, &mut out, "", 1);
    assert_eq!(out, expected);
}

#[test]
fn action_without_code_names_its_number_and_place() {
    let (module, n) = fixture();
    let regex = node(
        RegexKind::Action { val: 12, elem: None },
        set(&[]),
        set(&[]),
        set(&[]),
        set(&[]),
        at(31, 7),
    );
    let expected = [
        "        // semantic action 12",
        "        todo!(\"semantic action 12 at 31:7\");",
        "",
    ]
    .join("\n");
    let mut out = String::new();
    RustOutput::output_regex(&module, &regex, &mut out, "", 2);
    assert_eq!(out, expected);
}

#[test]
fn action_that_leads_elsewhere_has_no_code() {
    let (module, n) = fixture();
    let regex = node(
        RegexKind::Action { val: 5, elem: Some(0) },
        set(&[]),
        set(&[]),
        set(&[]),
        set(&[]),
        at(2, 140),
    );
    let expected = [
        "        // semantic action 5",
        "        todo!(\"semantic action 5 at 2:140\");",
        "",
    ]
    .join("\n");
    let mut out = String::new();
    RustOutput::output_regex(&module, &regex, &mut out, "", 2);
    assert_eq!(out, expected);
}

#[test]
fn error_handler_is_its_code() {
    let (module, n) = fixture();
    let regex = node(
        RegexKind::ErrorHandler { val: 1, elem: Some(10) },
        set(&[]),
        set(&[]),
        set(&[]),
        set(&[]),
        at(1, 1),
    );
    let expected = [
        "                    // error handler 1",
        "                    diag.error(error_code, error_range);",
        "",
    ]
    .join("\n");
    let mut out = String::new();
    RustOutput::output_regex(&module, &regex, &mut out, "", 5);
    assert_eq!(out, expected);
}

#[test]
fn error_handler_without_code_names_its_number_and_place() {
    let (module, n) = fixture();
    let regex = node(
        RegexKind::ErrorHandler { val: 9, elem: None },
        set(&[]),
        set(&[]),
        set(&[]),
        set(&[]),
        at(100, 0),
    );
    let expected = [
        "        // error handler 9",
        "        todo!(\"error handler 9 at 100:0\");",
        "",
    ]
    .join("\n");
    let mut out = String::new();
    RustOutput::output_regex(&module, &regex, &mut out, "", 2);
    assert_eq!(out, expected);
}

#[test]
fn predicate_and_empty_node_write_nothing() {
    let (module, n) = fixture();
    let regex = node(
        RegexKind::Concat {
            ops: vec![
                node(
                    RegexKind::Predicate { val: 1, elem: Some(11) },
                    set(&[]),
                    set(&[]),
                    set(&[]),
                    set(&[]),
                    at(1, 1),
                ),
                node(
                    RegexKind::Empty,
                    set(&[]),
                    set(&[]),
                    set(&[]),
                    set(&[]),
                    at(1, 1),
                ),
            ],
            error: None,
        },
        set(&[]),
        set(&[]),
        set(&[]),
        set(&[]),
        at(1, 1),
    );
    let expected = [
        "",
    ]
    .join("\n");
    let mut out = String::new();
    RustOutput::output_regex(&module, &regex, &mut out, "", 2);
    assert_eq!(out, expected);
}

#[test]
fn empty_sets_stand_for_the_end_of_input() {
    let (module, n) = fixture();
    let regex = node(
        RegexKind::Star { op: Box::new(node(
            RegexKind::Paren { op: Box::new(node(
                RegexKind::Id { name: n.a, elem: Some(0) },
                set(&[]),
                set(&[]),
                set(&[n.a]),
                set(&[]),
                at(1, 1),
            )) },
            set(&[]),
            set(&[]),
            set(&[]),
            set(&[]),
            at(1, 1),
        )) },
        set(&[]),
        set(&[]),
        set(&[]),
        set(&[]),
        at(1, 1),
    );
    let expected = [
        "        loop {",
        "            match input.current().kind {",
        "                pattern_EOF!() => {",
        "                    let r#A = consume_A!(input);",
        "                }",
        "                pattern_EOF!() => break,",
        "                _ => {",
        "                    return err![default_EOF!()]",
        "                }",
        "            }",
        "        }",
        "",
    ]
    .join("\n");
    let mut out = String::new();
    RustOutput::output_regex(&module, &regex, &mut out, "", 2);
    assert_eq!(out, expected);
}

#[test]
fn nested_constructs_are_indented_by_their_depth() {
    let (module, n) = fixture();
    let regex = node(
        RegexKind::Or {
            ops: vec![
                node(
                    RegexKind::Concat {
                        ops: vec![
                            node(
                                RegexKind::Id { name: n.a, elem: Some(0) },
                                set(&[n.a]),
                                set(&[]),
                                set(&[n.a]),
                                set(&[]),
                                at(1, 1),
                            ),
                            node(
                                RegexKind::Star { op: Box::new(node(
                                    RegexKind::Paren { op: Box::new(node(
                                        RegexKind::Concat {
                                            ops: vec![
                                                node(
                                                    RegexKind::Id { name: n.b, elem: Some(1) },
                                                    set(&[n.b]),
                                                    set(&[]),
                                                    set(&[n.b]),
                                                    set(&[]),
                                                    at(1, 1),
                                                ),
                                                node(
                                                    RegexKind::Id { name: n.item, elem: Some(7) },
                                                    set(&[n.a]),
                                                    set(&[]),
                                                    set(&[]),
                                                    set(&[]),
                                                    at(1, 1),
                                                ),
                                            ],
                                            error: None,
                                        },
                                        set(&[n.b]),
                                        set(&[]),
                                        set(&[]),
                                        set(&[]),
                                        at(1, 1),
                                    )) },
                                    set(&[n.b]),
                                    set(&[]),
                                    set(&[]),
                                    set(&[]),
                                    at(1, 1),
                                )) },
                                set(&[n.b]),
                                set(&[n.c]),
                                set(&[n.b, n.c]),
                                set(&[]),
                                at(1, 1),
                            ),
                            node(
                                RegexKind::Id { name: n.c, elem: Some(2) },
                                set(&[n.c]),
                                set(&[]),
                                set(&[n.c]),
                                set(&[]),
                                at(1, 1),
                            ),
                        ],
                        error: None,
                    },
                    set(&[n.a]),
                    set(&[]),
                    set(&[n.a]),
                    set(&[]),
                    at(1, 1),
                ),
                node(
                    RegexKind::Plus { op: Box::new(node(
                        RegexKind::Id { name: n.x, elem: Some(3) },
                        set(&[n.x]),
                        set(&[]),
                        set(&[n.x]),
                        set(&[]),
                        at(1, 1),
                    )) },
                    set(&[n.x]),
                    set(&[n.y]),
                    set(&[n.x]),
                    set(&[]),
                    at(1, 1),
                ),
            ],
            error: None,
        },
        set(&[n.a, n.x]),
        set(&[]),
        set(&[n.a, n.x]),
        set(&[]),
        at(1, 1),
    );
    let expected = [
        "        match input.current().kind {",
        "            pattern_A!() => {",
        "                let r#A = consume_A!(input);",
        "                loop {",
        "                    match input.current().kind {",
        "                        pattern_B!() => {",
        "                            let r#B = consume_B!(input);",
        "                            let r#item = Self::r#item(depth + 1, input, diag, ctx, lhs, ctx)?;",
        "                        }",
        "                        pattern_C!() => break,",
        "                        _ => {",
        "                            return err![default_B!(),",
        "                                        default_C!()]",
        "                        }",
        "                    }",
        "                }",
        "                let r#C = consume_C!(input);",
        "            }",
        "            pattern_X!() => {",
        "                let mut is_first = true;",
        "                loop {",
        "                    match input.current().kind {",
        "                        pattern_X!() => {",
        "                            let r#X = consume_X!(input);",
        "                        }",
        "                        pattern_Y!() if !is_first => break,",
        "                        _ if is_first => {",
        "                            return err![default_X!()]",
        "                        }",
        "                        _ => {",
        "                            return err![default_X!(),",
        "                                        default_Y!()]",
        "                        }",
        "                    }",
        "                    is_first = false;",
        "                }",
        "            }",
        "            _ => {",
        "                return err![default_A!(),",
        "                            default_X!()]",
        "            }",
        "        }",
        "",
    ]
    .join("\n");
    let mut out = String::new();
    RustOutput::output_regex(&module, &regex, &mut out, ", diag, ctx", 2);
    assert_eq!(out, expected);
}

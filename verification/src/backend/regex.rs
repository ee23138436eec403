//! The compiler of rule bodies: what each construct of a body becomes in the
//! parser, as text and as the function that writes it.

use crate::backend::generator::{error, error_text, pattern, pattern_text};
use crate::backend::rust::{arguments, RustOutput};
use crate::backend::templates::{
    action_code, action_code_text, action_missing, action_missing_text, arm_close,
    arm_close_text, arm_ok, arm_ok_text, arm_open, arm_open_text, boundary_open,
    boundary_open_text, follow_check, follow_check_text, handler_code, handler_code_text,
    handler_missing, handler_missing_text, match_default, match_default_text, match_open,
    match_open_text, option_binding, option_binding_text, option_close, option_close_text,
    option_open, option_open_text, option_some, option_some_text, plus_close, plus_close_text,
    plus_open, plus_open_text, recovery_cancel, recovery_cancel_text, recovery_close,
    recovery_close_text, recovery_end, recovery_end_text, recovery_fatal, recovery_fatal_text,
    recovery_loop, recovery_loop_text, recovery_open, recovery_open_text, recovery_resume,
    recovery_resume_text, rule_call, rule_call_text, star_close, star_close_text, star_open,
    star_open_text, token_consume, token_consume_text,
};
use crate::backend::text::{has_newline, trim, trimmed};
use crate::frontend::ast::{element_at, get_element, regex_wf, Element, ElementKind, Module, Regex, RegexKind};
use crate::frontend::symbol::{in_order, lemma_in_order, lemma_order_unique, Symbol, SymbolSet};
use vstd::prelude::*;

verus! {

/// User code as it is spliced in: code of several lines as it stands, code
/// of one line trimmed and indented by one level.
pub open spec fn snippet(code: Seq<char>) -> Seq<char> {
    if code.contains('\n') {
        code
    } else {
        "    "@ + trimmed(code)
    }
}

/// Writes [`snippet`].
pub(crate) fn make_snippet(code: &str) -> (r: String)
    ensures
        r@ == snippet(code@),
{
    if has_newline(code) {
        String::from_str(code)
    } else {
        let mut r = String::from_str("    ");
        r.append(trim(code).as_str());
        r
    }
}

/// The condition that `first` puts on its branch, if it is a predicate with
/// code: the word `if` and the code, after a space.
pub open spec fn leading_predicate(m: &Module, first: &Regex) -> Seq<char> {
    match first.kind {
        RegexKind::Predicate { val, elem } => match element_at(m.elements@, elem) {
            Some(e) => match e.kind {
                ElementKind::Predicate { code } => " if "@ + trimmed(m.table.name_of(code)),
                _ => Seq::empty(),
            },
            None => Seq::empty(),
        },
        _ => Seq::empty(),
    }
}

/// The condition under which the branch `regex` is taken: that of the
/// predicate that a sequence begins with, looked for through parentheses.
pub open spec fn predicate_text(m: &Module, regex: &Regex) -> Seq<char>
    decreases regex,
{
    match regex.kind {
        RegexKind::Concat { ops, error } => if ops.len() > 0 {
            leading_predicate(m, &ops[0])
        } else {
            Seq::empty()
        },
        RegexKind::Paren { op } => predicate_text(m, &*op),
        _ => Seq::empty(),
    }
}

/// The arguments of a call of a rule with the parameters `pars`, each after
/// a comma.
pub open spec fn call_arguments(pars: Seq<char>) -> Seq<char> {
    if arguments(pars).len() == 0 {
        Seq::empty()
    } else {
        ", "@ + arguments(pars)
    }
}

/// The name that the value of an optional `op` is bound to: that of the
/// rule or token that `op` refers to, or the empty name.
pub open spec fn option_name(m: &Module, op: &Regex) -> Symbol {
    match op.kind {
        RegexKind::Id { name, elem } => name,
        RegexKind::Str { lit, elem } => match element_at(m.elements@, elem) {
            Some(e) => match e.kind {
                ElementKind::Token { name, ty, sym } => name,
                _ => Symbol(0),
            },
            None => Symbol(0),
        },
        _ => Symbol(0),
    }
}

/// The code of the semantic action `regex` with the number `val`, or what
/// stands for it if `elem` leads to none.
pub open spec fn action_body(m: &Module, regex: &Regex, val: u64, elem: Option<usize>) -> Seq<
    char,
> {
    let missing = action_missing_text(
        val,
        regex.range.start.line as u64,
        regex.range.start.column as u64,
    );
    match element_at(m.elements@, elem) {
        Some(e) => match e.kind {
            ElementKind::Action { code } => snippet(m.table.name_of(code)),
            _ => missing,
        },
        None => missing,
    }
}

/// The code of the error handler `regex` with the number `val`, or what
/// stands for it if `elem` leads to none.
pub open spec fn handler_body(m: &Module, regex: &Regex, val: u64, elem: Option<usize>) -> Seq<
    char,
> {
    let missing = handler_missing_text(
        val,
        regex.range.start.line as u64,
        regex.range.start.column as u64,
    );
    match element_at(m.elements@, elem) {
        Some(e) => match e.kind {
            ElementKind::ErrorHandler { code } => snippet(m.table.name_of(code)),
            _ => missing,
        },
        None => missing,
    }
}

/// The tokens on which some branch among `ops` is taken. An error handler
/// among them is no branch.
pub open spec fn branch_predicts(ops: Seq<Regex>) -> Set<Symbol> {
    Set::new(|s: Symbol| exists|i: int| 0 <= i < ops.len() && #[trigger] predicts(&ops[i], s))
}

/// Whether `op` is a branch that is taken on the token `s`.
pub open spec fn predicts(op: &Regex, s: Symbol) -> bool {
    !(op.kind is ErrorHandler) && op.predict@.contains(s)
}

/// The code for a name: a call of the rule that it refers to, one level
/// deeper, or the taking of one token of the kind that it refers to.
pub open spec fn reference_text(
    m: &Module,
    name: Symbol,
    elem: Option<usize>,
    common_args: Seq<char>,
    level: nat,
) -> Seq<char> {
    match element_at(m.elements@, elem) {
        Some(e) => match e.kind {
            ElementKind::Rule { name: rule, ret, pars, regex, action } => rule_call_text(
                m.table.name_of(name),
                common_args,
                call_arguments(m.table.name_of(pars)),
                level,
            ),
            ElementKind::Token { name: token, ty, sym } => token_consume_text(
                m.table.name_of(name),
                level,
            ),
            _ => Seq::empty(),
        },
        None => Seq::empty(),
    }
}

/// The code for a literal: the taking of one token of the kind that it
/// refers to.
pub open spec fn literal_text(m: &Module, elem: Option<usize>, level: nat) -> Seq<char> {
    match element_at(m.elements@, elem) {
        Some(e) => match e.kind {
            ElementKind::Token { name, ty, sym } => token_consume_text(m.table.name_of(name), level),
            _ => Seq::empty(),
        },
        None => Seq::empty(),
    }
}

/// The last branch of the alternation of `ops`: it fails expecting the
/// tokens of all branches, in order.
pub open spec fn or_default_text(m: &Module, ops: Seq<Regex>, level: nat) -> Seq<char> {
    match_default_text(error_text(&m.table, in_order(branch_predicts(ops)), 5), level)
}

/// The opening of the repetition of `op`: the loop runs `op` while the
/// current token begins it.
pub open spec fn star_head_text(m: &Module, op: &Regex, level: nat) -> Seq<char> {
    star_open_text(pattern_text(&m.table, op.first@, 2), predicate_text(m, op), level)
}

/// The rest of the repetition `regex`: it ends on a token that can follow
/// it, and fails on any other expecting the tokens that predict it.
pub open spec fn star_tail_text(m: &Module, regex: &Regex, level: nat) -> Seq<char> {
    star_close_text(
        pattern_text(&m.table, regex.follow@, 2),
        error_text(&m.table, regex.predict@, 6),
        level,
    )
}

/// The opening of the repetition of `op` that runs at least once.
pub open spec fn plus_head_text(m: &Module, op: &Regex, level: nat) -> Seq<char> {
    plus_open_text(pattern_text(&m.table, op.first@, 2), predicate_text(m, op), level)
}

/// The rest of the repetition `regex` of `op` that runs at least once: in
/// the first round it fails expecting the tokens that begin `op`, in a later
/// one those and the tokens that can follow `regex`.
pub open spec fn plus_tail_text(m: &Module, regex: &Regex, op: &Regex, level: nat) -> Seq<char> {
    plus_close_text(
        pattern_text(&m.table, regex.follow@, 2),
        error_text(&m.table, op.first@, 6),
        error_text(&m.table, regex.follow@, 6),
        level,
    )
}

/// The opening of the optional part `op`: its value is bound if `op` has a
/// name, and `op` runs if the current token begins it.
pub open spec fn option_head_text(m: &Module, op: &Regex, level: nat) -> Seq<char> {
    let name = option_name(m, op);
    option_open_text(
        if name.is_empty() {
            Seq::empty()
        } else {
            option_binding_text(m.table.name_of(name))
        },
        pattern_text(&m.table, op.first@, 1),
        predicate_text(m, op),
        level,
    )
}

/// The rest of the optional part `regex` of `op`: the value if `op` has a
/// name; on a token that can follow `regex` the part is absent, and on any
/// other it fails expecting the tokens that predict `regex`.
pub open spec fn option_tail_text(m: &Module, regex: &Regex, op: &Regex, level: nat) -> Seq<char> {
    let name = option_name(m, op);
    (if name.is_empty() {
        Seq::empty()
    } else {
        option_some_text(m.table.name_of(name), level + 2)
    }) + option_close_text(
        pattern_text(&m.table, regex.follow@, 1),
        !name.is_empty(),
        error_text(&m.table, regex.predict@, 5),
        level,
    )
}

/// The code for `regex` at the indentation `level`.
///
/// - A name or literal of a token takes one token of that kind.
/// - A name of a rule calls the rule one level deeper.
/// - A sequence runs its operands in order. With an error handler it is
///   caught, and recovery follows it.
/// - An alternation dispatches on the current token over the branches in
///   their order; on no branch it fails expecting the tokens of all
///   branches. With an error handler it is caught, and recovery follows it.
/// - A repetition loops while the current token begins the operand, ends on
///   a token that can follow, and fails on any other.
/// - An optional part runs the operand or skips it.
/// - Parentheses leave the operand as it is.
/// - An action or an error handler is its code, one level further out.
pub open spec fn regex_text(m: &Module, regex: &Regex, common_args: Seq<char>, level: nat) -> Seq<
    char,
>
    decreases regex, 0nat,
{
    match regex.kind {
        RegexKind::Id { name, elem } => reference_text(m, name, elem, common_args, level),
        RegexKind::Str { lit, elem } => literal_text(m, elem, level),
        RegexKind::Concat { ops, error } => match error {
            Some(e) => boundary_open_text(level) + sequence_text(
                m,
                ops@,
                common_args,
                level + 1,
                ops@.len(),
            ) + recovery_text(m, &*e, common_args, level + 1),
            None => sequence_text(m, ops@, common_args, level, ops@.len()),
        },
        RegexKind::Or { ops, error } => match error {
            Some(e) => boundary_open_text(level) + match_open_text(level + 1) + branches_text(
                m,
                ops@,
                common_args,
                level + 1,
                true,
                ops@.len(),
            ) + or_default_text(m, ops@, level + 1) + recovery_text(
                m,
                &*e,
                common_args,
                level + 1,
            ),
            None => match_open_text(level) + branches_text(
                m,
                ops@,
                common_args,
                level,
                false,
                ops@.len(),
            ) + or_default_text(m, ops@, level),
        },
        RegexKind::Star { op } => star_head_text(m, &*op, level) + regex_text(
            m,
            &*op,
            common_args,
            level + 3,
        ) + star_tail_text(m, regex, level),
        RegexKind::Plus { op } => plus_head_text(m, &*op, level) + regex_text(
            m,
            &*op,
            common_args,
            level + 3,
        ) + plus_tail_text(m, regex, &*op, level),
        RegexKind::Option { op } => option_head_text(m, &*op, level) + regex_text(
            m,
            &*op,
            common_args,
            level + 2,
        ) + option_tail_text(m, regex, &*op, level),
        RegexKind::Paren { op } => regex_text(m, &*op, common_args, level),
        RegexKind::Action { val, elem } => action_code_text(
            val,
            action_body(m, regex, val, elem),
            (level - 1) as nat,
        ),
        RegexKind::ErrorHandler { val, elem } => handler_code_text(
            val,
            handler_body(m, regex, val, elem),
            (level - 1) as nat,
        ),
        _ => Seq::empty(),
    }
}

/// The code for the first `n` operands of a sequence. An error handler
/// among them only checks that a token follows at which the sequence may
/// end.
pub open spec fn sequence_text(
    m: &Module,
    ops: Seq<Regex>,
    common_args: Seq<char>,
    level: nat,
    n: nat,
) -> Seq<char>
    decreases ops, n,
{
    if n == 0 || n > ops.len() {
        Seq::empty()
    } else {
        let op = &ops[n - 1];
        sequence_text(m, ops, common_args, level, (n - 1) as nat) + (if op.kind is ErrorHandler {
            follow_check_text(
                pattern_text(&m.table, op.follow@, 1),
                error_text(&m.table, op.follow@, 5),
                level,
            )
        } else {
            regex_text(m, op, common_args, level)
        })
    }
}

/// The branches for the first `n` operands of an alternation: each is taken
/// on the tokens that predict it, under its condition if it has one. An
/// error handler among the operands has no branch. In a `caught`
/// alternation each branch ends in success.
pub open spec fn branches_text(
    m: &Module,
    ops: Seq<Regex>,
    common_args: Seq<char>,
    level: nat,
    caught: bool,
    n: nat,
) -> Seq<char>
    decreases ops, n,
{
    if n == 0 || n > ops.len() {
        Seq::empty()
    } else {
        let op = &ops[n - 1];
        branches_text(m, ops, common_args, level, caught, (n - 1) as nat) + (if op.kind
            is ErrorHandler {
            Seq::empty()
        } else {
            arm_open_text(
                pattern_text(&m.table, op.predict@, 0),
                predicate_text(m, op),
                level + 1,
            ) + regex_text(m, op, common_args, level + 2) + (if caught {
                arm_ok_text(level + 2)
            } else {
                Seq::empty()
            }) + arm_close_text(level + 1)
        })
    }
}

/// What follows a caught part at `level` and takes its failure. A fatal
/// failure is passed on, and so is any failure at the end of input. From
/// any other the parser recovers: the handler `error` runs on a token that
/// can follow it, recovery gives up on a token at which it is cancelled, if
/// there are such tokens, and at the end of input, and every other token is
/// skipped.
pub open spec fn recovery_text(m: &Module, error: &Regex, common_args: Seq<char>, level: nat) -> Seq<
    char,
>
    decreases error, 1nat,
{
    recovery_open_text((level - 1) as nat) + recovery_fatal_text((level - 1) as nat)
        + recovery_end_text((level - 1) as nat) + recovery_loop_text(
        pattern_text(&m.table, error.follow@, 3),
        (level - 1) as nat,
    ) + regex_text(
        m,
        error,
        common_args,
        level + 3,
    ) + recovery_resume_text((level - 1) as nat) + (if error.cancel@.len() > 0 {
        recovery_cancel_text(pattern_text(&m.table, error.cancel@, 3), (level - 1) as nat)
    } else {
        Seq::empty()
    }) + recovery_close_text((level - 1) as nat)
}

/// The tokens on which some branch among `ops` is taken, in order.
pub(crate) fn branch_expected(ops: &Vec<Regex>) -> (r: SymbolSet)
    ensures
        r@ == in_order(branch_predicts(ops@)),
{
    let mut acc = SymbolSet::new();
    let mut i: usize = 0;
    assert(acc@.to_set() =~= branch_predicts(ops@.take(0)));
    while i < ops.len()
        invariant
            i <= ops.len(),
            acc@.to_set() == branch_predicts(ops@.take(i as int)),
        decreases ops.len() - i,
    {
        let ghost before = acc@.to_set();
        let ghost a = ops@.take(i as int);
        let ghost b = ops@.take(i + 1);
        proof {
            assert forall|s: Symbol|
                branch_predicts(b).contains(s) <==> (branch_predicts(a).contains(s) || predicts(
                    &ops@[i as int],
                    s,
                )) by {
                if branch_predicts(b).contains(s) {
                    let k = choose|k: int| 0 <= k < b.len() && #[trigger] predicts(&b[k], s);
                    if k < i {
                        assert(predicts(&a[k], s));
                    }
                }
                if branch_predicts(a).contains(s) {
                    let k = choose|k: int| 0 <= k < a.len() && #[trigger] predicts(&a[k], s);
                    assert(predicts(&b[k], s));
                }
                if predicts(&ops@[i as int], s) {
                    assert(predicts(&b[i as int], s));
                }
            }
        }
        match &ops[i].kind {
            RegexKind::ErrorHandler { .. } => {
                assert(branch_predicts(b) =~= before);
            },
            _ => {
                let set = ops[i].predict.to_vec();
                let mut k: usize = 0;
                assert(set@.take(0).to_set() =~= Set::<Symbol>::empty());
                assert(before.union(Set::<Symbol>::empty()) =~= before);
                while k < set.len()
                    invariant
                        k <= set@.len(),
                        acc@.to_set() == before.union(set@.take(k as int).to_set()),
                    decreases set@.len() - k,
                {
                    let ghost done = set@.take(k as int);
                    acc.insert(set[k]);
                    proof {
                        set@.lemma_take_succ_push(k as int);
                        done.lemma_push_to_set_commute(set@[k as int]);
                        assert(acc@.to_set() =~= before.union(set@.take(k + 1).to_set()));
                    }
                    k += 1;
                }
                assert(set@.take(k as int) =~= set@);
                assert(branch_predicts(b) =~= before.union(set@.to_set()));
            },
        }
        i += 1;
    }
    proof {
        assert(ops@.take(i as int) =~= ops@);
        acc.lemma_rises();
        lemma_in_order(branch_predicts(ops@));
        lemma_order_unique(acc@, in_order(branch_predicts(ops@)));
    }
    acc
}

/// The name that the value of an optional `op` is bound to.
fn binding_name(module: &Module, op: &Regex) -> (r: Symbol)
    ensures
        r == option_name(module, op),
{
    match &op.kind {
        RegexKind::Id { name, .. } => *name,
        RegexKind::Str { elem, .. } => match get_element(&module.elements, *elem) {
            Some(e) => match &e.kind {
                ElementKind::Token { name, .. } => *name,
                _ => Symbol::empty(),
            },
            None => Symbol::empty(),
        },
        _ => Symbol::empty(),
    }
}

impl RustOutput {
    /// The condition under which the branch `regex` is taken.
    pub fn get_predicate(module: &Module, regex: &Regex) -> (r: String)
        ensures
            r@ == predicate_text(module, regex),
        decreases *regex,
    {
        match &regex.kind {
            RegexKind::Concat { ops, .. } => {
                if ops.len() > 0 {
                    match &ops[0].kind {
                        RegexKind::Predicate { elem, .. } => match get_element(
                            &module.elements,
                            *elem,
                        ) {
                            Some(e) => match &e.kind {
                                ElementKind::Predicate { code } => {
                                    let mut r = String::from_str(" if ");
                                    r.append(trim(module.table.name(*code)).as_str());
                                    r
                                },
                                _ => String::new(),
                            },
                            None => String::new(),
                        },
                        _ => String::new(),
                    }
                } else {
                    String::new()
                }
            },
            RegexKind::Paren { op } => Self::get_predicate(module, op),
            _ => String::new(),
        }
    }

    /// Writes the recovery that follows a caught part at `level`.
    pub fn output_error_handler(
        module: &Module,
        error: &Regex,
        output: &mut String,
        common_args: &str,
        level: usize,
    )
        requires
            1 <= level,
            regex_wf(module.elements@, error, (level + 3) as nat),
        ensures
            final(output)@ == old(output)@ + recovery_text(
                module,
                error,
                common_args@,
                level as nat,
            ),
        decreases *error, 1nat,
    {
        let table = &module.table;
        let follow_pat = pattern(table, &error.follow, 3);
        output.append(recovery_open(level - 1).as_str());
        output.append(recovery_fatal(level - 1).as_str());
        output.append(recovery_end(level - 1).as_str());
        output.append(recovery_loop(follow_pat.as_str(), level - 1).as_str());
        Self::output_regex(module, error, output, common_args, level + 3);
        output.append(recovery_resume(level - 1).as_str());
        if !error.cancel.is_empty() {
            let cancel_pat = pattern(table, &error.cancel, 3);
            output.append(recovery_cancel(cancel_pat.as_str(), level - 1).as_str());
        }
        output.append(recovery_close(level - 1).as_str());
        assert(output@ =~= old(output)@ + recovery_text(module, error, common_args@, level as nat));
    }

    /// Writes the code for the operands of a sequence.
    fn output_sequence(
        module: &Module,
        ops: &Vec<Regex>,
        output: &mut String,
        common_args: &str,
        level: usize,
    )
        requires
            forall|i: int|
                0 <= i < ops.len() ==> regex_wf(module.elements@, #[trigger] &ops[i], level as nat),
        ensures
            final(output)@ == old(output)@ + sequence_text(
                module,
                ops@,
                common_args@,
                level as nat,
                ops@.len(),
            ),
        decreases ops@, 0nat,
    {
        let mut i: usize = 0;
        assert(output@ =~= old(output)@ + sequence_text(module, ops@, common_args@, level as nat, 0));
        while i < ops.len()
            invariant
                i <= ops.len(),
                forall|i: int|
                    0 <= i < ops.len() ==> regex_wf(
                        module.elements@,
                        #[trigger] &ops[i],
                        level as nat,
                    ),
                output@ == old(output)@ + sequence_text(
                    module,
                    ops@,
                    common_args@,
                    level as nat,
                    i as nat,
                ),
            decreases ops.len() - i,
        {
            let op = &ops[i];
            let ghost before = output@;
            let ghost done = sequence_text(module, ops@, common_args@, level as nat, i as nat);
            let ghost step = if op.kind is ErrorHandler {
                follow_check_text(
                    pattern_text(&module.table, op.follow@, 1),
                    error_text(&module.table, op.follow@, 5),
                    level as nat,
                )
            } else {
                regex_text(module, op, common_args@, level as nat)
            };
            assert(sequence_text(module, ops@, common_args@, level as nat, (i + 1) as nat) == done
                + step);
            match &op.kind {
                RegexKind::ErrorHandler { .. } => {
                    let pat = pattern(&module.table, &op.follow, 1);
                    let expected = error(&module.table, &op.follow, 5);
                    output.append(follow_check(pat.as_str(), expected.as_str(), level).as_str());
                },
                _ => {
                    assert(regex_wf(module.elements@, &ops[i as int], level as nat));
                    Self::output_regex(module, op, output, common_args, level);
                },
            }
            assert(output@ == before + step);
            assert(output@ =~= old(output)@ + (done + step));
            i += 1;
        }
    }

    /// Writes the branches for the operands of an alternation.
    fn output_branches(
        module: &Module,
        ops: &Vec<Regex>,
        output: &mut String,
        common_args: &str,
        level: usize,
        caught: bool,
    )
        requires
            forall|i: int|
                0 <= i < ops.len() ==> regex_wf(
                    module.elements@,
                    #[trigger] &ops[i],
                    (level + 2) as nat,
                ),
        ensures
            final(output)@ == old(output)@ + branches_text(
                module,
                ops@,
                common_args@,
                level as nat,
                caught,
                ops@.len(),
            ),
        decreases ops@, 0nat,
    {
        let mut i: usize = 0;
        assert(output@ =~= old(output)@ + branches_text(
            module,
            ops@,
            common_args@,
            level as nat,
            caught,
            0,
        ));
        while i < ops.len()
            invariant
                i <= ops.len(),
                forall|i: int|
                    0 <= i < ops.len() ==> regex_wf(
                        module.elements@,
                        #[trigger] &ops[i],
                        (level + 2) as nat,
                    ),
                output@ == old(output)@ + branches_text(
                    module,
                    ops@,
                    common_args@,
                    level as nat,
                    caught,
                    i as nat,
                ),
            decreases ops.len() - i,
        {
            let op = &ops[i];
            let ghost before = output@;
            let ghost done = branches_text(
                module,
                ops@,
                common_args@,
                level as nat,
                caught,
                i as nat,
            );
            let ghost step = if op.kind is ErrorHandler {
                Seq::<char>::empty()
            } else {
                arm_open_text(
                    pattern_text(&module.table, op.predict@, 0),
                    predicate_text(module, op),
                    (level + 1) as nat,
                ) + regex_text(module, op, common_args@, (level + 2) as nat) + (if caught {
                    arm_ok_text((level + 2) as nat)
                } else {
                    Seq::empty()
                }) + arm_close_text((level + 1) as nat)
            };
            assert(branches_text(
                module,
                ops@,
                common_args@,
                level as nat,
                caught,
                (i + 1) as nat,
            ) == done + step);
            match &op.kind {
                RegexKind::ErrorHandler { .. } => {},
                _ => {
                    assert(regex_wf(module.elements@, &ops[i as int], (level + 2) as nat));
                    let pat = pattern(&module.table, &op.predict, 0);
                    let pred = Self::get_predicate(module, op);
                    output.append(arm_open(pat.as_str(), pred.as_str(), level + 1).as_str());
                    Self::output_regex(module, op, output, common_args, level + 2);
                    if caught {
                        output.append(arm_ok(level + 2).as_str());
                    }
                    output.append(arm_close(level + 1).as_str());
                },
            }
            assert(output@ =~= before + step);
            assert(output@ =~= old(output)@ + (done + step));
            i += 1;
        }
    }

    /// Writes the code for `regex` at the indentation `level`.
    pub fn output_regex(
        module: &Module,
        regex: &Regex,
        output: &mut String,
        common_args: &str,
        level: usize,
    )
        requires
            regex_wf(module.elements@, regex, level as nat),
        ensures
            final(output)@ == old(output)@ + regex_text(module, regex, common_args@, level as nat),
        decreases *regex, 0nat,
    {
        match &regex.kind {
            RegexKind::Id { name, elem } => {
                output.append(reference(module, *name, *elem, common_args, level).as_str());
            },
            RegexKind::Str { elem, .. } => {
                output.append(literal(module, *elem, level).as_str());
            },
            RegexKind::Concat { ops, error } => match error {
                Some(e) => {
                    output.append(boundary_open(level).as_str());
                    Self::output_sequence(module, ops, output, common_args, level + 1);
                    Self::output_error_handler(module, e, output, common_args, level + 1);
                    assert(output@ =~= old(output)@ + regex_text(
                        module,
                        regex,
                        common_args@,
                        level as nat,
                    ));
                },
                None => {
                    Self::output_sequence(module, ops, output, common_args, level);
                },
            },
            RegexKind::Or { ops, error } => match error {
                Some(e) => {
                    output.append(boundary_open(level).as_str());
                    output.append(match_open(level + 1).as_str());
                    Self::output_branches(module, ops, output, common_args, level + 1, true);
                    output.append(or_default(module, ops, level + 1).as_str());
                    Self::output_error_handler(module, e, output, common_args, level + 1);
                    assert(output@ =~= old(output)@ + regex_text(
                        module,
                        regex,
                        common_args@,
                        level as nat,
                    ));
                },
                None => {
                    output.append(match_open(level).as_str());
                    Self::output_branches(module, ops, output, common_args, level, false);
                    output.append(or_default(module, ops, level).as_str());
                    assert(output@ =~= old(output)@ + regex_text(
                        module,
                        regex,
                        common_args@,
                        level as nat,
                    ));
                },
            },
            RegexKind::Star { op } => {
                output.append(star_head(module, op, level).as_str());
                Self::output_regex(module, op, output, common_args, level + 3);
                output.append(star_tail(module, regex, level).as_str());
                assert(output@ =~= old(output)@ + regex_text(
                    module,
                    regex,
                    common_args@,
                    level as nat,
                ));
            },
            RegexKind::Plus { op } => {
                output.append(plus_head(module, op, level).as_str());
                Self::output_regex(module, op, output, common_args, level + 3);
                output.append(plus_tail(module, regex, op, level).as_str());
                assert(output@ =~= old(output)@ + regex_text(
                    module,
                    regex,
                    common_args@,
                    level as nat,
                ));
            },
            RegexKind::Option { op } => {
                output.append(option_head(module, op, level).as_str());
                Self::output_regex(module, op, output, common_args, level + 2);
                output.append(option_tail(module, regex, op, level).as_str());
                assert(output@ =~= old(output)@ + regex_text(
                    module,
                    regex,
                    common_args@,
                    level as nat,
                ));
            },
            RegexKind::Paren { op } => {
                Self::output_regex(module, op, output, common_args, level);
            },
            RegexKind::Action { val, elem } => {
                let code = action_snippet(module, regex, *val, *elem);
                output.append(action_code(*val, code.as_str(), level - 1).as_str());
            },
            RegexKind::ErrorHandler { val, elem } => {
                let code = handler_snippet(module, regex, *val, *elem);
                output.append(handler_code(*val, code.as_str(), level - 1).as_str());
            },
            _ => {
                assert(output@ =~= old(output)@ + Seq::<char>::empty());
            },
        }
    }
}

/// Writes [`reference_text`].
fn reference(
    module: &Module,
    name: Symbol,
    elem: Option<usize>,
    common_args: &str,
    level: usize,
) -> (r: String)
    ensures
        r@ == reference_text(module, name, elem, common_args@, level as nat),
{
    let table = &module.table;
    match get_element(&module.elements, elem) {
        Some(e) => match &e.kind {
            ElementKind::Rule { pars, .. } => {
                let list = RustOutput::par_to_arg(table.name(*pars));
                let mut args = String::new();
                if !list.as_str().is_empty() {
                    args = String::from_str(", ");
                    args.append(list.as_str());
                }
                rule_call(table.name(name), common_args, args.as_str(), level)
            },
            ElementKind::Token { .. } => token_consume(table.name(name), level),
            _ => String::new(),
        },
        None => String::new(),
    }
}

/// Writes [`literal_text`].
fn literal(module: &Module, elem: Option<usize>, level: usize) -> (r: String)
    ensures
        r@ == literal_text(module, elem, level as nat),
{
    match get_element(&module.elements, elem) {
        Some(e) => match &e.kind {
            ElementKind::Token { name, .. } => token_consume(module.table.name(*name), level),
            _ => String::new(),
        },
        None => String::new(),
    }
}

/// Writes [`or_default_text`].
fn or_default(module: &Module, ops: &Vec<Regex>, level: usize) -> (r: String)
    ensures
        r@ == or_default_text(module, ops@, level as nat),
{
    let expected = branch_expected(ops);
    let list = error(&module.table, &expected, 5);
    match_default(list.as_str(), level)
}

/// Writes [`star_head_text`].
fn star_head(module: &Module, op: &Regex, level: usize) -> (r: String)
    ensures
        r@ == star_head_text(module, op, level as nat),
{
    let pat = pattern(&module.table, &op.first, 2);
    let pred = RustOutput::get_predicate(module, op);
    star_open(pat.as_str(), pred.as_str(), level)
}

/// Writes [`star_tail_text`].
fn star_tail(module: &Module, regex: &Regex, level: usize) -> (r: String)
    ensures
        r@ == star_tail_text(module, regex, level as nat),
{
    let follow_pat = pattern(&module.table, &regex.follow, 2);
    let expected = error(&module.table, &regex.predict, 6);
    star_close(follow_pat.as_str(), expected.as_str(), level)
}

/// Writes [`plus_head_text`].
fn plus_head(module: &Module, op: &Regex, level: usize) -> (r: String)
    ensures
        r@ == plus_head_text(module, op, level as nat),
{
    let pat = pattern(&module.table, &op.first, 2);
    let pred = RustOutput::get_predicate(module, op);
    plus_open(pat.as_str(), pred.as_str(), level)
}

/// Writes [`plus_tail_text`].
fn plus_tail(module: &Module, regex: &Regex, op: &Regex, level: usize) -> (r: String)
    ensures
        r@ == plus_tail_text(module, regex, op, level as nat),
{
    let follow_pat = pattern(&module.table, &regex.follow, 2);
    let first = error(&module.table, &op.first, 6);
    let follow = error(&module.table, &regex.follow, 6);
    plus_close(follow_pat.as_str(), first.as_str(), follow.as_str(), level)
}

/// Writes [`option_head_text`].
fn option_head(module: &Module, op: &Regex, level: usize) -> (r: String)
    ensures
        r@ == option_head_text(module, op, level as nat),
{
    let name = binding_name(module, op);
    let binding = if name.is_empty() {
        String::new()
    } else {
        option_binding(module.table.name(name))
    };
    let pat = pattern(&module.table, &op.first, 1);
    let pred = RustOutput::get_predicate(module, op);
    option_open(binding.as_str(), pat.as_str(), pred.as_str(), level)
}

/// Writes [`option_tail_text`].
fn option_tail(module: &Module, regex: &Regex, op: &Regex, level: usize) -> (r: String)
    requires
        level + 2 <= usize::MAX,
    ensures
        r@ == option_tail_text(module, regex, op, level as nat),
{
    let name = binding_name(module, op);
    let mut r = if name.is_empty() {
        String::new()
    } else {
        option_some(module.table.name(name), level + 2)
    };
    let follow_pat = pattern(&module.table, &regex.follow, 1);
    let expected = error(&module.table, &regex.predict, 5);
    r.append(option_close(follow_pat.as_str(), !name.is_empty(), expected.as_str(), level).as_str());
    r
}

/// Writes [`action_body`].
fn action_snippet(module: &Module, regex: &Regex, val: u64, elem: Option<usize>) -> (r: String)
    ensures
        r@ == action_body(module, regex, val, elem),
{
    match get_element(&module.elements, elem) {
        Some(Element { kind: ElementKind::Action { code }, .. }) => make_snippet(
            module.table.name(*code),
        ),
        _ => action_missing(
            val,
            regex.range.start.line as u64,
            regex.range.start.column as u64,
        ),
    }
}

/// Writes [`handler_body`].
fn handler_snippet(module: &Module, regex: &Regex, val: u64, elem: Option<usize>) -> (r: String)
    ensures
        r@ == handler_body(module, regex, val, elem),
{
    match get_element(&module.elements, elem) {
        Some(Element { kind: ElementKind::ErrorHandler { code }, .. }) => make_snippet(
            module.table.name(*code),
        ),
        _ => handler_missing(
            val,
            regex.range.start.line as u64,
            regex.range.start.column as u64,
        ),
    }
}

} // verus!

//! The rules of the parser, and the parser that holds them.

use crate::backend::items::{
    declared_error_type, error_type_of, parser_head, parser_head_text, rule_header,
    rule_header_text, start_header, start_header_text, LIMIT_CHECK, PARSER_CLOSE,
    PLAIN_ERROR_TYPE, RULE_CLOSE,
};
use crate::backend::regex::{make_snippet, regex_text, snippet};
use crate::backend::rust::{arguments, RustOutput};
use crate::backend::templates::{action_code, action_code_text};
use crate::backend::text::{indent, indented, trim, trimmed};
use crate::frontend::ast::{
    element_at, element_wf, get_element, in_its_place, Element, ElementKind, Module,
};
use crate::frontend::symbol::Symbol;
use vstd::prelude::*;

verus! {

/// The parameters `pars` of a rule as they follow the shared ones.
pub open spec fn own_parameters(m: &Module, pars: Symbol) -> Seq<char> {
    if pars.is_empty() {
        Seq::empty()
    } else {
        ", "@ + m.table.name_of(pars)
    }
}

/// The type `ret` that a rule returns: the unit type if it declares none.
pub open spec fn return_type(m: &Module, ret: Symbol) -> Seq<char> {
    if ret.is_empty() {
        "()"@
    } else {
        m.table.name_of(ret)
    }
}

/// The code that a rule begins with, if `action` leads to one.
pub open spec fn rule_action_text(m: &Module, action: Option<usize>) -> Seq<char> {
    match element_at(m.elements@, action) {
        Some(e) => match e.kind {
            ElementKind::Action { code } => action_code_text(0, snippet(m.table.name_of(code)), 1),
            _ => Seq::empty(),
        },
        None => Seq::empty(),
    }
}

/// The routine for the element `e`. Only a start rule or a rule that is in
/// use has one: its signature, in a rule the depth guard, the code that it
/// begins with, and its body.
pub open spec fn element_text(
    m: &Module,
    e: &Element,
    common_pars: Seq<char>,
    common_args: Seq<char>,
    error_type: Seq<char>,
) -> Seq<char> {
    if !e.used {
        Seq::empty()
    } else {
        match e.kind {
            ElementKind::Start { ret, pars, regex, action } => start_header_text(
                common_pars,
                own_parameters(m, pars),
                return_type(m, ret),
                error_type,
            ) + rule_action_text(m, action) + regex_text(m, &regex, common_args, 2) + RULE_CLOSE@,
            ElementKind::Rule { name, ret, pars, regex, action } => rule_header_text(
                m.table.name_of(name),
                common_pars,
                own_parameters(m, pars),
                return_type(m, ret),
                error_type,
            ) + indented(LIMIT_CHECK@, 2) + rule_action_text(m, action) + regex_text(
                m,
                &regex,
                common_args,
                2,
            ) + RULE_CLOSE@,
            _ => Seq::empty(),
        }
    }
}

/// An element that is not in use has no routine, whatever it holds.
pub proof fn lemma_unused_element_is_elided(
    m: &Module,
    e: &Element,
    common_pars: Seq<char>,
    common_args: Seq<char>,
    error_type: Seq<char>,
)
    requires
        !e.used,
    ensures
        element_text(m, e, common_pars, common_args, error_type) == Seq::<char>::empty(),
{
}

/// The parameters that all rules share, if the grammar declares any.
pub open spec fn shared_parameters(m: &Module) -> Option<Seq<char>> {
    match element_at(m.elements@, m.parameters) {
        Some(e) => match e.kind {
            ElementKind::Parameters { code } => Some(trimmed(m.table.name_of(code))),
            _ => None,
        },
        None => None,
    }
}

/// The shared parameters as they follow the input in a signature.
pub open spec fn common_pars_text(m: &Module) -> Seq<char> {
    match shared_parameters(m) {
        Some(p) => ", "@ + p,
        None => Seq::empty(),
    }
}

/// The shared parameters as they are passed on in a call.
pub open spec fn common_args_text(m: &Module) -> Seq<char> {
    match shared_parameters(m) {
        Some(p) => ", "@ + arguments(p),
        None => Seq::empty(),
    }
}

/// The error type of the parser: what the grammar declares, or a list of
/// token kinds.
pub open spec fn error_type_text(m: &Module) -> Seq<char> {
    match declared_error_type(m) {
        Some(code) => code,
        None => PLAIN_ERROR_TYPE@,
    }
}

/// What the entry returns, going by the first `n` elements: the type that
/// the last start rule among them declares, or the unit type.
pub open spec fn start_return(m: &Module, n: nat) -> Seq<char>
    decreases n,
{
    if n == 0 || n > m.elements@.len() {
        "()"@
    } else {
        match m.elements@[n - 1].kind {
            ElementKind::Start { ret, pars, regex, action } => if ret.is_empty() {
                start_return(m, (n - 1) as nat)
            } else {
                m.table.name_of(ret)
            },
            _ => start_return(m, (n - 1) as nat),
        }
    }
}

/// The parameters of the entry beside the shared ones, going by the first
/// `n` elements: those that the last start rule among them declares.
pub open spec fn start_parameters(m: &Module, n: nat) -> Seq<char>
    decreases n,
{
    if n == 0 || n > m.elements@.len() {
        Seq::empty()
    } else {
        match m.elements@[n - 1].kind {
            ElementKind::Start { ret, pars, regex, action } => if pars.is_empty() {
                start_parameters(m, (n - 1) as nat)
            } else {
                ", "@ + m.table.name_of(pars)
            },
            _ => start_parameters(m, (n - 1) as nat),
        }
    }
}

/// Going by the first `n` elements of a module with at most one start rule,
/// the entry returns what the start rule returns and has its parameters, if
/// the start rule is among them; else it returns nothing and has none.
pub proof fn lemma_entry_has_the_signature_of_the_start_rule(m: &Module, n: nat)
    requires
        m.singular(),
        n <= m.elements@.len(),
    ensures
        match m.start {
            Some(at) => if at < n {
                match m.elements@[at as int].kind {
                    ElementKind::Start { ret, pars, regex, action } => start_return(m, n)
                        == return_type(m, ret) && start_parameters(m, n) == own_parameters(
                        m,
                        pars,
                    ),
                    _ => start_return(m, n) == "()"@ && start_parameters(m, n) == Seq::<
                        char,
                    >::empty(),
                }
            } else {
                start_return(m, n) == "()"@ && start_parameters(m, n) == Seq::<char>::empty()
            },
            None => start_return(m, n) == "()"@ && start_parameters(m, n) == Seq::<char>::empty(),
        },
    decreases n,
{
    if n > 0 {
        lemma_entry_has_the_signature_of_the_start_rule(m, (n - 1) as nat);
        assert(m.elements@.len() == m.elements.len());
        let last = (n - 1) as usize;
        assert(in_its_place(m, &m.elements@[last as int], last));
    }
}

/// The routines of the first `n` elements, in the order of the elements.
pub open spec fn rules_text(
    m: &Module,
    common_pars: Seq<char>,
    common_args: Seq<char>,
    error_type: Seq<char>,
    n: nat,
) -> Seq<char>
    decreases n,
{
    if n == 0 || n > m.elements@.len() {
        Seq::empty()
    } else {
        rules_text(m, common_pars, common_args, error_type, (n - 1) as nat) + element_text(
            m,
            &m.elements@[n - 1],
            common_pars,
            common_args,
            error_type,
        )
    }
}

/// The parser: its entry, and the routines of its rules.
pub open spec fn parser_text(m: &Module) -> Seq<char> {
    parser_head_text(
        common_pars_text(m),
        start_parameters(m, m.elements@.len()),
        start_return(m, m.elements@.len()),
        common_args_text(m),
        error_type_text(m),
    ) + rules_text(
        m,
        common_pars_text(m),
        common_args_text(m),
        error_type_text(m),
        m.elements@.len(),
    ) + PARSER_CLOSE@
}

/// Writes [`rule_action_text`].
fn rule_action(module: &Module, action: Option<usize>) -> (r: String)
    ensures
        r@ == rule_action_text(module, action),
{
    match get_element(&module.elements, action) {
        Some(e) => match &e.kind {
            ElementKind::Action { code } => {
                let code = make_snippet(module.table.name(*code));
                action_code(0, code.as_str(), 1)
            },
            _ => String::new(),
        },
        None => String::new(),
    }
}

/// Writes [`own_parameters`].
fn parameters_of(module: &Module, pars: Symbol) -> (r: String)
    ensures
        r@ == own_parameters(module, pars),
{
    if pars.is_empty() {
        String::new()
    } else {
        let mut r = String::from_str(", ");
        r.append(module.table.name(pars));
        r
    }
}

/// Writes [`return_type`].
fn return_type_of(module: &Module, ret: Symbol) -> (r: String)
    ensures
        r@ == return_type(module, ret),
{
    if ret.is_empty() {
        String::from_str("()")
    } else {
        String::from_str(module.table.name(ret))
    }
}

/// The parameters that all rules share, if the grammar declares any.
fn shared_parameters_of(module: &Module) -> (r: Option<String>)
    ensures
        match r {
            Some(s) => shared_parameters(module) == Some(s@),
            None => shared_parameters(module) is None,
        },
{
    match get_element(&module.elements, module.parameters) {
        Some(e) => match &e.kind {
            ElementKind::Parameters { code } => Some(trim(module.table.name(*code))),
            _ => None,
        },
        None => None,
    }
}

/// What the entry returns, and its parameters beside the shared ones.
fn start_signature(module: &Module) -> (r: (String, String))
    ensures
        r.0@ == start_return(module, module.elements@.len()),
        r.1@ == start_parameters(module, module.elements@.len()),
{
    let mut ret = String::from_str("()");
    let mut pars = String::new();
    let mut i: usize = 0;
    while i < module.elements.len()
        invariant
            i <= module.elements.len(),
            ret@ == start_return(module, i as nat),
            pars@ == start_parameters(module, i as nat),
        decreases module.elements.len() - i,
    {
        match &module.elements[i].kind {
            ElementKind::Start { ret: r, pars: p, .. } => {
                if !r.is_empty() {
                    ret = String::from_str(module.table.name(*r));
                }
                if !p.is_empty() {
                    pars = String::from_str(", ");
                    pars.append(module.table.name(*p));
                }
            },
            _ => {},
        }
        i += 1;
    }
    (ret, pars)
}

impl RustOutput {
    /// Writes the routine for `element`, if it has one.
    pub fn output_element(
        module: &Module,
        element: &Element,
        output: &mut String,
        common_pars: &str,
        common_args: &str,
        error_type: &str,
    )
        requires
            element_wf(module.elements@, element),
        ensures
            final(output)@ == old(output)@ + element_text(
                module,
                element,
                common_pars@,
                common_args@,
                error_type@,
            ),
            !element.used ==> final(output)@ == old(output)@,
    {
        if !element.used {
            assert(output@ =~= old(output)@ + Seq::<char>::empty());
            return ;
        }
        match &element.kind {
            ElementKind::Start { ret, pars, regex, action } => {
                let own = parameters_of(module, *pars);
                let ty = return_type_of(module, *ret);
                output.append(
                    start_header(common_pars, own.as_str(), ty.as_str(), error_type).as_str(),
                );
                output.append(rule_action(module, *action).as_str());
                Self::output_regex(module, regex, output, common_args, 2);
                output.append(RULE_CLOSE);
            },
            ElementKind::Rule { name, ret, pars, regex, action } => {
                let own = parameters_of(module, *pars);
                let ty = return_type_of(module, *ret);
                output.append(
                    rule_header(
                        module.table.name(*name),
                        common_pars,
                        own.as_str(),
                        ty.as_str(),
                        error_type,
                    ).as_str(),
                );
                output.append(indent(LIMIT_CHECK, 2).as_str());
                output.append(rule_action(module, *action).as_str());
                Self::output_regex(module, regex, output, common_args, 2);
                output.append(RULE_CLOSE);
            },
            _ => {},
        }
        assert(output@ =~= old(output)@ + element_text(
            module,
            element,
            common_pars@,
            common_args@,
            error_type@,
        ));
    }

    /// Writes the parser: its entry, and the routines of its rules.
    pub fn output_parser(module: &Module, output: &mut String)
        requires
            module.wf(),
        ensures
            final(output)@ == old(output)@ + parser_text(module),
    {
        let shared = shared_parameters_of(module);
        let (common_pars, common_args) = match shared {
            Some(p) => {
                let mut pars = String::from_str(", ");
                pars.append(p.as_str());
                let mut args = String::from_str(", ");
                args.append(Self::par_to_arg(p.as_str()).as_str());
                (pars, args)
            },
            None => (String::new(), String::new()),
        };
        let error_type = match error_type_of(module) {
            Some(code) => code,
            None => String::from_str(PLAIN_ERROR_TYPE),
        };
        let (start_ret, start_pars) = start_signature(module);
        output.append(
            parser_head(
                common_pars.as_str(),
                start_pars.as_str(),
                start_ret.as_str(),
                common_args.as_str(),
                error_type.as_str(),
            ).as_str(),
        );
        let ghost head = output@;
        let mut i: usize = 0;
        assert(output@ =~= head + rules_text(module, common_pars@, common_args@, error_type@, 0));
        while i < module.elements.len()
            invariant
                i <= module.elements.len(),
                module.wf(),
                output@ == head + rules_text(
                    module,
                    common_pars@,
                    common_args@,
                    error_type@,
                    i as nat,
                ),
            decreases module.elements.len() - i,
        {
            let ghost done = rules_text(module, common_pars@, common_args@, error_type@, i as nat);
            let ghost before = output@;
            assert(element_wf(module.elements@, &module.elements@[i as int]));
            Self::output_element(
                module,
                &module.elements[i],
                output,
                common_pars.as_str(),
                common_args.as_str(),
                error_type.as_str(),
            );
            i += 1;
            assert(output@ =~= head + (done + element_text(
                module,
                &module.elements@[i - 1],
                common_pars@,
                common_args@,
                error_type@,
            )));
        }
        output.append(PARSER_CLOSE);
        assert(output@ =~= old(output)@ + parser_text(module));
    }
}

} // verus!

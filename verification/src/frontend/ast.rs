//! The annotated grammar: rule bodies as trees, the elements of a module,
//! and the module itself.

use crate::frontend::symbol::{Symbol, SymbolSet};
use crate::frontend::symbol::StringTable;
use crate::frontend::token::Range;
use vstd::prelude::*;

verus! {

/// A node of a rule's body, with the lookahead sets that the analysis
/// computed for it.
#[derive(Debug)]
pub struct Regex {
    pub kind: RegexKind,
    /// The terminals that can begin the node.
    pub first: SymbolSet,
    /// The terminals that can follow the node.
    pub follow: SymbolSet,
    /// The lookahead on which the node is chosen.
    pub predict: SymbolSet,
    /// The terminals at which recovery gives up.
    pub cancel: SymbolSet,
    pub range: Range,
}

/// What a node is. An `elem` is the place of the element that the node
/// refers to in the module's list, once the reference is resolved.
#[derive(Debug)]
pub enum RegexKind {
    /// A terminal or nonterminal by its name.
    Id { name: Symbol, elem: Option<usize> },
    /// A terminal by its literal.
    Str { lit: Symbol, elem: Option<usize> },
    /// The operands one after the other; `error` is run when they fail.
    Concat { ops: Vec<Regex>, error: Option<Box<Regex>> },
    /// One of the operands; `error` is run when none can be taken.
    Or { ops: Vec<Regex>, error: Option<Box<Regex>> },
    /// The operand any number of times.
    Star { op: Box<Regex> },
    /// The operand at least once.
    Plus { op: Box<Regex> },
    /// The operand once or not at all.
    Option { op: Box<Regex> },
    /// The operand in parentheses.
    Paren { op: Box<Regex> },
    /// User code that runs at this point.
    Action { val: u64, elem: Option<usize> },
    /// User code that runs when recovery has found its place.
    ErrorHandler { val: u64, elem: Option<usize> },
    /// A user condition on taking the branch that it begins.
    Predicate { val: u64, elem: Option<usize> },
    /// Nothing.
    Empty,
}

/// A top-level construct of the grammar. Text is held as interned names.
#[derive(Debug)]
pub enum ElementKind {
    /// The entry rule.
    Start { ret: Symbol, pars: Symbol, regex: Regex, action: Option<usize> },
    /// A named nonterminal.
    Rule { name: Symbol, ret: Symbol, pars: Symbol, regex: Regex, action: Option<usize> },
    /// A kind of terminal: its name, the type of its payload (empty if it has
    /// none) and the symbol to show for it (empty to show the name).
    Token { name: Symbol, ty: Symbol, sym: Symbol },
    Action { code: Symbol },
    ErrorHandler { code: Symbol },
    Predicate { code: Symbol },
    Preamble { code: Symbol },
    Parameters { code: Symbol },
    ErrorCode { code: Symbol },
    Limit { depth: u16 },
}

#[derive(Debug)]
pub struct Element {
    pub kind: ElementKind,
    /// Whether the element can be reached from the start rule.
    pub used: bool,
}

/// A grammar: its names, its elements in the order of the source, and the
/// places of the elements of which there is at most one.
#[derive(Debug)]
pub struct Module {
    pub table: StringTable,
    pub elements: Vec<Element>,
    pub start: Option<usize>,
    pub preamble: Option<usize>,
    pub parameters: Option<usize>,
    pub error: Option<usize>,
    pub limit: Option<usize>,
}

/// The element at place `at` of `elements`, if there is one.
pub open spec fn element_at(elements: Seq<Element>, at: Option<usize>) -> Option<Element> {
    match at {
        Some(i) => if i < elements.len() {
            Some(elements[i as int])
        } else {
            None
        },
        None => None,
    }
}

/// The element at place `at` of `elements`, if there is one.
pub(crate) fn get_element(elements: &Vec<Element>, at: Option<usize>) -> (r: Option<&Element>)
    ensures
        match r {
            Some(e) => element_at(elements@, at) == Some(*e),
            None => element_at(elements@, at) is None,
        },
{
    match at {
        Some(i) => if i < elements.len() {
            Some(&elements[i])
        } else {
            None
        },
        None => None,
    }
}

/// Whether code can be generated from `regex` at the indentation `level`:
/// all references that the code depends on are resolved (a name refers to a
/// rule or a token, a literal to a token), and no level of indentation
/// inside leaves the machine's range.
pub open spec fn regex_wf(elements: Seq<Element>, regex: &Regex, level: nat) -> bool
    decreases regex,
{
    &&& 1 <= level
    &&& level + 4 <= usize::MAX
    &&& match regex.kind {
        RegexKind::Id { name, elem } => match element_at(elements, elem) {
            Some(e) => e.kind is Rule || e.kind is Token,
            None => false,
        },
        RegexKind::Str { lit, elem } => match element_at(elements, elem) {
            Some(e) => e.kind is Token,
            None => false,
        },
        RegexKind::Concat { ops, error } => match error {
            Some(e) => {
                &&& forall|i: int|
                    0 <= i < ops.len() ==> regex_wf(elements, #[trigger] &ops[i], level + 1)
                &&& regex_wf(elements, &*e, level + 4)
            },
            None => forall|i: int|
                0 <= i < ops.len() ==> regex_wf(elements, #[trigger] &ops[i], level),
        },
        RegexKind::Or { ops, error } => match error {
            Some(e) => {
                &&& forall|i: int|
                    0 <= i < ops.len() ==> regex_wf(elements, #[trigger] &ops[i], level + 3)
                &&& regex_wf(elements, &*e, level + 4)
            },
            None => forall|i: int|
                0 <= i < ops.len() ==> regex_wf(elements, #[trigger] &ops[i], level + 2),
        },
        RegexKind::Star { op } => regex_wf(elements, &*op, level + 3),
        RegexKind::Plus { op } => regex_wf(elements, &*op, level + 3),
        RegexKind::Option { op } => regex_wf(elements, &*op, level + 2),
        RegexKind::Paren { op } => regex_wf(elements, &*op, level),
        _ => true,
    }
}

/// Whether code can be generated from the element `e`: if it is a rule in
/// use, from its body at the level of a rule's body.
pub open spec fn element_wf(elements: Seq<Element>, e: &Element) -> bool {
    e.used ==> match e.kind {
        ElementKind::Start { ret, pars, regex, action } => regex_wf(elements, &regex, 2),
        ElementKind::Rule { name, ret, pars, regex, action } => regex_wf(elements, &regex, 2),
        _ => true,
    }
}

/// Whether `at` is the place of `e` among `elements`, if `e` is of a kind
/// of which a module has at most one.
pub open spec fn in_its_place(m: &Module, e: &Element, at: usize) -> bool {
    match e.kind {
        ElementKind::Start { ret, pars, regex, action } => m.start == Some(at),
        ElementKind::Preamble { code } => m.preamble == Some(at),
        ElementKind::Parameters { code } => m.parameters == Some(at),
        ElementKind::ErrorCode { code } => m.error == Some(at),
        ElementKind::Limit { depth } => m.limit == Some(at),
        _ => true,
    }
}

impl Module {
    /// Whether the module has at most one start rule, preamble, list of
    /// shared parameters, error type and depth limit, each at the place that
    /// the module names for it.
    pub open spec fn singular(&self) -> bool {
        forall|at: usize|
            at < self.elements@.len() ==> in_its_place(self, #[trigger] &self.elements@[at as int], at)
    }

    /// Whether the module has at most one element of each kind of which
    /// there is at most one, at the place that the module names for it.
    pub fn is_singular(&self) -> (b: bool)
        ensures
            b == self.singular(),
    {
        let mut i: usize = 0;
        while i < self.elements.len()
            invariant
                i <= self.elements.len(),
                forall|k: usize| k < i ==> in_its_place(self, #[trigger] &self.elements@[k as int], k),
            decreases self.elements.len() - i,
        {
            let found = match &self.elements[i].kind {
                ElementKind::Start { .. } => same_place(self.start, i),
                ElementKind::Preamble { .. } => same_place(self.preamble, i),
                ElementKind::Parameters { .. } => same_place(self.parameters, i),
                ElementKind::ErrorCode { .. } => same_place(self.error, i),
                ElementKind::Limit { .. } => same_place(self.limit, i),
                _ => true,
            };
            if !found {
                assert(!in_its_place(self, &self.elements@[i as int], i));
                return false;
            }
            i += 1;
        }
        true
    }

    /// Whether a parser can be generated from the module: from each of its
    /// elements.
    pub open spec fn wf(&self) -> bool {
        forall|i: int|
            0 <= i < self.elements@.len() ==> element_wf(self.elements@, #[trigger] &self.elements@[i])
    }

    /// Whether a parser can be generated from the module.
    pub fn is_wf(&self) -> (b: bool)
        ensures
            b == self.wf(),
    {
        let mut i: usize = 0;
        while i < self.elements.len()
            invariant
                i <= self.elements.len(),
                forall|k: int| 0 <= k < i ==> element_wf(self.elements@, #[trigger] &self.elements@[k]),
            decreases self.elements.len() - i,
        {
            if !check_element(&self.elements, &self.elements[i]) {
                assert(!element_wf(self.elements@, &self.elements@[i as int]));
                return false;
            }
            i += 1;
        }
        true
    }
}

/// Whether `named` is the place `at`.
fn same_place(named: Option<usize>, at: usize) -> (b: bool)
    ensures
        b == (named == Some(at)),
{
    match named {
        Some(i) => i == at,
        None => false,
    }
}

/// Whether code can be generated from the element `e`.
fn check_element(elements: &Vec<Element>, e: &Element) -> (b: bool)
    ensures
        b == element_wf(elements@, e),
{
    if !e.used {
        return true;
    }
    match &e.kind {
        ElementKind::Start { regex, .. } => check_regex(elements, regex, 2),
        ElementKind::Rule { regex, .. } => check_regex(elements, regex, 2),
        _ => true,
    }
}

/// Whether code can be generated from each of `ops` at `level`.
fn check_all(elements: &Vec<Element>, ops: &Vec<Regex>, level: usize) -> (b: bool)
    ensures
        b == forall|i: int| 0 <= i < ops.len() ==> regex_wf(elements@, #[trigger] &ops[i], level as nat),
    decreases ops@, 0nat,
{
    let mut i: usize = 0;
    while i < ops.len()
        invariant
            i <= ops.len(),
            forall|k: int| 0 <= k < i ==> regex_wf(elements@, #[trigger] &ops[k], level as nat),
        decreases ops.len() - i,
    {
        if !check_regex(elements, &ops[i], level) {
            assert(!regex_wf(elements@, &ops[i as int], level as nat));
            return false;
        }
        i += 1;
    }
    true
}

/// Whether code can be generated from `regex` at `level`.
fn check_regex(elements: &Vec<Element>, regex: &Regex, level: usize) -> (b: bool)
    ensures
        b == regex_wf(elements@, regex, level as nat),
    decreases *regex, 0nat,
{
    if level < 1 || level > usize::MAX - 4 {
        return false;
    }
    match &regex.kind {
        RegexKind::Id { elem, .. } => match get_element(elements, *elem) {
            Some(e) => match &e.kind {
                ElementKind::Rule { .. } => true,
                ElementKind::Token { .. } => true,
                _ => false,
            },
            None => false,
        },
        RegexKind::Str { elem, .. } => match get_element(elements, *elem) {
            Some(e) => match &e.kind {
                ElementKind::Token { .. } => true,
                _ => false,
            },
            None => false,
        },
        RegexKind::Concat { ops, error } => match error {
            Some(e) => check_all(elements, ops, level + 1) && check_regex(elements, e, level + 4),
            None => check_all(elements, ops, level),
        },
        RegexKind::Or { ops, error } => match error {
            Some(e) => check_all(elements, ops, level + 3) && check_regex(elements, e, level + 4),
            None => check_all(elements, ops, level + 2),
        },
        RegexKind::Star { op } => check_regex(elements, op, level + 3),
        RegexKind::Plus { op } => check_regex(elements, op, level + 3),
        RegexKind::Option { op } => check_regex(elements, op, level + 2),
        RegexKind::Paren { op } => check_regex(elements, op, level),
        _ => true,
    }
}

} // verus!

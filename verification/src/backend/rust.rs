//! The generator of Rust parsers.

use crate::backend::items::{
    check_limit_text, consumes_text, defaults_text, display_text, error_macro_text, file_head,
    file_head_text, patterns_text, preamble_text, tokens_text,
};
use crate::backend::rules::parser_text;
use crate::backend::text::{chars_of, first_index_of, join, joined, lemma_first_index_of, push_slice};
use crate::frontend::ast::Module;
use vstd::prelude::*;

verus! {

/// The generator of Rust parsers. It has no state: its functions are called
/// on the type.
pub struct RustOutput {}

/// The part of `s` after its last `c`; all of `s` if it holds none.
pub open spec fn after_last(s: Seq<char>, c: char) -> Seq<char>
    decreases s.len(),
{
    if s.len() == 0 || s.last() == c {
        Seq::empty()
    } else {
        after_last(s.drop_last(), c).push(s.last())
    }
}

/// `after_last` is the part from `j` on, if a `c` stands before `j` or `j`
/// is the start, and no `c` stands from `j` on.
pub proof fn lemma_after_last(s: Seq<char>, c: char, j: int)
    requires
        0 <= j <= s.len(),
        forall|k: int| j <= k < s.len() ==> s[k] != c,
        j == 0 || s[j - 1] == c,
    ensures
        after_last(s, c) == s.skip(j),
    decreases s.len() - j,
{
    if j < s.len() {
        lemma_after_last(s.drop_last(), c, j);
        assert(s.drop_last().skip(j).push(s.last()) =~= s.skip(j));
    } else {
        assert(s.skip(j) =~= Seq::<char>::empty());
    }
}

/// The names of the parameters that `pars` declares: before each colon,
/// what stands after the last comma before it.
pub open spec fn parameter_names(pars: Seq<char>) -> Seq<Seq<char>>
    decreases pars.len(),
{
    let n = first_index_of(pars, ':');
    if n >= pars.len() {
        Seq::empty()
    } else {
        seq![after_last(pars.take(n as int), ',')] + parameter_names(pars.skip(n as int + 1))
    }
}

/// The list of arguments that passes on the parameters that `pars`
/// declares.
pub open spec fn arguments(pars: Seq<char>) -> Seq<char> {
    join(parameter_names(pars), ","@)
}

/// What is joined from the first `n` parts depends on no later part.
pub proof fn lemma_joined_prefix(a: Seq<Seq<char>>, b: Seq<Seq<char>>, sep: Seq<char>, n: nat)
    requires
        n <= a.len(),
        n <= b.len(),
        forall|k: int| 0 <= k < n ==> a[k] == b[k],
    ensures
        joined(a, sep, n) == joined(b, sep, n),
    decreases n,
{
    if n > 1 {
        lemma_joined_prefix(a, b, sep, (n - 1) as nat);
    }
}

/// The parser file for the grammar `m`, generated by the `version` of the
/// generator: the head, the preamble, the token kinds with their patterns
/// and values, the error and depth guard macros, the macros that take a
/// token, how tokens are shown, and the parser.
pub open spec fn parser_file_text(m: &Module, version: Seq<char>) -> Seq<char> {
    file_head_text(version) + preamble_text(m) + tokens_text(m) + patterns_text(m)
        + defaults_text(m) + error_macro_text(m) + check_limit_text(m) + consumes_text(m)
        + display_text(m) + parser_text(m)
}

/// Generation is a function of the grammar and the version: two texts that
/// are generated from one grammar by one version are the same.
pub proof fn lemma_generation_is_deterministic(
    m: &Module,
    version: Seq<char>,
    first: Seq<char>,
    second: Seq<char>,
)
    requires
        first == parser_file_text(m, version),
        second == parser_file_text(m, version),
    ensures
        first == second,
{
}

impl RustOutput {
    /// The text of the parser file for the grammar `module`.
    pub fn create_parser(module: &Module, version: &str) -> (out: String)
        requires
            module.wf(),
        ensures
            out@ == parser_file_text(module, version@),
    {
        let mut out = file_head(version);
        Self::output_preamble(module, &mut out);
        Self::output_tokens(module, &mut out);
        Self::output_patterns(module, &mut out);
        Self::output_defaults(module, &mut out);
        Self::output_error(module, &mut out);
        Self::output_check_limit(module, &mut out);
        Self::output_consumes(module, &mut out);
        Self::output_display(module, &mut out);
        Self::output_parser(module, &mut out);
        out
    }

    /// Turns a list of parameter declarations into the list of arguments
    /// that passes them on.
    pub fn par_to_arg(pars: &str) -> (r: String)
        ensures
            r@ == arguments(pars@),
    {
        let v = chars_of(pars);
        let mut r = String::new();
        let mut any = false;
        let mut start: usize = 0;
        let mut i: usize = 0;
        let ghost mut names: Seq<Seq<char>> = Seq::empty();
        proof {
            reveal_strlit(",");
            assert(","@ =~= seq![',']);
            assert(v@.skip(0) =~= v@);
            assert(names + parameter_names(v@.skip(0)) =~= parameter_names(v@));
        }
        while i < v.len()
            invariant
                start <= i <= v.len(),
                any == (names.len() > 0),
                forall|k: int| start <= k < i ==> v@[k] != ':',
                names + parameter_names(v@.skip(start as int)) == parameter_names(v@),
                r@ == joined(names, ","@, names.len()),
            decreases v.len() - i,
        {
            if v[i] == ':' {
                let mut j: usize = i;
                while j > start && v[j - 1] != ','
                    invariant
                        start <= j <= i < v.len(),
                        forall|k: int| j <= k < i ==> v@[k] != ',',
                    decreases j,
                {
                    j -= 1;
                }
                let ghost rest = v@.skip(start as int);
                let ghost piece = v@.subrange(start as int, i as int);
                let ghost name = v@.subrange(j as int, i as int);
                let ghost before = names;
                let ghost text = r@;
                proof {
                    lemma_first_index_of(rest, ':', i - start);
                    assert(rest.take(i - start) =~= piece);
                    assert(rest.skip(i - start + 1) =~= v@.skip(i + 1));
                    lemma_after_last(piece, ',', j - start);
                    assert(piece.skip(j - start) =~= name);
                    names = names.push(name);
                    assert(names + parameter_names(v@.skip(i + 1)) =~= before + parameter_names(
                        rest,
                    ));
                    lemma_joined_prefix(before, names, ","@, before.len());
                }
                if any {
                    r.append(",");
                }
                push_slice(&mut r, &v, j, i);
                proof {
                    if before.len() == 0 {
                        assert(r@ =~= name);
                    } else {
                        assert(r@ =~= text + ","@ + name);
                    }
                }
                any = true;
                start = i + 1;
            }
            i += 1;
        }
        proof {
            let rest = v@.skip(start as int);
            lemma_first_index_of(rest, ':', rest.len() as int);
            assert(names + Seq::<Seq<char>>::empty() =~= names);
        }
        r
    }
}

} // verus!

//! Lookahead sets written out: as a pattern to match the current token
//! against, and as the list of tokens that an error reports as expected.

use crate::backend::text::{indentation, join, joined, push_indentation};
use crate::frontend::symbol::{lemma_order_unique, StringTable, Symbol, SymbolSet};
use vstd::prelude::*;

verus! {

/// The pattern that matches the token named by `sym`.
pub open spec fn pattern_of(table: &StringTable, sym: Symbol) -> Seq<char> {
    "pattern_"@ + table.name_of(sym) + "!()"@
}

/// The value that stands for the token named by `sym` in an error.
pub open spec fn default_of(table: &StringTable, sym: Symbol) -> Seq<char> {
    "default_"@ + table.name_of(sym) + "!()"@
}

/// The pattern that matches any token of `set`, its alternatives in the
/// order of the set, each on a line of its own at `level`. The empty set
/// is matched by the end of input.
pub open spec fn pattern_text(table: &StringTable, set: Seq<Symbol>, level: nat) -> Seq<char> {
    if set.len() == 0 {
        "pattern_EOF!()"@
    } else {
        join(
            Seq::new(set.len(), |i: int| pattern_of(table, set[i])),
            "\n"@ + indentation(level) + "| "@,
        )
    }
}

/// The tokens of `set` as the items of an error's list, in the order of the
/// set, each on a line of its own at `level`. The empty set expects the end
/// of input.
pub open spec fn error_text(table: &StringTable, set: Seq<Symbol>, level: nat) -> Seq<char> {
    if set.len() == 0 {
        "default_EOF!()"@
    } else {
        join(Seq::new(set.len(), |i: int| default_of(table, set[i])), ",\n"@ + indentation(level))
    }
}

/// Writes `set` as a match pattern.
pub fn pattern(table: &StringTable, set: &SymbolSet, level: usize) -> (r: String)
    ensures
        r@ == pattern_text(table, set@, level as nat),
{
    if set.is_empty() {
        return String::from_str("pattern_EOF!()");
    }
    let mut sep = String::from_str("\n");
    push_indentation(&mut sep, level);
    sep.append("| ");
    let items = set.to_vec();
    let ghost parts = Seq::new(set@.len(), |i: int| pattern_of(table, set@[i]));
    let mut r = String::from_str("pattern_");
    r.append(table.name(items[0]));
    r.append("!()");
    let mut i: usize = 1;
    while i < items.len()
        invariant
            1 <= i <= set@.len(),
            items@ == set@,
            parts == Seq::new(set@.len(), |i: int| pattern_of(table, set@[i])),
            sep@ == "\n"@ + indentation(level as nat) + "| "@,
            r@ == joined(parts, sep@, i as nat),
        decreases set@.len() - i,
    {
        let ghost before = r@;
        r.append(sep.as_str());
        r.append("pattern_");
        r.append(table.name(items[i]));
        r.append("!()");
        assert(r@ =~= before + sep@ + parts[i as int]);
        i += 1;
    }
    r
}

/// Writes `set` as the items of an error's list.
pub fn error(table: &StringTable, set: &SymbolSet, level: usize) -> (r: String)
    ensures
        r@ == error_text(table, set@, level as nat),
{
    if set.is_empty() {
        return String::from_str("default_EOF!()");
    }
    let mut sep = String::from_str(",\n");
    push_indentation(&mut sep, level);
    let items = set.to_vec();
    let ghost parts = Seq::new(set@.len(), |i: int| default_of(table, set@[i]));
    let mut r = String::from_str("default_");
    r.append(table.name(items[0]));
    r.append("!()");
    let mut i: usize = 1;
    while i < items.len()
        invariant
            1 <= i <= set@.len(),
            items@ == set@,
            parts == Seq::new(set@.len(), |i: int| default_of(table, set@[i])),
            sep@ == ",\n"@ + indentation(level as nat),
            r@ == joined(parts, sep@, i as nat),
        decreases set@.len() - i,
    {
        let ghost before = r@;
        r.append(sep.as_str());
        r.append("default_");
        r.append(table.name(items[i]));
        r.append("!()");
        assert(r@ =~= before + sep@ + parts[i as int]);
        i += 1;
    }
    r
}

/// Sets with the same members are written alike: a set is written in the
/// order of its handles, whatever the order in which it was built.
pub proof fn lemma_written_set_depends_on_members(
    table: &StringTable,
    a: &SymbolSet,
    b: &SymbolSet,
    level: nat,
)
    requires
        a@.to_set() == b@.to_set(),
    ensures
        pattern_text(table, a@, level) == pattern_text(table, b@, level),
        error_text(table, a@, level) == error_text(table, b@, level),
{
    a.lemma_rises();
    b.lemma_rises();
    lemma_order_unique(a@, b@);
}

} // verus!

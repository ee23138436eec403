//! Interned names, and ordered sets of them.

use std::collections::BTreeSet;
use vstd::prelude::*;
use vstd::std_specs::cmp::OrdSpec;
use vstd::std_specs::iter::IteratorSpec;

verus! {

/// A handle for an interned name. Handles are ordered by their number.
#[derive(Clone, Copy, PartialEq, Eq, Structural, Debug, Hash, PartialOrd, Ord)]
pub struct Symbol(pub u32);

impl Symbol {
    /// The handle of the empty name.
    pub fn empty() -> (s: Symbol)
        ensures
            s == Symbol(0),
    {
        Symbol(0)
    }

    pub open spec fn is_empty_spec(&self) -> bool {
        self.0 == 0
    }

    /// Whether this is the handle of the empty name.
    #[verifier::when_used_as_spec(is_empty_spec)]
    pub fn is_empty(&self) -> (b: bool)
        ensures
            b == self.is_empty_spec(),
    {
        self.0 == 0
    }
}

/// The names behind the handles: handle `i` stands for the `i`-th name.
#[derive(Debug)]
pub struct StringTable {
    names: Vec<String>,
}

/// What holds of the names of every table: the first is the empty name, no
/// name stands twice, and each has a handle.
pub open spec fn is_table(names: Seq<Seq<char>>) -> bool {
    &&& 1 <= names.len() <= 0x1_0000_0000
    &&& names[0].len() == 0
    &&& forall|i: int, j: int| 0 <= i < j < names.len() ==> names[i] != names[j]
}

impl View for StringTable {
    type V = Seq<Seq<char>>;

    closed spec fn view(&self) -> Seq<Seq<char>> {
        Seq::new(self.names.len() as nat, |i: int| self.names[i]@)
    }
}

impl StringTable {
    /// Whether this is a table that interning has built.
    pub open spec fn wf(&self) -> bool {
        is_table(self@)
    }

    /// The name that `sym` stands for; a handle that the table has not
    /// given out stands for the empty name.
    pub open spec fn name_of(&self, sym: Symbol) -> Seq<char> {
        if sym.0 < self@.len() {
            self@[sym.0 as int]
        } else {
            Seq::empty()
        }
    }

    /// A table that holds the empty name only.
    pub fn new() -> (t: StringTable)
        ensures
            t.wf(),
            t@ == seq![Seq::<char>::empty()],
    {
        let mut names: Vec<String> = Vec::new();
        names.push(String::new());
        let t = StringTable { names };
        assert(t@ =~= seq![Seq::<char>::empty()]);
        t
    }

    pub fn len(&self) -> (n: usize)
        ensures
            n == self@.len(),
    {
        self.names.len()
    }

    /// The handle of `name`, if the table holds it.
    pub fn find(&self, name: &str) -> (r: Option<Symbol>)
        requires
            self.wf(),
        ensures
            match r {
                Some(sym) => sym.0 < self@.len() && self@[sym.0 as int] == name@,
                None => !self@.contains(name@),
            },
    {
        let owned = String::from_str(name);
        let mut i: usize = 0;
        while i < self.names.len()
            invariant
                i <= self.names.len(),
                self.wf(),
                self@.len() == self.names.len(),
                owned@ == name@,
                forall|k: int| 0 <= k < i ==> self@[k] != name@,
            decreases self.names.len() - i,
        {
            if self.names[i] == owned {
                return Some(Symbol(i as u32));
            }
            i += 1;
        }
        None
    }

    /// Interns `name`: gives the handle that it has, or the next free one.
    pub fn intern(&mut self, name: &str) -> (sym: Symbol)
        requires
            old(self).wf(),
            old(self)@.len() < 0x1_0000_0000,
        ensures
            final(self).wf(),
            final(self).name_of(sym) == name@,
            sym.0 < final(self)@.len(),
            old(self)@.contains(name@) ==> final(self)@ == old(self)@,
            !old(self)@.contains(name@) ==> final(self)@ == old(self)@.push(name@) && sym.0 == old(
                self,
            )@.len(),
    {
        match self.find(name) {
            Some(sym) => sym,
            None => {
                let n = self.names.len();
                self.names.push(String::from_str(name));
                assert(self@ =~= old(self)@.push(name@));
                Symbol(n as u32)
            },
        }
    }

    /// The name that `sym` stands for.
    pub fn name(&self, sym: Symbol) -> (r: &str)
        ensures
            r@ == self.name_of(sym),
    {
        if (sym.0 as usize) < self.names.len() {
            self.names[sym.0 as usize].as_str()
        } else {
            proof {
                reveal_strlit("");
                assert(""@ =~= Seq::<char>::empty());
            }
            ""
        }
    }
}

/// Whether the handles stand in rising order; none then stands twice.
pub open spec fn strictly_increasing(q: Seq<Symbol>) -> bool {
    forall|i: int, j: int| 0 <= i < j < q.len() ==> q[i].0 < q[j].0
}

/// The members of `s` in rising order.
pub open spec fn in_order(s: Set<Symbol>) -> Seq<Symbol> {
    choose|q: Seq<Symbol>| strictly_increasing(q) && q.to_set() == s
}

/// A set of handles has one rising order only.
pub proof fn lemma_order_unique(a: Seq<Symbol>, b: Seq<Symbol>)
    requires
        strictly_increasing(a),
        strictly_increasing(b),
        a.to_set() == b.to_set(),
    ensures
        a == b,
    decreases a.len(),
{
    if a.len() == 0 {
        if b.len() > 0 {
            assert(b.contains(b[0]));
            assert(b.to_set().contains(b[0]));
            assert(a.contains(b[0]));
        }
        assert(a =~= b);
    } else {
        let x = a.last();
        assert(a.contains(x));
        assert(a.to_set().contains(x));
        assert(b.contains(x));
        let y = b.last();
        assert(b.contains(y));
        assert(b.to_set().contains(y));
        assert(a.contains(y));
        let kx = choose|k: int| 0 <= k < b.len() && b[k] == x;
        let ky = choose|k: int| 0 <= k < a.len() && a[k] == y;
        assert(x.0 <= y.0);
        assert(y.0 <= x.0);
        assert(x == y);
        let a1 = a.drop_last();
        let b1 = b.drop_last();
        assert forall|v: Symbol| a1.contains(v) <==> b1.contains(v) by {
            if a1.contains(v) {
                let k = choose|k: int| 0 <= k < a1.len() && a1[k] == v;
                assert(a[k] == v);
                assert(a.contains(v));
                assert(a.to_set().contains(v));
                assert(b.contains(v));
                let m = choose|m: int| 0 <= m < b.len() && b[m] == v;
                assert(v.0 < x.0);
                assert(m < b.len() - 1);
                assert(b1[m] == v);
            }
            if b1.contains(v) {
                let k = choose|k: int| 0 <= k < b1.len() && b1[k] == v;
                assert(b[k] == v);
                assert(b.contains(v));
                assert(b.to_set().contains(v));
                assert(a.contains(v));
                let m = choose|m: int| 0 <= m < a.len() && a[m] == v;
                assert(v.0 < y.0);
                assert(m < a.len() - 1);
                assert(a1[m] == v);
            }
        }
        assert(a1.to_set() =~= b1.to_set());
        lemma_order_unique(a1, b1);
        assert(a =~= a1.push(x));
        assert(b =~= b1.push(y));
    }
}

/// Every set of handles below `bound` can be listed in rising order.
proof fn lemma_listing(s: Set<Symbol>, bound: nat) -> (q: Seq<Symbol>)
    requires
        bound <= 0x1_0000_0000,
        forall|x: Symbol| s.contains(x) ==> x.0 < bound,
    ensures
        strictly_increasing(q),
        q.to_set() == s,
        forall|k: int| 0 <= k < q.len() ==> q[k].0 < bound,
    decreases bound,
{
    if bound == 0 {
        let q = Seq::<Symbol>::empty();
        assert(q.to_set() =~= s);
        q
    } else {
        let top = Symbol((bound - 1) as u32);
        let q1 = lemma_listing(s.remove(top), (bound - 1) as nat);
        if s.contains(top) {
            let q = q1.push(top);
            q1.lemma_push_to_set_commute(top);
            assert(q.to_set() =~= s);
            q
        } else {
            assert(q1.to_set() =~= s);
            q1
        }
    }
}

/// `in_order` lists exactly the members of `s`, in rising order.
pub proof fn lemma_in_order(s: Set<Symbol>)
    ensures
        strictly_increasing(in_order(s)),
        in_order(s).to_set() == s,
{
    let q = lemma_listing(s, 0x1_0000_0000);
}

/// The handles with the numbers in `numbers`.
pub open spec fn handles(numbers: Set<u32>) -> Set<Symbol> {
    Set::new(|s: Symbol| numbers.contains(s.0))
}

/// The handles with the numbers in `numbers`, in the order of `numbers`.
pub open spec fn handles_of(numbers: Seq<u32>) -> Seq<Symbol> {
    Seq::new(numbers.len(), |i: int| Symbol(numbers[i]))
}

/// Numbers in rising order are the numbers of the handles of their set, in
/// rising order.
proof fn lemma_rising_numbers(numbers: Seq<u32>)
    requires
        forall|i: int, j: int| 0 <= i < j < numbers.len() ==> numbers[i] < numbers[j],
    ensures
        handles_of(numbers) == in_order(handles(numbers.to_set())),
{
    let q = handles_of(numbers);
    let s = handles(numbers.to_set());
    assert forall|x: Symbol| q.contains(x) <==> s.contains(x) by {
        if q.contains(x) {
            let i = choose|i: int| 0 <= i < q.len() && q[i] == x;
            assert(numbers[i] == x.0);
            assert(numbers.contains(x.0));
        }
        if s.contains(x) {
            assert(numbers.contains(x.0));
            let i = choose|i: int| 0 <= i < numbers.len() && numbers[i] == x.0;
            assert(q[i] == x);
        }
    }
    assert(q.to_set() =~= s);
    lemma_in_order(s);
    lemma_order_unique(q, in_order(s));
}

/// An ordered set of handles. It holds the numbers of its members in an
/// ordered set of the standard library.
#[derive(Debug)]
pub struct SymbolSet {
    numbers: BTreeSet<u32>,
}

impl View for SymbolSet {
    type V = Seq<Symbol>;

    /// The members, in rising order: the order in which they are written
    /// out.
    closed spec fn view(&self) -> Seq<Symbol> {
        in_order(handles(self.numbers@))
    }
}

impl SymbolSet {
    /// The members stand in rising order.
    pub proof fn lemma_rises(&self)
        ensures
            strictly_increasing(self@),
    {
        lemma_in_order(handles(self.numbers@));
    }

    /// The set without members.
    pub fn new() -> (s: SymbolSet)
        ensures
            s@ == Seq::<Symbol>::empty(),
    {
        let s = SymbolSet { numbers: BTreeSet::new() };
        proof {
            lemma_in_order(handles(s.numbers@));
            if s@.len() > 0 {
                assert(s@.to_set().contains(s@[0]));
            }
            assert(s@ =~= Seq::<Symbol>::empty());
        }
        s
    }

    /// The members are the handles of the numbers that the set of the
    /// standard library hands out, in the order in which it hands them out.
    proof fn lemma_listed(&self)
        ensures
            self@ == handles_of(
                vstd::std_specs::btree::spec_btree_keys_iter(&self.numbers).remaining().unref(),
            ),
            self@.len() == self.numbers@.len(),
    {
        broadcast use {
            vstd::std_specs::btree::group_btree_axioms,
            vstd::laws_cmp::group_laws_cmp,
        };

        let all = vstd::std_specs::btree::spec_btree_keys_iter(&self.numbers).remaining();
        assert(vstd::laws_cmp::obeys_cmp::<u32>());
        assert(vstd::laws_cmp::obeys_cmp::<&u32>());
        vstd::std_specs::btree::axiom_increasing_seq_meaning::<&u32>(all);
        assert forall|i: int, j: int| 0 <= i < j < all.len() implies all.unref()[i] < all.unref()[j] by {
            assert(OrdSpec::cmp_spec(&all[i], &all[j]) is Less);
        }
        lemma_rising_numbers(all.unref());
    }

    /// The members in rising order.
    pub fn to_vec(&self) -> (v: Vec<Symbol>)
        ensures
            v@ == self@,
    {
        broadcast use {
            vstd::std_specs::btree::group_btree_axioms,
            vstd::laws_cmp::group_laws_cmp,
        };

        let mut v: Vec<Symbol> = Vec::new();
        let it = self.numbers.iter();
        let ghost all = it.remaining();
        proof {
            assert(vstd::laws_cmp::obeys_cmp::<u32>());
            self.lemma_listed();
        }
        for k in iter: it
            invariant
                v@ == handles_of(iter.seq().unref().take(iter.index@)),
        {
            v.push(Symbol(*k));
            assert(v@ =~= handles_of(iter.seq().unref().take(iter.index@ + 1)));
        }
        assert(v@ =~= handles_of(all.unref()));
        v
    }

    pub fn len(&self) -> (n: usize)
        ensures
            n == self@.len(),
    {
        broadcast use {
            vstd::std_specs::btree::group_btree_axioms,
            vstd::laws_cmp::group_laws_cmp,
        };

        proof {
            assert(vstd::laws_cmp::obeys_cmp::<u32>());
            self.lemma_listed();
        }
        self.numbers.len()
    }

    pub fn is_empty(&self) -> (b: bool)
        ensures
            b == (self@.len() == 0),
    {
        let b = self.numbers.is_empty();
        proof {
            lemma_in_order(handles(self.numbers@));
            if self@.len() > 0 {
                assert(self@.to_set().contains(self@[0]));
                assert(self.numbers@.contains(self@[0].0));
            }
            if !b {
                let k = choose|k: u32| self.numbers@.contains(k);
                assert(handles(self.numbers@).contains(Symbol(k)));
                assert(self@.contains(Symbol(k)));
            }
        }
        b
    }

    /// Whether `sym` is a member.
    pub fn contains(&self, sym: Symbol) -> (b: bool)
        ensures
            b == self@.contains(sym),
    {
        broadcast use {
            vstd::std_specs::btree::group_btree_axioms,
            vstd::laws_cmp::group_laws_cmp,
        };

        let b = self.numbers.contains(&sym.0);
        proof {
            assert(vstd::laws_cmp::obeys_cmp::<u32>());
            lemma_in_order(handles(self.numbers@));
            assert(self@.to_set().contains(sym) == handles(self.numbers@).contains(sym));
        }
        b
    }

    /// Adds `sym`; tells whether it was not yet a member.
    pub fn insert(&mut self, sym: Symbol) -> (added: bool)
        ensures
            final(self)@ == in_order(old(self)@.to_set().insert(sym)),
            final(self)@.to_set() == old(self)@.to_set().insert(sym),
            strictly_increasing(final(self)@),
            added == !old(self)@.contains(sym),
    {
        broadcast use {
            vstd::std_specs::btree::group_btree_axioms,
            vstd::laws_cmp::group_laws_cmp,
        };

        let added = self.numbers.insert(sym.0);
        proof {
            assert(vstd::laws_cmp::obeys_cmp::<u32>());
            lemma_in_order(handles(old(self).numbers@));
            lemma_in_order(handles(self.numbers@));
            assert(handles(self.numbers@) =~= handles(old(self).numbers@).insert(sym));
            assert(old(self)@.to_set().contains(sym) == handles(old(self).numbers@).contains(sym));
        }
        added
    }
}

} // verus!

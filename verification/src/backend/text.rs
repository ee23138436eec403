//! Character-level text operations that the emitter is built on: splitting
//! into lines, indenting, trimming, joining, and decimal numerals.

use vstd::prelude::*;

verus! {

/// `String::push` of the standard library appends the character `c` to the
/// end of the string: the string afterwards is the string before with `c`
/// after it.
pub assume_specification[ String::push ](s: &mut String, c: char)
    ensures
        final(s)@ == old(s)@.push(c),
;

/// The characters of `s`, in order.
pub(crate) fn chars_of(s: &str) -> (v: Vec<char>)
    ensures
        v@ == s@,
{
    let mut v: Vec<char> = Vec::new();
    for c in iter: s.chars()
        invariant
            v@ == iter.seq().take(iter.index@),
    {
        v.push(c);
    }
    v
}

/// Appends `v[from..to]` to `out`.
pub(crate) fn push_slice(out: &mut String, v: &Vec<char>, from: usize, to: usize)
    requires
        from <= to <= v.len(),
    ensures
        final(out)@ == old(out)@ + v@.subrange(from as int, to as int),
{
    let mut i: usize = from;
    while i < to
        invariant
            from <= i <= to <= v.len(),
            out@ == old(out)@ + v@.subrange(from as int, i as int),
        decreases to - i,
    {
        out.push(v[i]);
        i += 1;
        assert(out@ =~= old(out)@ + v@.subrange(from as int, i as int));
    }
    assert(out@ =~= old(out)@ + v@.subrange(from as int, to as int));
}

/// Four spaces for each level.
pub open spec fn indentation(level: nat) -> Seq<char>
    decreases level,
{
    if level == 0 {
        Seq::empty()
    } else {
        indentation((level - 1) as nat) + "    "@
    }
}

/// Appends the indentation of `level` to `out`.
pub(crate) fn push_indentation(out: &mut String, level: usize)
    ensures
        final(out)@ == old(out)@ + indentation(level as nat),
{
    let mut i: usize = 0;
    while i < level
        invariant
            i <= level,
            out@ == old(out)@ + indentation(i as nat),
        decreases level - i,
    {
        out.append("    ");
        i += 1;
        assert(out@ =~= old(out)@ + indentation(i as nat));
    }
}

/// The index of the first `c` in `s`, or the length of `s` if there is none.
pub open spec fn first_index_of(s: Seq<char>, c: char) -> nat
    decreases s.len(),
{
    if s.len() == 0 || s[0] == c {
        0
    } else {
        1 + first_index_of(s.skip(1), c)
    }
}

/// `first_index_of` is the only position with no `c` before it that either
/// holds `c` or is the end of `s`.
pub proof fn lemma_first_index_of(s: Seq<char>, c: char, n: int)
    requires
        0 <= n <= s.len(),
        forall|k: int| 0 <= k < n ==> s[k] != c,
        n == s.len() || s[n] == c,
    ensures
        first_index_of(s, c) == n,
    decreases n,
{
    if n > 0 {
        lemma_first_index_of(s.skip(1), c, n - 1);
    }
}

/// A line without the carriage return that preceded its line feed.
pub open spec fn strip_cr(line: Seq<char>) -> Seq<char> {
    if line.len() > 0 && line.last() == '\r' {
        line.drop_last()
    } else {
        line
    }
}

/// The lines of `s`. A line ends at a line feed, or at a carriage return
/// directly followed by one; the terminator is not part of the line, and the
/// last line needs none. Text that ends in a terminator has no further,
/// empty line after it.
pub open spec fn lines(s: Seq<char>) -> Seq<Seq<char>>
    decreases s.len(),
{
    let n = first_index_of(s, '\n');
    if s.len() == 0 {
        Seq::empty()
    } else if n >= s.len() {
        seq![s]
    } else {
        seq![strip_cr(s.take(n as int))] + lines(s.skip(n as int + 1))
    }
}

/// The pieces of `v` that the index pairs in `r` cut out.
pub open spec fn pieces(v: Seq<char>, r: Seq<(usize, usize)>) -> Seq<Seq<char>> {
    Seq::new(r.len(), |k: int| v.subrange(r[k].0 as int, r[k].1 as int))
}

/// Where each line of `v` starts and ends.
pub(crate) fn line_ranges(v: &Vec<char>) -> (r: Vec<(usize, usize)>)
    ensures
        forall|k: int| 0 <= k < r.len() ==> #[trigger] r[k].0 <= r[k].1 <= v.len(),
        pieces(v@, r@) == lines(v@),
{
    let mut r: Vec<(usize, usize)> = Vec::new();
    let mut pos: usize = 0;
    assert(v@.skip(0) =~= v@);
    assert(pieces(v@, r@) =~= Seq::<Seq<char>>::empty());
    while pos < v.len()
        invariant
            pos <= v.len(),
            forall|k: int| 0 <= k < r.len() ==> #[trigger] r[k].0 <= r[k].1 <= v.len(),
            pieces(v@, r@) + lines(v@.skip(pos as int)) == lines(v@),
        decreases v.len() - pos,
    {
        let mut j: usize = pos;
        while j < v.len() && v[j] != '\n'
            invariant
                pos <= j <= v.len(),
                forall|k: int| pos <= k < j ==> v@[k] != '\n',
            decreases v.len() - j,
        {
            j += 1;
        }
        let ghost rest = v@.skip(pos as int);
        let ghost before = r@;
        proof {
            lemma_first_index_of(rest, '\n', j - pos);
        }
        if j == v.len() {
            r.push((pos, j));
            proof {
                assert(rest =~= v@.subrange(pos as int, j as int));
                assert(lines(rest) == seq![rest]);
                assert(pieces(v@, r@) =~= pieces(v@, before) + seq![rest]);
                assert(lines(v@.skip(j as int)) =~= Seq::<Seq<char>>::empty());
                assert(pieces(v@, r@) + lines(v@.skip(j as int)) =~= pieces(v@, before) + lines(
                    rest,
                ));
            }
            pos = j;
        } else {
            let end: usize = if j > pos && v[j - 1] == '\r' {
                j - 1
            } else {
                j
            };
            r.push((pos, end));
            proof {
                let raw = rest.take(j - pos);
                assert(raw =~= v@.subrange(pos as int, j as int));
                assert(strip_cr(raw) =~= v@.subrange(pos as int, end as int));
                assert(rest.skip(j - pos + 1) =~= v@.skip(j + 1));
                assert(lines(rest) == seq![strip_cr(raw)] + lines(v@.skip(j + 1)));
                assert(pieces(v@, r@) =~= pieces(v@, before) + seq![strip_cr(raw)]);
                assert(pieces(v@, r@) + lines(v@.skip(j + 1)) =~= pieces(v@, before) + lines(
                    rest,
                ));
            }
            pos = j + 1;
        }
    }
    assert(lines(v@.skip(pos as int)) =~= Seq::<Seq<char>>::empty());
    assert(pieces(v@, r@) + Seq::<Seq<char>>::empty() =~= pieces(v@, r@));
    r
}

/// A line as it stands in indented text: nothing for an empty line, else the
/// indentation, the line, and a line feed.
pub open spec fn indented_line(line: Seq<char>, level: nat) -> Seq<char> {
    if line.len() == 0 {
        Seq::empty()
    } else {
        indentation(level) + line + seq!['\n']
    }
}

/// The first `n` of the lines `ls`, each indented.
pub open spec fn indented_lines(ls: Seq<Seq<char>>, level: nat, n: nat) -> Seq<char>
    decreases n,
{
    if n == 0 || n > ls.len() {
        Seq::empty()
    } else {
        indented_lines(ls, level, (n - 1) as nat) + indented_line(ls[n - 1], level)
    }
}

pub open spec fn ends_with_newline(s: Seq<char>) -> bool {
    s.len() > 0 && s.last() == '\n'
}

/// `s` with its empty lines dropped and every other line indented by
/// `level`. The result ends in a line feed only if `s` does.
#[verifier::opaque]
pub open spec fn indented(s: Seq<char>, level: nat) -> Seq<char> {
    let body = indented_lines(lines(s), level, lines(s).len());
    if ends_with_newline(s) || body.len() == 0 {
        body
    } else {
        body.drop_last()
    }
}

/// Indents `s` by `level`.
pub fn indent(s: &str, level: usize) -> (r: String)
    ensures
        r@ == indented(s@, level as nat),
{
    reveal(indented);
    let v = chars_of(s);
    let ranges = line_ranges(&v);
    let mut r = String::new();
    let mut pending = false;
    let mut k: usize = 0;
    while k < ranges.len()
        invariant
            k <= ranges.len(),
            forall|i: int| 0 <= i < ranges.len() ==> #[trigger] ranges[i].0 <= ranges[i].1 <= v.len(),
            pieces(v@, ranges@) == lines(v@),
            !pending ==> r@.len() == 0 && indented_lines(lines(v@), level as nat, k as nat).len()
                == 0,
            pending ==> r@.push('\n') == indented_lines(lines(v@), level as nat, k as nat),
        decreases ranges.len() - k,
    {
        let a = ranges[k].0;
        let b = ranges[k].1;
        let ghost before = r@;
        let ghost line = lines(v@)[k as int];
        let ghost done = indented_lines(lines(v@), level as nat, k as nat);
        assert(line == v@.subrange(a as int, b as int)) by {
            assert(pieces(v@, ranges@)[k as int] == v@.subrange(a as int, b as int));
        }
        assert(indented_lines(lines(v@), level as nat, (k + 1) as nat) == done + indented_line(
            line,
            level as nat,
        ));
        if a < b {
            if pending {
                r.push('\n');
            }
            push_indentation(&mut r, level);
            push_slice(&mut r, &v, a, b);
            proof {
                if pending {
                    assert(r@.push('\n') =~= before.push('\n') + indented_line(line, level as nat));
                } else {
                    assert(before =~= Seq::<char>::empty());
                    assert(done =~= Seq::<char>::empty());
                    assert(r@.push('\n') =~= done + indented_line(line, level as nat));
                }
            }
            pending = true;
        } else {
            assert(done + indented_line(line, level as nat) =~= done);
        }
        k += 1;
    }
    let ghost body = indented_lines(lines(v@), level as nat, lines(v@).len());
    assert(pieces(v@, ranges@).len() == ranges.len());
    if pending && v.len() > 0 && v[v.len() - 1] == '\n' {
        r.push('\n');
    } else {
        proof {
            if pending {
                assert(r@ =~= body.drop_last());
                if v.len() > 0 {
                    assert(v@.last() != '\n');
                }
            } else {
                assert(r@ =~= body);
            }
        }
    }
    r
}

/// Whether `c` has the Unicode property White_Space.
pub open spec fn is_space(c: char) -> bool {
    let u = c as u32;
    (0x9 <= u <= 0xd) || u == 0x20 || u == 0x85 || u == 0xa0 || u == 0x1680 || (0x2000 <= u
        <= 0x200a) || u == 0x2028 || u == 0x2029 || u == 0x202f || u == 0x205f || u == 0x3000
}

fn is_space_char(c: char) -> (b: bool)
    ensures
        b == is_space(c),
{
    let u: u32 = c as u32;
    (0x9 <= u && u <= 0xd) || u == 0x20 || u == 0x85 || u == 0xa0 || u == 0x1680 || (0x2000 <= u
        && u <= 0x200a) || u == 0x2028 || u == 0x2029 || u == 0x202f || u == 0x205f || u == 0x3000
}

/// `s` without the white space at its start.
pub open spec fn trim_start(s: Seq<char>) -> Seq<char>
    decreases s.len(),
{
    if s.len() > 0 && is_space(s[0]) {
        trim_start(s.skip(1))
    } else {
        s
    }
}

/// `s` without the white space at its end.
pub open spec fn trim_end(s: Seq<char>) -> Seq<char>
    decreases s.len(),
{
    if s.len() > 0 && is_space(s.last()) {
        trim_end(s.drop_last())
    } else {
        s
    }
}

/// `s` without the white space at either end.
pub open spec fn trimmed(s: Seq<char>) -> Seq<char> {
    trim_end(trim_start(s))
}

/// The part of `v[from..to]` that is left when the white space at both of its
/// ends is taken away.
pub(crate) fn trim_range(v: &Vec<char>, from: usize, to: usize) -> (r: (usize, usize))
    requires
        from <= to <= v.len(),
    ensures
        from <= r.0 <= r.1 <= to,
        v@.subrange(r.0 as int, r.1 as int) == trimmed(v@.subrange(from as int, to as int)),
{
    let mut i: usize = from;
    while i < to && is_space_char(v[i])
        invariant
            from <= i <= to <= v.len(),
            trim_start(v@.subrange(from as int, to as int)) == trim_start(
                v@.subrange(i as int, to as int),
            ),
        decreases to - i,
    {
        assert(v@.subrange(i as int, to as int).skip(1) =~= v@.subrange(i + 1, to as int));
        i += 1;
    }
    let mut j: usize = to;
    while j > i && is_space_char(v[j - 1])
        invariant
            i <= j <= to <= v.len(),
            trim_end(v@.subrange(i as int, to as int)) == trim_end(v@.subrange(i as int, j as int)),
        decreases j,
    {
        assert(v@.subrange(i as int, j as int).drop_last() =~= v@.subrange(i as int, j - 1));
        j -= 1;
    }
    (i, j)
}

/// `s` without the white space at either end.
pub fn trim(s: &str) -> (r: String)
    ensures
        r@ == trimmed(s@),
{
    let v = chars_of(s);
    let (a, b) = trim_range(&v, 0, v.len());
    let mut r = String::new();
    push_slice(&mut r, &v, a, b);
    assert(v@.subrange(0, v.len() as int) =~= v@);
    assert(r@ =~= v@.subrange(a as int, b as int));
    r
}

/// Whether `s` holds a line feed.
pub(crate) fn has_newline(s: &str) -> (b: bool)
    ensures
        b == s@.contains('\n'),
{
    let v = chars_of(s);
    let mut i: usize = 0;
    while i < v.len()
        invariant
            i <= v.len(),
            v@ == s@,
            forall|k: int| 0 <= k < i ==> v@[k] != '\n',
        decreases v.len() - i,
    {
        if v[i] == '\n' {
            assert(s@[i as int] == '\n');
            return true;
        }
        i += 1;
    }
    false
}

/// The decimal digit for `d`.
pub open spec fn digit(d: nat) -> char {
    if d == 0 {
        '0'
    } else if d == 1 {
        '1'
    } else if d == 2 {
        '2'
    } else if d == 3 {
        '3'
    } else if d == 4 {
        '4'
    } else if d == 5 {
        '5'
    } else if d == 6 {
        '6'
    } else if d == 7 {
        '7'
    } else if d == 8 {
        '8'
    } else {
        '9'
    }
}

/// `n` in decimal, without leading zeros.
pub open spec fn decimal(n: nat) -> Seq<char>
    decreases n,
{
    if n < 10 {
        seq![digit(n)]
    } else {
        decimal(n / 10).push(digit(n % 10))
    }
}

fn digit_char(d: u64) -> (c: char)
    requires
        d < 10,
    ensures
        c == digit(d as nat),
{
    if d == 0 {
        '0'
    } else if d == 1 {
        '1'
    } else if d == 2 {
        '2'
    } else if d == 3 {
        '3'
    } else if d == 4 {
        '4'
    } else if d == 5 {
        '5'
    } else if d == 6 {
        '6'
    } else if d == 7 {
        '7'
    } else if d == 8 {
        '8'
    } else {
        '9'
    }
}

/// Appends `n` in decimal to `out`.
pub fn push_decimal(out: &mut String, n: u64)
    ensures
        final(out)@ == old(out)@ + decimal(n as nat),
    decreases n,
{
    if n < 10 {
        out.push(digit_char(n));
        assert(out@ =~= old(out)@ + decimal(n as nat));
    } else {
        push_decimal(out, n / 10);
        out.push(digit_char(n % 10));
        assert(out@ =~= old(out)@ + decimal(n as nat));
    }
}

/// The first `n` of `parts`, with `sep` between each two.
pub open spec fn joined(parts: Seq<Seq<char>>, sep: Seq<char>, n: nat) -> Seq<char>
    decreases n,
{
    if n == 0 || n > parts.len() {
        Seq::empty()
    } else if n == 1 {
        parts[0]
    } else {
        joined(parts, sep, (n - 1) as nat) + sep + parts[n - 1]
    }
}

/// All of `parts`, with `sep` between each two.
pub open spec fn join(parts: Seq<Seq<char>>, sep: Seq<char>) -> Seq<char> {
    joined(parts, sep, parts.len())
}

} // verus!

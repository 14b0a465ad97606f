//! The lexicographic order on domains, by which the embedded dataset is
//! sorted and searched.
use vstd::prelude::*;

verus! {

/// `a` comes strictly before `b` in lexicographic order of characters.
pub open spec fn lex_lt(a: Seq<char>, b: Seq<char>) -> bool
    decreases a.len(),
{
    if a.len() == 0 {
        b.len() > 0
    } else if b.len() == 0 {
        false
    } else if a[0] < b[0] {
        true
    } else if a[0] == b[0] {
        lex_lt(a.drop_first(), b.drop_first())
    } else {
        false
    }
}

/// No domain comes before itself.
pub proof fn lemma_lex_irreflexive(a: Seq<char>)
    ensures
        !lex_lt(a, a),
    decreases a.len(),
{
    if a.len() > 0 {
        lemma_lex_irreflexive(a.drop_first());
    }
}

/// The order is transitive.
pub proof fn lemma_lex_transitive(a: Seq<char>, b: Seq<char>, c: Seq<char>)
    requires
        lex_lt(a, b),
        lex_lt(b, c),
    ensures
        lex_lt(a, c),
    decreases a.len(),
{
    if a.len() > 0 && b.len() > 0 && c.len() > 0 && a[0] == b[0] && b[0] == c[0] {
        lemma_lex_transitive(a.drop_first(), b.drop_first(), c.drop_first());
    }
}

/// After a common prefix of length `i`, the order is decided by what
/// follows it.
proof fn lemma_lex_after_prefix(a: Seq<char>, b: Seq<char>, i: int)
    requires
        0 <= i <= a.len(),
        i <= b.len(),
        a.take(i) == b.take(i),
    ensures
        lex_lt(a, b) == lex_lt(a.skip(i), b.skip(i)),
    decreases i,
{
    if i > 0 {
        assert(a[0] == a.take(i)[0]);
        assert(b[0] == b.take(i)[0]);
        assert(a.drop_first().take(i - 1) =~= a.take(i).drop_first());
        assert(b.drop_first().take(i - 1) =~= b.take(i).drop_first());
        lemma_lex_after_prefix(a.drop_first(), b.drop_first(), i - 1);
        assert(a.drop_first().skip(i - 1) =~= a.skip(i));
        assert(b.drop_first().skip(i - 1) =~= b.skip(i));
    } else {
        assert(a.skip(0) =~= a);
        assert(b.skip(0) =~= b);
    }
}

/// Where one domain stands relative to another.
pub enum Placement {
    Before,
    Same,
    After,
}

/// How `a[af..at]` stands relative to `b[bf..bt]` in lexicographic order.
pub(crate) fn place(a: &Vec<char>, af: usize, at: usize, b: &Vec<char>, bf: usize, bt: usize) -> (r:
    Placement)
    requires
        af <= at <= a.len(),
        bf <= bt <= b.len(),
    ensures
        ({
            let x = a@.subrange(af as int, at as int);
            let y = b@.subrange(bf as int, bt as int);
            match r {
                Placement::Before => lex_lt(x, y),
                Placement::Same => x == y,
                Placement::After => lex_lt(y, x),
            }
        }),
{
    let ghost x = a@.subrange(af as int, at as int);
    let ghost y = b@.subrange(bf as int, bt as int);
    let xl = at - af;
    let yl = bt - bf;
    let mut i: usize = 0;
    while i < xl && i < yl && a[af + i] == b[bf + i]
        invariant
            af <= at <= a.len(),
            bf <= bt <= b.len(),
            xl == at - af,
            yl == bt - bf,
            x == a@.subrange(af as int, at as int),
            y == b@.subrange(bf as int, bt as int),
            i <= xl,
            i <= yl,
            x.take(i as int) == y.take(i as int),
        decreases xl - i,
    {
        assert(x.take(i + 1) =~= x.take(i as int).push(x[i as int]));
        assert(y.take(i + 1) =~= y.take(i as int).push(y[i as int]));
        i = i + 1;
    }
    proof {
        lemma_lex_after_prefix(x, y, i as int);
        lemma_lex_after_prefix(y, x, i as int);
    }
    let ghost xs = x.skip(i as int);
    let ghost ys = y.skip(i as int);
    if i == xl && i == yl {
        assert(x =~= x.take(i as int));
        assert(y =~= y.take(i as int));
        Placement::Same
    } else if i == xl {
        assert(xs.len() == 0 && ys.len() > 0);
        Placement::Before
    } else if i == yl {
        assert(ys.len() == 0 && xs.len() > 0);
        Placement::After
    } else if a[af + i] < b[bf + i] {
        assert(xs[0] == x[i as int] && ys[0] == y[i as int]);
        Placement::Before
    } else {
        assert(xs[0] == x[i as int] && ys[0] == y[i as int]);
        Placement::After
    }
}

} // verus!

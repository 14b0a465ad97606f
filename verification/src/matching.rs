//! Which suffixes of a domain are looked up: the domain itself and each of
//! its parent domains, most specific first, never the bare top-level label.
use vstd::prelude::*;
use vstd::utf8::is_ascii_chars;
use crate::text::{
    ascii_lowercase, is_white_space, last_index_of, last_position, lemma_last_index_of,
    lemma_last_index_of_concat, lemma_trimmed_subdomain, strip_leading_ws, tail_from, trimmed,
    views,
};

verus! {

/// `st` is where a looked-up suffix of `n` begins: at the very start or
/// right after a dot, with at least one dot still to come.
pub open spec fn is_checked_start(n: Seq<char>, st: int) -> bool {
    &&& 0 <= st <= last_index_of(n, '.')
    &&& (st == 0 || n[st - 1] == '.')
}

/// The suffix of `n` from position `st` on.
pub open spec fn suffix_at(n: Seq<char>, st: int) -> Seq<char> {
    n.subrange(st, n.len() as int)
}

/// The positions where looked-up suffixes of `n` begin, in increasing order.
pub open spec fn checked_starts(n: Seq<char>) -> Seq<int> {
    Seq::new(n.len(), |i: int| i).filter(|st: int| is_checked_start(n, st))
}

/// `n` and each of its parent domains, most specific first, stopping
/// before the bare top-level label.
pub open spec fn parent_domains(n: Seq<char>) -> Seq<Seq<char>> {
    checked_starts(n).map_values(|st: int| suffix_at(n, st))
}

/// Whether the non-empty domain `n`, or one of its parent domains (the
/// bare top-level label excepted), satisfies `listed`.
pub open spec fn any_parent(n: Seq<char>, listed: spec_fn(Seq<char>) -> bool) -> bool {
    &&& n.len() > 0
    &&& exists|st: int| #[trigger] is_checked_start(n, st) && listed(suffix_at(n, st))
}

proof fn lemma_checked_start_below_len(n: Seq<char>, st: int)
    requires
        is_checked_start(n, st),
    ensures
        st < n.len(),
{
    lemma_last_index_of(n, '.');
}

/// Every checked start appears in `checked_starts`, and only those do.
pub proof fn lemma_checked_starts(n: Seq<char>)
    ensures
        forall|k: int|
            0 <= k < checked_starts(n).len() ==> is_checked_start(n, #[trigger] checked_starts(n)[k]),
        forall|st: int| #[trigger]
            is_checked_start(n, st) ==> checked_starts(n).contains(st),
{
    broadcast use vstd::seq_lib::group_filter_ensures;

    let all = Seq::new(n.len(), |i: int| i);
    assert forall|st: int| #[trigger] is_checked_start(n, st) implies checked_starts(n).contains(
        st,
    ) by {
        lemma_checked_start_below_len(n, st);
        assert(all[st] == st);
        all.lemma_filter_contains(|s: int| is_checked_start(n, s), st);
    }
    assert forall|k: int| 0 <= k < checked_starts(n).len() implies is_checked_start(
        n,
        #[trigger] checked_starts(n)[k],
    ) by {
        all.lemma_filter_pred(|s: int| is_checked_start(n, s), k);
    }
}

/// `domain` and each of its parent domains, most specific first, stopping
/// before the bare top-level label: for `a.b.c` these are `a.b.c` and `b.c`.
pub(crate) fn domain_suffixes(domain: &Vec<char>) -> (r: Vec<Vec<char>>)
    ensures
        views(r@) == parent_domains(domain@),
{
    let len = domain.len();
    let last_dot = last_position(domain, '.');
    let ghost n = domain@;
    let ghost pred = |st: int| is_checked_start(n, st);
    let ghost f = |st: int| suffix_at(n, st);
    let mut r: Vec<Vec<char>> = Vec::new();
    let mut st: usize = 0;
    proof {
        reveal_with_fuel(Seq::filter, 1);
        assert(Seq::new(0, |i: int| i) =~= Seq::<int>::empty());
        assert(views(r@) =~= Seq::new(0, |i: int| i).filter(pred).map_values(f));
    }
    while st < len
        invariant
            len == domain.len(),
            n == domain@,
            st <= len,
            pred == (|s: int| is_checked_start(n, s)),
            f == (|s: int| suffix_at(n, s)),
            match last_dot {
                Some(k) => k == last_index_of(n, '.'),
                None => last_index_of(n, '.') == -1,
            },
            views(r@) == Seq::new(st as nat, |i: int| i).filter(pred).map_values(f),
        decreases len - st,
    {
        let ghost prev = Seq::new(st as nat, |i: int| i).filter(pred);
        let ghost next_all = Seq::new((st + 1) as nat, |i: int| i);
        assert(next_all.drop_last() =~= Seq::new(st as nat, |i: int| i));
        assert(next_all.last() == st);
        proof {
            reveal_with_fuel(Seq::filter, 1);
        }
        let checked = match last_dot {
            Some(k) => st <= k && (st == 0 || domain[st - 1] == '.'),
            None => false,
        };
        assert(checked == pred(st as int));
        if checked {
            let piece = tail_from(domain, st);
            let ghost before = r@;
            r.push(piece);
            assert(next_all.filter(pred) == prev.push(st as int));
            assert(views(r@) =~= views(before).push(piece@));
            assert(prev.push(st as int).map_values(f) =~= prev.map_values(f).push(f(st as int)));
        } else {
            assert(next_all.filter(pred) == prev);
        }
        st = st + 1;
    }
    r
}

/// Whether `n` is non-empty and `check` accepts it or one of its parent
/// domains; `check` decides `listed`. Suffixes are tried most specific
/// first and the search stops at the first accepted one.
pub(crate) fn find_listed_parent<F: Fn(&Vec<char>) -> bool>(
    n: &Vec<char>,
    check: F,
    Ghost(listed): Ghost<spec_fn(Seq<char>) -> bool>,
) -> (r: bool)
    requires
        forall|q: &Vec<char>| #[trigger] check.requires((q,)),
        forall|q: &Vec<char>, b: bool| check.ensures((q,), b) ==> b == listed(q@),
    ensures
        r == any_parent(n@, listed),
{
    if n.len() == 0 {
        return false;
    }
    let suffixes = domain_suffixes(n);
    proof {
        lemma_checked_starts(n@);
    }
    let mut i: usize = 0;
    while i < suffixes.len()
        invariant
            views(suffixes@) == parent_domains(n@),
            forall|q: &Vec<char>| #[trigger] check.requires((q,)),
            forall|q: &Vec<char>, b: bool| check.ensures((q,), b) ==> b == listed(q@),
            i <= suffixes.len(),
            forall|j: int| 0 <= j < i ==> !listed(#[trigger] parent_domains(n@)[j]),
        decreases suffixes.len() - i,
    {
        let hit = check(&suffixes[i]);
        assert(views(suffixes@)[i as int] == suffixes@[i as int]@);
        if hit {
            proof {
                lemma_checked_starts(n@);
            }
            assert(views(suffixes@).len() == suffixes@.len());
            assert(parent_domains(n@).len() == checked_starts(n@).len());
            let ghost st = checked_starts(n@)[i as int];
            assert(is_checked_start(n@, st));
            assert(parent_domains(n@)[i as int] == suffix_at(n@, st));
            return true;
        }
        i = i + 1;
    }
    assert forall|st: int| #[trigger] is_checked_start(n@, st) implies !listed(suffix_at(n@, st)) by {
        lemma_checked_starts(n@);
        assert(checked_starts(n@).contains(st));
        let k = choose|k: int| 0 <= k < checked_starts(n@).len() && checked_starts(n@)[k] == st;
        assert(views(suffixes@).len() == suffixes@.len());
        assert(parent_domains(n@).len() == checked_starts(n@).len());
        assert(parent_domains(n@)[k] == suffix_at(n@, st));
    }
    false
}

/// A domain with no dot has no looked-up suffix.
pub proof fn lemma_single_label_never_matches(n: Seq<char>, listed: spec_fn(Seq<char>) -> bool)
    requires
        forall|j: int| 0 <= j < n.len() ==> n[j] != '.',
    ensures
        !any_parent(n, listed),
{
    lemma_last_index_of(n, '.');
}

/// If `n` is matched, so is `p.n` for any text `p`.
pub proof fn lemma_subdomains_inherit_matches(
    n: Seq<char>,
    p: Seq<char>,
    listed: spec_fn(Seq<char>) -> bool,
)
    requires
        any_parent(n, listed),
    ensures
        any_parent(p + seq!['.'] + n, listed),
{
    let st = choose|st: int| #[trigger] is_checked_start(n, st) && listed(suffix_at(n, st));
    let m = p + seq!['.'] + n;
    let off = p.len() + 1;
    lemma_last_index_of(n, '.');
    lemma_last_index_of_concat(p + seq!['.'], n, '.');
    assert(m[off + st - 1] == '.') by {
        if st == 0 {
            assert(m[off - 1] == (p + seq!['.'])[p.len() as int]);
        } else {
            assert(m[off + st - 1] == n[st - 1]);
        }
    }
    assert(is_checked_start(m, off + st));
    assert(suffix_at(m, off + st) =~= suffix_at(n, st));
}

/// What holds of a domain's canonical form holds of each subdomain's, also
/// for names as typed: for ASCII `label` and `d`, where `d` does not begin
/// with white space, if the ASCII canonical form of `d` or one of its
/// parents is `listed`, so is one for `label.d`.
pub proof fn lemma_raw_subdomains_inherit_matches(
    label: Seq<char>,
    d: Seq<char>,
    listed: spec_fn(Seq<char>) -> bool,
)
    requires
        is_ascii_chars(label),
        is_ascii_chars(d),
        d.len() == 0 || !is_white_space(d[0]),
        any_parent(ascii_lowercase(trimmed(d)), listed),
    ensures
        is_ascii_chars(label + seq!['.'] + d),
        any_parent(ascii_lowercase(trimmed(label + seq!['.'] + d)), listed),
{
    let x = label + seq!['.'] + d;
    assert forall|i: int| 0 <= i < x.len() implies '\0' <= #[trigger] x[i] <= '\u{7f}' by {
        if i < label.len() {
            assert(x[i] == label[i]);
        } else if i > label.len() {
            assert(x[i] == d[i - label.len() - 1]);
        }
    }
    if d.len() == 0 {
        assert(trimmed(d) =~= d);
        assert(ascii_lowercase(trimmed(d)).len() == 0);
    } else {
        lemma_trimmed_subdomain(label, d);
        let sl = strip_leading_ws(label);
        assert(ascii_lowercase(sl + seq!['.'] + trimmed(d)) =~= ascii_lowercase(sl) + seq!['.']
            + ascii_lowercase(trimmed(d)));
        lemma_subdomains_inherit_matches(ascii_lowercase(trimmed(d)), ascii_lowercase(sl), listed);
    }
}

/// `p` is `n` itself or a parent domain of `n`: `n` is `p`, or `p` after
/// some labels and a dot.
pub open spec fn is_self_or_parent(n: Seq<char>, p: Seq<char>) -> bool {
    p == n || exists|q: Seq<char>| #[trigger] (q + seq!['.'] + p) == n
}

/// Which names are looked up, said without positions: `n` satisfies
/// `any_parent` exactly when `listed` holds of `n` itself or of a parent
/// domain of `n` (what follows one of its dots) that still holds a dot.
pub proof fn lemma_any_parent_by_labels(n: Seq<char>, listed: spec_fn(Seq<char>) -> bool)
    ensures
        any_parent(n, listed) <==> exists|p: Seq<char>|
            #[trigger] listed(p) && p.contains('.') && is_self_or_parent(n, p),
{
    lemma_last_index_of(n, '.');
    if any_parent(n, listed) {
        let st = choose|st: int| #[trigger] is_checked_start(n, st) && listed(suffix_at(n, st));
        let p = suffix_at(n, st);
        let li = last_index_of(n, '.');
        assert(p[li - st] == '.');
        assert(p.contains('.'));
        if st == 0 {
            assert(p =~= n);
        } else {
            let q = n.subrange(0, st - 1);
            assert(q + seq!['.'] + p =~= n);
        }
        assert(listed(p) && p.contains('.') && is_self_or_parent(n, p));
    }
    if exists|p: Seq<char>| #[trigger] listed(p) && p.contains('.') && is_self_or_parent(n, p) {
        let p = choose|p: Seq<char>| #[trigger] listed(p) && p.contains('.') && is_self_or_parent(n, p);
        let k = choose|k: int| 0 <= k < p.len() && p[k] == '.';
        if p == n {
            assert(n[k] == '.');
            assert(is_checked_start(n, 0));
            assert(suffix_at(n, 0) =~= n);
        } else {
            let q = choose|q: Seq<char>| #[trigger] (q + seq!['.'] + p) == n;
            let st: int = q.len() as int + 1;
            assert(n[st - 1] == '.');
            assert(n[st + k] == p[k]);
            assert(is_checked_start(n, st));
            assert(suffix_at(n, st) =~= p);
        }
    }
}

} // verus!

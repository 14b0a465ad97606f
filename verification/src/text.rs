//! Character-level building blocks: trimming, lowercasing, splitting and
//! locating the domain part of an email address.
use vstd::prelude::*;
use vstd::utf8::is_ascii_chars;
use vstd::string::StrSliceExecFns;

verus! {

/// The Unicode `White_Space` property, which is what `str::trim` removes.
pub open spec fn is_white_space(c: char) -> bool {
    ||| ('\u{9}' <= c && c <= '\u{d}')
    ||| c == ' '
    ||| c == '\u{85}'
    ||| c == '\u{a0}'
    ||| c == '\u{1680}'
    ||| ('\u{2000}' <= c && c <= '\u{200a}')
    ||| c == '\u{2028}'
    ||| c == '\u{2029}'
    ||| c == '\u{202f}'
    ||| c == '\u{205f}'
    ||| c == '\u{3000}'
}

/// `s` without its leading white space.
pub open spec fn strip_leading_ws(s: Seq<char>) -> Seq<char>
    decreases s.len(),
{
    if s.len() > 0 && is_white_space(s[0]) {
        strip_leading_ws(s.drop_first())
    } else {
        s
    }
}

/// `s` without its trailing white space.
pub open spec fn strip_trailing_ws(s: Seq<char>) -> Seq<char>
    decreases s.len(),
{
    if s.len() > 0 && is_white_space(s.last()) {
        strip_trailing_ws(s.drop_last())
    } else {
        s
    }
}

/// `s` without a single trailing dot, if it ends in one.
pub open spec fn strip_trailing_dot(s: Seq<char>) -> Seq<char> {
    if s.len() > 0 && s.last() == '.' {
        s.drop_last()
    } else {
        s
    }
}

/// A domain with surrounding white space and then a single trailing dot
/// (FQDN notation) removed, in that order, before any change of case.
pub open spec fn trimmed(s: Seq<char>) -> Seq<char> {
    strip_trailing_dot(strip_trailing_ws(strip_leading_ws(s)))
}

/// What `str::to_lowercase` returns for a string with these characters.
pub uninterp spec fn lowercase_of(s: Seq<char>) -> Seq<char>;

/// The canonical form under which domains are stored and compared.
pub open spec fn normalized(s: Seq<char>) -> Seq<char> {
    lowercase_of(trimmed(s))
}

/// ASCII lowercasing of one character: `A`..`Z` become `a`..`z`.
pub open spec fn ascii_lower_char(c: char) -> char {
    if 'A' <= c && c <= 'Z' {
        ((c as u32) + 32) as char
    } else {
        c
    }
}

/// ASCII lowercasing of every character of `s`.
pub open spec fn ascii_lowercase(s: Seq<char>) -> Seq<char> {
    s.map_values(|c: char| ascii_lower_char(c))
}

/// Index of the last occurrence of `c` in `s`, or -1 when there is none.
pub open spec fn last_index_of(s: Seq<char>, c: char) -> int
    decreases s.len(),
{
    if s.len() == 0 {
        -1
    } else if s.last() == c {
        s.len() - 1
    } else {
        last_index_of(s.drop_last(), c)
    }
}

/// The part of an email address after its last `@`, if it has one.
pub open spec fn email_domain(email: Seq<char>) -> Option<Seq<char>> {
    let at = last_index_of(email, '@');
    if at < 0 {
        None
    } else {
        Some(email.subrange(at + 1, email.len() as int))
    }
}

/// The pieces of `s` between occurrences of `sep`, as `str::split` yields
/// them: an empty `s` gives one empty piece, and adjacent separators give
/// empty pieces.
pub open spec fn split(s: Seq<char>, sep: char) -> Seq<Seq<char>>
    decreases s.len(),
{
    if s.len() == 0 {
        seq![Seq::<char>::empty()]
    } else {
        let prev = split(s.drop_last(), sep);
        if s.last() == sep {
            prev.push(Seq::<char>::empty())
        } else {
            prev.update(prev.len() - 1, prev.last().push(s.last()))
        }
    }
}

/// The character sequences held by a sequence of vectors.
pub open spec fn views(v: Seq<Vec<char>>) -> Seq<Seq<char>> {
    v.map_values(|x: Vec<char>| x@)
}

pub proof fn lemma_last_index_of(s: Seq<char>, c: char)
    ensures
        -1 <= last_index_of(s, c) < s.len(),
        last_index_of(s, c) >= 0 ==> s[last_index_of(s, c)] == c,
        forall|j: int| last_index_of(s, c) < j < s.len() ==> s[j] != c,
    decreases s.len(),
{
    if s.len() > 0 && s.last() != c {
        lemma_last_index_of(s.drop_last(), c);
        assert forall|j: int| last_index_of(s, c) < j < s.len() implies s[j] != c by {
            if j < s.len() - 1 {
                assert(s[j] == s.drop_last()[j]);
            }
        }
    }
}

/// Appending the final characters `b` moves the last occurrence of `c` into
/// `b` when `b` has one.
pub proof fn lemma_last_index_of_concat(a: Seq<char>, b: Seq<char>, c: char)
    ensures
        last_index_of(a + b, c) == if last_index_of(b, c) >= 0 {
            a.len() + last_index_of(b, c)
        } else {
            last_index_of(a, c)
        },
    decreases b.len(),
{
    if b.len() == 0 {
        assert(a + b =~= a);
    } else {
        assert((a + b).drop_last() =~= a + b.drop_last());
        assert((a + b).last() == b.last());
        lemma_last_index_of_concat(a, b.drop_last(), c);
    }
}

proof fn lemma_ascii_lower_keeps_class(c: char)
    ensures
        is_white_space(ascii_lower_char(c)) == is_white_space(c),
        (ascii_lower_char(c) == '.') == (c == '.'),
{
}

proof fn lemma_map_drop_first(s: Seq<char>)
    requires
        s.len() > 0,
    ensures
        ascii_lowercase(s).drop_first() == ascii_lowercase(s.drop_first()),
        ascii_lowercase(s)[0] == ascii_lower_char(s[0]),
{
    assert(ascii_lowercase(s).drop_first() =~= ascii_lowercase(s.drop_first()));
}

proof fn lemma_map_drop_last(s: Seq<char>)
    requires
        s.len() > 0,
    ensures
        ascii_lowercase(s).drop_last() == ascii_lowercase(s.drop_last()),
        ascii_lowercase(s).last() == ascii_lower_char(s.last()),
{
    assert(ascii_lowercase(s).drop_last() =~= ascii_lowercase(s.drop_last()));
}

proof fn lemma_leading_ws_commutes(s: Seq<char>)
    ensures
        strip_leading_ws(ascii_lowercase(s)) == ascii_lowercase(strip_leading_ws(s)),
    decreases s.len(),
{
    if s.len() > 0 {
        lemma_map_drop_first(s);
        lemma_ascii_lower_keeps_class(s[0]);
        lemma_leading_ws_commutes(s.drop_first());
    }
}

proof fn lemma_trailing_ws_commutes(s: Seq<char>)
    ensures
        strip_trailing_ws(ascii_lowercase(s)) == ascii_lowercase(strip_trailing_ws(s)),
    decreases s.len(),
{
    if s.len() > 0 {
        lemma_map_drop_last(s);
        lemma_ascii_lower_keeps_class(s.last());
        lemma_trailing_ws_commutes(s.drop_last());
    }
}

proof fn lemma_trailing_dot_commutes(s: Seq<char>)
    ensures
        strip_trailing_dot(ascii_lowercase(s)) == ascii_lowercase(strip_trailing_dot(s)),
{
    if s.len() > 0 {
        lemma_map_drop_last(s);
        lemma_ascii_lower_keeps_class(s.last());
    }
}

/// Trimming and ASCII lowercasing can be done in either order.
pub proof fn lemma_trim_commutes_with_ascii_lowercase(s: Seq<char>)
    ensures
        ascii_lowercase(trimmed(s)) == trimmed(ascii_lowercase(s)),
{
    lemma_leading_ws_commutes(s);
    lemma_trailing_ws_commutes(strip_leading_ws(s));
    lemma_trailing_dot_commutes(strip_trailing_ws(strip_leading_ws(s)));
}

/// Domains that differ only in the case of ASCII letters trim to the same
/// lowercase form.
pub proof fn lemma_ascii_case_insensitive(d1: Seq<char>, d2: Seq<char>)
    requires
        ascii_lowercase(d1) == ascii_lowercase(d2),
    ensures
        ascii_lowercase(trimmed(d1)) == ascii_lowercase(trimmed(d2)),
{
    lemma_trim_commutes_with_ascii_lowercase(d1);
    lemma_trim_commutes_with_ascii_lowercase(d2);
}

proof fn lemma_leading_ws_is_suffix(s: Seq<char>)
    ensures
        strip_leading_ws(s).len() <= s.len(),
        strip_leading_ws(s) == s.subrange(s.len() - strip_leading_ws(s).len(), s.len() as int),
    decreases s.len(),
{
    if s.len() > 0 && is_white_space(s[0]) {
        lemma_leading_ws_is_suffix(s.drop_first());
        let t = strip_leading_ws(s.drop_first());
        assert(s.drop_first().subrange(s.len() - 1 - t.len(), s.len() - 1) =~= s.subrange(
            s.len() - t.len(),
            s.len() as int,
        ));
    } else {
        assert(s.subrange(0, s.len() as int) =~= s);
    }
}

proof fn lemma_leading_ws_push_dot(s: Seq<char>)
    ensures
        strip_leading_ws(s.push('.')) == strip_leading_ws(s).push('.'),
    decreases s.len(),
{
    if s.len() > 0 && is_white_space(s[0]) {
        assert(s.push('.').drop_first() =~= s.drop_first().push('.'));
        lemma_leading_ws_push_dot(s.drop_first());
    } else if s.len() == 0 {
        assert(s.push('.')[0] == '.');
    } else {
        assert(s.push('.')[0] == s[0]);
    }
}

/// A single trailing dot does not change how a domain trims, for a domain
/// that does not already end in white space or a dot.
pub proof fn lemma_trailing_dot_trimmed(d: Seq<char>)
    requires
        d.len() == 0 || (!is_white_space(d.last()) && d.last() != '.'),
    ensures
        trimmed(d.push('.')) == trimmed(d),
{
    let x = strip_leading_ws(d);
    lemma_leading_ws_push_dot(d);
    lemma_leading_ws_is_suffix(d);
    assert(x.push('.').drop_last() =~= x);
    if x.len() > 0 {
        assert(x.last() == d.last());
    }
    assert(strip_trailing_ws(x) == x);
    assert(strip_trailing_ws(x.push('.')) == x.push('.'));
}

proof fn lemma_leading_ws_concat(a: Seq<char>, b: Seq<char>)
    requires
        b.len() > 0,
        !is_white_space(b[0]),
    ensures
        strip_leading_ws(a + b) == strip_leading_ws(a) + b,
    decreases a.len(),
{
    if a.len() > 0 && is_white_space(a[0]) {
        assert((a + b).drop_first() =~= a.drop_first() + b);
        lemma_leading_ws_concat(a.drop_first(), b);
    } else if a.len() == 0 {
        assert(a + b =~= b);
    } else {
        assert((a + b)[0] == a[0]);
    }
}

proof fn lemma_trailing_ws_concat(a: Seq<char>, b: Seq<char>)
    requires
        b.len() > 0,
        !is_white_space(b[0]),
    ensures
        strip_trailing_ws(a + b) == a + strip_trailing_ws(b),
        strip_trailing_ws(b).len() > 0,
    decreases b.len(),
{
    if is_white_space(b.last()) {
        assert((a + b).drop_last() =~= a + b.drop_last());
        lemma_trailing_ws_concat(a, b.drop_last());
    } else {
        assert((a + b).last() == b.last());
    }
}

/// Trimming `label.d`, for a `d` that does not begin with white space,
/// trims the front of `label` and the end of `d` and keeps the dot between.
pub proof fn lemma_trimmed_subdomain(label: Seq<char>, d: Seq<char>)
    requires
        d.len() > 0,
        !is_white_space(d[0]),
    ensures
        trimmed(label + seq!['.'] + d) == strip_leading_ws(label) + seq!['.'] + trimmed(d),
{
    let dot_d = seq!['.'] + d;
    assert(label + seq!['.'] + d =~= label + dot_d);
    lemma_leading_ws_concat(label, dot_d);
    let sl = strip_leading_ws(label);
    let head = sl + seq!['.'];
    assert(sl + dot_d =~= head + d);
    lemma_trailing_ws_concat(head, d);
    let t = strip_trailing_ws(d);
    assert(strip_leading_ws(d) == d);
    if t.last() == '.' {
        assert((head + t).drop_last() =~= head + t.drop_last());
    }
    assert(head + strip_trailing_dot(t) =~= sl + seq!['.'] + trimmed(d));
}

proof fn lemma_leading_ws_run(w: Seq<char>, d: Seq<char>)
    requires
        forall|i: int| 0 <= i < w.len() ==> is_white_space(#[trigger] w[i]),
    ensures
        strip_leading_ws(w + d) == strip_leading_ws(d),
    decreases w.len(),
{
    if w.len() == 0 {
        assert(w + d =~= d);
    } else {
        assert((w + d)[0] == w[0]);
        assert((w + d).drop_first() =~= w.drop_first() + d);
        lemma_leading_ws_run(w.drop_first(), d);
    }
}

proof fn lemma_trailing_ws_run(d: Seq<char>, w: Seq<char>)
    requires
        forall|i: int| 0 <= i < w.len() ==> is_white_space(#[trigger] w[i]),
    ensures
        strip_trailing_ws(d + w) == strip_trailing_ws(d),
    decreases w.len(),
{
    if w.len() == 0 {
        assert(d + w =~= d);
    } else {
        assert((d + w).last() == w.last());
        assert((d + w).drop_last() =~= d + w.drop_last());
        lemma_trailing_ws_run(d, w.drop_last());
    }
}

proof fn lemma_strip_ws_run_after(d: Seq<char>, w: Seq<char>)
    requires
        forall|i: int| 0 <= i < w.len() ==> is_white_space(#[trigger] w[i]),
    ensures
        strip_trailing_ws(strip_leading_ws(d + w)) == strip_trailing_ws(strip_leading_ws(d)),
    decreases d.len(),
{
    if d.len() == 0 {
        assert(d + w =~= w);
        lemma_leading_ws_run(w, Seq::<char>::empty());
        assert(w + Seq::<char>::empty() =~= w);
    } else if is_white_space(d[0]) {
        assert((d + w)[0] == d[0]);
        assert((d + w).drop_first() =~= d.drop_first() + w);
        lemma_strip_ws_run_after(d.drop_first(), w);
    } else {
        assert((d + w)[0] == d[0]);
        lemma_trailing_ws_run(d, w);
    }
}

proof fn lemma_leading_ws_keeps_last(s: Seq<char>)
    requires
        s.len() > 0,
        !is_white_space(s.last()),
    ensures
        strip_leading_ws(s).len() > 0,
        strip_leading_ws(s).last() == s.last(),
    decreases s.len(),
{
    if is_white_space(s[0]) {
        assert(s.len() > 1);
        assert(s.drop_first().last() == s.last());
        lemma_leading_ws_keeps_last(s.drop_first());
    }
}

/// Runs of white space before and after a domain do not change how it
/// trims.
pub proof fn lemma_trimmed_ignores_ws_runs(w: Seq<char>, d: Seq<char>, v: Seq<char>)
    requires
        forall|i: int| 0 <= i < w.len() ==> is_white_space(#[trigger] w[i]),
        forall|i: int| 0 <= i < v.len() ==> is_white_space(#[trigger] v[i]),
    ensures
        trimmed(w + d + v) == trimmed(d),
{
    assert(w + d + v =~= w + (d + v));
    lemma_leading_ws_run(w, d + v);
    lemma_strip_ws_run_after(d, v);
}

/// Of two trailing dots after a domain that ends in neither white space nor
/// a dot, trimming drops one only.
pub proof fn lemma_trimmed_keeps_second_dot(d: Seq<char>)
    requires
        d.len() > 0,
        !is_white_space(d.last()),
        d.last() != '.',
    ensures
        trimmed(d + seq!['.', '.']) == trimmed(d).push('.'),
{
    let dots = seq!['.', '.'];
    lemma_leading_ws_concat(d, dots);
    let sl = strip_leading_ws(d);
    lemma_leading_ws_keeps_last(d);
    assert(strip_trailing_ws(sl) == sl);
    let x = sl + dots;
    assert(x.last() == '.');
    assert(strip_trailing_ws(x) == x);
    assert(x.drop_last() =~= sl.push('.'));
}

/// The pieces `ps` put back together with `sep` between each two.
pub open spec fn joined(ps: Seq<Seq<char>>, sep: char) -> Seq<char>
    decreases ps.len(),
{
    if ps.len() == 0 {
        Seq::empty()
    } else if ps.len() == 1 {
        ps[0]
    } else {
        joined(ps.drop_last(), sep).push(sep) + ps.last()
    }
}

proof fn lemma_joined_grow_last(ps: Seq<Seq<char>>, sep: char, c: char)
    requires
        ps.len() > 0,
    ensures
        joined(ps.update(ps.len() - 1, ps.last().push(c)), sep) == joined(ps, sep).push(c),
{
    let qs = ps.update(ps.len() - 1, ps.last().push(c));
    if ps.len() == 1 {
        assert(qs[0] == ps[0].push(c));
    } else {
        assert(qs.drop_last() =~= ps.drop_last());
        assert(qs.last() == ps.last().push(c));
        let a = joined(ps.drop_last(), sep).push(sep);
        assert(a + ps.last().push(c) =~= (a + ps.last()).push(c));
    }
}

/// What `split` gives back is `s` cut at each `sep`: there is at least one
/// piece, the pieces hold no `sep`, and joining them with `sep` gives `s`
/// again.
pub proof fn law_split_pieces_rejoin(s: Seq<char>, sep: char)
    ensures
        split(s, sep).len() >= 1,
        joined(split(s, sep), sep) == s,
        forall|i: int, j: int|
            0 <= i < split(s, sep).len() && 0 <= j < split(s, sep)[i].len() ==> #[trigger] split(
                s,
                sep,
            )[i][j] != sep,
    decreases s.len(),
{
    if s.len() == 0 {
        assert(joined(split(s, sep), sep) =~= s);
    } else {
        let prev = split(s.drop_last(), sep);
        law_split_pieces_rejoin(s.drop_last(), sep);
        if s.last() == sep {
            let ps = prev.push(Seq::<char>::empty());
            assert(ps.drop_last() =~= prev);
            assert(joined(ps, sep) =~= s.drop_last().push(sep));
            assert(s.drop_last().push(sep) =~= s);
            assert forall|i: int, j: int|
                0 <= i < ps.len() && 0 <= j < ps[i].len() implies #[trigger] ps[i][j] != sep by {
                assert(ps[i] == prev[i]);
            }
        } else {
            lemma_joined_grow_last(prev, sep, s.last());
            assert(s.drop_last().push(s.last()) =~= s);
            let ps = prev.update(prev.len() - 1, prev.last().push(s.last()));
            assert forall|i: int, j: int|
                0 <= i < ps.len() && 0 <= j < ps[i].len() implies #[trigger] ps[i][j] != sep by {
                if i == prev.len() - 1 {
                    if j < prev.last().len() {
                        assert(ps[i][j] == prev[i][j]);
                    }
                } else {
                    assert(ps[i] == prev[i]);
                }
            }
        }
    }
}

/// The domain of an email address is what follows its last `@`.
pub proof fn lemma_email_domain_after_last_at(local: Seq<char>, d: Seq<char>)
    requires
        forall|j: int| 0 <= j < d.len() ==> d[j] != '@',
    ensures
        email_domain(local + seq!['@'] + d) == Some(d),
{
    lemma_last_index_of(d, '@');
    lemma_last_index_of_concat(local + seq!['@'], d, '@');
    assert((local + seq!['@']).drop_last() =~= local);
    let e = local + seq!['@'] + d;
    assert(e.subrange(local.len() + 1 as int, e.len() as int) =~= d);
}

/// Whether `c` has the Unicode `White_Space` property.
pub(crate) fn white_space(c: char) -> (r: bool)
    ensures
        r == is_white_space(c),
{
    ('\u{9}' <= c && c <= '\u{d}') || c == ' ' || c == '\u{85}' || c == '\u{a0}' || c
        == '\u{1680}' || ('\u{2000}' <= c && c <= '\u{200a}') || c == '\u{2028}' || c
        == '\u{2029}' || c == '\u{202f}' || c == '\u{205f}' || c == '\u{3000}'
}

/// The characters of `s`, in order.
pub(crate) fn to_chars(s: &str) -> (r: Vec<char>)
    ensures
        r@ == s@,
{
    let mut v: Vec<char> = Vec::new();
    for c in it: s.chars()
        invariant
            it.seq() == s@,
            v@ == s@.take(it.index@ as int),
    {
        v.push(c);
    }
    v
}

/// Whether two character vectors hold the same characters.
pub(crate) fn same_chars(a: &Vec<char>, b: &Vec<char>) -> (r: bool)
    ensures
        r == (a@ == b@),
{
    if a.len() != b.len() {
        return false;
    }
    let mut i: usize = 0;
    while i < a.len()
        invariant
            a.len() == b.len(),
            i <= a.len(),
            forall|j: int| 0 <= j < i ==> a@[j] == b@[j],
        decreases a.len() - i,
    {
        if a[i] != b[i] {
            return false;
        }
        i = i + 1;
    }
    assert(a@ =~= b@);
    true
}

/// The characters of `v` from position `from` on.
pub(crate) fn tail_from(v: &Vec<char>, from: usize) -> (r: Vec<char>)
    requires
        from <= v.len(),
    ensures
        r@ == v@.subrange(from as int, v.len() as int),
{
    let mut r: Vec<char> = Vec::new();
    let mut i: usize = from;
    while i < v.len()
        invariant
            from <= i <= v.len(),
            r@ == v@.subrange(from as int, i as int),
        decreases v.len() - i,
    {
        r.push(v[i]);
        i = i + 1;
        assert(r@ =~= v@.subrange(from as int, i as int));
    }
    r
}

/// Whether `s` holds `q`.
pub(crate) fn holds(s: &Vec<Vec<char>>, q: &Vec<char>) -> (r: bool)
    ensures
        r == views(s@).contains(q@),
{
    let mut i: usize = 0;
    while i < s.len()
        invariant
            i <= s.len(),
            forall|j: int| 0 <= j < i ==> s@[j]@ != q@,
        decreases s.len() - i,
    {
        if same_chars(&s[i], q) {
            assert(views(s@)[i as int] == q@);
            return true;
        }
        i = i + 1;
    }
    assert(!views(s@).contains(q@)) by {
        assert forall|j: int| 0 <= j < views(s@).len() implies views(s@)[j] != q@ by {
            assert(s@[j]@ != q@);
        }
    }
    false
}

/// The bounds `(start, end)` such that `s[start..end]` is `trimmed(s)`.
pub(crate) fn trim_bounds(s: &Vec<char>) -> (r: (usize, usize))
    ensures
        r.0 <= r.1 <= s.len(),
        s@.subrange(r.0 as int, r.1 as int) == trimmed(s@),
{
    let len = s.len();
    let mut i: usize = 0;
    assert(s@.subrange(0, len as int) =~= s@);
    while i < len && white_space(s[i])
        invariant
            len == s.len(),
            i <= len,
            strip_leading_ws(s@.subrange(i as int, len as int)) == strip_leading_ws(s@),
        decreases len - i,
    {
        assert(s@.subrange(i as int, len as int).drop_first() =~= s@.subrange(
            i + 1,
            len as int,
        ));
        i = i + 1;
    }
    let ghost lead = s@.subrange(i as int, len as int);
    assert(strip_leading_ws(lead) == lead);
    let mut j: usize = len;
    while j > i && white_space(s[j - 1])
        invariant
            len == s.len(),
            i <= j <= len,
            strip_trailing_ws(s@.subrange(i as int, j as int)) == strip_trailing_ws(lead),
        decreases j,
    {
        assert(s@.subrange(i as int, j as int).drop_last() =~= s@.subrange(
            i as int,
            j - 1,
        ));
        j = j - 1;
    }
    let ghost inner = s@.subrange(i as int, j as int);
    assert(strip_trailing_ws(inner) == inner);
    let mut k: usize = j;
    if k > i && s[k - 1] == '.' {
        assert(inner.drop_last() =~= s@.subrange(i as int, k - 1));
        k = k - 1;
    }
    (i, k)
}

/// `spans[k]` bounds, within `s`, the piece `pieces[k]`.
pub open spec fn spans_bound(s: Seq<char>, spans: Seq<(usize, usize)>, pieces: Seq<Seq<char>>) -> bool {
    &&& spans.len() == pieces.len()
    &&& forall|k: int|
        #![trigger spans[k]]
        0 <= k < spans.len() ==> spans[k].0 <= spans[k].1 <= s.len() && s.subrange(
            spans[k].0 as int,
            spans[k].1 as int,
        ) == pieces[k]
}

/// The bounds of the pieces of `s` between occurrences of `sep`: piece `k`
/// of `split(s, sep)` is `s[r[k].0..r[k].1]`.
pub(crate) fn split_spans(s: &Vec<char>, sep: char) -> (r: Vec<(usize, usize)>)
    ensures
        spans_bound(s@, r@, split(s@, sep)),
{
    let len = s.len();
    let mut r: Vec<(usize, usize)> = Vec::new();
    let mut start: usize = 0;
    let mut i: usize = 0;
    assert(s@.take(0) =~= Seq::<char>::empty());
    assert(s@.subrange(0, 0) =~= Seq::<char>::empty());
    assert(split(s@.take(0), sep).drop_last() =~= Seq::<Seq<char>>::empty());
    while i < len
        invariant
            len == s.len(),
            start <= i <= len,
            split(s@.take(i as int), sep).len() >= 1,
            spans_bound(s@, r@, split(s@.take(i as int), sep).drop_last()),
            s@.subrange(start as int, i as int) == split(s@.take(i as int), sep).last(),
        decreases len - i,
    {
        let ghost prev = split(s@.take(i as int), sep);
        let ghost old_r = r@;
        assert(s@.take(i + 1).drop_last() =~= s@.take(i as int));
        assert(s@.take(i + 1).last() == s@[i as int]);
        assert(s@.take(i + 1).len() > 0);
        if s[i] == sep {
            r.push((start, i));
            assert(split(s@.take(i + 1), sep) == prev.push(Seq::<char>::empty()));
            assert(split(s@.take(i + 1), sep).drop_last() =~= prev.drop_last().push(prev.last()));
            assert forall|k: int| 0 <= k < r@.len() implies r@[k].0 <= r@[k].1 <= len
                && s@.subrange(r@[k].0 as int, r@[k].1 as int) == prev.drop_last().push(
                prev.last(),
            )[k] by {
                if k < old_r.len() {
                    assert(r@[k] == old_r[k]);
                }
            }
            start = i + 1;
            assert(s@.subrange(start as int, i + 1) =~= Seq::<char>::empty());
        } else {
            assert(s@.subrange(start as int, i + 1) =~= s@.subrange(start as int, i as int).push(
                s@[i as int],
            ));
            assert(split(s@.take(i + 1), sep) == prev.update(
                prev.len() - 1,
                prev.last().push(s@[i as int]),
            ));
            assert(split(s@.take(i + 1), sep).drop_last() =~= prev.drop_last());
        }
        i = i + 1;
    }
    assert(s@.take(len as int) =~= s@);
    let ghost before = r@;
    r.push((start, len));
    assert(split(s@, sep) =~= split(s@, sep).drop_last().push(split(s@, sep).last()));
    assert forall|k: int| 0 <= k < r@.len() implies r@[k].0 <= r@[k].1 <= s@.len()
        && s@.subrange(r@[k].0 as int, r@[k].1 as int) == split(s@, sep)[k] by {
        if k < before.len() {
            assert(r@[k] == before[k]);
        }
    }
    r
}

/// `str::to_lowercase`: the lowercase equivalent of `s` under the Unicode
/// case mapping. Its documentation notes that, unlike
/// `str::to_ascii_lowercase`, it lowercases ASCII characters as well as
/// non-ASCII ones; so on an ASCII string it maps `A`..`Z` to `a`..`z` and
/// keeps every other character. Nothing more is claimed of non-ASCII input.
#[verifier::external_body]
fn to_lowercase(s: &str) -> (r: String)
    ensures
        r@ == lowercase_of(s@),
        is_ascii_chars(s@) ==> r@ == ascii_lowercase(s@),
{
    s.to_lowercase()
}

/// Lowercases and trims a domain, stripping a single trailing dot (FQDN
/// notation).
pub(crate) fn normalize(domain: &str) -> (r: Vec<char>)
    ensures
        r@ == normalized(domain@),
        is_ascii_chars(domain@) ==> r@ == ascii_lowercase(trimmed(domain@)),
{
    let chars = to_chars(domain);
    let (start, end) = trim_bounds(&chars);
    let piece = domain.substring_char(start, end);
    let lower = to_lowercase(piece);
    proof {
        if is_ascii_chars(domain@) {
            assert forall|i: int| 0 <= i < piece@.len() implies '\0' <= #[trigger] piece@[i]
                <= '\u{7f}' by {
                assert(piece@[i] == domain@[start + i]);
            }
        }
    }
    to_chars(lower.as_str())
}

/// Position of the last `c` in `v`.
pub(crate) fn last_position(v: &Vec<char>, c: char) -> (r: Option<usize>)
    ensures
        match r {
            Some(k) => k == last_index_of(v@, c),
            None => last_index_of(v@, c) == -1,
        },
{
    let len = v.len();
    let mut j: usize = len;
    assert(v@.take(len as int) =~= v@);
    while j > 0 && v[j - 1] != c
        invariant
            len == v.len(),
            j <= len,
            last_index_of(v@.take(j as int), c) == last_index_of(v@, c),
        decreases j,
    {
        assert(v@.take(j as int).drop_last() =~= v@.take(j - 1));
        j = j - 1;
    }
    if j == 0 {
        assert(v@.take(0) =~= Seq::<char>::empty());
        None
    } else {
        Some(j - 1)
    }
}

/// `str::rsplit_once('@')`, keeping the part after the last `@`.
pub(crate) fn domain_of_email(email: &str) -> (r: Option<&str>)
    ensures
        r matches Some(d) ==> email_domain(email@) == Some(d@),
        r is None ==> email_domain(email@) is None,
{
    let chars = to_chars(email);
    match last_position(&chars, '@') {
        None => None,
        Some(at) => {
            proof {
                lemma_last_index_of(email@, '@');
            }
            Some(email.substring_char(at + 1, chars.len()))
        },
    }
}

} // verus!

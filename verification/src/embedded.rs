//! The embedded dataset of disposable email domains and the operations on
//! it.
use vstd::prelude::*;
use vstd::string::{is_ascii, StrSliceExecFns};
use crate::text::{last_index_of, lemma_last_index_of, split, split_spans, spans_bound, to_chars};
use crate::order::{lemma_lex_irreflexive, lemma_lex_transitive, lex_lt, place, Placement};
use crate::data::{DOMAINS_PART_1, DOMAINS_PART_2, DOMAINS_PART_3, DOMAINS_PART_4};

verus! {

/// The number of parts the dataset is stored in.
pub const PART_COUNT: usize = 4;

/// The text of part `p` of the dataset.
pub open spec fn part_text(p: int) -> Seq<char> {
    if p == 0 {
        DOMAINS_PART_1@
    } else if p == 1 {
        DOMAINS_PART_2@
    } else if p == 2 {
        DOMAINS_PART_3@
    } else {
        DOMAINS_PART_4@
    }
}

/// The domains listed in the first `p` parts of the dataset, in order.
pub open spec fn entries_of_parts(p: int) -> Seq<Seq<char>>
    decreases p,
{
    if p <= 0 {
        Seq::empty()
    } else {
        entries_of_parts(p - 1) + split(part_text(p - 1), '\n')
    }
}

/// The lines of the dataset's parts, in order.
pub open spec fn listed_entries() -> Seq<Seq<char>> {
    entries_of_parts(PART_COUNT as int)
}

/// A character that may appear in a listed domain.
pub open spec fn is_domain_char(c: char) -> bool {
    ('a' <= c && c <= 'z') || ('0' <= c && c <= '9') || c == '.' || c == '-'
}

/// A plain domain: lowercase letters, digits, dots and hyphens only, with
/// at least one dot and not ending in a dot.
pub open spec fn is_plain_domain(e: Seq<char>) -> bool {
    &&& forall|i: int| 0 <= i < e.len() ==> is_domain_char(#[trigger] e[i])
    &&& last_index_of(e, '.') >= 0
    &&& e.last() != '.'
}

/// Every domain of `es` is plain, and `es` is strictly increasing in
/// lexicographic order (hence without duplicates).
pub open spec fn is_clean_list(es: Seq<Seq<char>>) -> bool {
    &&& forall|i: int| 0 <= i < es.len() ==> is_plain_domain(#[trigger] es[i])
    &&& forall|i: int, j: int| 0 <= i < j < es.len() ==> lex_lt(#[trigger] es[i], #[trigger] es[j])
}

/// The fewest domains a plausible dataset lists: fewer means it was cut
/// short.
pub const MIN_LISTED: usize = 1000;

/// The domains of the embedded dataset, in the order in which it lists
/// them. A dataset that is not a clean list, or that lists fewer than
/// `MIN_LISTED` domains, counts as empty, as a build that refuses such a
/// list ships none.
pub open spec fn embedded_entries() -> Seq<Seq<char>> {
    if is_clean_list(listed_entries()) && listed_entries().len() >= MIN_LISTED {
        listed_entries()
    } else {
        Seq::empty()
    }
}

/// The embedded domains form a clean list.
pub proof fn lemma_embedded_clean()
    ensures
        is_clean_list(embedded_entries()),
{
}

/// The embedded dataset is either empty or lists at least `MIN_LISTED`
/// domains.
pub proof fn lemma_embedded_plausible()
    ensures
        embedded_entries().len() == 0 || embedded_entries().len() >= MIN_LISTED,
{
}

/// The lines of the parts before `p` are all among the domains listed by
/// those parts.
pub proof fn lemma_lines_in_parts(p: int, q: int, i: int)
    requires
        0 <= q < p,
        0 <= i < split(part_text(q), '\n').len(),
    ensures
        entries_of_parts(p).contains(split(part_text(q), '\n')[i]),
    decreases p,
{
    let before = entries_of_parts(p - 1);
    let lines = split(part_text(p - 1), '\n');
    assert(entries_of_parts(p) == before + lines);
    if q == p - 1 {
        assert((before + lines)[before.len() + i] == lines[i]);
    } else {
        lemma_lines_in_parts(p - 1, q, i);
        let k = choose|k: int| 0 <= k < before.len() && before[k] == split(part_text(q), '\n')[i];
        assert((before + lines)[k] == before[k]);
    }
}

/// No domain is listed twice.
pub proof fn lemma_embedded_distinct()
    ensures
        embedded_entries().no_duplicates(),
{
    let es = embedded_entries();
    assert forall|i: int, j: int| 0 <= i < es.len() && 0 <= j < es.len() && i != j implies es[i]
        != es[j] by {
        lemma_lex_irreflexive(es[i]);
        if i < j {
            assert(lex_lt(es[i], es[j]));
        } else {
            assert(lex_lt(es[j], es[i]));
        }
    }
}

proof fn lemma_chain(es: Seq<Seq<char>>, i: int, j: int)
    requires
        forall|k: int| 0 <= k < es.len() - 1 ==> lex_lt(#[trigger] es[k], es[k + 1]),
        0 <= i < j < es.len(),
    ensures
        lex_lt(es[i], es[j]),
    decreases j - i,
{
    if j > i + 1 {
        lemma_chain(es, i, j - 1);
        assert(lex_lt(es[j - 1], es[j]));
        lemma_lex_transitive(es[i], es[j - 1], es[j]);
    }
}

/// Whether `text[from..to]` is a plain domain.
fn plain_range(text: &Vec<char>, from: usize, to: usize) -> (r: bool)
    requires
        from <= to <= text.len(),
    ensures
        r == is_plain_domain(text@.subrange(from as int, to as int)),
{
    let ghost e = text@.subrange(from as int, to as int);
    let mut dot = false;
    let mut i: usize = from;
    while i < to
        invariant
            from <= i <= to <= text.len(),
            e == text@.subrange(from as int, to as int),
            forall|j: int| 0 <= j < i - from ==> is_domain_char(#[trigger] e[j]),
            dot == exists|j: int| 0 <= j < i - from && e[j] == '.',
        decreases to - i,
    {
        let c = text[i];
        assert(e[i - from] == c);
        if !(('a' <= c && c <= 'z') || ('0' <= c && c <= '9') || c == '.' || c == '-') {
            return false;
        }
        if c == '.' {
            dot = true;
        }
        i = i + 1;
    }
    proof {
        lemma_last_index_of(e, '.');
        if dot {
            let j = choose|j: int| 0 <= j < e.len() && e[j] == '.';
            assert(last_index_of(e, '.') >= j);
        }
    }
    dot && text[to - 1] != '.'
}


/// Part `p` of the dataset.
fn part(p: usize) -> (r: &'static str)
    requires
        p < PART_COUNT,
    ensures
        r@ == part_text(p as int),
{
    if p == 0 {
        DOMAINS_PART_1
    } else if p == 1 {
        DOMAINS_PART_2
    } else if p == 2 {
        DOMAINS_PART_3
    } else {
        DOMAINS_PART_4
    }
}

/// Where one domain of the dataset stands: its part and its bounds there.
#[derive(Debug, Clone, Copy)]
pub(crate) struct Span {
    pub part: usize,
    pub from: usize,
    pub to: usize,
}

/// The embedded dataset, read into memory: the characters of each part and
/// where each domain stands.
#[derive(Debug)]
pub(crate) struct EmbeddedList {
    texts: Vec<Vec<char>>,
    spans: Vec<Span>,
    ascii: Vec<bool>,
}

impl EmbeddedList {
    /// `span` bounds `entry` within the texts `texts`.
    pub(crate) open spec fn span_holds(texts: Seq<Vec<char>>, span: Span, entry: Seq<char>) -> bool {
        &&& span.part < texts.len()
        &&& span.from <= span.to <= texts[span.part as int].len()
        &&& texts[span.part as int]@.subrange(span.from as int, span.to as int) == entry
    }

    pub(crate) closed spec fn wf(&self) -> bool {
        &&& self.texts.len() == PART_COUNT
        &&& self.ascii.len() == PART_COUNT
        &&& forall|p: int| 0 <= p < PART_COUNT ==> #[trigger] self.texts@[p]@ == part_text(p)
        &&& forall|p: int| 0 <= p < PART_COUNT ==> #[trigger] self.ascii@[p] ==> is_ascii_part(p)
        &&& self.spans.len() == embedded_entries().len()
        &&& forall|k: int|
            0 <= k < self.spans.len() ==> Self::span_holds(
                self.texts@,
                #[trigger] self.spans@[k],
                embedded_entries()[k],
            )
    }

    /// Whether the domains at `spans` form a clean list.
    fn spans_clean(texts: &Vec<Vec<char>>, spans: &Vec<Span>) -> (r: bool)
        requires
            spans.len() == listed_entries().len(),
            forall|k: int|
                0 <= k < spans.len() ==> Self::span_holds(
                    texts@,
                    #[trigger] spans@[k],
                    listed_entries()[k],
                ),
        ensures
            r == is_clean_list(listed_entries()),
    {
        let ghost es = listed_entries();
        let n = spans.len();
        let mut k: usize = 0;
        while k < n
            invariant
                n == spans.len(),
                es == listed_entries(),
                spans.len() == es.len(),
                forall|m: int|
                    0 <= m < spans.len() ==> Self::span_holds(texts@, #[trigger] spans@[m], es[m]),
                k <= n,
                forall|m: int| 0 <= m < k ==> is_plain_domain(#[trigger] es[m]),
                forall|m: int| 0 <= m < k && m + 1 < n ==> lex_lt(#[trigger] es[m], es[m + 1]),
            decreases n - k,
        {
            let span = spans[k];
            assert(Self::span_holds(texts@, spans@[k as int], es[k as int]));
            let text = &texts[span.part];
            if !plain_range(text, span.from, span.to) {
                return false;
            }
            if k + 1 < n {
                let next = spans[k + 1];
                assert(Self::span_holds(texts@, spans@[k + 1], es[k + 1]));
                let other = &texts[next.part];
                match place(text, span.from, span.to, other, next.from, next.to) {
                    Placement::Before => {},
                    _ => {
                        proof {
                            lemma_lex_irreflexive(es[k as int]);
                            if lex_lt(es[k + 1], es[k as int]) && lex_lt(es[k as int], es[k + 1]) {
                                lemma_lex_transitive(es[k as int], es[k + 1], es[k as int]);
                            }
                        }
                        return false;
                    },
                }
            }
            k = k + 1;
        }
        assert forall|i: int, j: int| 0 <= i < j < es.len() implies lex_lt(
            #[trigger] es[i],
            #[trigger] es[j],
        ) by {
            lemma_chain(es, i, j);
        }
        true
    }

    /// Reads the embedded dataset, keeping it only if it is a clean list.
    pub(crate) fn load() -> (r: Self)
        ensures
            r.wf(),
    {
        let mut texts: Vec<Vec<char>> = Vec::new();
        let mut ascii: Vec<bool> = Vec::new();
        let mut spans: Vec<Span> = Vec::new();
        let mut p: usize = 0;
        while p < PART_COUNT
            invariant
                p <= PART_COUNT,
                texts.len() == p,
                ascii.len() == p,
                forall|q: int| 0 <= q < p ==> #[trigger] texts@[q]@ == part_text(q),
                forall|q: int| 0 <= q < p ==> #[trigger] ascii@[q] ==> is_ascii_part(q),
                spans.len() == entries_of_parts(p as int).len(),
                forall|k: int|
                    0 <= k < spans.len() ==> Self::span_holds(
                        texts@,
                        #[trigger] spans@[k],
                        entries_of_parts(p as int)[k],
                    ),
            decreases PART_COUNT - p,
        {
            let s = part(p);
            let chars = to_chars(s);
            let bounds = split_spans(&chars, '\n');
            let ghost pieces = split(part_text(p as int), '\n');
            let ghost before = entries_of_parts(p as int);
            let ghost old_spans = spans@;
            let ghost old_texts = texts@;
            assert(entries_of_parts(p + 1) == before + pieces);
            let mut i: usize = 0;
            while i < bounds.len()
                invariant
                    p < PART_COUNT,
                    texts.len() == p,
                    texts@ == old_texts,
                    chars@ == part_text(p as int),
                    spans_bound(chars@, bounds@, pieces),
                    pieces == split(part_text(p as int), '\n'),
                    i <= bounds.len(),
                    spans.len() == before.len() + i,
                    old_spans.len() == before.len(),
                    forall|k: int| 0 <= k < old_spans.len() ==> spans@[k] == old_spans[k],
                    forall|k: int|
                        0 <= k < old_spans.len() ==> Self::span_holds(
                            texts@,
                            #[trigger] old_spans[k],
                            before[k],
                        ),
                    forall|j: int|
                        0 <= j < i ==> (#[trigger] spans@[before.len() + j]).part == p
                            && spans@[before.len() + j].from == bounds@[j].0 && spans@[before.len()
                            + j].to == bounds@[j].1,
                decreases bounds.len() - i,
            {
                let (from, to) = bounds[i];
                spans.push(Span { part: p, from, to });
                i = i + 1;
            }
            let ghost part_chars = chars@;
            texts.push(chars);
            ascii.push(s.is_ascii());
            assert forall|k: int|
                0 <= k < spans.len() implies Self::span_holds(
                texts@,
                #[trigger] spans@[k],
                entries_of_parts(p + 1)[k],
            ) by {
                if k < before.len() {
                    assert(spans@[k] == old_spans[k]);
                    assert(texts@[spans@[k].part as int] == old_texts[spans@[k].part as int]);
                } else {
                    let j = k - before.len();
                    assert(spans@[before.len() + j].part == p);
                    assert(bounds@[j].0 <= bounds@[j].1 <= part_chars.len());
                    assert(texts@[p as int]@ == part_chars);
                }
            }
            p = p + 1;
        }
        let clean = spans.len() >= MIN_LISTED && Self::spans_clean(&texts, &spans);
        if clean {
            EmbeddedList { texts, spans, ascii }
        } else {
            EmbeddedList { texts, spans: Vec::new(), ascii }
        }
    }

    /// The number of domains in the dataset.
    pub(crate) fn count(&self) -> (r: usize)
        requires
            self.wf(),
        ensures
            r == embedded_entries().len(),
    {
        self.spans.len()
    }

    /// Whether domain `k` of the dataset is `q`.
    pub(crate) fn entry_is(&self, k: usize, q: &Vec<char>) -> (r: bool)
        requires
            self.wf(),
            k < embedded_entries().len(),
        ensures
            r == (embedded_entries()[k as int] == q@),
    {
        let span = self.spans[k];
        let ghost e = embedded_entries()[k as int];
        assert(Self::span_holds(self.texts@, self.spans@[k as int], e));
        let text = &self.texts[span.part];
        assert(text@.subrange(span.from as int, span.to as int) == e);
        if span.to - span.from != q.len() {
            assert(e.len() == span.to - span.from);
            return false;
        }
        let mut i: usize = 0;
        while i < q.len()
            invariant
                span.from <= span.to <= text.len(),
                span.to - span.from == q.len(),
                e == text@.subrange(span.from as int, span.to as int),
                e == embedded_entries()[k as int],
                i <= q.len(),
                forall|j: int| 0 <= j < i ==> e[j] == q@[j],
            decreases q.len() - i,
        {
            if text[span.from + i] != q[i] {
                assert(e[i as int] == text@[span.from + i]);
                return false;
            }
            i = i + 1;
        }
        assert(e =~= q@);
        true
    }

    /// How domain `k` of the dataset stands relative to `q`.
    fn place_entry(&self, k: usize, q: &Vec<char>) -> (r: Placement)
        requires
            self.wf(),
            k < embedded_entries().len(),
        ensures
            match r {
                Placement::Before => lex_lt(embedded_entries()[k as int], q@),
                Placement::Same => embedded_entries()[k as int] == q@,
                Placement::After => lex_lt(q@, embedded_entries()[k as int]),
            },
    {
        let span = self.spans[k];
        assert(Self::span_holds(self.texts@, self.spans@[k as int], embedded_entries()[k as int]));
        assert(q@.subrange(0, q.len() as int) =~= q@);
        place(&self.texts[span.part], span.from, span.to, q, 0, q.len())
    }

    /// Whether the dataset lists `q`, by binary search over its sorted
    /// domains.
    pub(crate) fn contains(&self, q: &Vec<char>) -> (r: bool)
        requires
            self.wf(),
        ensures
            r == embedded_entries().contains(q@),
    {
        let ghost es = embedded_entries();
        proof {
            lemma_embedded_clean();
            lemma_lex_irreflexive(q@);
        }
        let mut lo: usize = 0;
        let mut hi: usize = self.spans.len();
        while lo < hi
            invariant
                self.wf(),
                es == embedded_entries(),
                is_clean_list(es),
                !lex_lt(q@, q@),
                lo <= hi <= es.len(),
                forall|j: int| 0 <= j < lo ==> #[trigger] es[j] != q@,
                forall|j: int| hi <= j < es.len() ==> #[trigger] es[j] != q@,
            decreases hi - lo,
        {
            let mid = lo + (hi - lo) / 2;
            match self.place_entry(mid, q) {
                Placement::Same => {
                    return true;
                },
                Placement::Before => {
                    assert forall|j: int| 0 <= j <= mid implies #[trigger] es[j] != q@ by {
                        if j < mid {
                            assert(lex_lt(es[j], es[mid as int]));
                            lemma_lex_transitive(es[j], es[mid as int], q@);
                        }
                    }
                    lo = mid + 1;
                },
                Placement::After => {
                    assert forall|j: int| mid <= j < es.len() implies #[trigger] es[j] != q@ by {
                        if j > mid {
                            assert(lex_lt(es[mid as int], es[j]));
                            lemma_lex_transitive(q@, es[mid as int], es[j]);
                        }
                    }
                    hi = mid;
                },
            }
        }
        false
    }

    /// Domain `k` of the dataset.
    pub(crate) fn entry(&self, k: usize) -> (r: Vec<char>)
        requires
            self.wf(),
            k < embedded_entries().len(),
        ensures
            r@ == embedded_entries()[k as int],
    {
        let span = self.spans[k];
        assert(Self::span_holds(self.texts@, self.spans@[k as int], embedded_entries()[k as int]));
        let text = &self.texts[span.part];
        let mut r: Vec<char> = Vec::new();
        let mut i: usize = span.from;
        while i < span.to
            invariant
                span.from <= i <= span.to,
                span.to <= text.len(),
                r@ == text@.subrange(span.from as int, i as int),
            decreases span.to - i,
        {
            r.push(text[i]);
            i = i + 1;
            assert(r@ =~= text@.subrange(span.from as int, i as int));
        }
        r
    }

    /// Domain `k` of the dataset, as a slice of the embedded text.
    pub(crate) fn entry_str(&self, k: usize) -> (r: &'static str)
        requires
            self.wf(),
            k < embedded_entries().len(),
        ensures
            r@ == embedded_entries()[k as int],
    {
        let span = self.spans[k];
        assert(Self::span_holds(self.texts@, self.spans@[k as int], embedded_entries()[k as int]));
        assert(self.texts@[span.part as int]@ == part_text(span.part as int));
        let s = part(span.part);
        if self.ascii[span.part] {
            s.substring_ascii(span.from, span.to)
        } else {
            s.substring_char(span.from, span.to)
        }
    }
}

/// Part `p` of the dataset is ASCII text.
pub open spec fn is_ascii_part(p: int) -> bool {
    if p == 0 {
        is_ascii(DOMAINS_PART_1)
    } else if p == 1 {
        is_ascii(DOMAINS_PART_2)
    } else if p == 2 {
        is_ascii(DOMAINS_PART_3)
    } else {
        is_ascii(DOMAINS_PART_4)
    }
}

} // verus!

//! Detection of disposable and temporary email domains against an
//! embedded dataset, with subdomain matching and case-insensitive lookups.
use vstd::prelude::*;
use vstd::utf8::is_ascii_chars;
use crate::embedded::{
    embedded_entries, is_clean_list, is_domain_char, is_plain_domain, lemma_embedded_clean,
    lemma_embedded_distinct, lemma_embedded_plausible, lemma_lines_in_parts, listed_entries,
    part_text, EmbeddedList, MIN_LISTED, PART_COUNT,
};
use crate::matching::{
    any_parent, find_listed_parent, is_checked_start, is_self_or_parent, lemma_any_parent_by_labels,
    lemma_raw_subdomains_inherit_matches, lemma_single_label_never_matches,
    lemma_subdomains_inherit_matches, suffix_at,
};
use crate::text::{
    ascii_lowercase, domain_of_email, email_domain, is_white_space, last_index_of,
    lemma_ascii_case_insensitive, lemma_email_domain_after_last_at, lemma_last_index_of,
    lemma_trailing_dot_trimmed, lemma_trimmed_ignores_ws_runs, lemma_trimmed_keeps_second_dot,
    lowercase_of, normalize, normalized, split, strip_leading_ws, strip_trailing_ws, trimmed,
};
use crate::runtime::BlocklistModel;
use vstd::std_specs::vec::into_iter_elts;

pub mod text;
pub mod matching;
pub mod order;
pub mod data;
pub mod embedded;
pub mod runtime;

pub use runtime::Blocklist;

verus! {

/// Whether the embedded dataset lists the normalized domain `n` or one of
/// its parent domains (the bare top-level label excepted).
pub open spec fn flagged_by_embedded(n: Seq<char>) -> bool {
    any_parent(n, |s: Seq<char>| embedded_entries().contains(s))
}

/// What `is_disposable_email` answers for the characters of `email`.
pub open spec fn email_flagged_by_embedded(email: Seq<char>) -> bool {
    match email_domain(email) {
        Some(d) => d.len() > 0 && flagged_by_embedded(normalized(d)),
        None => false,
    }
}

/// Whether the embedded dataset lists `n` or one of its parent domains.
fn embedded_flags(n: &Vec<char>) -> (r: bool)
    ensures
        r == flagged_by_embedded(n@),
{
    let list = EmbeddedList::load();
    let check = |q: &Vec<char>| -> (b: bool)
        requires
            list.wf(),
        ensures
            b == embedded_entries().contains(q@),
        { list.contains(q) };
    find_listed_parent(n, check, Ghost(|s: Seq<char>| embedded_entries().contains(s)))
}

/// Returns `true` if `domain`, or any of its parent domains, is a known
/// disposable/temporary email domain. Matching is case-insensitive and
/// tolerant of surrounding white space and of a single trailing dot (as in a
/// fully-qualified domain name).
pub fn is_disposable_domain(domain: &str) -> (r: bool)
    ensures
        r == flagged_by_embedded(normalized(domain@)),
        is_ascii_chars(domain@) ==> r == flagged_by_embedded(ascii_lowercase(trimmed(domain@))),
{
    let n = normalize(domain);
    if n.len() == 0 {
        return false;
    }
    embedded_flags(&n)
}

/// Returns `true` if `email`'s domain (or one of its parent domains) is a
/// known disposable/temporary email domain. The domain is what follows the
/// last `@`; input without an `@`, or with nothing after the last one, is
/// not disposable.
pub fn is_disposable_email(email: &str) -> (r: bool)
    ensures
        r == email_flagged_by_embedded(email@),
        is_ascii_chars(email@) ==> r == match email_domain(email@) {
            Some(d) => d.len() > 0 && flagged_by_embedded(ascii_lowercase(trimmed(d))),
            None => false,
        },
{
    match domain_of_email(email) {
        Some(domain) => {
            proof {
                lemma_last_index_of(email@, '@');
                if is_ascii_chars(email@) {
                    assert forall|i: int| 0 <= i < domain@.len() implies '\0' <= #[trigger] domain@[i]
                        <= '\u{7f}' by {
                        assert(domain@[i] == email@[last_index_of(email@, '@') + 1 + i]);
                    }
                }
            }
            if domain.is_empty() {
                false
            } else {
                is_disposable_domain(domain)
            }
        },
        None => false,
    }
}

/// Returns the total number of domains in the embedded blocklist.
pub fn len() -> (r: usize)
    ensures
        r == embedded_entries().len(),
        r == 0 || r >= MIN_LISTED,
{
    proof {
        lemma_embedded_plausible();
    }
    EmbeddedList::load().count()
}

/// Returns `true` if the embedded blocklist is empty, which a dataset that
/// passed its checks at load never is.
pub fn is_empty() -> (r: bool)
    ensures
        r == (embedded_entries().len() == 0),
        !r ==> embedded_entries().len() >= MIN_LISTED,
{
    proof {
        lemma_embedded_plausible();
    }
    len() == 0
}

/// Returns an iterator over every domain in the embedded blocklist, in the
/// order in which the dataset lists them.
pub fn iter() -> (r: std::vec::IntoIter<&'static str>)
    ensures
        into_iter_elts(r).map_values(|s: &str| s@) == embedded_entries(),
{
    let list = EmbeddedList::load();
    let n = list.count();
    let mut domains: Vec<&'static str> = Vec::new();
    let mut k: usize = 0;
    while k < n
        invariant
            list.wf(),
            n == embedded_entries().len(),
            k <= n,
            domains@.map_values(|s: &str| s@) == embedded_entries().take(k as int),
        decreases n - k,
    {
        let d = list.entry_str(k);
        let ghost before = domains@;
        domains.push(d);
        assert(domains@.map_values(|s: &str| s@) =~= before.map_values(|s: &str| s@).push(d@));
        assert(embedded_entries().take(k + 1) =~= embedded_entries().take(k as int).push(
            embedded_entries()[k as int],
        ));
        k = k + 1;
    }
    assert(embedded_entries().take(n as int) =~= embedded_entries());
    domains.into_iter()
}

/// Matching is case-insensitive: two domains that differ only in the case
/// of ASCII letters have the same canonical form, hence the same answer.
pub proof fn law_lookup_ignores_ascii_case(d1: Seq<char>, d2: Seq<char>)
    requires
        ascii_lowercase(d1) == ascii_lowercase(d2),
    ensures
        ascii_lowercase(trimmed(d1)) == ascii_lowercase(trimmed(d2)),
        flagged_by_embedded(ascii_lowercase(trimmed(d1))) == flagged_by_embedded(
            ascii_lowercase(trimmed(d2)),
        ),
{
    lemma_ascii_case_insensitive(d1, d2);
}

/// Matching is tolerant of a single trailing dot, as in a fully-qualified
/// domain name (added to a domain that does not already end in white space,
/// which would separate the dot from the name, or in a dot).
pub proof fn law_lookup_ignores_trailing_dot(d: Seq<char>)
    requires
        d.len() == 0 || (!is_white_space(d.last()) && d.last() != '.'),
    ensures
        normalized(d.push('.')) == normalized(d),
        flagged_by_embedded(normalized(d.push('.'))) == flagged_by_embedded(normalized(d)),
{
    lemma_trailing_dot_trimmed(d);
}

/// A listed domain blocks each of its subdomains: if `n` is flagged, so is
/// `p.n` for any `p`.
pub proof fn law_subdomains_of_flagged_domains_are_flagged(n: Seq<char>, p: Seq<char>)
    requires
        flagged_by_embedded(n),
    ensures
        flagged_by_embedded(p + seq!['.'] + n),
{
    lemma_subdomains_inherit_matches(n, p, |s: Seq<char>| embedded_entries().contains(s));
}

/// A listed domain blocks each of its subdomains also as typed: for ASCII
/// `label` and `d`, where `d` does not begin with white space, if `d` is
/// reported as disposable, so is `label.d`.
pub proof fn law_subdomains_of_flagged_names_are_flagged(label: Seq<char>, d: Seq<char>)
    requires
        is_ascii_chars(label),
        is_ascii_chars(d),
        d.len() == 0 || !is_white_space(d[0]),
        flagged_by_embedded(ascii_lowercase(trimmed(d))),
    ensures
        is_ascii_chars(label + seq!['.'] + d),
        flagged_by_embedded(ascii_lowercase(trimmed(label + seq!['.'] + d))),
{
    lemma_raw_subdomains_inherit_matches(
        label,
        d,
        |s: Seq<char>| embedded_entries().contains(s),
    );
}

/// A bare top-level label (a domain without a dot) is never flagged.
pub proof fn law_single_labels_are_never_flagged(n: Seq<char>)
    requires
        forall|j: int| 0 <= j < n.len() ==> n[j] != '.',
    ensures
        !flagged_by_embedded(n),
{
    lemma_single_label_never_matches(n, |s: Seq<char>| embedded_entries().contains(s));
}

/// Only the final `@` separates the domain of an email address: whatever
/// precedes it, other `@` signs included, plays no part.
pub proof fn law_email_domain_follows_last_at(local: Seq<char>, d: Seq<char>)
    requires
        forall|j: int| 0 <= j < d.len() ==> d[j] != '@',
    ensures
        email_flagged_by_embedded(local + seq!['@'] + d) == (d.len() > 0 && flagged_by_embedded(
            normalized(d),
        )),
{
    lemma_email_domain_after_last_at(local, d);
}

/// Every domain of the embedded dataset is itself reported as disposable:
/// it is plain ASCII, already in canonical form, and flagged.
pub proof fn law_embedded_domains_are_flagged(k: int)
    requires
        0 <= k < embedded_entries().len(),
    ensures
        is_ascii_chars(embedded_entries()[k]),
        ascii_lowercase(trimmed(embedded_entries()[k])) == embedded_entries()[k],
        flagged_by_embedded(ascii_lowercase(trimmed(embedded_entries()[k]))),
{
    let e = embedded_entries()[k];
    lemma_embedded_clean();
    assert(is_plain_domain(e));
    lemma_last_index_of(e, '.');
    assert forall|i: int| 0 <= i < e.len() implies '\0' <= #[trigger] e[i] <= '\u{7f}' by {
        assert(is_domain_char(e[i]));
    }
    assert(!is_white_space(e[0])) by {
        assert(is_domain_char(e[0]));
    }
    assert(!is_white_space(e.last())) by {
        assert(is_domain_char(e[e.len() - 1]));
    }
    assert(strip_leading_ws(e) == e);
    assert(strip_trailing_ws(e) == e);
    assert(trimmed(e) == e);
    assert(ascii_lowercase(e) =~= e) by {
        assert forall|i: int| 0 <= i < e.len() implies #[trigger] ascii_lowercase(e)[i] == e[i] by {
            assert(is_domain_char(e[i]));
        }
    }
    assert(is_checked_start(e, 0));
    assert(suffix_at(e, 0) =~= e);
    assert(embedded_entries().contains(e));
}

/// No domain of the embedded dataset is listed twice, so `iter` yields
/// each of them exactly once.
pub proof fn law_embedded_domains_are_distinct()
    ensures
        embedded_entries().no_duplicates(),
{
    lemma_embedded_distinct();
}

/// The characters with the Unicode `White_Space` property, each named on
/// its own: tab, line feed, line and form feed, carriage return, space,
/// next line, no-break space, ogham space mark, the eleven spaces from en
/// quad to hair space, line and paragraph separators, narrow no-break
/// space, medium mathematical space and ideographic space. These are what
/// `str::trim` removes.
pub open spec fn unicode_white_space(c: char) -> bool {
    ||| c == '\t'
    ||| c == '\n'
    ||| c == '\u{b}'
    ||| c == '\u{c}'
    ||| c == '\r'
    ||| c == ' '
    ||| c == '\u{85}'
    ||| c == '\u{a0}'
    ||| c == '\u{1680}'
    ||| c == '\u{2000}'
    ||| c == '\u{2001}'
    ||| c == '\u{2002}'
    ||| c == '\u{2003}'
    ||| c == '\u{2004}'
    ||| c == '\u{2005}'
    ||| c == '\u{2006}'
    ||| c == '\u{2007}'
    ||| c == '\u{2008}'
    ||| c == '\u{2009}'
    ||| c == '\u{200a}'
    ||| c == '\u{2028}'
    ||| c == '\u{2029}'
    ||| c == '\u{202f}'
    ||| c == '\u{205f}'
    ||| c == '\u{3000}'
}

/// Lookups trim exactly the Unicode white space: a character is trimmed
/// from the ends of a domain if and only if it has that property.
pub proof fn law_trimmed_characters_are_unicode_white_space(c: char)
    ensures
        is_white_space(c) == unicode_white_space(c),
{
}

/// Runs of white space around a domain (a line feed or `\r\n` after a line
/// read from input, spaces, tabs) do not change its canonical form, nor the
/// answer of a lookup.
pub proof fn law_lookup_ignores_surrounding_white_space(w: Seq<char>, d: Seq<char>, v: Seq<char>)
    requires
        forall|i: int| 0 <= i < w.len() ==> unicode_white_space(#[trigger] w[i]),
        forall|i: int| 0 <= i < v.len() ==> unicode_white_space(#[trigger] v[i]),
    ensures
        trimmed(w + d + v) == trimmed(d),
        normalized(w + d + v) == normalized(d),
        flagged_by_embedded(normalized(w + d + v)) == flagged_by_embedded(normalized(d)),
{
    assert forall|i: int| 0 <= i < w.len() implies is_white_space(#[trigger] w[i]) by {
        assert(unicode_white_space(w[i]));
    }
    assert forall|i: int| 0 <= i < v.len() implies is_white_space(#[trigger] v[i]) by {
        assert(unicode_white_space(v[i]));
    }
    lemma_trimmed_ignores_ws_runs(w, d, v);
}

/// Only a single trailing dot is dropped: after a domain that ends in
/// neither white space nor a dot, one dot is ignored and a second one is
/// kept.
pub proof fn law_lookup_drops_a_single_trailing_dot(d: Seq<char>)
    requires
        d.len() > 0,
        !unicode_white_space(d.last()),
        d.last() != '.',
    ensures
        trimmed(d.push('.')) == trimmed(d),
        trimmed(d + seq!['.', '.']) == trimmed(d).push('.'),
{
    lemma_trailing_dot_trimmed(d);
    lemma_trimmed_keeps_second_dot(d);
}

/// A runtime blocklist also looks up only what follows the final `@` of an
/// email address.
pub proof fn law_blocklist_email_domain_follows_last_at(
    m: BlocklistModel,
    local: Seq<char>,
    d: Seq<char>,
)
    requires
        forall|j: int| 0 <= j < d.len() ==> d[j] != '@',
    ensures
        m.flags_email(local + seq!['@'] + d) == (d.len() > 0 && m.flags(normalized(d))),
{
    lemma_email_domain_after_last_at(local, d);
}

/// Input without an `@` is malformed and never disposable, for the
/// embedded dataset and for any runtime blocklist.
pub proof fn law_emails_without_at_are_not_disposable(email: Seq<char>, m: BlocklistModel)
    requires
        forall|j: int| 0 <= j < email.len() ==> email[j] != '@',
    ensures
        email_domain(email) is None,
        !email_flagged_by_embedded(email),
        !m.flags_email(email),
{
    lemma_last_index_of(email, '@');
}

/// The canonical form of a domain is the full lowercase (`str::to_lowercase`)
/// of its trimmed form, ASCII or not: domains whose trimmed forms lowercase
/// alike get the same answer everywhere, and adding one blocks the other.
pub proof fn law_canonical_form_is_full_lowercase(x: Seq<char>, y: Seq<char>, m: BlocklistModel)
    requires
        lowercase_of(trimmed(x)) == lowercase_of(trimmed(y)),
    ensures
        normalized(x) == lowercase_of(trimmed(x)),
        normalized(x) == normalized(y),
        flagged_by_embedded(normalized(x)) == flagged_by_embedded(normalized(y)),
        m.flags(normalized(x)) == m.flags(normalized(y)),
        m.with_added(normalized(x)).blocks(normalized(y)),
        !m.with_removed(normalized(x)).blocks(normalized(y)),
{
}

/// Every line of every part of the dataset is an embedded domain, and is
/// itself reported as disposable, when the dataset passes its checks:
/// nothing listed is left out.
pub proof fn law_every_dataset_line_is_embedded(p: int, i: int)
    requires
        is_clean_list(listed_entries()),
        listed_entries().len() >= MIN_LISTED,
        0 <= p < PART_COUNT,
        0 <= i < split(part_text(p), '\n').len(),
    ensures
        embedded_entries() == listed_entries(),
        embedded_entries().contains(split(part_text(p), '\n')[i]),
        flagged_by_embedded(split(part_text(p), '\n')[i]),
{
    lemma_lines_in_parts(PART_COUNT as int, p, i);
    let line = split(part_text(p), '\n')[i];
    let k = choose|k: int| 0 <= k < embedded_entries().len() && embedded_entries()[k] == line;
    law_embedded_domains_are_flagged(k);
}

/// A domain is flagged exactly when the dataset lists the domain itself or
/// one of its parent domains (what follows one of its dots), the listed
/// name holding a dot: whole labels only, never a bare top-level label.
pub proof fn law_flagged_means_a_listed_domain_or_parent(n: Seq<char>)
    ensures
        flagged_by_embedded(n) <==> exists|p: Seq<char>|
            #[trigger] embedded_entries().contains(p) && p.contains('.') && is_self_or_parent(n, p),
{
    let listed = |s: Seq<char>| embedded_entries().contains(s);
    lemma_any_parent_by_labels(n, listed);
    if exists|p: Seq<char>| #[trigger] listed(p) && p.contains('.') && is_self_or_parent(n, p) {
        let p = choose|p: Seq<char>| #[trigger] listed(p) && p.contains('.') && is_self_or_parent(n, p);
        assert(embedded_entries().contains(p));
    }
    if exists|p: Seq<char>|
        #[trigger] embedded_entries().contains(p) && p.contains('.') && is_self_or_parent(n, p) {
        let p = choose|p: Seq<char>|
            #[trigger] embedded_entries().contains(p) && p.contains('.') && is_self_or_parent(n, p);
        assert(listed(p));
    }
}

} // verus!

//! Runtime, mutable blocklist support for callers who want to merge the
//! embedded dataset with their own domains, or swap in a list of their own
//! without recompiling.
use vstd::prelude::*;
use vstd::utf8::is_ascii_chars;
use crate::embedded::{embedded_entries, lemma_embedded_distinct, EmbeddedList};
use vstd::seq_lib::seq_to_set_is_finite;
use vstd::set_lib::lemma_set_disjoint_lens;
use crate::matching::{
    any_parent, find_listed_parent, is_checked_start, lemma_raw_subdomains_inherit_matches,
    suffix_at,
};
use crate::flagged_by_embedded;
use crate::text::{
    ascii_lowercase, domain_of_email, email_domain, holds, is_white_space, last_index_of,
    lemma_last_index_of, normalize, normalized, trimmed, views, same_chars, tail_from,
};

verus! {

/// What a `Blocklist` is: the domains added at runtime and the domains
/// removed at runtime, both normalized, on top of the embedded dataset.
pub struct BlocklistModel {
    pub extra: Set<Seq<char>>,
    pub removed: Set<Seq<char>>,
}

impl BlocklistModel {
    /// The blocklist that is exactly the embedded dataset.
    pub open spec fn embedded() -> Self {
        BlocklistModel { extra: Set::empty(), removed: Set::empty() }
    }

    /// Whether the normalized domain `s` itself is blocked: it was not
    /// removed, and it was added or is in the embedded dataset.
    pub open spec fn blocks(self, s: Seq<char>) -> bool {
        !self.removed.contains(s) && (self.extra.contains(s) || embedded_entries().contains(s))
    }

    /// The blocklist after adding the normalized domain `n`: unchanged if
    /// `n` is already blocked; an embedded domain is no longer removed; any
    /// other domain is added.
    pub open spec fn with_added(self, n: Seq<char>) -> Self {
        if self.blocks(n) {
            self
        } else if embedded_entries().contains(n) {
            BlocklistModel { extra: self.extra, removed: self.removed.remove(n) }
        } else {
            BlocklistModel { extra: self.extra.insert(n), removed: self.removed.remove(n) }
        }
    }

    /// The blocklist after removing the normalized domain `n`.
    pub open spec fn with_removed(self, n: Seq<char>) -> Self {
        BlocklistModel { extra: self.extra.remove(n), removed: self.removed.insert(n) }
    }

    /// The blocklist after adding each of `ns`, in order.
    pub open spec fn with_all_added(self, ns: Seq<Seq<char>>) -> Self
        decreases ns.len(),
    {
        if ns.len() == 0 {
            self
        } else {
            self.with_all_added(ns.drop_last()).with_added(ns.last())
        }
    }

    /// The blocklist made of the normalized domains `ns` alone: every
    /// embedded domain removed, then each of `ns` added.
    pub open spec fn replaced_by(ns: Seq<Seq<char>>) -> Self {
        BlocklistModel { extra: Set::empty(), removed: embedded_entries().to_set() }.with_all_added(
            ns,
        )
    }

    /// Whether the normalized domain `n`, or one of its parent domains, is
    /// blocked.
    pub open spec fn flags(self, n: Seq<char>) -> bool {
        any_parent(n, |s: Seq<char>| self.blocks(s))
    }

    /// What `Blocklist::is_disposable_email` answers for `email`.
    pub open spec fn flags_email(self, email: Seq<char>) -> bool {
        match email_domain(email) {
            Some(d) => d.len() > 0 && self.flags(normalized(d)),
            None => false,
        }
    }

    /// The domains currently in effect: those blocked.
    pub open spec fn domains(self) -> Set<Seq<char>> {
        Set::new(|s: Seq<char>| self.blocks(s))
    }

    /// The additions are finitely many, none of them is removed, and none
    /// of them is an embedded domain.
    pub open spec fn consistent(self) -> bool {
        &&& self.extra.finite()
        &&& forall|s: Seq<char>| #[trigger] self.extra.contains(s) ==> !self.removed.contains(s)
        &&& forall|s: Seq<char>| #[trigger]
            self.extra.contains(s) ==> !embedded_entries().contains(s)
    }
}

/// A mutable, in-memory blocklist that starts from the crate's embedded
/// dataset and can be extended (or fully replaced) at runtime.
#[derive(Debug)]
pub struct Blocklist {
    embedded: EmbeddedList,
    extra: Vec<Vec<char>>,
    removed: Vec<Vec<char>>,
}

impl View for Blocklist {
    type V = BlocklistModel;

    closed spec fn view(&self) -> BlocklistModel {
        BlocklistModel { extra: views(self.extra@).to_set(), removed: views(self.removed@).to_set() }
    }
}

/// `v` without any copy of `q`, in the same order.
fn without(v: &Vec<Vec<char>>, q: &Vec<char>) -> (r: Vec<Vec<char>>)
    ensures
        forall|s: Seq<char>| views(r@).contains(s) <==> views(v@).contains(s) && s != q@,
        views(v@).no_duplicates() ==> views(r@).no_duplicates(),
{
    let mut r: Vec<Vec<char>> = Vec::new();
    let mut i: usize = 0;
    while i < v.len()
        invariant
            i <= v.len(),
            forall|j: int| 0 <= j < r.len() ==> r@[j]@ != q@,
            forall|j: int|
                0 <= j < r.len() ==> views(v@).subrange(0, i as int).contains(#[trigger] r@[j]@),
            forall|s: Seq<char>|
                views(v@).subrange(0, i as int).contains(s) && s != q@ ==> views(r@).contains(s),
            views(v@).no_duplicates() ==> views(r@).no_duplicates(),
        decreases v.len() - i,
    {
        let ghost before = r@;
        let ghost seen = views(v@).subrange(0, i as int);
        let ghost next = views(v@).subrange(0, i + 1);
        assert(next =~= seen.push(v@[i as int]@));
        if !same_chars(&v[i], q) {
            let item = v[i].clone();
            r.push(item);
            assert(views(r@) =~= views(before).push(v@[i as int]@));
            assert forall|j: int| 0 <= j < r.len() implies next.contains(#[trigger] r@[j]@) by {
                if j < before.len() {
                    assert(r@[j] == before[j]);
                    assert(seen.contains(before[j]@));
                    let k = choose|k: int| 0 <= k < seen.len() && seen[k] == before[j]@;
                    assert(next[k] == seen[k]);
                } else {
                    assert(next[i as int] == v@[i as int]@);
                }
            }
            proof {
              if views(v@).no_duplicates() {
                assert forall|a: int, b: int|
                    0 <= a < views(r@).len() && 0 <= b < views(r@).len() && a != b implies views(
                    r@,
                )[a] != views(r@)[b] by {
                    if a < before.len() && b < before.len() {
                        assert(views(r@)[a] == views(before)[a]);
                        assert(views(r@)[b] == views(before)[b]);
                    } else if a == before.len() {
                        assert(seen.contains(r@[b]@));
                        let k = choose|k: int| 0 <= k < seen.len() && seen[k] == r@[b]@;
                        assert(views(v@)[k] == seen[k]);
                        assert(views(v@)[i as int] == v@[i as int]@);
                    } else {
                        assert(seen.contains(r@[a]@));
                        let k = choose|k: int| 0 <= k < seen.len() && seen[k] == r@[a]@;
                        assert(views(v@)[k] == seen[k]);
                        assert(views(v@)[i as int] == v@[i as int]@);
                    }
                }
              }
            }
        } else {
            assert forall|j: int| 0 <= j < r.len() implies next.contains(#[trigger] r@[j]@) by {
                assert(seen.contains(r@[j]@));
                let k = choose|k: int| 0 <= k < seen.len() && seen[k] == r@[j]@;
                assert(next[k] == seen[k]);
            }
        }
        assert forall|s: Seq<char>| next.contains(s) && s != q@ implies views(r@).contains(s) by {
            let k = choose|k: int| 0 <= k < next.len() && next[k] == s;
            if k < i {
                assert(seen[k] == s);
                assert(views(before).contains(s));
                let m = choose|m: int| 0 <= m < before.len() && views(before)[m] == s;
                assert(views(r@)[m] == s);
            } else {
                assert(views(r@)[r.len() - 1] == s);
            }
        }
        i = i + 1;
    }
    assert(views(v@).subrange(0, v.len() as int) =~= views(v@));
    assert forall|s: Seq<char>| views(r@).contains(s) implies views(v@).contains(s) && s != q@ by {
        let m = choose|m: int| 0 <= m < r.len() && views(r@)[m] == s;
        assert(r@[m]@ == s);
    }
    r
}

/// Pushing `x` onto `a` adds `x` to the set of its elements.
proof fn lemma_push_to_set(a: Seq<Seq<char>>, x: Seq<char>)
    ensures
        a.push(x).to_set() == a.to_set().insert(x),
{
    assert forall|s: Seq<char>| #[trigger] a.push(x).to_set().contains(s) == a.to_set().insert(
        x,
    ).contains(s) by {
        if a.push(x).contains(s) {
            let k = choose|k: int| 0 <= k < a.push(x).len() && a.push(x)[k] == s;
            if k < a.len() {
                assert(a[k] == s);
            }
        }
        if a.contains(s) {
            let k = choose|k: int| 0 <= k < a.len() && a[k] == s;
            assert(a.push(x)[k] == s);
        }
        if s == x {
            assert(a.push(x)[a.len() as int] == x);
        }
    }
    assert(a.push(x).to_set() =~= a.to_set().insert(x));
}

/// Pushing onto a sequence without duplicates an element it lacks keeps it
/// without duplicates.
proof fn lemma_push_no_duplicates(a: Seq<Seq<char>>, x: Seq<char>)
    requires
        a.no_duplicates(),
        !a.contains(x),
    ensures
        a.push(x).no_duplicates(),
{
    assert forall|i: int, j: int|
        0 <= i < a.push(x).len() && 0 <= j < a.push(x).len() && i != j implies a.push(x)[i]
        != a.push(x)[j] by {
        if i < a.len() && j < a.len() {
        } else if i == a.len() {
            assert(a[j] == a.push(x)[j]);
        } else {
            assert(a[i] == a.push(x)[i]);
        }
    }
}

/// A copy of every vector of `v`.
fn copy_all(v: &Vec<Vec<char>>) -> (r: Vec<Vec<char>>)
    ensures
        views(r@) == views(v@),
{
    let mut r: Vec<Vec<char>> = Vec::new();
    let mut i: usize = 0;
    while i < v.len()
        invariant
            i <= v.len(),
            views(r@) == views(v@).take(i as int),
        decreases v.len() - i,
    {
        let item = tail_from(&v[i], 0);
        let ghost before = r@;
        r.push(item);
        assert(v@[i as int]@.subrange(0, v@[i as int]@.len() as int) =~= v@[i as int]@);
        assert(views(r@) =~= views(before).push(v@[i as int]@));
        assert(views(v@).take(i + 1) =~= views(v@).take(i as int).push(views(v@)[i as int]));
        i = i + 1;
    }
    assert(views(v@).take(v.len() as int) =~= views(v@));
    r
}

impl Clone for Blocklist {
    fn clone(&self) -> (r: Self)
        ensures
            r@ == self@,
            r@.consistent(),
    {
        proof {
            use_type_invariant(self);
        }
        let r = Blocklist {
            embedded: EmbeddedList::load(),
            extra: copy_all(&self.extra),
            removed: copy_all(&self.removed),
        };
        proof {
            use_type_invariant(&r);
            r.lemma_view_consistent();
        }
        r
    }
}

impl Blocklist {
    #[verifier::type_invariant]
    spec fn well_formed(self) -> bool {
        &&& self.embedded.wf()
        &&& views(self.extra@).no_duplicates()
        &&& forall|s: Seq<char>| #[trigger]
            views(self.extra@).contains(s) ==> !views(self.removed@).contains(s)
        &&& forall|s: Seq<char>| #[trigger]
            views(self.extra@).contains(s) ==> !embedded_entries().contains(s)
    }

    /// The model of a blocklist is consistent.
    proof fn lemma_view_consistent(&self)
        requires
            self.well_formed(),
        ensures
            self@.consistent(),
    {
        seq_to_set_is_finite(views(self.extra@));
    }

    /// Creates a blocklist backed by the embedded compile-time dataset,
    /// with no extra domains and nothing removed.
    pub fn from_embedded() -> (r: Self)
        ensures
            r@ == BlocklistModel::embedded(),
            r@.consistent(),
    {
        let r = Blocklist { embedded: EmbeddedList::load(), extra: Vec::new(), removed: Vec::new() };
        assert(views(r.extra@).to_set() =~= Set::<Seq<char>>::empty());
        assert(views(r.removed@).to_set() =~= Set::<Seq<char>>::empty());
        proof {
            use_type_invariant(&r);
            r.lemma_view_consistent();
        }
        r
    }

    /// Adds a domain to the blocklist. No-op if already present (whether
    /// from the embedded set or previously added); otherwise the domain is
    /// added, and is no longer removed if it was.
    pub fn add_domain(&mut self, domain: &str)
        ensures
            final(self)@ == old(self)@.with_added(normalized(domain@)),
            final(self)@.consistent(),
            is_ascii_chars(domain@) ==> normalized(domain@) == ascii_lowercase(trimmed(domain@)),
    {
        proof {
            use_type_invariant(&*self);
        }
        let n = normalize(domain);
        let ghost old_model = self@;
        if self.blocks_exactly(&n) {
            proof {
                self.lemma_view_consistent();
            }
            return;
        }
        if holds(&self.removed, &n) {
            let removed = without(&self.removed, &n);
            self.removed = removed;
        }
        let listed = self.embedded.contains(&n);
        if listed {
            assert(views(self.extra@).to_set() =~= old_model.extra);
        } else if !holds(&self.extra, &n) {
            let ghost before = self.extra@;
            let mut extra: Vec<Vec<char>> = Vec::new();
            std::mem::swap(&mut extra, &mut self.extra);
            extra.push(n);
            assert(views(extra@) =~= views(before).push(n@));
            proof {
                lemma_push_to_set(views(before), n@);
                lemma_push_no_duplicates(views(before), n@);
                assert forall|s: Seq<char>| #[trigger] views(extra@).contains(s) implies !views(
                    self.removed@,
                ).contains(s) && !embedded_entries().contains(s) by {
                    assert(views(before).push(n@).to_set().contains(s));
                }
            }
            self.extra = extra;
            assert(views(self.extra@).to_set() =~= old_model.extra.insert(n@));
        } else {
            assert(views(self.extra@).to_set() =~= old_model.extra.insert(n@));
        }
        assert(views(self.removed@).to_set() =~= old_model.removed.remove(n@));
        proof {
            use_type_invariant(&*self);
            self.lemma_view_consistent();
        }
    }

    /// Removes a domain from the blocklist, whether it came from the
    /// embedded dataset or was added at runtime.
    pub fn remove_domain(&mut self, domain: &str)
        ensures
            final(self)@ == old(self)@.with_removed(normalized(domain@)),
            final(self)@.consistent(),
            is_ascii_chars(domain@) ==> normalized(domain@) == ascii_lowercase(trimmed(domain@)),
    {
        proof {
            use_type_invariant(&*self);
        }
        let n = normalize(domain);
        let ghost old_model = self@;
        if holds(&self.extra, &n) {
            let extra = without(&self.extra, &n);
            self.extra = extra;
        }
        if !holds(&self.removed, &n) {
            let ghost before = self.removed@;
            let mut removed: Vec<Vec<char>> = Vec::new();
            std::mem::swap(&mut removed, &mut self.removed);
            removed.push(n);
            assert(views(removed@) =~= views(before).push(n@));
            proof {
                lemma_push_to_set(views(before), n@);
                assert forall|s: Seq<char>| #[trigger] views(self.extra@).contains(s) implies !views(
                    removed@,
                ).contains(s) by {
                    assert(views(before).push(n@).to_set().contains(s) == (views(before).to_set().contains(s) || s == n@));
                }
            }
            self.removed = removed;
        }
        assert(views(self.removed@).to_set() =~= old_model.removed.insert(n@));
        assert(views(self.extra@).to_set() =~= old_model.extra.remove(n@));
        proof {
            use_type_invariant(&*self);
            self.lemma_view_consistent();
        }
    }

    /// Whether the normalized domain `q` itself is blocked.
    fn blocks_exactly(&self, q: &Vec<char>) -> (r: bool)
        ensures
            r == self@.blocks(q@),
    {
        proof {
            use_type_invariant(self);
        }
        if holds(&self.removed, q) {
            false
        } else {
            holds(&self.extra, q) || self.embedded.contains(q)
        }
    }

    /// Returns `true` if `domain`, or any of its parent domains, is
    /// blocked.
    pub fn is_disposable_domain(&self, domain: &str) -> (r: bool)
        ensures
            r == self@.flags(normalized(domain@)),
            is_ascii_chars(domain@) ==> r == self@.flags(ascii_lowercase(trimmed(domain@))),
            self@.consistent(),
    {
        proof {
            use_type_invariant(self);
            self.lemma_view_consistent();
        }
        let n = normalize(domain);
        if n.len() == 0 {
            return false;
        }
        let check = |q: &Vec<char>| -> (b: bool)
            ensures
                b == self@.blocks(q@),
            { self.blocks_exactly(q) };
        find_listed_parent(&n, check, Ghost(|s: Seq<char>| self@.blocks(s)))
    }

    /// Returns `true` if `email`'s domain (or a parent domain) is blocked.
    pub fn is_disposable_email(&self, email: &str) -> (r: bool)
        ensures
            r == self@.flags_email(email@),
            self@.consistent(),
            is_ascii_chars(email@) ==> r == match email_domain(email@) {
                Some(d) => d.len() > 0 && self@.flags(ascii_lowercase(trimmed(d))),
                None => false,
            },
    {
        proof {
            use_type_invariant(self);
            self.lemma_view_consistent();
        }
        match domain_of_email(email) {
            Some(domain) => {
                proof {
                    lemma_last_index_of(email@, '@');
                    if is_ascii_chars(email@) {
                        assert forall|i: int| 0 <= i < domain@.len() implies '\0'
                            <= #[trigger] domain@[i] <= '\u{7f}' by {
                            assert(domain@[i] == email@[last_index_of(email@, '@') + 1 + i]);
                        }
                    }
                }
                if domain.is_empty() {
                    false
                } else {
                    self.is_disposable_domain(domain)
                }
            },
            None => false,
        }
    }


    /// Creates a blocklist from the given domains alone, ignoring the
    /// embedded dataset entirely: every embedded domain is removed, then
    /// each of `domains` is added in order.
    pub fn from_domains(domains: &[&str]) -> (r: Self)
        ensures
            r@ == BlocklistModel::replaced_by(domains@.map_values(|d: &str| normalized(d@))),
            r@.consistent(),
            forall|i: int|
                0 <= i < domains@.len() && is_ascii_chars(#[trigger] domains@[i]@) ==> normalized(
                    domains@[i]@,
                ) == ascii_lowercase(trimmed(domains@[i]@)),
    {
        let embedded = EmbeddedList::load();
        let count = embedded.count();
        let mut removed: Vec<Vec<char>> = Vec::new();
        let mut k: usize = 0;
        while k < count
            invariant
                embedded.wf(),
                count == embedded_entries().len(),
                k <= count,
                views(removed@) == embedded_entries().take(k as int),
            decreases count - k,
        {
            let entry = embedded.entry(k);
            let ghost before = removed@;
            removed.push(entry);
            assert(views(removed@) =~= views(before).push(embedded_entries()[k as int]));
            assert(embedded_entries().take(k + 1) =~= embedded_entries().take(k as int).push(
                embedded_entries()[k as int],
            ));
            k = k + 1;
        }
        assert(embedded_entries().take(count as int) =~= embedded_entries());
        let mut list = Blocklist { embedded, extra: Vec::new(), removed };
        let ghost ns = domains@.map_values(|d: &str| normalized(d@));
        let ghost base = BlocklistModel { extra: Set::empty(), removed: embedded_entries().to_set() };
        assert(views(list.extra@).to_set() =~= Set::<Seq<char>>::empty());
        assert(ns.take(0) =~= Seq::<Seq<char>>::empty());
        assert(list@ == base.with_all_added(ns.take(0)));
        let mut i: usize = 0;
        while i < domains.len()
            invariant
                i <= domains.len(),
                ns == domains@.map_values(|d: &str| normalized(d@)),
                list@ == base.with_all_added(ns.take(i as int)),
                forall|j: int|
                    0 <= j < i && is_ascii_chars(#[trigger] domains@[j]@) ==> normalized(
                        domains@[j]@,
                    ) == ascii_lowercase(trimmed(domains@[j]@)),
            decreases domains.len() - i,
        {
            list.add_domain(domains[i]);
            assert(ns.take(i + 1).drop_last() =~= ns.take(i as int));
            assert(ns.take(i + 1).last() == normalized(domains@[i as int]@));
            i = i + 1;
        }
        assert(ns.take(domains.len() as int) =~= ns);
        proof {
            use_type_invariant(&list);
            list.lemma_view_consistent();
        }
        list
    }

    /// Whether the runtime removals hold embedded domain `k`.
    fn removed_holds_entry(&self, k: usize) -> (r: bool)
        requires
            k < embedded_entries().len(),
        ensures
            r == self@.removed.contains(embedded_entries()[k as int]),
    {
        proof {
            use_type_invariant(self);
        }
        let mut j: usize = 0;
        while j < self.removed.len()
            invariant
                self.embedded.wf(),
                k < embedded_entries().len(),
                j <= self.removed.len(),
                forall|m: int| 0 <= m < j ==> self.removed@[m]@ != embedded_entries()[k as int],
            decreases self.removed.len() - j,
        {
            if self.embedded.entry_is(k, &self.removed[j]) {
                assert(views(self.removed@)[j as int] == embedded_entries()[k as int]);
                return true;
            }
            j = j + 1;
        }
        assert forall|m: int| 0 <= m < views(self.removed@).len() implies views(self.removed@)[m]
            != embedded_entries()[k as int] by {
            assert(views(self.removed@)[m] == self.removed@[m]@);
        }
        false
    }

    /// Total number of distinct domains currently in effect (embedded set
    /// minus removals, plus runtime additions, each domain counted once).
    pub fn len(&self) -> (r: usize)
        requires
            self@.domains().len() <= usize::MAX,
        ensures
            r == self@.domains().len(),
            self@.consistent(),
    {
        proof {
            use_type_invariant(self);
            self.lemma_view_consistent();
            lemma_domains_count(self@);
            views(self.extra@).unique_seq_to_set();
        }
        let ghost pred = |s: Seq<char>| !self@.removed.contains(s);
        let n = self.embedded.count();
        let mut kept: usize = 0;
        let mut k: usize = 0;
        proof {
            reveal_with_fuel(Seq::filter, 1);
            assert(embedded_entries().take(0) =~= Seq::<Seq<char>>::empty());
        }
        while k < n
            invariant
                self.embedded.wf(),
                n == embedded_entries().len(),
                k <= n,
                pred == (|s: Seq<char>| !self@.removed.contains(s)),
                kept == embedded_entries().take(k as int).filter(pred).len(),
                kept <= k,
            decreases n - k,
        {
            let ghost prev = embedded_entries().take(k as int);
            assert(embedded_entries().take(k + 1).drop_last() =~= prev);
            assert(embedded_entries().take(k + 1).last() == embedded_entries()[k as int]);
            proof {
                reveal_with_fuel(Seq::filter, 1);
                prev.lemma_filter_len(pred);
            }
            if !self.removed_holds_entry(k) {
                kept = kept + 1;
            }
            k = k + 1;
        }
        assert(embedded_entries().take(n as int) =~= embedded_entries());
        kept + self.extra.len()
    }

    /// Returns `true` if this blocklist currently has no domains at all.
    pub fn is_empty(&self) -> (r: bool)
        requires
            self@.domains().len() <= usize::MAX,
        ensures
            r == (self@.domains().len() == 0),
            self@.consistent(),
    {
        self.len() == 0
    }

}

/// After adding a domain, that domain is blocked, whatever was added or
/// removed before.
pub proof fn law_added_domain_is_blocked(m: BlocklistModel, n: Seq<char>)
    ensures
        m.with_added(n).blocks(n),
{
}

/// After adding a domain that has a dot, checking that domain reports it
/// as disposable.
pub proof fn law_added_domain_is_disposable(m: BlocklistModel, n: Seq<char>)
    requires
        exists|j: int| 0 <= j < n.len() && n[j] == '.',
    ensures
        m.with_added(n).flags(n),
{
    lemma_last_index_of(n, '.');
    assert(is_checked_start(n, 0));
    assert(suffix_at(n, 0) =~= n);
}

/// Adding a domain that is already blocked, whether embedded or added
/// before, changes nothing.
pub proof fn law_adding_present_domain_is_no_op(m: BlocklistModel, n: Seq<char>)
    requires
        m.blocks(n),
    ensures
        m.with_added(n) == m,
{
}

/// After removing a domain, that domain itself is no longer blocked,
/// whether it came from the embedded dataset or was added at runtime.
pub proof fn law_removed_domain_is_not_blocked(m: BlocklistModel, n: Seq<char>)
    ensures
        !m.with_removed(n).blocks(n),
{
}

/// Adding or removing one domain leaves every other domain as it was.
pub proof fn law_updates_leave_other_domains(m: BlocklistModel, n: Seq<char>, s: Seq<char>)
    requires
        s != n,
    ensures
        m.with_added(n).blocks(s) == m.blocks(s),
        m.with_removed(n).blocks(s) == m.blocks(s),
{
}

/// Adding a domain twice is the same as adding it once; likewise removing.
pub proof fn law_updates_are_idempotent(m: BlocklistModel, n: Seq<char>)
    ensures
        m.with_added(n).with_added(n) == m.with_added(n),
        m.with_removed(n).with_removed(n) == m.with_removed(n),
{
    assert(m.with_added(n).with_added(n).extra =~= m.with_added(n).extra);
    assert(m.with_added(n).with_added(n).removed =~= m.with_added(n).removed);
    assert(m.with_removed(n).with_removed(n).extra =~= m.with_removed(n).extra);
    assert(m.with_removed(n).with_removed(n).removed =~= m.with_removed(n).removed);
}

/// A blocklist backed by the embedded dataset, with nothing added or
/// removed, answers exactly as the free functions do.
pub proof fn law_embedded_blocklist_agrees(n: Seq<char>)
    ensures
        BlocklistModel::embedded().flags(n) == flagged_by_embedded(n),
{
    let m = BlocklistModel::embedded();
    assert((|s: Seq<char>| m.blocks(s)) =~= (|s: Seq<char>| embedded_entries().contains(s)));
}

/// A blocklist made from a list of domains blocks exactly those domains:
/// the embedded dataset no longer counts.
pub proof fn law_replaced_list_blocks_exactly(ns: Seq<Seq<char>>, s: Seq<char>)
    ensures
        BlocklistModel::replaced_by(ns).blocks(s) == ns.contains(s),
        BlocklistModel::replaced_by(ns).domains() == ns.to_set(),
{
    lemma_replaced_sets(ns);
    assert(BlocklistModel::replaced_by(ns).domains() =~= ns.to_set());
}

/// A blocklist made from a list of domains holds as many domains as the
/// list has distinct ones.
pub proof fn law_replaced_list_count(ns: Seq<Seq<char>>)
    ensures
        BlocklistModel::replaced_by(ns).domains().len() == ns.to_set().len(),
{
    lemma_replaced_sets(ns);
    assert(BlocklistModel::replaced_by(ns).domains() =~= ns.to_set());
}

/// Adding a domain puts exactly that domain into effect.
pub proof fn law_add_inserts_domain(m: BlocklistModel, n: Seq<char>)
    ensures
        m.with_added(n).domains() == m.domains().insert(n),
{
    assert(m.with_added(n).domains() =~= m.domains().insert(n));
}

/// Removing a domain takes exactly that domain out of effect.
pub proof fn law_remove_deletes_domain(m: BlocklistModel, n: Seq<char>)
    ensures
        m.with_removed(n).domains() == m.domains().remove(n),
{
    assert(m.with_removed(n).domains() =~= m.domains().remove(n));
}

/// Adding and removing keep a model consistent: additions stay finitely
/// many, apart from the removals and apart from the embedded dataset.
pub proof fn law_updates_keep_consistent(m: BlocklistModel, n: Seq<char>)
    requires
        m.consistent(),
    ensures
        m.with_added(n).consistent(),
        m.with_removed(n).consistent(),
{
}

/// The count of domains in effect rises by one when a domain not in
/// effect is added, and falls by one when a domain in effect is removed;
/// otherwise it stays.
pub proof fn law_updates_count_once(m: BlocklistModel, n: Seq<char>)
    requires
        m.consistent(),
    ensures
        m.domains().finite(),
        m.with_added(n).domains().len() == m.domains().len() + if m.domains().contains(n) {
            0int
        } else {
            1int
        },
        m.with_removed(n).domains().len() == m.domains().len() - if m.domains().contains(n) {
            1int
        } else {
            0int
        },
{
    lemma_domains_count(m);
    law_add_inserts_domain(m, n);
    law_remove_deletes_domain(m, n);
}

/// How lookups change with an update: after adding `n`, a domain is
/// flagged when it was before or when it is `n` or a subdomain of `n`;
/// after removing `n`, a domain is flagged when it or one of its parents is
/// blocked and is not `n`.
pub proof fn law_lookups_after_updates(m: BlocklistModel, n: Seq<char>, s: Seq<char>)
    ensures
        m.with_added(n).flags(s) == (m.flags(s) || any_parent(s, |p: Seq<char>| p == n)),
        m.with_removed(n).flags(s) == any_parent(s, |p: Seq<char>| p != n && m.blocks(p)),
{
    let added = m.with_added(n);
    let removed = m.with_removed(n);
    law_add_inserts_domain(m, n);
    law_remove_deletes_domain(m, n);
    assert forall|p: Seq<char>| #[trigger] added.blocks(p) == (m.blocks(p) || p == n) by {
        assert(added.domains().contains(p) == added.blocks(p));
        assert(m.domains().contains(p) == m.blocks(p));
    }
    assert forall|p: Seq<char>| #[trigger] removed.blocks(p) == (p != n && m.blocks(p)) by {
        assert(removed.domains().contains(p) == removed.blocks(p));
        assert(m.domains().contains(p) == m.blocks(p));
    }
    if added.flags(s) {
        let st = choose|st: int| #[trigger] is_checked_start(s, st) && added.blocks(suffix_at(s, st));
        if m.blocks(suffix_at(s, st)) {
            assert(m.flags(s));
        } else {
            assert(any_parent(s, |p: Seq<char>| p == n));
        }
    }
    if m.flags(s) {
        let st = choose|st: int| #[trigger] is_checked_start(s, st) && m.blocks(suffix_at(s, st));
        assert(added.blocks(suffix_at(s, st)));
    }
    if any_parent(s, |p: Seq<char>| p == n) {
        let st = choose|st: int| #[trigger] is_checked_start(s, st) && suffix_at(s, st) == n;
        assert(added.blocks(suffix_at(s, st)));
    }
    if removed.flags(s) {
        let st = choose|st: int|
            #[trigger] is_checked_start(s, st) && removed.blocks(suffix_at(s, st));
        assert(removed.blocks(suffix_at(s, st)));
    }
    if any_parent(s, |p: Seq<char>| p != n && m.blocks(p)) {
        let st = choose|st: int|
            #[trigger] is_checked_start(s, st) && suffix_at(s, st) != n && m.blocks(suffix_at(s, st));
        assert(removed.blocks(suffix_at(s, st)));
    }
}

/// A blocked domain blocks each of its subdomains also as typed: for ASCII
/// `label` and `d`, where `d` does not begin with white space, if the list
/// reports `d` as disposable, it reports `label.d` too.
pub proof fn law_subdomains_of_blocked_names_are_blocked(
    m: BlocklistModel,
    label: Seq<char>,
    d: Seq<char>,
)
    requires
        is_ascii_chars(label),
        is_ascii_chars(d),
        d.len() == 0 || !is_white_space(d[0]),
        m.flags(ascii_lowercase(trimmed(d))),
    ensures
        is_ascii_chars(label + seq!['.'] + d),
        m.flags(ascii_lowercase(trimmed(label + seq!['.'] + d))),
{
    lemma_raw_subdomains_inherit_matches(label, d, |p: Seq<char>| m.blocks(p));
}

proof fn lemma_filter_no_duplicates(v: Seq<Seq<char>>, p: spec_fn(Seq<char>) -> bool)
    requires
        v.no_duplicates(),
    ensures
        v.filter(p).no_duplicates(),
    decreases v.len(),
{
    reveal_with_fuel(Seq::filter, 1);
    if v.len() > 0 {
        let rest = v.drop_last();
        assert(rest.no_duplicates()) by {
            assert forall|i: int, j: int| 0 <= i < rest.len() && 0 <= j < rest.len() && i != j
                implies rest[i] != rest[j] by {
                assert(rest[i] == v[i] && rest[j] == v[j]);
            }
        }
        lemma_filter_no_duplicates(rest, p);
        if p(v.last()) {
            if rest.filter(p).contains(v.last()) {
                rest.lemma_filter_contains_rev(p, v.last());
                let k = choose|k: int| 0 <= k < rest.len() && rest[k] == v.last();
                assert(v[k] == v[v.len() - 1]);
            }
            lemma_push_no_duplicates(rest.filter(p), v.last());
        }
    }
}

/// How many domains a consistent model holds: the embedded domains not
/// removed, plus the additions.
pub proof fn lemma_domains_count(m: BlocklistModel)
    requires
        m.consistent(),
    ensures
        m.domains().finite(),
        m.domains().len() == embedded_entries().filter(|s: Seq<char>| !m.removed.contains(s)).len()
            + m.extra.len(),
{
    let p = |s: Seq<char>| !m.removed.contains(s);
    let e = embedded_entries();
    let f = e.filter(p);
    lemma_embedded_distinct();
    lemma_filter_no_duplicates(e, p);
    f.unique_seq_to_set();
    seq_to_set_is_finite(f);
    assert forall|s: Seq<char>| #[trigger] m.domains().contains(s) == (f.to_set() + m.extra).contains(
        s,
    ) by {
        if e.contains(s) && p(s) {
            let k = choose|k: int| 0 <= k < e.len() && e[k] == s;
            e.lemma_filter_contains(p, k);
        }
        if f.contains(s) {
            e.lemma_filter_contains_rev(p, s);
            let k = choose|k: int| 0 <= k < f.len() && f[k] == s;
            e.lemma_filter_pred(p, k);
        }
    }
    assert(m.domains() =~= f.to_set() + m.extra);
    assert(f.to_set().disjoint(m.extra)) by {
        assert forall|s: Seq<char>| f.to_set().contains(s) implies !m.extra.contains(s) by {
            e.lemma_filter_contains_rev(p, s);
        }
    }
    lemma_set_disjoint_lens(f.to_set(), m.extra);
}

proof fn lemma_replaced_sets(ns: Seq<Seq<char>>)
    ensures
        BlocklistModel::replaced_by(ns).extra == ns.to_set().difference(embedded_entries().to_set()),
        BlocklistModel::replaced_by(ns).removed == embedded_entries().to_set().difference(
            ns.to_set(),
        ),
    decreases ns.len(),
{
    if ns.len() == 0 {
        assert(ns.to_set() =~= Set::<Seq<char>>::empty());
        assert(ns.to_set().difference(embedded_entries().to_set()) =~= Set::<Seq<char>>::empty());
        assert(embedded_entries().to_set().difference(ns.to_set()) =~= embedded_entries().to_set());
    } else {
        lemma_replaced_sets(ns.drop_last());
        lemma_push_to_set(ns.drop_last(), ns.last());
        assert(ns.drop_last().push(ns.last()) =~= ns);
        let before = BlocklistModel::replaced_by(ns.drop_last());
        if before.blocks(ns.last()) {
            assert(ns.to_set() =~= ns.drop_last().to_set());
        }
        assert(BlocklistModel::replaced_by(ns).extra =~= ns.to_set().difference(
            embedded_entries().to_set(),
        ));
        assert(BlocklistModel::replaced_by(ns).removed =~= embedded_entries().to_set().difference(
            ns.to_set(),
        ));
    }
}

impl Default for Blocklist {
    /// The blocklist that is exactly the embedded dataset.
    fn default() -> (r: Self)
        ensures
            r@ == BlocklistModel::embedded(),
            r@.consistent(),
    {
        Blocklist::from_embedded()
    }
}

} // verus!

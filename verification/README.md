# dispocheck

Detection of disposable and temporary email domains against an embedded
dataset, written in Verus. Every function of the library carries a contract;
Verus proves them all but one: the contract of the private wrapper around
std's `str::to_lowercase` (in `src/text.rs`) is trusted. It says that the
result is a function of the input's characters and that, on ASCII input, it
is ASCII lowercasing.

- `src/lib.rs`: `is_disposable_email`, `is_disposable_domain`, `len`,
  `is_empty`, `iter`, and the laws of lookups (case, trailing dot,
  subdomains, also of names as typed, bare top-level labels, the last `@`,
  every listed domain is detected, no domain is listed twice).
- `src/runtime.rs`: `Blocklist`, a runtime-customisable list, with its
  abstract model (`BlocklistModel`) and the laws of its updates and of
  lookups after them; `len` counts the distinct domains in effect. On ASCII
  input the updates state the canonical form they store.
- `src/matching.rs`: which suffixes of a domain are looked up.
- `src/order.rs`: the character order in which the dataset is sorted.
- `src/text.rs`: trimming, lowercasing, splitting and email parsing.
- `src/embedded.rs`, `src/data.rs`: the embedded dataset and its reading.
  The dataset is checked when it is loaded (plain lowercase dotted names,
  strictly sorted, at least 1000 of them); a dataset that fails the check
  counts as empty, so the proved facts about the listed domains hold of
  what is actually used.
- `tests/`: scenario tests; `app/`: conveniences taking any iterable.

Performance: a loaded list answers a lookup with a binary search per
suffix of the domain (O(log n) each). The free functions load and check the
dataset on every call, which is O(n); callers that look up many domains
should build a `Blocklist` once and query it.

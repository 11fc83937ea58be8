use vstd::prelude::*;

use crate::errors::ResolveError;
use crate::similarity::{sim_den, sim_ge, sim_num, similarity};
use crate::text::str_eq;

verus! {

/// One catalog record: a friendly model name and the canonical repository
/// identifier it stands for.
pub struct ModelEntry {
    pub name: String,
    pub hf: String,
}

/// An in-memory mapping from friendly model names to canonical repository
/// identifiers.  Names are unique; the registry is built once from the
/// catalog and read-only thereafter.
pub struct ModelRegistry {
    entries: Vec<ModelEntry>,
}

/// Whether some entry of `s` carries the friendly name `n`.
pub open spec fn catalog_contains(s: Seq<ModelEntry>, n: Seq<char>) -> bool {
    exists|i: int| 0 <= i < s.len() && s[i].name@ == n
}

/// The canonical identifier of the last entry of `s` named `n`: a
/// duplicated name in the catalog silently overwrites an earlier one.
pub open spec fn catalog_last_hf(s: Seq<ModelEntry>, n: Seq<char>) -> Seq<char>
    decreases s.len(),
{
    if s.len() == 0 {
        Seq::empty()
    } else if s.last().name@ == n {
        s.last().hf@
    } else {
        catalog_last_hf(s.drop_last(), n)
    }
}

impl ModelRegistry {
    pub closed spec fn spec_entries(self) -> Seq<ModelEntry> {
        self.entries@
    }

    pub open spec fn spec_len(self) -> nat {
        self.spec_entries().len()
    }

    /// The friendly name of the entry at index `i`.
    pub open spec fn name_at(self, i: int) -> Seq<char> {
        self.spec_entries()[i].name@
    }

    /// The canonical identifier of the entry at index `i`.
    pub open spec fn hf_at(self, i: int) -> Seq<char> {
        self.spec_entries()[i].hf@
    }

    pub open spec fn contains_name(self, n: Seq<char>) -> bool {
        exists|i: int| 0 <= i < self.spec_len() && self.name_at(i) == n
    }

    pub open spec fn index_of(self, n: Seq<char>) -> int {
        choose|i: int| 0 <= i < self.spec_len() && self.name_at(i) == n
    }

    /// The canonical identifier registered under the name `n`.
    pub open spec fn spec_lookup(self, n: Seq<char>) -> Seq<char> {
        self.hf_at(self.index_of(n))
    }

    /// Well-formedness: friendly names are pairwise distinct.
    pub open spec fn wf(self) -> bool {
        forall|i: int, j: int|
            0 <= i < j < self.spec_len() ==> self.name_at(i) != self.name_at(j)
    }

    /// With unique names, looking up the name of entry `i` lands on `i`.
    pub proof fn lemma_lookup_at(self, i: int)
        requires
            self.wf(),
            0 <= i < self.spec_len(),
        ensures
            self.contains_name(self.name_at(i)),
            self.index_of(self.name_at(i)) == i,
            self.spec_lookup(self.name_at(i)) == self.hf_at(i),
    {
        assert(self.contains_name(self.name_at(i)));
        let j = self.index_of(self.name_at(i));
        if j < i {
            assert(self.name_at(j) != self.name_at(i));
        } else if j > i {
            assert(self.name_at(i) != self.name_at(j));
        }
    }

    pub fn len(&self) -> (n: usize)
        ensures
            n == self.spec_len(),
    {
        self.entries.len()
    }

    pub fn is_empty(&self) -> (r: bool)
        ensures
            r == (self.spec_len() == 0),
    {
        self.entries.len() == 0
    }

    /// The friendly names, in registry order.
    pub fn names(&self) -> (r: Vec<String>)
        ensures
            r@.len() == self.spec_len(),
            forall|k: int| 0 <= k < r@.len() ==> r@[k]@ == self.name_at(k),
    {
        let mut out: Vec<String> = Vec::new();
        let mut i: usize = 0;
        while i < self.entries.len()
            invariant
                i <= self.spec_len(),
                out@.len() == i,
                forall|k: int| 0 <= k < i ==> out@[k]@ == self.name_at(k),
            decreases self.spec_len() - i,
        {
            out.push(self.entries[i].name.clone());
            i += 1;
        }
        out
    }

    /// Index of the entry named `name`, if any.
    fn find_index(&self, name: &str) -> (r: Option<usize>)
        ensures
            match r {
                Some(i) => i < self.spec_len() && self.name_at(i as int) == name@,
                None => !self.contains_name(name@),
            },
    {
        let mut i: usize = 0;
        while i < self.entries.len()
            invariant
                i <= self.spec_len(),
                forall|k: int| 0 <= k < i ==> self.name_at(k) != name@,
            decreases self.spec_len() - i,
        {
            if str_eq(self.entries[i].name.as_str(), name) {
                return Some(i);
            }
            i += 1;
        }
        None
    }

    /// Builds the registry from the catalog's entries.  A duplicated
    /// friendly name silently overwrites the earlier entry, so the last
    /// record with a given name wins, as `catalog_last_hf` states.
    pub fn from_entries(entries: Vec<ModelEntry>) -> (r: ModelRegistry)
        ensures
            r.wf(),
            r.spec_len() <= entries@.len(),
            entries@.len() > 0 ==> r.spec_len() > 0,
            forall|n: Seq<char>| #[trigger] r.contains_name(n) == catalog_contains(entries@, n),
            forall|n: Seq<char>|
                #[trigger] catalog_contains(entries@, n) ==> r.spec_lookup(n) == catalog_last_hf(
                    entries@,
                    n,
                ),
    {
        let ghost orig = entries@;
        let mut rest = entries;
        let mut reg = ModelRegistry { entries: Vec::new() };
        let ghost mut done: int = 0;
        while rest.len() > 0
            invariant
                0 <= done <= orig.len(),
                rest@ == orig.subrange(done, orig.len() as int),
                reg.spec_len() <= done,
                done > 0 ==> reg.spec_len() > 0,
                reg.wf(),
                forall|n: Seq<char>| #[trigger] reg.contains_name(n) == catalog_contains(
                    orig.subrange(0, done),
                    n,
                ),
                forall|n: Seq<char>|
                    #[trigger] catalog_contains(orig.subrange(0, done), n)
                        ==> reg.spec_lookup(n) == catalog_last_hf(orig.subrange(0, done), n),
            decreases rest@.len(),
        {
            let ghost pre = reg;
            let e = rest.remove(0);
            proof {
                assert(e == orig[done]);
                assert(rest@ =~= orig.subrange(done + 1, orig.len() as int));
            }
            let dup = reg.find_index(e.name.as_str());
            match dup {
                Some(j) => {
                    reg.entries[j] = e;
                },
                None => {
                    reg.entries.push(e);
                },
            }
            proof {
                let prefix = orig.subrange(0, done);
                let prefix1 = orig.subrange(0, done + 1);
                assert(prefix1.drop_last() =~= prefix);
                assert(prefix1.last() == orig[done]);
                let ename = orig[done].name@;
                // the mutated registry relates to `pre` index by index
                match dup {
                    Some(j) => {
                        assert(reg.spec_entries() == pre.spec_entries().update(
                            j as int,
                            orig[done],
                        ));
                        assert(pre.name_at(j as int) == ename);
                        assert(reg.name_at(j as int) == ename);
                        assert(forall|k: int|
                            0 <= k < reg.spec_len() && k != j ==> reg.name_at(k)
                                == pre.name_at(k) && reg.hf_at(k) == pre.hf_at(k));
                    },
                    None => {
                        assert(reg.spec_entries() == pre.spec_entries().push(orig[done]));
                        assert(reg.name_at(reg.spec_len() - 1) == ename);
                        assert(forall|k: int|
                            0 <= k < pre.spec_len() ==> reg.name_at(k) == pre.name_at(k)
                                && reg.hf_at(k) == pre.hf_at(k));
                    },
                }
                // well-formedness is preserved
                assert forall|a: int, b: int|
                    0 <= a < b < reg.spec_len() implies reg.name_at(a) != reg.name_at(b) by {
                    match dup {
                        Some(j) => {
                            if a == j {
                                assert(pre.name_at(j as int) != pre.name_at(b));
                            } else if b == j {
                                assert(pre.name_at(a) != pre.name_at(j as int));
                            } else {
                                assert(pre.name_at(a) != pre.name_at(b));
                            }
                        },
                        None => {
                            if b == reg.spec_len() - 1 {
                                assert(pre.name_at(a) == reg.name_at(a));
                                if reg.name_at(a) == ename {
                                    assert(pre.contains_name(ename));
                                    assert(false);
                                }
                            } else {
                                assert(pre.name_at(a) != pre.name_at(b));
                            }
                        },
                    }
                }
                // names now present: those of the old prefix plus `ename`
                assert forall|n: Seq<char>| #[trigger] reg.contains_name(n) implies
                    catalog_contains(prefix1, n) by {
                    let w = choose|w: int| 0 <= w < reg.spec_len() && reg.name_at(w) == n;
                    if n == ename {
                        assert(prefix1[done].name@ == n);
                        assert(catalog_contains(prefix1, n));
                    } else {
                        assert(pre.name_at(w) == n);
                        assert(pre.contains_name(n));
                        assert(catalog_contains(prefix, n));
                        let v = choose|v: int| 0 <= v < prefix.len() && prefix[v].name@ == n;
                        assert(prefix1[v].name@ == n);
                        assert(catalog_contains(prefix1, n));
                    }
                }
                assert forall|n: Seq<char>| #[trigger] catalog_contains(prefix1, n) implies
                    reg.contains_name(n) by {
                    let w = choose|w: int| 0 <= w < prefix1.len() && prefix1[w].name@ == n;
                    if n == ename {
                        match dup {
                            Some(j) => {
                                assert(reg.name_at(j as int) == n);
                            },
                            None => {
                                assert(reg.name_at(reg.spec_len() - 1) == n);
                            },
                        }
                        assert(reg.contains_name(n));
                    } else {
                        assert(w < done);
                        assert(prefix[w].name@ == n);
                        assert(catalog_contains(prefix, n));
                        assert(pre.contains_name(n));
                        let v = choose|v: int| 0 <= v < pre.spec_len() && pre.name_at(v) == n;
                        assert(reg.name_at(v) == n);
                        assert(reg.contains_name(n));
                    }
                }
                // looked-up identifiers match the catalog, last record winning
                assert forall|n: Seq<char>| #[trigger] catalog_contains(prefix1, n) implies
                    reg.spec_lookup(n) == catalog_last_hf(prefix1, n) by {
                    if n == ename {
                        match dup {
                            Some(j) => {
                                assert(reg.name_at(j as int) == n);
                                reg.lemma_lookup_at(j as int);
                                assert(reg.hf_at(j as int) == orig[done].hf@);
                            },
                            None => {
                                let last = reg.spec_len() - 1;
                                assert(reg.name_at(last) == n);
                                reg.lemma_lookup_at(last);
                                assert(reg.hf_at(last) == orig[done].hf@);
                            },
                        }
                        assert(catalog_last_hf(prefix1, n) == orig[done].hf@);
                    } else {
                        assert(catalog_last_hf(prefix1, n) == catalog_last_hf(prefix, n));
                        let w = choose|w: int| 0 <= w < prefix1.len() && prefix1[w].name@ == n;
                        assert(w < done);
                        assert(prefix[w].name@ == n);
                        assert(catalog_contains(prefix, n));
                        assert(pre.contains_name(n));
                        let v = choose|v: int| 0 <= v < pre.spec_len() && pre.name_at(v) == n;
                        pre.lemma_lookup_at(v);
                        match dup {
                            Some(j) => {
                                assert(v != j);
                            },
                            None => {},
                        }
                        assert(reg.name_at(v) == n);
                        reg.lemma_lookup_at(v);
                        assert(reg.hf_at(v) == pre.hf_at(v));
                        assert(pre.spec_lookup(n) == catalog_last_hf(prefix, n));
                    }
                }
                done = done + 1;
            }
        }
        proof {
            assert(orig.subrange(0, done) =~= orig);
        }
        reg
    }
}

/// Suggests the registered friendly name most similar to `input_name`:
/// the entry with the greatest normalized Damerau-Levenshtein similarity,
/// the earliest such entry winning a tie.  `None` only when the registry
/// is empty.
pub fn model_name_suggestion(registry: &ModelRegistry, input_name: &str) -> (r: Option<String>)
    ensures
        (registry.spec_len() == 0) <==> r is None,
        match r {
            Some(s) => exists|i: int|
                #[trigger] is_first_best(*registry, input_name@, i) && registry.name_at(i)
                    == s@,
            None => true,
        },
        registry.contains_name(input_name@) ==> match r {
            Some(s) => s@ == input_name@,
            None => false,
        },
{
    let n = registry.entries.len();
    if n == 0 {
        return None;
    }
    let first = similarity(registry.entries[0].name.as_str(), input_name);
    let mut best_num = first.0;
    let mut best_den = first.1;
    let mut best: usize = 0;
    let mut i: usize = 1;
    while i < n
        invariant
            n == registry.spec_len(),
            0 < n,
            best < i <= n,
            best_num as int == sim_num(registry.name_at(best as int), input_name@),
            best_den as int == sim_den(registry.name_at(best as int), input_name@),
            forall|k: int|
                0 <= k < i ==> #[trigger] sim_ge(
                    registry.name_at(best as int),
                    input_name@,
                    registry.name_at(k),
                    input_name@,
                ),
            forall|k: int|
                0 <= k < best ==> !#[trigger] sim_ge(
                    registry.name_at(k),
                    input_name@,
                    registry.name_at(best as int),
                    input_name@,
                ),
            forall|k: int|
                0 <= k < i && registry.name_at(k) == input_name@ ==> #[trigger] sim_num(
                    registry.name_at(k),
                    input_name@,
                ) == sim_den(registry.name_at(k), input_name@),
            forall|k: int|
                0 <= k < i && registry.name_at(k) != input_name@ ==> #[trigger] sim_num(
                    registry.name_at(k),
                    input_name@,
                ) < sim_den(registry.name_at(k), input_name@),
        decreases n - i,
    {
        let cand = similarity(registry.entries[i].name.as_str(), input_name);
        proof {
            lemma_u128_product_exact(cand.0, best_den);
            lemma_u128_product_exact(best_num, cand.1);
        }
        let strictly_better = (cand.0 as u128) * (best_den as u128) > (best_num as u128) * (
        cand.1 as u128);
        if strictly_better {
            proof {
                let old_best = best as int;
                assert(sim_num(registry.name_at(i as int), input_name@) * sim_den(
                    registry.name_at(old_best),
                    input_name@,
                ) > sim_num(registry.name_at(old_best), input_name@) * sim_den(
                    registry.name_at(i as int),
                    input_name@,
                ));
                assert forall|k: int|
                    0 <= k < i implies !sim_ge(
                    registry.name_at(k),
                    input_name@,
                    registry.name_at(i as int),
                    input_name@,
                ) by {
                    assert(sim_ge(
                        registry.name_at(old_best),
                        input_name@,
                        registry.name_at(k),
                        input_name@,
                    ));
                    lemma_frac_lt_of_le_lt(
                        sim_num(registry.name_at(k), input_name@),
                        sim_den(registry.name_at(k), input_name@),
                        sim_num(registry.name_at(old_best), input_name@),
                        sim_den(registry.name_at(old_best), input_name@),
                        sim_num(registry.name_at(i as int), input_name@),
                        sim_den(registry.name_at(i as int), input_name@),
                    );
                }
            }
            best = i;
            best_num = cand.0;
            best_den = cand.1;
            proof {
                assert forall|k: int|
                    0 <= k < i + 1 implies sim_ge(
                    registry.name_at(best as int),
                    input_name@,
                    registry.name_at(k),
                    input_name@,
                ) by {
                    if k < i {
                        assert(!sim_ge(
                            registry.name_at(k),
                            input_name@,
                            registry.name_at(best as int),
                            input_name@,
                        ));
                    }
                }
            }
        } else {
            proof {
                assert(sim_ge(
                    registry.name_at(best as int),
                    input_name@,
                    registry.name_at(i as int),
                    input_name@,
                ));
            }
        }
        i += 1;
    }
    proof {
        assert(is_first_best(*registry, input_name@, best as int));
        // the exact key wins: a registered input name scores the maximum,
        // which no other name reaches
        if registry.contains_name(input_name@) {
            let idx = choose|j: int|
                0 <= j < registry.spec_len() && registry.name_at(j) == input_name@;
            if registry.name_at(best as int) != input_name@ {
                let nb = sim_num(registry.name_at(best as int), input_name@);
                let db = sim_den(registry.name_at(best as int), input_name@);
                let ni = sim_num(registry.name_at(idx), input_name@);
                let di = sim_den(registry.name_at(idx), input_name@);
                assert(sim_ge(
                    registry.name_at(best as int),
                    input_name@,
                    registry.name_at(idx),
                    input_name@,
                ));
                assert(nb * di >= ni * db);
                assert(ni == di);
                assert(ni * db == db * di) by (nonlinear_arith)
                    requires
                        ni == di,
                ;
                lemma_cross_div(nb, db, di);
                assert(nb < db);
                assert(false);
            }
        }
    }
    Some(registry.entries[best].name.clone())
}

/// `i` is the index of the first entry achieving the maximal similarity
/// to `input` over the whole registry.
pub open spec fn is_first_best(reg: ModelRegistry, input: Seq<char>, i: int) -> bool {
    &&& 0 <= i < reg.spec_len()
    &&& forall|k: int|
        0 <= k < reg.spec_len() ==> #[trigger] sim_ge(
            reg.name_at(i),
            input,
            reg.name_at(k),
            input,
        )
    &&& forall|k: int|
        0 <= k < i ==> !#[trigger] sim_ge(reg.name_at(k), input, reg.name_at(i), input)
}

/// Cross-multiplied fractions with positive denominators: `a/b <= c/d`
/// and `c/d < e/f` give `a/b < e/f`.
proof fn lemma_frac_lt_of_le_lt(a: int, b: int, c: int, d: int, e: int, f: int)
    by (nonlinear_arith)
    requires
        b > 0,
        d > 0,
        f > 0,
        c * b >= a * d,
        e * d > c * f,
    ensures
        !(a * f >= e * b),
{
}

/// Cross-multiplied fractions with a positive common factor: from
/// `a * d >= b * d` and `d > 0` follows `a >= b`.
proof fn lemma_cross_div(a: int, b: int, d: int)
    by (nonlinear_arith)
    requires
        d > 0,
        a * d >= b * d,
    ensures
        a >= b,
{
}

/// The product of two `usize` values fits in `u128` and is exact.
proof fn lemma_u128_product_exact(x: usize, y: usize)
    by (nonlinear_arith)
    ensures
        (x as u128) * (y as u128) == (x as int) * (y as int),
        (x as int) * (y as int) <= u128::MAX,
{
}

/// Resolves a requested model name to its canonical repository identifier.
///
/// An empty registry is rejected before any lookup.  A name present in the
/// registry resolves to exactly its registered identifier.  An absent name
/// fails, carrying the requested name and the most similar registered name
/// as a suggestion.
pub fn get_repo_id(model_name: &str, registry: &ModelRegistry) -> (r: Result<
    String,
    ResolveError,
>)
    requires
        registry.wf(),
    ensures
        registry.spec_len() == 0 ==> r == Result::<String, ResolveError>::Err(
            ResolveError::EmptyCatalog,
        ),
        registry.spec_len() > 0 && registry.contains_name(model_name@) ==> match r {
            Ok(id) => id@ == registry.spec_lookup(model_name@),
            Err(_) => false,
        },
        registry.spec_len() > 0 && !registry.contains_name(model_name@) ==> match r {
            Ok(_) => false,
            Err(e) => match e {
                ResolveError::NoMatchingModel { requested, suggestion } => {
                    &&& requested@ == model_name@
                    &&& match suggestion {
                        Some(s) => exists|i: int|
                            #[trigger] is_first_best(*registry, model_name@, i)
                                && registry.name_at(i) == s@,
                        None => false,
                    }
                },
                _ => false,
            },
        },
{
    if registry.is_empty() {
        return Err(ResolveError::EmptyCatalog);
    }
    match registry.find_index(model_name) {
        Some(i) => {
            proof {
                registry.lemma_lookup_at(i as int);
            }
            Ok(registry.entries[i].hf.clone())
        },
        None => {
            let suggestion = model_name_suggestion(registry, model_name);
            Err(
                ResolveError::NoMatchingModel {
                    requested: model_name.to_owned(),
                    suggestion,
                },
            )
        },
    }
}

} // verus!

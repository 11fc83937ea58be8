use vstd::prelude::*;

use crate::models::ModelRegistry;

verus! {

/// Lexicographic order on character sequences, by code point, a prefix
/// ordering before anything it is a prefix of.  This is the order of
/// Rust's `str` comparison: UTF-8 byte order coincides with code-point
/// order.
pub open spec fn lex_le(a: Seq<char>, b: Seq<char>) -> bool
    decreases a.len(),
{
    if a.len() == 0 {
        true
    } else if b.len() == 0 {
        false
    } else if (a[0] as u32) != (b[0] as u32) {
        (a[0] as u32) < (b[0] as u32)
    } else {
        lex_le(a.drop_first(), b.drop_first())
    }
}

/// Equal prefixes do not affect the order: it is decided from index `i` on.
proof fn lemma_lex_le_skip(a: Seq<char>, b: Seq<char>, i: int)
    requires
        0 <= i <= a.len(),
        i <= b.len(),
        forall|k: int| 0 <= k < i ==> (a[k] as u32) == (b[k] as u32),
    ensures
        lex_le(a, b) == lex_le(a.skip(i), b.skip(i)),
    decreases i,
{
    if i == 0 {
        assert(a.skip(0) =~= a);
        assert(b.skip(0) =~= b);
    } else {
        assert((a[0] as u32) == (b[0] as u32));
        assert forall|k: int|
            0 <= k < i - 1 implies (a.drop_first()[k] as u32) == (b.drop_first()[k] as u32) by {
            assert((a[k + 1] as u32) == (b[k + 1] as u32));
        }
        lemma_lex_le_skip(a.drop_first(), b.drop_first(), i - 1);
        assert(a.drop_first().skip(i - 1) =~= a.skip(i));
        assert(b.drop_first().skip(i - 1) =~= b.skip(i));
    }
}

/// The order is total: one of the two directions always holds.
pub proof fn lemma_lex_le_total(a: Seq<char>, b: Seq<char>)
    ensures
        lex_le(a, b) || lex_le(b, a),
    decreases a.len(),
{
    if a.len() > 0 && b.len() > 0 && (a[0] as u32) == (b[0] as u32) {
        lemma_lex_le_total(a.drop_first(), b.drop_first());
    }
}

/// The order is transitive.
pub proof fn lemma_lex_le_trans(a: Seq<char>, b: Seq<char>, c: Seq<char>)
    requires
        lex_le(a, b),
        lex_le(b, c),
    ensures
        lex_le(a, c),
    decreases a.len(),
{
    if a.len() > 0 {
        assert(b.len() > 0);
        assert(c.len() > 0);
        if (a[0] as u32) == (b[0] as u32) && (b[0] as u32) == (c[0] as u32) {
            lemma_lex_le_trans(a.drop_first(), b.drop_first(), c.drop_first());
        }
    }
}

/// Whether one string is lexicographically at most another, proved
/// against the order on their character views.
pub fn str_le(a: &str, b: &str) -> (r: bool)
    ensures
        r == lex_le(a@, b@),
{
    let la = a.unicode_len();
    let lb = b.unicode_len();
    let shorter = if la < lb {
        la
    } else {
        lb
    };
    let mut i: usize = 0;
    while i < shorter
        invariant
            i <= shorter,
            la == a@.len(),
            lb == b@.len(),
            shorter == if la < lb {
                la
            } else {
                lb
            },
            forall|k: int| 0 <= k < i ==> (a@[k] as u32) == (b@[k] as u32),
        decreases shorter - i,
    {
        let ca = a.get_char(i) as u32;
        let cb = b.get_char(i) as u32;
        if ca != cb {
            proof {
                lemma_lex_le_skip(a@, b@, i as int);
            }
            return ca < cb;
        }
        i += 1;
    }
    proof {
        lemma_lex_le_skip(a@, b@, shorter as int);
    }
    la <= lb
}

/// Whether some string of the list reads `n`.
pub open spec fn lists_name(s: Seq<String>, n: Seq<char>) -> bool {
    exists|j: int| 0 <= j < s.len() && s[j]@ == n
}

/// The list of names is sorted by the lexicographic order on their views.
pub open spec fn names_sorted(s: Seq<String>) -> bool {
    forall|x: int, y: int| 0 <= x < y < s.len() ==> lex_le(#[trigger] s[x]@, #[trigger] s[y]@)
}

/// The registry's friendly names, sorted lexicographically: the option
/// list an interactive chooser presents.  Exactly the registered names,
/// each once.
pub fn sorted_model_names(registry: &ModelRegistry) -> (r: Vec<String>)
    requires
        registry.wf(),
    ensures
        r@.len() == registry.spec_len(),
        names_sorted(r@),
        forall|j: int| 0 <= j < r@.len() ==> registry.contains_name(#[trigger] r@[j]@),
        forall|k: int|
            0 <= k < registry.spec_len() ==> lists_name(r@, #[trigger] registry.name_at(k)),
        forall|x: int, y: int| 0 <= x < y < r@.len() ==> r@[x]@ != r@[y]@,
{
    let names = registry.names();
    let n = names.len();
    let mut out: Vec<String> = Vec::new();
    // which registry entry each listed name came from, and where each
    // processed entry's name now stands
    let ghost mut src: Seq<int> = Seq::empty();
    let ghost mut loc: Seq<int> = Seq::empty();
    let mut i: usize = 0;
    while i < n
        invariant
            i <= n,
            n == registry.spec_len(),
            registry.wf(),
            names@.len() == n,
            forall|k: int| 0 <= k < n ==> names@[k]@ == registry.name_at(k),
            out@.len() == i,
            names_sorted(out@),
            src.len() == i,
            loc.len() == i,
            forall|j: int|
                0 <= j < out@.len() ==> 0 <= #[trigger] src[j] < i && out@[j]@
                    == registry.name_at(src[j]),
            forall|k: int|
                0 <= k < i ==> 0 <= #[trigger] loc[k] < out@.len() && out@[loc[k]]@
                    == registry.name_at(k),
            forall|x: int, y: int| 0 <= x < y < src.len() ==> src[x] != src[y],
        decreases n - i,
    {
        let name = names[i].clone();
        let mut pos: usize = 0;
        while pos < out.len() && str_le(out[pos].as_str(), name.as_str())
            invariant
                pos <= out@.len(),
                forall|k: int| 0 <= k < pos ==> lex_le(#[trigger] out@[k]@, name@),
            decreases out@.len() - pos,
        {
            pos += 1;
        }
        proof {
            if pos < out@.len() {
                lemma_lex_le_total(out@[pos as int]@, name@);
                assert(lex_le(name@, out@[pos as int]@));
            }
        }
        let ghost old_out = out@;
        let ghost old_src = src;
        let ghost old_loc = loc;
        out.insert(pos, name);
        proof {
            old_out.insert_ensures(pos as int, name);
            lemma_insert_sorted(old_out, out@, name, pos as int);
            src = old_src.insert(pos as int, i as int);
            old_src.insert_ensures(pos as int, i as int);
            loc = Seq::new(
                (i + 1) as nat,
                |k: int|
                    if k == i {
                        pos as int
                    } else if old_loc[k] < pos {
                        old_loc[k]
                    } else {
                        old_loc[k] + 1
                    },
            );
            assert forall|j: int|
                0 <= j < out@.len() implies 0 <= #[trigger] src[j] < i + 1 && out@[j]@
                    == registry.name_at(src[j]) by {
                if j < pos {
                    assert(out@[j] == old_out[j]);
                    assert(src[j] == old_src[j]);
                } else if j == pos {
                    assert(out@[j] == name);
                    assert(src[j] == i);
                } else {
                    assert(out@[j] == old_out[j - 1]);
                    assert(src[j] == old_src[j - 1]);
                }
            }
            assert forall|x: int, y: int|
                0 <= x < y < src.len() implies src[x] != src[y] by {
                let x0: int = if x < pos {
                    x
                } else {
                    x - 1
                };
                let y0: int = if y < pos {
                    y
                } else {
                    y - 1
                };
                if x == pos {
                    assert(src[x] == i);
                    assert(src[y] == old_src[y0]);
                    assert(old_src[y0] < i);
                } else if y == pos {
                    assert(src[y] == i);
                    assert(src[x] == old_src[x0]);
                    assert(old_src[x0] < i);
                } else {
                    assert(src[x] == old_src[x0]);
                    assert(src[y] == old_src[y0]);
                    assert(old_src[x0] != old_src[y0]);
                }
            }
            assert forall|k: int|
                0 <= k < i + 1 implies 0 <= #[trigger] loc[k] < out@.len() && out@[loc[k]]@
                    == registry.name_at(k) by {
                if k == i {
                    assert(loc[k] == pos);
                    assert(out@[pos as int] == name);
                } else {
                    assert(0 <= old_loc[k] < old_out.len());
                    assert(old_out[old_loc[k]]@ == registry.name_at(k));
                    if old_loc[k] < pos {
                        assert(out@[loc[k]] == old_out[old_loc[k]]);
                    } else {
                        assert(loc[k] == old_loc[k] + 1);
                        assert(out@[loc[k]] == old_out[old_loc[k]]);
                    }
                }
            }
        }
        i += 1;
    }
    proof {
        assert forall|j: int| 0 <= j < out@.len() implies registry.contains_name(
            #[trigger] out@[j]@,
        ) by {
            assert(out@[j]@ == registry.name_at(src[j]));
        }
        assert forall|k: int|
            0 <= k < registry.spec_len() implies lists_name(
            out@,
            #[trigger] registry.name_at(k),
        ) by {
            assert(0 <= loc[k] < out@.len() && out@[loc[k]]@ == registry.name_at(k));
        }
        assert forall|x: int, y: int|
            0 <= x < y < out@.len() implies out@[x]@ != out@[y]@ by {
            assert(out@[x]@ == registry.name_at(src[x]));
            assert(out@[y]@ == registry.name_at(src[y]));
            assert(src[x] != src[y]);
            if src[x] < src[y] {
                assert(registry.name_at(src[x]) != registry.name_at(src[y]));
            } else {
                assert(registry.name_at(src[y]) != registry.name_at(src[x]));
            }
        }
    }
    out
}

/// Inserting a name at its position keeps the list sorted.
proof fn lemma_insert_sorted(old_out: Seq<String>, new_out: Seq<String>, name: String, pos: int)
    requires
        0 <= pos <= old_out.len(),
        new_out == old_out.insert(pos, name),
        names_sorted(old_out),
        forall|k: int| 0 <= k < pos ==> lex_le(#[trigger] old_out[k]@, name@),
        pos < old_out.len() ==> lex_le(name@, old_out[pos]@),
    ensures
        names_sorted(new_out),
{
    old_out.insert_ensures(pos, name);
    assert forall|x: int, y: int|
        0 <= x < y < new_out.len() implies lex_le(new_out[x]@, new_out[y]@) by {
        if y < pos {
            assert(new_out[x] == old_out[x]);
            assert(new_out[y] == old_out[y]);
        } else if x < pos && y == pos {
            assert(new_out[x] == old_out[x]);
            assert(lex_le(old_out[x]@, name@));
        } else if x < pos && y > pos {
            assert(new_out[x] == old_out[x]);
            assert(new_out[y] == old_out[y - 1]);
            assert(lex_le(old_out[x]@, old_out[y - 1]@));
        } else if x == pos {
            assert(new_out[y] == old_out[y - 1]);
            assert(lex_le(name@, old_out[pos]@));
            if y == pos + 1 {
                assert(new_out[y] == old_out[pos]);
            } else {
                assert(lex_le(old_out[pos]@, old_out[y - 1]@));
                lemma_lex_le_trans(name@, old_out[pos]@, old_out[y - 1]@);
            }
        } else {
            assert(new_out[x] == old_out[x - 1]);
            assert(new_out[y] == old_out[y - 1]);
            assert(lex_le(old_out[x - 1]@, old_out[y - 1]@));
        }
    }
}

} // verus!

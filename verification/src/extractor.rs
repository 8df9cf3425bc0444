//! The dependency extractor: canonicalizes the names handed over by the
//! build-graph reader into a deduplicated working set in ascending
//! code-point order, so that every run of the audit walks the registry in
//! the same order whatever order the reader produced.

use vstd::prelude::*;
use vstd::string::StrSliceExecFns;

verus! {

/// Strict lexicographic order on names by code point: the empty name
/// comes first, a proper prefix precedes its extensions, and otherwise
/// the first differing character decides.
pub open spec fn lex_lt(a: Seq<char>, b: Seq<char>) -> bool
    decreases a.len(),
{
    if b.len() == 0 {
        false
    } else if a.len() == 0 {
        true
    } else if a[0] != b[0] {
        (a[0] as u32) < (b[0] as u32)
    } else {
        lex_lt(a.skip(1), b.skip(1))
    }
}

/// The views of a sequence of owned names.
pub open spec fn views_of(s: Seq<String>) -> Seq<Seq<char>> {
    s.map_values(|x: String| x@)
}

/// Strictly ascending in code-point order; in particular, free of
/// duplicates.
pub open spec fn strictly_sorted(s: Seq<Seq<char>>) -> bool {
    forall|i: int, j: int| 0 <= i < j < s.len() ==> lex_lt(s[i], s[j])
}

/// No name precedes itself.
pub proof fn lemma_lex_irreflexive(a: Seq<char>)
    ensures
        !lex_lt(a, a),
    decreases a.len(),
{
    if a.len() > 0 {
        lemma_lex_irreflexive(a.skip(1));
    }
}

/// The order is transitive.
pub proof fn lemma_lex_transitive(a: Seq<char>, b: Seq<char>, c: Seq<char>)
    requires
        lex_lt(a, b),
        lex_lt(b, c),
    ensures
        lex_lt(a, c),
    decreases a.len() + b.len() + c.len(),
{
    if c.len() == 0 {
        // lex_lt(b, c) is false: nothing precedes the least elements
    } else if a.len() == 0 {
        // lex_lt(a, c) holds outright
    } else {
        // a and b are nonempty (lex_lt(a, b) with a nonempty forces b nonempty)
        if a[0] != b[0] {
            if b[0] != c[0] {
                assert(a[0] != c[0]);
            }
        } else {
            if b[0] == c[0] {
                lemma_lex_transitive(a.skip(1), b.skip(1), c.skip(1));
            }
        }
    }
}

/// Comparing two names that agree on their first `i` characters comes
/// down to comparing what follows.
proof fn lemma_lex_skip_common_prefix(a: Seq<char>, b: Seq<char>, i: int)
    requires
        0 <= i <= a.len(),
        i <= b.len(),
        forall|j: int| 0 <= j < i ==> a[j] == b[j],
    ensures
        lex_lt(a, b) == lex_lt(a.skip(i), b.skip(i)),
    decreases i,
{
    if i > 0 {
        assert(a[0] == b[0]);
        lemma_lex_skip_common_prefix(a.skip(1), b.skip(1), i - 1);
        assert(a.skip(1).skip(i - 1) =~= a.skip(i));
        assert(b.skip(1).skip(i - 1) =~= b.skip(i));
    } else {
        assert(a.skip(0) =~= a);
        assert(b.skip(0) =~= b);
    }
}

/// How two names relate in the canonical order.
#[derive(Clone, Copy, Debug, PartialEq, Eq, Structural)]
pub enum NameOrder {
    Before,
    Equal,
    After,
}

/// Compares two names in code-point order, deciding exactly one of the
/// three relations.
pub fn compare_names(a: &str, b: &str) -> (r: NameOrder)
    ensures
        r == NameOrder::Before <==> lex_lt(a@, b@),
        r == NameOrder::Equal <==> a@ == b@,
        r == NameOrder::After <==> lex_lt(b@, a@),
{
    let alen = a.unicode_len();
    let blen = b.unicode_len();
    let mut i: usize = 0;
    while i < alen && i < blen
        invariant
            0 <= i <= alen,
            i <= blen,
            alen == a@.len(),
            blen == b@.len(),
            forall|j: int| 0 <= j < i ==> a@[j] == b@[j],
        decreases alen - i,
    {
        let ca = a.get_char(i);
        let cb = b.get_char(i);
        if (ca as u32) < (cb as u32) {
            proof {
                lemma_lex_skip_common_prefix(a@, b@, i as int);
                lemma_lex_skip_common_prefix(b@, a@, i as int);
                assert(a@.skip(i as int)[0] == a@[i as int]);
                assert(b@.skip(i as int)[0] == b@[i as int]);
            }
            return NameOrder::Before;
        } else if (cb as u32) < (ca as u32) {
            proof {
                lemma_lex_skip_common_prefix(a@, b@, i as int);
                lemma_lex_skip_common_prefix(b@, a@, i as int);
                assert(a@.skip(i as int)[0] == a@[i as int]);
                assert(b@.skip(i as int)[0] == b@[i as int]);
            }
            return NameOrder::After;
        }
        proof {
            assert(ca == cb) by {
                assert(ca as u32 == cb as u32);
            };
        }
        i = i + 1;
    }
    proof {
        lemma_lex_skip_common_prefix(a@, b@, i as int);
        lemma_lex_skip_common_prefix(b@, a@, i as int);
    }
    if alen < blen {
        proof {
            assert(a@.skip(i as int).len() == 0);
            assert(b@.skip(i as int).len() > 0);
        }
        NameOrder::Before
    } else if blen < alen {
        proof {
            assert(b@.skip(i as int).len() == 0);
            assert(a@.skip(i as int).len() > 0);
        }
        NameOrder::After
    } else {
        proof {
            assert(a@ =~= b@);
            lemma_lex_irreflexive(a@);
        }
        NameOrder::Equal
    }
}

/// Pushing a name onto a sequence adds exactly its view to the set of
/// views.
proof fn lemma_to_set_push<A>(s: Seq<A>, v: A)
    ensures
        s.push(v).to_set() =~= s.to_set().insert(v),
{
    assert forall|x: A| s.push(v).to_set().contains(x) implies s.to_set().insert(v).contains(
        x,
    ) by {
        let k = choose|k: int| 0 <= k < s.push(v).len() && s.push(v)[k] == x;
        if k < s.len() {
            assert(s[k] == x);
        }
    }
    assert forall|x: A| s.to_set().insert(v).contains(x) implies s.push(v).to_set().contains(
        x,
    ) by {
        if x == v {
            assert(s.push(v)[s.len() as int] == x);
        } else {
            let k = choose|k: int| 0 <= k < s.len() && s[k] == x;
            assert(s.push(v)[k] == x);
        }
    }
}

/// Inserting a name anywhere in a sequence adds exactly it to the set.
proof fn lemma_to_set_insert<A>(s: Seq<A>, i: int, v: A)
    requires
        0 <= i <= s.len(),
    ensures
        s.insert(i, v).to_set() =~= s.to_set().insert(v),
{
    let t = s.insert(i, v);
    assert forall|x: A| t.to_set().contains(x) implies s.to_set().insert(v).contains(x) by {
        let k = choose|k: int| 0 <= k < t.len() && t[k] == x;
        if k < i {
            assert(s[k] == x);
        } else if k == i {
            assert(x == v);
        } else {
            assert(s[k - 1] == x);
        }
    }
    assert forall|x: A| s.to_set().insert(v).contains(x) implies t.to_set().contains(x) by {
        if x == v {
            assert(t[i] == x);
        } else {
            let k = choose|k: int| 0 <= k < s.len() && s[k] == x;
            if k < i {
                assert(t[k] == x);
            } else {
                assert(t[k + 1] == x);
            }
        }
    }
}

/// Produces the canonical working set of dependency names: every name of
/// the input exactly once, in strictly ascending code-point order. The
/// output depends only on which names occur in the input, not on their
/// order or multiplicity, and an empty input yields the empty set, which
/// callers treat as nothing to audit rather than an error.
pub fn extract_names(names: Vec<String>) -> (r: Vec<String>)
    ensures
        strictly_sorted(views_of(r@)),
        views_of(r@).to_set() == views_of(names@).to_set(),
        names@.len() == 0 ==> r@.len() == 0,
{
    let ghost total: Set<Seq<char>> = views_of(names@).to_set();
    let mut rest = names;
    let mut out: Vec<String> = Vec::new();
    while rest.len() > 0
        invariant
            strictly_sorted(views_of(out@)),
            views_of(rest@).to_set().union(views_of(out@).to_set()) == total,
        decreases rest.len(),
    {
        let ghost rest0 = rest@;
        let ghost out0 = views_of(out@);
        let x = match rest.pop() {
            Some(x) => x,
            None => {
                return out;
            },
        };
        proof {
            assert(rest0 =~= rest@.push(x));
            assert(views_of(rest0) =~= views_of(rest@).push(x@));
            lemma_to_set_push(views_of(rest@), x@);
            assert(views_of(rest0).to_set() =~= views_of(rest@).to_set().insert(x@));
        }
        let mut pos: usize = 0;
        let mut duplicate = false;
        let mut beyond = false;
        while pos < out.len() && !duplicate && !beyond
            invariant
                0 <= pos <= out.len(),
                forall|k: int| 0 <= k < pos ==> lex_lt(views_of(out@)[k], x@),
                duplicate ==> pos < out.len() && views_of(out@)[pos as int] == x@,
                beyond ==> pos < out.len() && lex_lt(x@, views_of(out@)[pos as int]),
                strictly_sorted(views_of(out@)),
            decreases
                out.len() - pos,
                (if duplicate || beyond {
                    0int
                } else {
                    1int
                }),
        {
            match compare_names(out[pos].as_str(), x.as_str()) {
                NameOrder::Before => {
                    pos = pos + 1;
                },
                NameOrder::Equal => {
                    duplicate = true;
                },
                NameOrder::After => {
                    beyond = true;
                },
            }
        }
        if duplicate {
            proof {
                assert(views_of(out@).to_set().contains(x@));
                assert(views_of(rest@).to_set().union(views_of(out@).to_set()) =~= views_of(
                    rest0,
                ).to_set().union(out0.to_set()));
            }
        } else {
            proof {
                if pos < out.len() {
                    assert(lex_lt(x@, views_of(out@)[pos as int]));
                }
            }
            let ghost old_out = views_of(out@);
            out.insert(pos, x);
            proof {
                assert(views_of(out@) =~= old_out.insert(pos as int, x@));
                lemma_to_set_insert(old_out, pos as int, x@);
                let nv = views_of(out@);
                assert forall|i: int, j: int| 0 <= i < j < nv.len() implies lex_lt(
                    nv[i],
                    nv[j],
                ) by {
                    if i < pos && j < pos {
                        assert(lex_lt(old_out[i], old_out[j]));
                    } else if i < pos && j == pos {
                        assert(lex_lt(old_out[i], x@));
                    } else if i < pos && j > pos {
                        assert(lex_lt(old_out[i], old_out[j - 1]));
                    } else if i == pos && j > pos {
                        assert(lex_lt(x@, old_out[pos as int]));
                        if j - 1 > pos {
                            assert(lex_lt(old_out[pos as int], old_out[j - 1]));
                            lemma_lex_transitive(x@, old_out[pos as int], old_out[j - 1]);
                        }
                    } else {
                        assert(lex_lt(old_out[i - 1], old_out[j - 1]));
                    }
                }
                assert(views_of(rest@).to_set().union(views_of(out@).to_set()) =~= views_of(
                    rest0,
                ).to_set().union(out0.to_set()));
            }
        }
    }
    proof {
        assert(views_of(rest@).to_set() =~= Set::<Seq<char>>::empty());
        assert(views_of(rest@).to_set().union(views_of(out@).to_set()) =~= views_of(
            out@,
        ).to_set());
        if names@.len() == 0 && out@.len() > 0 {
            assert(views_of(out@).to_set().contains(views_of(out@)[0]));
            let k = choose|k: int|
                0 <= k < views_of(names@).len() && views_of(names@)[k] == views_of(out@)[0];
            assert(false);
        }
    }
    out
}

/// The canonical order is unique: any two strictly sorted sequences that
/// hold the same set of names are the same sequence. Applied to two runs
/// of the extractor, this says the extractor is order-independent and
/// idempotent: inputs with the same names, in whatever order and with
/// whatever duplicates, yield identical outputs, and re-extracting an
/// output returns it unchanged.
pub proof fn lemma_canonical_order_unique(a: Seq<Seq<char>>, b: Seq<Seq<char>>)
    requires
        strictly_sorted(a),
        strictly_sorted(b),
        a.to_set() == b.to_set(),
    ensures
        a == b,
    decreases a.len(),
{
    if a.len() == 0 && b.len() == 0 {
        assert(a =~= b);
    } else if a.len() == 0 {
        assert(b.to_set().contains(b[0]));
        assert(a.to_set().contains(b[0]));
        let k = choose|k: int| 0 <= k < a.len() && a[k] == b[0];
        assert(false);
    } else if b.len() == 0 {
        assert(a.to_set().contains(a[0]));
        assert(b.to_set().contains(a[0]));
        let k = choose|k: int| 0 <= k < b.len() && b[k] == a[0];
        assert(false);
    } else {
        // The least element of a set under a strict total order is unique,
        // so the heads agree.
        assert(a.to_set().contains(a[0]));
        assert(b.to_set().contains(a[0]));
        let j = choose|j: int| 0 <= j < b.len() && b[j] == a[0];
        assert(b.to_set().contains(b[0]));
        assert(a.to_set().contains(b[0]));
        let i = choose|i: int| 0 <= i < a.len() && a[i] == b[0];
        if i > 0 && j > 0 {
            assert(lex_lt(a[0], a[i]));
            assert(lex_lt(b[0], b[j]));
            lemma_lex_transitive(a[0], b[0], a[0]);
            lemma_lex_irreflexive(a[0]);
        }
        assert(a[0] == b[0]);
        let at = a.skip(1);
        let bt = b.skip(1);
        assert forall|i2: int, j2: int| 0 <= i2 < j2 < at.len() implies lex_lt(
            at[i2],
            at[j2],
        ) by {
            assert(lex_lt(a[i2 + 1], a[j2 + 1]));
        }
        assert forall|i2: int, j2: int| 0 <= i2 < j2 < bt.len() implies lex_lt(
            bt[i2],
            bt[j2],
        ) by {
            assert(lex_lt(b[i2 + 1], b[j2 + 1]));
        }
        assert(at.to_set() =~= bt.to_set()) by {
            assert forall|x: Seq<char>| at.to_set().contains(x) implies bt.to_set().contains(
                x,
            ) by {
                let k = choose|k: int| 0 <= k < at.len() && at[k] == x;
                assert(a[k + 1] == x);
                assert(lex_lt(a[0], x));
                lemma_lex_irreflexive(x);
                assert(x != b[0]);
                assert(a.to_set().contains(x));
                assert(b.to_set().contains(x));
                let m = choose|m: int| 0 <= m < b.len() && b[m] == x;
                assert(m > 0);
                assert(bt[m - 1] == x);
            }
            assert forall|x: Seq<char>| bt.to_set().contains(x) implies at.to_set().contains(
                x,
            ) by {
                let k = choose|k: int| 0 <= k < bt.len() && bt[k] == x;
                assert(b[k + 1] == x);
                assert(lex_lt(b[0], x));
                lemma_lex_irreflexive(x);
                assert(x != a[0]);
                assert(b.to_set().contains(x));
                assert(a.to_set().contains(x));
                let m = choose|m: int| 0 <= m < a.len() && a[m] == x;
                assert(m > 0);
                assert(at[m - 1] == x);
            }
        }
        lemma_canonical_order_unique(at, bt);
        assert(a =~= b) by {
            assert(a.len() == b.len());
            assert forall|k: int| 0 <= k < a.len() implies a[k] == b[k] by {
                if k > 0 {
                    assert(at[k - 1] == bt[k - 1]);
                }
            }
        }
    }
}

} // verus!


//! Icon discovery: from a raw directory listing to the canonical, sorted,
//! de-duplicated list of icon identifiers.

use vstd::prelude::*;
use crate::text::{
    LexOrder, lemma_lex_lt_irreflexive, lemma_lex_lt_transitive, lex_compare, lex_lt,
};

verus! {

/// Whether a file name carries the `.svg` suffix that marks an icon source.
pub open spec fn is_svg_name(e: Seq<char>) -> bool {
    &&& e.len() >= 4
    &&& e[e.len() - 4] == '.'
    &&& e[e.len() - 3] == 's'
    &&& e[e.len() - 2] == 'v'
    &&& e[e.len() - 1] == 'g'
}

/// The identifier of an icon source file: its name with the suffix stripped.
pub open spec fn svg_stem(e: Seq<char>) -> Seq<char> {
    e.take(e.len() - 4)
}

/// Whether some entry of the listing is an icon source with this identifier.
pub open spec fn stem_listed(entries: Seq<Seq<char>>, s: Seq<char>) -> bool {
    exists|i: int|
        0 <= i < entries.len() && is_svg_name(#[trigger] entries[i]) && s == svg_stem(entries[i])
}

/// Strictly sorted in the lexicographic order, hence duplicate-free.
pub open spec fn strictly_sorted(r: Seq<Seq<char>>) -> bool {
    forall|i: int, j: int| 0 <= i < j < r.len() ==> lex_lt(#[trigger] r[i], #[trigger] r[j])
}

proof fn lemma_stem_take_step(entries: Seq<Seq<char>>, i: int, s: Seq<char>)
    requires
        0 <= i < entries.len(),
    ensures
        stem_listed(entries.take(i + 1), s) <==> (stem_listed(entries.take(i), s) || (is_svg_name(
            entries[i],
        ) && s == svg_stem(entries[i]))),
{
    let t = entries.take(i + 1);
    if stem_listed(t, s) {
        let k = choose|k: int| 0 <= k < t.len() && is_svg_name(t[k]) && s == svg_stem(t[k]);
        if k < i {
            assert(entries.take(i)[k] == entries[k]);
            assert(stem_listed(entries.take(i), s));
        } else {
            assert(t[k] == entries[i]);
        }
    }
    if stem_listed(entries.take(i), s) {
        let k = choose|k: int|
            0 <= k < i && is_svg_name(entries.take(i)[k]) && s == svg_stem(entries.take(i)[k]);
        assert(t[k] == entries.take(i)[k]);
        assert(stem_listed(t, s));
    }
    if is_svg_name(entries[i]) && s == svg_stem(entries[i]) {
        assert(t[i] == entries[i]);
        assert(stem_listed(t, s));
    }
}

/// Inserts an identifier into a sorted, duplicate-free list, keeping it
/// sorted and dropping the identifier when it is already present.
fn insert_sorted(r: &mut Vec<String>, x: String)
    requires
        strictly_sorted(old(r).deep_view()),
    ensures
        strictly_sorted(final(r).deep_view()),
        forall|s: Seq<char>|
            final(r).deep_view().contains(s) <==> (old(r).deep_view().contains(s) || s == x@),
{
    let ghost dv = r.deep_view();
    let n = r.len();
    let mut j: usize = 0;
    let mut stop = false;
    let mut equal = false;
    while j < n && !stop
        invariant
            j <= n,
            n == r@.len(),
            dv == r.deep_view(),
            dv.len() == r@.len(),
            *r == *old(r),
            forall|k: int| 0 <= k < j ==> lex_lt(#[trigger] dv[k], x@),
            stop ==> j < n && (equal ==> dv[j as int] == x@) && (!equal ==> lex_lt(
                x@,
                dv[j as int],
            )),
        decreases n - j + (if stop {
            0int
        } else {
            1int
        }),
    {
        proof {
            assert(dv[j as int] == r@[j as int]@);
        }
        let o = lex_compare(r[j].as_str(), x.as_str());
        match o {
            LexOrder::Less => {
                proof {
                    assert(lex_lt(dv[j as int], x@));
                }
                j = j + 1;
            },
            LexOrder::Equal => {
                proof {
                    assert(dv[j as int] == x@);
                }
                stop = true;
                equal = true;
            },
            LexOrder::Greater => {
                proof {
                    assert(lex_lt(x@, dv[j as int]));
                }
                stop = true;
                equal = false;
            },
        }
    }
    if stop && equal {
        proof {
            assert(dv.contains(x@));
        }
        return ;
    }
    proof {
        if j < n {
            assert(lex_lt(x@, dv[j as int]));
        }
    }
    r.insert(j, x);
    proof {
        let dv2 = r.deep_view();
        assert(dv2.len() == dv.len() + 1);
        assert(r@ == old(r)@.insert(j as int, x));
        assert forall|k: int| 0 <= k < dv2.len() implies dv2[k] == (if k < j {
            dv[k]
        } else if k == j {
            x@
        } else {
            dv[k - 1]
        }) by {
            assert(dv2[k] == r@[k]@);
            if k < j {
                assert(r@[k] == old(r)@[k]);
            } else if k > j {
                assert(r@[k] == old(r)@[k - 1]);
            }
        }
        assert forall|k1: int, k2: int| 0 <= k1 < k2 < dv2.len() implies lex_lt(
            #[trigger] dv2[k1],
            #[trigger] dv2[k2],
        ) by {
            if k1 == j {
                // the new element sits below everything after it
                if k2 - 1 > j {
                    lemma_lex_lt_transitive(x@, dv[j as int], dv[k2 - 1]);
                }
            } else if k2 == j {
                // everything before the position sits below the new element
            } else if k1 < j && k2 > j {
                if k2 - 1 == k1 {
                    assert(false);
                } else {
                    assert(lex_lt(dv[k1], dv[k2 - 1]));
                }
            }
        }
        assert forall|s: Seq<char>| dv2.contains(s) <==> (dv.contains(s) || s == x@) by {
            if dv2.contains(s) {
                let k = choose|k: int| 0 <= k < dv2.len() && dv2[k] == s;
                if k < j {
                    assert(dv[k] == s);
                    assert(dv.contains(s));
                } else if k > j {
                    assert(dv[k - 1] == s);
                    assert(dv.contains(s));
                }
            }
            if dv.contains(s) {
                let k = choose|k: int| 0 <= k < dv.len() && dv[k] == s;
                if k < j {
                    assert(dv2[k] == s);
                } else {
                    assert(dv2[k + 1] == s);
                }
                assert(dv2.contains(s));
            }
            if s == x@ {
                assert(dv2[j as int] == s);
                assert(dv2.contains(s));
            }
        }
    }
}

/// Produces the canonical icon identifier list of a directory listing: the
/// stems of the `.svg` entries, sorted lexicographically, without duplicates.
pub fn read_icon_names(entries: &Vec<String>) -> (r: Vec<String>)
    ensures
        strictly_sorted(r.deep_view()),
        forall|s: Seq<char>|
            r.deep_view().contains(s) <==> stem_listed(entries.deep_view(), s),
{
    let ghost evs = entries.deep_view();
    let mut r: Vec<String> = Vec::new();
    let mut i: usize = 0;
    proof {
        assert(evs.len() == entries@.len());
        assert forall|s: Seq<char>| !stem_listed(evs.take(0), s) by {
            if stem_listed(evs.take(0), s) {
                let k = choose|k: int|
                    0 <= k < evs.take(0).len() && is_svg_name(evs.take(0)[k]) && s == svg_stem(
                        evs.take(0)[k],
                    );
            }
        }
    }
    while i < entries.len()
        invariant
            i <= entries@.len(),
            evs == entries.deep_view(),
            evs.len() == entries@.len(),
            strictly_sorted(r.deep_view()),
            forall|s: Seq<char>| r.deep_view().contains(s) <==> stem_listed(evs.take(i as int), s),
        decreases entries@.len() - i,
    {
        let e: &String = &entries[i];
        proof {
            assert(evs[i as int] == entries@[i as int]@);
        }
        let es: &str = e.as_str();
        let n = es.unicode_len();
        let is_svg = n >= 4 && es.get_char(n - 4) == '.' && es.get_char(n - 3) == 's'
            && es.get_char(n - 2) == 'v' && es.get_char(n - 1) == 'g';
        proof {
            assert(is_svg == is_svg_name(evs[i as int]));
        }
        if is_svg {
            let stem: String = es.substring_char(0, n - 4).to_owned();
            proof {
                assert(stem@ == svg_stem(evs[i as int]));
            }
            insert_sorted(&mut r, stem);
        }
        proof {
            assert forall|s: Seq<char>|
                r.deep_view().contains(s) <==> stem_listed(evs.take(i + 1), s) by {
                lemma_stem_take_step(evs, i as int, s);
            }
        }
        i = i + 1;
    }
    proof {
        assert(evs.take(evs.len() as int) =~= evs);
    }
    r
}

/// Two sorted, duplicate-free identifier lists with the same members are the
/// same list.
pub proof fn lemma_sorted_unique(a: Seq<Seq<char>>, b: Seq<Seq<char>>)
    requires
        strictly_sorted(a),
        strictly_sorted(b),
        forall|s: Seq<char>| a.contains(s) <==> b.contains(s),
    ensures
        a == b,
    decreases a.len(),
{
    if a.len() == 0 {
        if b.len() > 0 {
            assert(b.contains(b[0]));
            assert(a.contains(b[0]));
        }
        assert(a =~= b);
    } else if b.len() == 0 {
        assert(a.contains(a[0]));
        assert(b.contains(a[0]));
    } else {
        assert(b.contains(b[0]));
        assert(a.contains(b[0]));
        assert(a.contains(a[0]));
        assert(b.contains(a[0]));
        let ka = choose|k: int| 0 <= k < b.len() && b[k] == a[0];
        let kb = choose|k: int| 0 <= k < a.len() && a[k] == b[0];
        if ka > 0 {
            assert(lex_lt(b[0], b[ka]));
            if kb > 0 {
                assert(lex_lt(a[0], a[kb]));
                lemma_lex_lt_transitive(a[0], b[0], a[0]);
                lemma_lex_lt_irreflexive(a[0]);
            } else {
                lemma_lex_lt_irreflexive(a[0]);
            }
        }
        assert(a[0] == b[0]);
        let at = a.skip(1);
        let bt = b.skip(1);
        assert forall|i: int, j: int| 0 <= i < j < at.len() implies lex_lt(
            #[trigger] at[i],
            #[trigger] at[j],
        ) by {
            assert(at[i] == a[i + 1]);
            assert(at[j] == a[j + 1]);
        }
        assert forall|i: int, j: int| 0 <= i < j < bt.len() implies lex_lt(
            #[trigger] bt[i],
            #[trigger] bt[j],
        ) by {
            assert(bt[i] == b[i + 1]);
            assert(bt[j] == b[j + 1]);
        }
        assert forall|s: Seq<char>| at.contains(s) <==> bt.contains(s) by {
            if at.contains(s) {
                let k = choose|k: int| 0 <= k < at.len() && at[k] == s;
                assert(a[k + 1] == s);
                assert(a.contains(s));
                assert(b.contains(s));
                let m = choose|m: int| 0 <= m < b.len() && b[m] == s;
                if m == 0 {
                    assert(lex_lt(a[0], a[k + 1]));
                    lemma_lex_lt_irreflexive(a[0]);
                }
                assert(bt[m - 1] == s);
                assert(bt.contains(s));
            }
            if bt.contains(s) {
                let k = choose|k: int| 0 <= k < bt.len() && bt[k] == s;
                assert(b[k + 1] == s);
                assert(b.contains(s));
                assert(a.contains(s));
                let m = choose|m: int| 0 <= m < a.len() && a[m] == s;
                if m == 0 {
                    assert(lex_lt(b[0], b[k + 1]));
                    lemma_lex_lt_irreflexive(b[0]);
                }
                assert(at[m - 1] == s);
                assert(at.contains(s));
            }
        }
        lemma_sorted_unique(at, bt);
        assert(a.len() == b.len());
        assert forall|i: int| 0 <= i < a.len() implies a[i] == b[i] by {
            if i > 0 {
                assert(a[i] == at[i - 1]);
                assert(b[i] == bt[i - 1]);
            }
        }
        assert(a =~= b);
    }
}

/// Discovery is order-independent: two directory listings holding the same
/// entries yield the same identifier list, however they are enumerated.
pub proof fn lemma_discovery_order_independent(
    e1: Seq<Seq<char>>,
    e2: Seq<Seq<char>>,
    r1: Seq<Seq<char>>,
    r2: Seq<Seq<char>>,
)
    requires
        strictly_sorted(r1),
        strictly_sorted(r2),
        forall|s: Seq<char>| r1.contains(s) <==> stem_listed(e1, s),
        forall|s: Seq<char>| r2.contains(s) <==> stem_listed(e2, s),
        forall|s: Seq<char>| e1.contains(s) <==> e2.contains(s),
    ensures
        r1 == r2,
{
    assert forall|s: Seq<char>| stem_listed(e1, s) <==> stem_listed(e2, s) by {
        if stem_listed(e1, s) {
            let k = choose|k: int|
                0 <= k < e1.len() && is_svg_name(e1[k]) && s == svg_stem(e1[k]);
            assert(e1.contains(e1[k]));
            assert(e2.contains(e1[k]));
            let m = choose|m: int| 0 <= m < e2.len() && e2[m] == e1[k];
            assert(stem_listed(e2, s));
        }
        if stem_listed(e2, s) {
            let k = choose|k: int|
                0 <= k < e2.len() && is_svg_name(e2[k]) && s == svg_stem(e2[k]);
            assert(e2.contains(e2[k]));
            assert(e1.contains(e2[k]));
            let m = choose|m: int| 0 <= m < e1.len() && e1[m] == e2[k];
            assert(stem_listed(e1, s));
        }
    }
    lemma_sorted_unique(r1, r2);
}

} // verus!

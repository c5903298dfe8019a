//! The order of texts that `String` sorts by, and sorted sets of texts.
use vstd::prelude::*;
use crate::strings::{chars_of, views};

verus! {

/// Whether `a` sorts before `b` as `String` orders them. `String` compares UTF-8 bytes, and
/// UTF-8 keeps the order of code points, so this is the lexicographic order of the
/// characters' code points, a proper prefix first.
pub open spec fn text_less(a: Seq<char>, b: Seq<char>) -> bool
    decreases a.len(),
{
    if a.len() == 0 {
        b.len() > 0
    } else if b.len() == 0 {
        false
    } else if a[0] == b[0] {
        text_less(a.drop_first(), b.drop_first())
    } else {
        a[0] < b[0]
    }
}

/// Texts in strictly increasing order: sorted, each once.
pub open spec fn strictly_sorted(v: Seq<Seq<char>>) -> bool {
    forall|i: int, j: int| 0 <= i < j < v.len() ==> text_less(#[trigger] v[i], #[trigger] v[j])
}

/// Whether two sequences hold the same texts, counting none twice.
pub open spec fn same_texts(a: Seq<Seq<char>>, b: Seq<Seq<char>>) -> bool {
    forall|x: Seq<char>| a.contains(x) <==> b.contains(x)
}

/// The texts of `s` in increasing order, each once: what sorting and removing repeats gives.
pub open spec fn sorted_unique(s: Seq<Seq<char>>) -> Seq<Seq<char>> {
    choose|r: Seq<Seq<char>>| strictly_sorted(r) && same_texts(r, s)
}

/// No text sorts before itself.
pub proof fn lemma_text_less_irreflexive(a: Seq<char>)
    ensures
        !text_less(a, a),
    decreases a.len(),
{
    if a.len() > 0 {
        lemma_text_less_irreflexive(a.drop_first());
    }
}

/// The order is transitive.
pub proof fn lemma_text_less_transitive(a: Seq<char>, b: Seq<char>, c: Seq<char>)
    requires
        text_less(a, b),
        text_less(b, c),
    ensures
        text_less(a, c),
    decreases a.len(),
{
    if a.len() > 0 && b.len() > 0 && c.len() > 0 && a[0] == b[0] && b[0] == c[0] {
        lemma_text_less_transitive(a.drop_first(), b.drop_first(), c.drop_first());
    }
}

/// Of two different texts, one sorts before the other.
pub proof fn lemma_text_less_total(a: Seq<char>, b: Seq<char>)
    requires
        a != b,
    ensures
        text_less(a, b) || text_less(b, a),
    decreases a.len(),
{
    if a.len() > 0 && b.len() > 0 {
        if a[0] == b[0] {
            if a.drop_first() == b.drop_first() {
                assert(a =~= seq![a[0]] + a.drop_first());
                assert(b =~= seq![b[0]] + b.drop_first());
            }
            lemma_text_less_total(a.drop_first(), b.drop_first());
        }
    } else if a.len() == 0 && b.len() == 0 {
        assert(a =~= b);
    }
}

/// Two strictly sorted sequences with the same texts are the same sequence.
pub proof fn lemma_sorted_unique(a: Seq<Seq<char>>, b: Seq<Seq<char>>)
    requires
        strictly_sorted(a),
        strictly_sorted(b),
        same_texts(a, b),
    ensures
        a == b,
    decreases a.len(),
{
    if a.len() == 0 {
        if b.len() > 0 {
            assert(b.contains(b[0]));
        }
        assert(a =~= b);
    } else if b.len() == 0 {
        assert(a.contains(a[0]));
    } else {
        assert(a.contains(a[0]));
        assert(b.contains(b[0]));
        let ka = choose|k: int| 0 <= k < b.len() && b[k] == a[0];
        let kb = choose|k: int| 0 <= k < a.len() && a[k] == b[0];
        if a[0] != b[0] {
            if ka > 0 {
                assert(text_less(b[0], b[ka]));
            }
            if kb > 0 {
                assert(text_less(a[0], a[kb]));
            }
            lemma_text_less_total(a[0], b[0]);
            if text_less(a[0], b[0]) {
                assert(ka > 0);
                lemma_text_less_transitive(a[0], b[0], b[ka]);
                lemma_text_less_irreflexive(a[0]);
            } else {
                assert(kb > 0);
                lemma_text_less_transitive(b[0], a[0], a[kb]);
                lemma_text_less_irreflexive(b[0]);
            }
        }
        let ra = a.drop_first();
        let rb = b.drop_first();
        assert forall|x: Seq<char>| ra.contains(x) <==> rb.contains(x) by {
            if ra.contains(x) {
                let i = choose|i: int| 0 <= i < ra.len() && ra[i] == x;
                assert(a[i + 1] == x);
                assert(text_less(a[0], a[i + 1]));
                if x == a[0] {
                    lemma_text_less_irreflexive(x);
                }
                assert(a.contains(x));
                let j = choose|j: int| 0 <= j < b.len() && b[j] == x;
                assert(j != 0);
                assert(rb[j - 1] == x);
            }
            if rb.contains(x) {
                let i = choose|i: int| 0 <= i < rb.len() && rb[i] == x;
                assert(b[i + 1] == x);
                assert(text_less(b[0], b[i + 1]));
                if x == b[0] {
                    lemma_text_less_irreflexive(x);
                }
                assert(b.contains(x));
                let j = choose|j: int| 0 <= j < a.len() && a[j] == x;
                assert(j != 0);
                assert(ra[j - 1] == x);
            }
        }
        assert forall|i: int, j: int| 0 <= i < j < ra.len() implies text_less(
            #[trigger] ra[i],
            #[trigger] ra[j],
        ) by {
            assert(ra[i] == a[i + 1] && ra[j] == a[j + 1]);
        }
        assert forall|i: int, j: int| 0 <= i < j < rb.len() implies text_less(
            #[trigger] rb[i],
            #[trigger] rb[j],
        ) by {
            assert(rb[i] == b[i + 1] && rb[j] == b[j + 1]);
        }
        lemma_sorted_unique(ra, rb);
        assert(a =~= seq![a[0]] + ra);
        assert(b =~= seq![b[0]] + rb);
    }
}

/// Whether `a` sorts before `b`.
pub fn chars_less(a: &Vec<char>, b: &Vec<char>) -> (r: bool)
    ensures
        r == text_less(a@, b@),
{
    let mut i: usize = 0;
    assert(a@.skip(0) =~= a@);
    assert(b@.skip(0) =~= b@);
    while i < a.len() && i < b.len() && a[i] == b[i]
        invariant
            i <= a.len(),
            i <= b.len(),
            text_less(a@, b@) == text_less(a@.skip(i as int), b@.skip(i as int)),
        decreases a.len() - i,
    {
        assert(a@.skip(i as int).drop_first() =~= a@.skip(i as int + 1));
        assert(b@.skip(i as int).drop_first() =~= b@.skip(i as int + 1));
        i = i + 1;
    }
    if i == a.len() {
        i < b.len()
    } else if i == b.len() {
        false
    } else {
        assert(a@.skip(i as int)[0] == a@[i as int]);
        assert(b@.skip(i as int)[0] == b@[i as int]);
        a[i] < b[i]
    }
}

/// Insert `x` into strictly sorted texts, unless it is there already.
fn insert_sorted(v: &mut Vec<String>, chars: &mut Vec<Vec<char>>, x: String)
    requires
        old(chars)@.len() == old(v)@.len(),
        forall|k: int| 0 <= k < old(v)@.len() ==> (#[trigger] old(chars)@[k])@ == old(v)@[k]@,
        strictly_sorted(views(old(v)@)),
    ensures
        final(chars)@.len() == final(v)@.len(),
        forall|k: int| 0 <= k < final(v)@.len() ==> (#[trigger] final(chars)@[k])@ == final(v)@[k]@,
        strictly_sorted(views(final(v)@)),
        forall|y: Seq<char>|
            views(final(v)@).contains(y) <==> (views(old(v)@).contains(y) || y == x@),
{
    let xc = chars_of(x.as_str());
    let ghost old_views = views(v@);
    let mut p: usize = 0;
    while p < v.len() && chars_less(&chars[p], &xc)
        invariant
            p <= v@.len(),
            chars@.len() == v@.len(),
            v@ == old(v)@,
            chars@ == old(chars)@,
            old_views == views(v@),
            xc@ == x@,
            forall|k: int| 0 <= k < v@.len() ==> (#[trigger] chars@[k])@ == v@[k]@,
            forall|k: int| 0 <= k < p ==> text_less(old_views[k], x@),
        decreases v.len() - p,
    {
        p = p + 1;
    }
    if p < v.len() && chars_less(&xc, &chars[p]) == false {
        proof {
            if old_views[p as int] != x@ {
                lemma_text_less_total(old_views[p as int], x@);
            }
        }
        assert(old_views[p as int] == x@);
        assert forall|y: Seq<char>| views(v@).contains(y) <==> (old_views.contains(y) || y == x@)
            by {
            if y == x@ {
                assert(views(v@)[p as int] == y);
            }
        }
        return;
    }
    let ghost before = v@;
    v.insert(p, x);
    chars.insert(p, xc);
    let ghost nv = views(v@);
    assert forall|k: int| 0 <= k < nv.len() implies #[trigger] nv[k] == (if k < p {
        old_views[k]
    } else if k == p {
        x@
    } else {
        old_views[k - 1]
    }) by {}
    assert forall|i: int, j: int| 0 <= i < j < nv.len() implies text_less(
        #[trigger] nv[i],
        #[trigger] nv[j],
    ) by {
        if j == p {
        } else if i == p {
            if j - 1 >= p {
                assert(text_less(x@, old_views[p as int])) by {
                    if p < old_views.len() {
                        assert(!text_less(old_views[p as int], x@));
                        if old_views[p as int] != x@ {
                            lemma_text_less_total(old_views[p as int], x@);
                        }
                    }
                }
                if j - 1 > p {
                    lemma_text_less_transitive(x@, old_views[p as int], old_views[j - 1]);
                }
            }
        } else if i < p && j > p {
            assert(text_less(old_views[i], x@));
            assert(text_less(x@, old_views[p as int])) by {
                assert(!text_less(old_views[p as int], x@));
                if old_views[p as int] != x@ {
                    lemma_text_less_total(old_views[p as int], x@);
                } else {
                    assert(false);
                }
            }
            lemma_text_less_transitive(old_views[i], x@, old_views[p as int]);
            if j - 1 > p {
                lemma_text_less_transitive(old_views[i], old_views[p as int], old_views[j - 1]);
            }
        } else if i < p && j < p {
        } else {
        }
    }
    assert forall|y: Seq<char>| nv.contains(y) <==> (old_views.contains(y) || y == x@) by {
        if nv.contains(y) {
            let k = choose|k: int| 0 <= k < nv.len() && nv[k] == y;
            if k < p {
                assert(old_views[k] == y);
            } else if k > p {
                assert(old_views[k - 1] == y);
            }
        }
        if old_views.contains(y) {
            let k = choose|k: int| 0 <= k < old_views.len() && old_views[k] == y;
            if k < p {
                assert(nv[k] == y);
            } else {
                assert(nv[k + 1] == y);
            }
        }
        if y == x@ {
            assert(nv[p as int] == y);
        }
    }
}

/// The texts of `values` in increasing order, each once, as `sort` then `dedup` leave them.
pub fn sort_unique(values: &Vec<String>) -> (r: Vec<String>)
    ensures
        strictly_sorted(views(r@)),
        same_texts(views(r@), views(values@)),
        views(r@) == sorted_unique(views(values@)),
{
    let mut r: Vec<String> = Vec::new();
    let mut chars: Vec<Vec<char>> = Vec::new();
    let mut i: usize = 0;
    while i < values.len()
        invariant
            i <= values@.len(),
            chars@.len() == r@.len(),
            forall|k: int| 0 <= k < r@.len() ==> (#[trigger] chars@[k])@ == r@[k]@,
            strictly_sorted(views(r@)),
            same_texts(views(r@), views(values@.take(i as int))),
        decreases values.len() - i,
    {
        let ghost prev = views(r@);
        insert_sorted(&mut r, &mut chars, values[i].clone());
        assert forall|y: Seq<char>| #![auto]
            views(r@).contains(y) <==> views(values@.take(i as int + 1)).contains(y) by {
            let t0 = views(values@.take(i as int));
            let t1 = views(values@.take(i as int + 1));
            if t1.contains(y) {
                let k = choose|k: int| 0 <= k < t1.len() && t1[k] == y;
                if k < i {
                    assert(t0[k] == y);
                }
            }
            if t0.contains(y) {
                let k = choose|k: int| 0 <= k < t0.len() && t0[k] == y;
                assert(t1[k] == y);
            }
            if y == values@[i as int]@ {
                assert(t1[i as int] == y);
            }
        }
        i = i + 1;
    }
    assert(values@.take(i as int) =~= values@);
    proof {
        let w = views(r@);
        let s = views(values@);
        assert(strictly_sorted(w) && same_texts(w, s));
        let c = sorted_unique(s);
        assert(strictly_sorted(c) && same_texts(c, s));
        assert(same_texts(w, c));
        lemma_sorted_unique(w, c);
    }
    r
}

} // verus!

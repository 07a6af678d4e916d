use vstd::prelude::*;

use crate::json::same_text;
use crate::text::chars_of;

verus! {

/// `a` comes before `b` in the order of `str`: lexicographic by code point,
/// a proper prefix first.
pub open spec fn text_less(a: Seq<char>, b: Seq<char>) -> bool
    decreases a.len(),
{
    if a.len() == 0 {
        b.len() > 0
    } else if b.len() == 0 {
        false
    } else if a[0] != b[0] {
        (a[0] as u32) < (b[0] as u32)
    } else {
        text_less(a.drop_first(), b.drop_first())
    }
}

/// Where two texts first differ at `k`, the one with the smaller character
/// there comes first, whatever their lengths.
pub proof fn lemma_text_less_first_difference(a: Seq<char>, b: Seq<char>, k: int)
    requires
        0 <= k < a.len(),
        k < b.len(),
        a[k] != b[k],
        forall|i: int| 0 <= i < k ==> a[i] == b[i],
    ensures
        text_less(a, b) == ((a[k] as u32) < (b[k] as u32)),
    decreases k,
{
    if k > 0 {
        assert forall|i: int| 0 <= i < k - 1 implies a.drop_first()[i] == b.drop_first()[i] by {
            assert(a[i + 1] == b[i + 1]);
        }
        assert(a[0] == b[0]);
        lemma_text_less_first_difference(a.drop_first(), b.drop_first(), k - 1);
    }
}

/// A proper prefix comes before the longer text.
pub proof fn lemma_text_less_prefix(a: Seq<char>, b: Seq<char>)
    requires
        a.len() < b.len(),
        forall|i: int| 0 <= i < a.len() ==> a[i] == b[i],
    ensures
        text_less(a, b),
        !text_less(b, a),
    decreases a.len(),
{
    if a.len() > 0 {
        assert forall|i: int| 0 <= i < a.len() - 1 implies a.drop_first()[i] == b.drop_first()[i] by {
            assert(a[i + 1] == b[i + 1]);
        }
        assert(a[0] == b[0]);
        lemma_text_less_prefix(a.drop_first(), b.drop_first());
    }
}

/// No text comes before itself.
pub proof fn lemma_text_less_irreflexive(a: Seq<char>)
    ensures
        !text_less(a, a),
    decreases a.len(),
{
    if a.len() > 0 {
        lemma_text_less_irreflexive(a.drop_first());
    }
}

/// Of two different texts exactly one comes first.
pub proof fn lemma_text_less_total(a: Seq<char>, b: Seq<char>)
    ensures
        a != b ==> (text_less(a, b) || text_less(b, a)),
        !(text_less(a, b) && text_less(b, a)),
    decreases a.len(),
{
    if a.len() > 0 && b.len() > 0 {
        if a[0] == b[0] {
            lemma_text_less_total(a.drop_first(), b.drop_first());
            if a != b {
                assert(a.drop_first() != b.drop_first()) by {
                    if a.drop_first() == b.drop_first() {
                        assert(a =~= b) by {
                            assert forall|i: int| 0 <= i < a.len() implies a[i] == b[i] by {
                                if i > 0 {
                                    assert(a[i] == a.drop_first()[i - 1]);
                                    assert(b[i] == b.drop_first()[i - 1]);
                                }
                            }
                        }
                    }
                }
            }
        } else {
            vstd::utf8::char_u32_cast(a[0], a[0] as u32);
            vstd::utf8::char_u32_cast(b[0], b[0] as u32);
        }
    } else if a.len() == 0 && b.len() == 0 {
        assert(a =~= b);
    }
}

/// The order is transitive.
pub proof fn lemma_text_less_transitive(a: Seq<char>, b: Seq<char>, c: Seq<char>)
    requires
        text_less(a, b),
        text_less(b, c),
    ensures
        text_less(a, c),
    decreases a.len(),
{
    if a.len() > 0 && b.len() > 0 && c.len() > 0 {
        if a[0] == b[0] && b[0] == c[0] {
            lemma_text_less_transitive(a.drop_first(), b.drop_first(), c.drop_first());
        } else {
            vstd::utf8::char_u32_cast(a[0], a[0] as u32);
            vstd::utf8::char_u32_cast(b[0], b[0] as u32);
            vstd::utf8::char_u32_cast(c[0], c[0] as u32);
        }
    }
}

/// Whether `a` comes before `b`.
pub fn text_before(a: &str, b: &str) -> (r: bool)
    ensures
        r == text_less(a@, b@),
{
    let x = chars_of(a);
    let y = chars_of(b);
    let mut i: usize = 0;
    assert(x@.skip(0) =~= x@ && y@.skip(0) =~= y@);
    while i < x.len() && i < y.len() && x[i] == y[i]
        invariant
            x@ == a@,
            y@ == b@,
            i <= x@.len(),
            i <= y@.len(),
            text_less(a@, b@) == text_less(x@.skip(i as int), y@.skip(i as int)),
        decreases x@.len() - i,
    {
        proof {
            assert(x@.skip(i as int).drop_first() =~= x@.skip(i + 1));
            assert(y@.skip(i as int).drop_first() =~= y@.skip(i + 1));
            assert(x@.skip(i as int)[0] == x@[i as int]);
            assert(y@.skip(i as int)[0] == y@[i as int]);
        }
        i = i + 1;
    }
    proof {
        if i < x@.len() {
            assert(x@.skip(i as int)[0] == x@[i as int]);
        }
        if i < y@.len() {
            assert(y@.skip(i as int)[0] == y@[i as int]);
        }
    }
    if i == x.len() {
        i < y.len()
    } else if i == y.len() {
        false
    } else {
        (x[i] as u32) < (y[i] as u32)
    }
}

// ---------------------------------------------------------------------------
// Sorted sets of texts
// ---------------------------------------------------------------------------

/// The views of `v`.
pub open spec fn texts(v: Seq<String>) -> Seq<Seq<char>> {
    v.map_values(|s: String| s@)
}

/// Every text of `s` comes before each one that follows it: `s` is sorted
/// and holds no text twice.
pub open spec fn is_strictly_ascending(s: Seq<Seq<char>>) -> bool {
    forall|i: int, j: int| 0 <= i < j < s.len() ==> text_less(#[trigger] s[i], #[trigger] s[j])
}

/// Number of texts at the start of `r` that come before `x`.
pub open spec fn place_of(r: Seq<Seq<char>>, x: Seq<char>) -> nat
    decreases r.len(),
{
    if r.len() == 0 || !text_less(r[0], x) {
        0
    } else {
        1 + place_of(r.drop_first(), x)
    }
}

/// `x` added to the sorted texts `r`, unless `r` holds it already.
pub open spec fn insert_unique(r: Seq<Seq<char>>, x: Seq<char>) -> Seq<Seq<char>> {
    let p = place_of(r, x) as int;
    if p < r.len() && r[p] == x {
        r
    } else {
        r.insert(p, x)
    }
}

/// The texts of `s`, sorted, each once (`sort` then `dedup`).
pub open spec fn ascending_unique(s: Seq<Seq<char>>) -> Seq<Seq<char>>
    decreases s.len(),
{
    if s.len() == 0 {
        s
    } else {
        insert_unique(ascending_unique(s.drop_last()), s.last())
    }
}

proof fn lemma_place_of(r: Seq<Seq<char>>, x: Seq<char>)
    requires
        is_strictly_ascending(r),
    ensures
        place_of(r, x) <= r.len(),
        forall|k: int| 0 <= k < place_of(r, x) ==> text_less(#[trigger] r[k], x),
        forall|k: int| place_of(r, x) <= k < r.len() ==> !text_less(#[trigger] r[k], x),
    decreases r.len(),
{
    if r.len() > 0 && text_less(r[0], x) {
        let t = r.drop_first();
        assert(is_strictly_ascending(t)) by {
            assert forall|i: int, j: int| 0 <= i < j < t.len() implies text_less(
                #[trigger] t[i],
                #[trigger] t[j],
            ) by {
                assert(t[i] == r[i + 1] && t[j] == r[j + 1]);
            }
        }
        lemma_place_of(t, x);
        assert forall|k: int| 0 <= k < place_of(r, x) implies text_less(#[trigger] r[k], x) by {
            if k > 0 {
                assert(r[k] == t[k - 1]);
            }
        }
        assert forall|k: int| place_of(r, x) <= k < r.len() implies !text_less(#[trigger] r[k], x) by {
            assert(r[k] == t[k - 1]);
        }
    } else if r.len() > 0 {
        assert forall|k: int| 0 <= k < r.len() implies !text_less(#[trigger] r[k], x) by {
            if k > 0 && text_less(r[k], x) {
                assert(text_less(r[0], r[k]));
                lemma_text_less_transitive(r[0], r[k], x);
            }
        }
    }
}

/// The result of `ascending_unique` is strictly ascending and holds exactly
/// the texts of its input.
pub proof fn lemma_ascending_unique(s: Seq<Seq<char>>)
    ensures
        is_strictly_ascending(ascending_unique(s)),
        forall|t: Seq<char>| ascending_unique(s).contains(t) <==> s.contains(t),
    decreases s.len(),
{
    if s.len() > 0 {
        let r = ascending_unique(s.drop_last());
        lemma_ascending_unique(s.drop_last());
        let x = s.last();
        lemma_place_of(r, x);
        let p = place_of(r, x) as int;
        if p < r.len() && r[p] == x {
            assert forall|t: Seq<char>| ascending_unique(s).contains(t) <==> s.contains(t) by {
                if s.contains(t) {
                    let k = choose|k: int| 0 <= k < s.len() && s[k] == t;
                    if k < s.len() - 1 {
                        assert(s.drop_last()[k] == t);
                        assert(s.drop_last().contains(t));
                    } else {
                        assert(r[p] == t);
                    }
                    assert(r.contains(t));
                }
                if r.contains(t) {
                    assert(s.drop_last().contains(t));
                    let k = choose|k: int| 0 <= k < s.drop_last().len() && s.drop_last()[k] == t;
                    assert(s[k] == t);
                }
            }
        } else {
            let out = r.insert(p, x);
            if p < r.len() {
                lemma_text_less_total(x, r[p]);
            }
            assert forall|i: int, j: int| 0 <= i < j < out.len() implies text_less(
                #[trigger] out[i],
                #[trigger] out[j],
            ) by {
                if j < p {
                    assert(out[i] == r[i] && out[j] == r[j]);
                } else if j == p {
                    assert(out[i] == r[i]);
                } else if i < p {
                    assert(out[i] == r[i] && out[j] == r[j - 1]);
                    if j - 1 == p {
                    } else {
                        assert(text_less(r[p], r[j - 1]));
                        lemma_text_less_transitive(x, r[p], r[j - 1]);
                    }
                    lemma_text_less_transitive(r[i], x, r[j - 1]);
                } else if i == p {
                    assert(out[j] == r[j - 1]);
                    if j - 1 > p {
                        assert(text_less(r[p], r[j - 1]));
                        lemma_text_less_transitive(x, r[p], r[j - 1]);
                    }
                } else {
                    assert(out[i] == r[i - 1] && out[j] == r[j - 1]);
                }
            }
            assert forall|t: Seq<char>| out.contains(t) <==> s.contains(t) by {
                if s.contains(t) {
                    let k = choose|k: int| 0 <= k < s.len() && s[k] == t;
                    if k < s.len() - 1 {
                        assert(s.drop_last()[k] == t);
                        assert(s.drop_last().contains(t));
                        assert(r.contains(t));
                        let m = choose|m: int| 0 <= m < r.len() && r[m] == t;
                        if m < p {
                            assert(out[m] == t);
                        } else {
                            assert(out[m + 1] == t);
                        }
                    } else {
                        assert(out[p] == t);
                    }
                }
                if out.contains(t) {
                    let m = choose|m: int| 0 <= m < out.len() && out[m] == t;
                    if m == p {
                        assert(s[s.len() - 1] == t);
                    } else {
                        let q = if m < p {
                            m
                        } else {
                            m - 1
                        };
                        assert(r[q] == t);
                        assert(r.contains(t));
                        assert(s.drop_last().contains(t));
                        let k = choose|k: int| 0 <= k < s.drop_last().len() && s.drop_last()[k] == t;
                        assert(s[k] == t);
                    }
                }
            }
        }
    }
}

/// Adds `x` to the sorted texts `out` unless they hold it already.
fn insert_text_unique(out: &mut Vec<String>, x: String)
    ensures
        texts(final(out)@) == insert_unique(texts(old(out)@), x@),
{
    let ghost r = texts(out@);
    let mut p: usize = 0;
    assert(r.subrange(0, r.len() as int) =~= r);
    while p < out.len() && text_before(out[p].as_str(), x.as_str())
        invariant
            r == texts(out@),
            p <= out@.len(),
            place_of(r, x@) == p + place_of(r.subrange(p as int, r.len() as int), x@),
        decreases out@.len() - p,
    {
        proof {
            let rest = r.subrange(p as int, r.len() as int);
            assert(rest.drop_first() =~= r.subrange(p + 1, r.len() as int));
            assert(rest[0] == r[p as int]);
        }
        p = p + 1;
    }
    proof {
        if p < out@.len() {
            let rest = r.subrange(p as int, r.len() as int);
            assert(rest[0] == r[p as int]);
        }
    }
    if p < out.len() && same_text(out[p].as_str(), x.as_str()) {
        return ;
    }
    out.insert(p, x);
    assert(texts(out@) =~= r.insert(p as int, x@));
}

/// The texts of `items`, sorted, each once.
pub fn sort_unique(items: Vec<String>) -> (r: Vec<String>)
    ensures
        texts(r@) == ascending_unique(texts(items@)),
        is_strictly_ascending(texts(r@)),
        forall|t: Seq<char>| texts(r@).contains(t) <==> texts(items@).contains(t),
{
    let ghost all = items@;
    let mut rest = items;
    let mut out: Vec<String> = Vec::new();
    let ghost mut done: int = 0;
    assert(texts(out@) =~= ascending_unique(texts(all.take(0))));
    while rest.len() > 0
        invariant
            0 <= done <= all.len(),
            rest@ == all.skip(done),
            texts(out@) == ascending_unique(texts(all.take(done))),
        decreases rest@.len(),
    {
        let x = rest.remove(0);
        proof {
            assert(texts(all.take(done + 1)).drop_last() =~= texts(all.take(done)));
            assert(texts(all.take(done + 1)).last() == x@);
            assert(rest@ =~= all.skip(done + 1));
        }
        insert_text_unique(&mut out, x);
        proof {
            done = done + 1;
        }
    }
    assert(all.take(done) =~= all);
    proof {
        lemma_ascending_unique(texts(all));
    }
    out
}

} // verus!

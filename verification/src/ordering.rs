//! Most-recently-used ordering of the window list.
use vstd::prelude::*;
use crate::model::{windows_view, WindowData, WindowView};
use crate::text::{
    lemma_text_le_antisymmetric, lemma_text_le_total, lemma_text_le_transitive, lowercase,
    lowercase_chars, text_le, text_le_exec,
};

verus! {

/// The key by which windows are ordered: focus number, then lowercase title.
pub open spec fn sort_key(w: WindowView) -> (u64, Seq<char>) {
    (w.last_focus_seq, lowercase(w.title))
}

/// Whether key `x` may come before key `y`: a higher focus number first,
/// then titles in code point order.
pub open spec fn key_before(x: (u64, Seq<char>), y: (u64, Seq<char>)) -> bool {
    x.0 > y.0 || (x.0 == y.0 && text_le(x.1, y.1))
}

/// Windows are ordered by descending focus number, then by lowercase title.
pub open spec fn sorted_by_recency(s: Seq<WindowView>) -> bool {
    forall|i: int, j: int|
        #![trigger s[i], s[j]]
        0 <= i < j < s.len() ==> key_before(sort_key(s[i]), sort_key(s[j]))
}

/// `r` holds the elements of `s` rearranged by the index map `p`, and
/// elements with equal keys keep their relative order.
pub open spec fn stable_arrangement(r: Seq<WindowView>, s: Seq<WindowView>, p: Seq<int>) -> bool {
    &&& r.len() == s.len()
    &&& p.len() == s.len()
    &&& forall|k: int| #![trigger p[k]] 0 <= k < p.len() ==> 0 <= p[k] < s.len() && r[k] == s[p[k]]
    &&& forall|k: int, l: int| #![trigger p[k], p[l]] 0 <= k < l < p.len() ==> p[k] != p[l]
    &&& forall|k: int, l: int|
        #![trigger p[k], p[l]]
        0 <= k < l < p.len() && sort_key(r[k]) == sort_key(r[l]) ==> p[k] < p[l]
}

/// `r` is the stable sort of `s` by [`sort_key`].
pub open spec fn stably_sorted_from(r: Seq<WindowView>, s: Seq<WindowView>) -> bool {
    &&& sorted_by_recency(r)
    &&& exists|p: Seq<int>| stable_arrangement(r, s, p)
}

/// Where `x` goes in the sorted sequence `r`: after every element whose key
/// may come before the key of `x`.
pub open spec fn insert_pos(r: Seq<WindowView>, x: WindowView) -> int
    decreases r.len(),
{
    if r.len() == 0 {
        0
    } else if key_before(sort_key(r[0]), sort_key(x)) {
        1 + insert_pos(r.drop_first(), x)
    } else {
        0
    }
}

/// The stable sort of `s` by [`sort_key`]: each element, in order, is placed
/// after every earlier element that may come before it.
pub open spec fn stable_sort(s: Seq<WindowView>) -> Seq<WindowView>
    decreases s.len(),
{
    if s.len() == 0 {
        s
    } else {
        let r = stable_sort(s.drop_last());
        r.insert(insert_pos(r, s.last()), s.last())
    }
}

proof fn lemma_insert_pos(r: Seq<WindowView>, x: WindowView, p: int)
    requires
        0 <= p <= r.len(),
        forall|q: int| 0 <= q < p ==> key_before(#[trigger] sort_key(r[q]), sort_key(x)),
        p < r.len() ==> !key_before(sort_key(r[p]), sort_key(x)),
    ensures
        insert_pos(r, x) == p,
    decreases r.len(),
{
    if r.len() > 0 && p > 0 {
        let t = r.drop_first();
        assert forall|q: int| 0 <= q < p - 1 implies key_before(#[trigger] sort_key(t[q]), sort_key(x)) by {
            assert(t[q] == r[q + 1]);
        }
        if p - 1 < t.len() {
            assert(t[p - 1] == r[p]);
        }
        assert(key_before(sort_key(r[0]), sort_key(x)));
        lemma_insert_pos(t, x, p - 1);
    }
}

/// Every character sequence comes no later than itself.
pub proof fn lemma_text_le_reflexive(a: Seq<char>)
    ensures
        text_le(a, a),
    decreases a.len(),
{
    if a.len() > 0 {
        lemma_text_le_reflexive(a.drop_first());
    }
}

/// The ordering on keys is a total preorder whose ties are equal keys.
pub proof fn lemma_key_order(x: (u64, Seq<char>), y: (u64, Seq<char>), z: (u64, Seq<char>))
    ensures
        key_before(x, x),
        key_before(x, y) || key_before(y, x),
        key_before(x, y) && key_before(y, z) ==> key_before(x, z),
        key_before(x, y) && key_before(y, x) ==> x == y,
{
    lemma_text_le_reflexive(x.1);
    lemma_text_le_total(x.1, y.1);
    if key_before(x, y) && key_before(y, z) && x.0 == y.0 && y.0 == z.0 {
        lemma_text_le_transitive(x.1, y.1, z.1);
    }
    if key_before(x, y) && key_before(y, x) {
        lemma_text_le_antisymmetric(x.1, y.1);
    }
}

proof fn lemma_insert_sorted(r: Seq<WindowView>, s: Seq<WindowView>, perm: Seq<int>, x: WindowView, pos: int)
    requires
        sorted_by_recency(r),
        stable_arrangement(r, s, perm),
        0 <= pos <= r.len(),
        forall|q: int| 0 <= q < pos ==> key_before(#[trigger] sort_key(r[q]), sort_key(x)),
        pos < r.len() ==> !key_before(sort_key(r[pos]), sort_key(x)),
    ensures
        sorted_by_recency(r.insert(pos, x)),
        stable_arrangement(r.insert(pos, x), s.push(x), perm.insert(pos, s.len() as int)),
{
    let kx = sort_key(x);
    assert forall|q: int| pos <= q < r.len() implies key_before(kx, #[trigger] sort_key(r[q]))
        && sort_key(r[q]) != kx by {
        lemma_key_order(sort_key(r[pos]), sort_key(r[q]), kx);
        lemma_key_order(kx, sort_key(r[q]), kx);
        if q > pos {
            assert(key_before(sort_key(r[pos]), sort_key(r[q])));
        }
    }
    let r2 = r.insert(pos, x);
    let s2 = s.push(x);
    let p2 = perm.insert(pos, s.len() as int);
    assert forall|i: int, j: int| 0 <= i < j < r2.len() implies key_before(
        sort_key(#[trigger] r2[i]),
        sort_key(#[trigger] r2[j]),
    ) by {
        if i < pos && j < pos {
            assert(r2[i] == r[i] && r2[j] == r[j]);
        } else if i < pos && j == pos {
            assert(r2[i] == r[i]);
        } else if i < pos {
            assert(r2[i] == r[i] && r2[j] == r[j - 1]);
        } else if i == pos {
            assert(r2[j] == r[j - 1]);
        } else {
            assert(r2[i] == r[i - 1] && r2[j] == r[j - 1]);
        }
    }
    assert forall|k: int| #![trigger p2[k]] 0 <= k < p2.len() implies 0 <= p2[k] < s2.len()
        && r2[k] == s2[p2[k]] by {
        if k < pos {
            assert(p2[k] == perm[k]);
        } else if k > pos {
            assert(p2[k] == perm[k - 1]);
        }
    }
    assert forall|k: int, l: int| #![trigger p2[k], p2[l]] 0 <= k < l < p2.len() implies p2[k]
        != p2[l] && (sort_key(r2[k]) == sort_key(r2[l]) ==> p2[k] < p2[l]) by {
        if k < pos && l < pos {
            assert(p2[k] == perm[k] && p2[l] == perm[l]);
        } else if k < pos && l == pos {
            assert(p2[k] == perm[k]);
        } else if k < pos {
            assert(p2[k] == perm[k] && p2[l] == perm[l - 1]);
            assert(r2[k] == r[k] && r2[l] == r[l - 1]);
        } else if k == pos {
            assert(p2[l] == perm[l - 1]);
            assert(r2[l] == r[l - 1]);
        } else {
            assert(p2[k] == perm[k - 1] && p2[l] == perm[l - 1]);
            assert(r2[k] == r[k - 1] && r2[l] == r[l - 1]);
        }
    }
}

/// Whether key `a` may come before key `b`.
fn key_before_exec(a: &(u64, Vec<char>), b: &(u64, Vec<char>)) -> (before: bool)
    ensures
        before == key_before((a.0, a.1@), (b.0, b.1@)),
{
    a.0 > b.0 || (a.0 == b.0 && text_le_exec(&a.1, &b.1))
}

/// Sorts windows by descending focus number, then by lowercase title;
/// windows with equal keys keep their order.
pub fn sort_items(items: &mut Vec<WindowData>)
    ensures
        windows_view(final(items)@) == stable_sort(windows_view(old(items)@)),
        stably_sorted_from(windows_view(final(items)@), windows_view(old(items)@)),
{
    let ghost orig = windows_view(old(items)@);
    let mut src: Vec<WindowData> = Vec::new();
    std::mem::swap(items, &mut src);
    let n = src.len();
    let mut out: Vec<WindowData> = Vec::new();
    let mut keys: Vec<(u64, Vec<char>)> = Vec::new();
    let ghost mut perm: Seq<int> = Seq::empty();
    let mut i: usize = 0;
    assert(windows_view(src@) =~= orig.subrange(0, n as int));
    assert(stable_arrangement(windows_view(out@), orig.take(0), perm));
    while i < n
        invariant
            n == orig.len(),
            i <= n,
            windows_view(src@) == orig.subrange(i as int, n as int),
            src@.len() == n - i,
            keys@.len() == out@.len(),
            forall|k: int|
                #![trigger keys@[k]]
                0 <= k < keys@.len() ==> (keys@[k].0, keys@[k].1@) == sort_key(out@[k]@),
            sorted_by_recency(windows_view(out@)),
            stable_arrangement(windows_view(out@), orig.take(i as int), perm),
            windows_view(out@) == stable_sort(orig.take(i as int)),
        decreases n - i,
    {
        let ghost before = windows_view(out@);
        let ghost src_before = src@;
        assert(windows_view(src@)[0] == src@[0]@);
        let x = src.remove(0);
        assert forall|k: int| 0 <= k < src@.len() implies #[trigger] windows_view(src@)[k]
            == orig.subrange(i as int + 1, n as int)[k] by {
            assert(src@[k] == src_before[k + 1]);
            assert(windows_view(src_before)[k + 1] == orig.subrange(i as int, n as int)[k + 1]);
        }
        assert(x@ == orig[i as int]);
        assert(windows_view(src@) =~= orig.subrange(i as int + 1, n as int));
        let key = (x.last_focus_seq, lowercase_chars(x.title.as_str()));
        assert((key.0, key.1@) == sort_key(x@));
        let mut p: usize = 0;
        while p < keys.len() && key_before_exec(&keys[p], &key)
            invariant
                p <= keys@.len(),
                keys@.len() == out@.len(),
                before == windows_view(out@),
                (key.0, key.1@) == sort_key(x@),
                forall|k: int|
                    #![trigger keys@[k]]
                    0 <= k < keys@.len() ==> (keys@[k].0, keys@[k].1@) == sort_key(out@[k]@),
                forall|q: int| 0 <= q < p ==> key_before(#[trigger] sort_key(before[q]), sort_key(x@)),
            decreases keys@.len() - p,
        {
            assert(sort_key(before[p as int]) == (keys@[p as int].0, keys@[p as int].1@));
            p = p + 1;
        }
        proof {
            if p < keys@.len() {
                assert(sort_key(before[p as int]) == (keys@[p as int].0, keys@[p as int].1@));
            }
            lemma_insert_sorted(before, orig.take(i as int), perm, x@, p as int);
            lemma_insert_pos(before, x@, p as int);
            assert(orig.take(i as int + 1).drop_last() =~= orig.take(i as int));
            perm = perm.insert(p as int, i as int);
        }
        out.insert(p, x);
        keys.insert(p, key);
        assert(windows_view(out@) =~= before.insert(p as int, x@));
        assert(orig.take(i as int).push(orig[i as int]) =~= orig.take(i as int + 1));
        assert forall|k: int|
            #![trigger keys@[k]]
            0 <= k < keys@.len() implies (keys@[k].0, keys@[k].1@) == sort_key(out@[k]@) by {
        }
        i = i + 1;
    }
    assert(orig.take(n as int) =~= orig);
    *items = out;
    assert(stable_arrangement(windows_view(items@), orig, perm));
}

} // verus!

//! The order book: one price-sorted side for asks, one for bids, with
//! snapshot replace, delta apply, best-price reads and the wall scan.

use vstd::prelude::*;

use crate::filter::Config;

verus! {

/// Which side of the order book is addressed.
#[derive(Clone, Copy, PartialEq, Eq, Structural, Debug)]
pub enum BookSide {
    Bid,
    Ask,
}

/// One resting level: a price and the size resting at that price.
///
/// A size of zero is the remove sentinel of the delta feed ("delete this
/// price"); levels stored in a book side always have a positive size.
#[derive(Clone, Copy, PartialEq, Eq, Structural, Debug)]
pub struct Book {
    pub size: u64,
    pub price: i64,
}

impl Book {
    pub fn new(size: u64, price: i64) -> (b: Book)
        ensures
            b.size == size,
            b.price == price,
    {
        Book { size, price }
    }

    /// The delta feed marks a level for deletion by a zero size.
    pub open spec fn spec_is_remove(self) -> bool {
        self.size == 0
    }

    fn is_remove(&self) -> (r: bool)
        ensures
            r == self.spec_is_remove(),
    {
        self.size == 0
    }

    pub open spec fn spec_is_zero(self) -> bool {
        self.size == 0 || self.price == 0
    }

    fn is_zero(&self) -> (r: bool)
        ensures
            r == self.spec_is_zero(),
    {
        self.size == 0 || self.price == 0
    }
}

/// Well-formedness of one book side: strictly ascending prices (so each
/// price appears at most once), no zero price, no zero size.
pub open spec fn side_wf(s: Seq<Book>) -> bool {
    &&& forall|i: int, j: int| 0 <= i < j < s.len() ==> s[i].price < s[j].price
    &&& forall|i: int| 0 <= i < s.len() ==> s[i].price != 0 && s[i].size > 0
}

/// The mathematical content of one side: the finite map from price to size.
pub open spec fn side_map(s: Seq<Book>) -> Map<i64, u64>
    decreases s.len(),
{
    if s.len() == 0 {
        Map::empty()
    } else {
        side_map(s.drop_last()).insert(s.last().price, s.last().size)
    }
}

/// One step of the delta feed: a zero size deletes the price, anything else
/// upserts it. A zero price never denotes a real level and is ignored, which
/// keeps the side invariant that no stored price is zero.
pub open spec fn apply_level(m: Map<i64, u64>, b: Book) -> Map<i64, u64> {
    if b.size == 0 {
        m.remove(b.price)
    } else if b.price == 0 {
        m
    } else {
        m.insert(b.price, b.size)
    }
}

/// A whole delta batch, applied first to last.
pub open spec fn apply_levels(m: Map<i64, u64>, l: Seq<Book>) -> Map<i64, u64>
    decreases l.len(),
{
    if l.len() == 0 {
        m
    } else {
        apply_level(apply_levels(m, l.drop_last()), l.last())
    }
}

/// On a well-formed side, `side_map` is exactly "the price occurs in the
/// sequence", and it stores each level's size under its price.
pub proof fn lemma_side_map_index(s: Seq<Book>)
    requires
        side_wf(s),
    ensures
        forall|p: i64|
            #[trigger] side_map(s).dom().contains(p) <==> exists|i: int|
                0 <= i < s.len() && s[i].price == p,
        forall|i: int|
            0 <= i < s.len() ==> side_map(s).dom().contains(#[trigger] s[i].price) && side_map(
                s,
            )[s[i].price] == s[i].size,
    decreases s.len(),
{
    if s.len() > 0 {
        let pre = s.drop_last();
        assert(side_wf(pre)) by {
            assert(forall|i: int| 0 <= i < pre.len() ==> pre[i] == s[i]);
        }
        lemma_side_map_index(pre);
        let last = s.last();
        assert forall|p: i64| #[trigger] side_map(s).dom().contains(p) implies exists|i: int|
            0 <= i < s.len() && s[i].price == p by {
            if p == last.price {
                assert(s[s.len() - 1].price == p);
            } else {
                assert(side_map(pre).dom().contains(p));
                let i = choose|i: int| 0 <= i < pre.len() && pre[i].price == p;
                assert(pre[i] == s[i]);
                assert(s[i].price == p);
            }
        }
        assert forall|p: i64|
            (exists|i: int| 0 <= i < s.len() && s[i].price == p) implies side_map(
            s,
        ).dom().contains(p) by {
            let i = choose|i: int| 0 <= i < s.len() && s[i].price == p;
            if i < s.len() - 1 {
                assert(pre[i].price == p);
            }
        }
        assert forall|i: int| 0 <= i < s.len() implies side_map(s).dom().contains(
            #[trigger] s[i].price,
        ) && side_map(s)[s[i].price] == s[i].size by {
            if i < s.len() - 1 {
                assert(pre[i] == s[i]);
                // strict sortedness separates every earlier price from the last
                assert(s[i].price < last.price);
            }
        }
    }
}

/// Index of the first level at or above `price` on a sorted side.
fn side_lower_bound(v: &Vec<Book>, price: i64) -> (i: usize)
    requires
        side_wf(v@),
    ensures
        i <= v@.len(),
        forall|j: int| 0 <= j < i ==> v@[j].price < price,
        forall|j: int| i <= j < v@.len() ==> v@[j].price >= price,
{
    let mut lo: usize = 0;
    let mut hi: usize = v.len();
    while lo < hi
        invariant
            lo <= hi <= v@.len(),
            side_wf(v@),
            forall|j: int| 0 <= j < lo ==> v@[j].price < price,
            forall|j: int| hi <= j < v@.len() ==> v@[j].price >= price,
        decreases hi - lo,
    {
        let mid: usize = lo + (hi - lo) / 2;
        if v[mid].price < price {
            assert forall|j: int| 0 <= j < mid + 1 implies v@[j].price < price by {
                if j < mid {
                    assert(v@[j].price < v@[mid as int].price);
                }
            }
            lo = mid + 1;
        } else {
            assert forall|j: int| mid <= j < v@.len() implies v@[j].price >= price by {
                if j > mid {
                    assert(v@[mid as int].price < v@[j].price);
                }
            }
            hi = mid;
        }
    }
    lo
}

/// Insert or overwrite one level, keeping the side sorted.
fn side_upsert(v: &mut Vec<Book>, b: Book)
    requires
        side_wf(old(v)@),
        b.size > 0,
        b.price != 0,
    ensures
        side_wf(final(v)@),
        side_map(final(v)@) == side_map(old(v)@).insert(b.price, b.size),
{
    let ghost s0 = v@;
    let i = side_lower_bound(v, b.price);
    if i < v.len() && v[i].price == b.price {
        v[i] = b;
        assert(side_wf(v@)) by {
            assert(forall|k: int| 0 <= k < v@.len() ==> v@[k].price == s0[k].price);
        }
        proof {
            lemma_side_map_index(s0);
            lemma_side_map_index(v@);
            let m1 = side_map(v@);
            let m2 = side_map(s0).insert(b.price, b.size);
            assert forall|p: i64| m1.dom().contains(p) implies m2.dom().contains(p) && m1[p]
                == m2[p] by {
                let k = choose|k: int| 0 <= k < v@.len() && v@[k].price == p;
                assert(s0[k].price == p);
                if p != b.price {
                    assert(k != i);
                    assert(v@[k] == s0[k]);
                } else {
                    assert(k == i) by {
                        if k != i {
                            assert(s0[k].price != s0[i as int].price);
                        }
                    }
                }
            }
            assert forall|p: i64| m2.dom().contains(p) implies m1.dom().contains(p) by {
                if p == b.price {
                    assert(v@[i as int].price == p);
                } else {
                    let k = choose|k: int| 0 <= k < s0.len() && s0[k].price == p;
                    assert(v@[k].price == p);
                }
            }
            assert(m1 =~= m2);
        }
    } else {
        // every earlier price is below b.price, every later one strictly above
        assert forall|j: int| i <= j < s0.len() implies s0[j].price > b.price by {
            if j > i {
                assert(s0[i as int].price < s0[j].price);
            }
        }
        v.insert(i, b);
        assert(side_wf(v@)) by {
            assert(forall|k: int| 0 <= k < i ==> v@[k] == s0[k]);
            assert(v@[i as int] == b);
            assert(forall|k: int| i < k < v@.len() ==> v@[k] == s0[k - 1]);
        }
        proof {
            lemma_side_map_index(s0);
            lemma_side_map_index(v@);
            let m1 = side_map(v@);
            let m2 = side_map(s0).insert(b.price, b.size);
            assert forall|p: i64| m1.dom().contains(p) implies m2.dom().contains(p) && m1[p]
                == m2[p] by {
                let k = choose|k: int| 0 <= k < v@.len() && v@[k].price == p;
                if p == b.price {
                    assert(k == i) by {
                        if k < i {
                            assert(v@[k] == s0[k]);
                        }
                        if k > i {
                            assert(v@[k] == s0[k - 1]);
                        }
                    }
                } else {
                    assert(k != i);
                    if k < i {
                        assert(s0[k].price == p);
                        assert(s0[k].size == v@[k].size);
                    } else {
                        assert(s0[k - 1].price == p);
                        assert(s0[k - 1].size == v@[k].size);
                    }
                }
            }
            assert forall|p: i64| m2.dom().contains(p) implies m1.dom().contains(p) by {
                if p == b.price {
                    assert(v@[i as int].price == p);
                } else {
                    let k = choose|k: int| 0 <= k < s0.len() && s0[k].price == p;
                    if k < i {
                        assert(v@[k].price == p);
                    } else {
                        assert(v@[k + 1].price == p);
                    }
                }
            }
            assert(m1 =~= m2);
        }
    }
}

/// Delete one price if present.
fn side_remove(v: &mut Vec<Book>, price: i64)
    requires
        side_wf(old(v)@),
    ensures
        side_wf(final(v)@),
        side_map(final(v)@) == side_map(old(v)@).remove(price),
{
    let ghost s0 = v@;
    let i = side_lower_bound(v, price);
    if i < v.len() && v[i].price == price {
        v.remove(i);
        assert(side_wf(v@)) by {
            assert(forall|k: int| 0 <= k < i ==> v@[k] == s0[k]);
            assert(forall|k: int| i <= k < v@.len() ==> v@[k] == s0[k + 1]);
        }
        proof {
            lemma_side_map_index(s0);
            lemma_side_map_index(v@);
            let m1 = side_map(v@);
            let m2 = side_map(s0).remove(price);
            assert forall|p: i64| m1.dom().contains(p) implies m2.dom().contains(p) && m1[p]
                == m2[p] by {
                let k = choose|k: int| 0 <= k < v@.len() && v@[k].price == p;
                if k < i {
                    assert(s0[k].price == p && s0[k].size == v@[k].size);
                    assert(p < price);
                } else {
                    assert(s0[k + 1].price == p && s0[k + 1].size == v@[k].size);
                    assert(s0[i as int].price < s0[k + 1].price);
                }
            }
            assert forall|p: i64| m2.dom().contains(p) implies m1.dom().contains(p) by {
                let k = choose|k: int| 0 <= k < s0.len() && s0[k].price == p;
                assert(k != i);
                if k < i {
                    assert(v@[k].price == p);
                } else {
                    assert(v@[k - 1].price == p);
                }
            }
            assert(m1 =~= m2);
        }
    } else {
        proof {
            lemma_side_map_index(s0);
            assert forall|j: int| 0 <= j < s0.len() implies s0[j].price != price by {
                if j >= i && i < s0.len() {
                    if j > i {
                        assert(s0[i as int].price < s0[j].price);
                    }
                }
            }
            assert(!side_map(s0).dom().contains(price));
            assert(side_map(s0) =~= side_map(s0).remove(price));
        }
    }
}

/// The book-side invariant, read off the map: every stored entry sits under
/// its own price as key, no stored price is zero, and no stored size is
/// zero (sizes are unsigned, so a never-`NaN`, positive size).
pub proof fn lemma_side_invariant(s: Seq<Book>)
    requires
        side_wf(s),
    ensures
        forall|p: i64|
            #[trigger] side_map(s).dom().contains(p) ==> p != 0 && side_map(s)[p] > 0,
        forall|i: int|
            0 <= i < s.len() ==> side_map(s).dom().contains(#[trigger] s[i].price) && side_map(
                s,
            )[s[i].price] == s[i].size,
{
    lemma_side_map_index(s);
    assert forall|p: i64| #[trigger] side_map(s).dom().contains(p) implies p != 0 && side_map(
        s,
    )[p] > 0 by {
        let i = choose|i: int| 0 <= i < s.len() && s[i].price == p;
        assert(side_map(s)[s[i].price] == s[i].size);
    }
}

/// Applying a concatenated batch is applying the two batches in turn: a
/// snapshot of `a` followed by a delta of `b` leaves the same map as a
/// snapshot built from `a` with `b` already applied.
pub proof fn lemma_apply_levels_append(m: Map<i64, u64>, a: Seq<Book>, b: Seq<Book>)
    ensures
        apply_levels(m, a + b) == apply_levels(apply_levels(m, a), b),
    decreases b.len(),
{
    if b.len() == 0 {
        assert(a + b =~= a);
    } else {
        lemma_apply_levels_append(m, a, b.drop_last());
        assert((a + b).drop_last() =~= a + b.drop_last());
        assert((a + b).last() == b.last());
    }
}

/// A batch of upserts at one price leaves exactly the last of them: the
/// later entry of a delta always wins.
pub proof fn lemma_apply_levels_last_wins(m: Map<i64, u64>, l: Seq<Book>, p: i64)
    requires
        l.len() > 0,
        p != 0,
        forall|i: int| 0 <= i < l.len() ==> l[i].price == p && l[i].size != 0,
    ensures
        apply_levels(m, l).dom().contains(p),
        apply_levels(m, l)[p] == l.last().size,
{
    assert(l.last() == l[l.len() - 1]);
}

/// The keys a batch applied to the empty map can produce are the batch's own
/// non-remove prices; with distinct prices each keeps its own size.
proof fn lemma_apply_levels_distinct(l: Seq<Book>)
    requires
        forall|i: int, j: int| 0 <= i < j < l.len() ==> l[i].price != l[j].price,
        forall|i: int| 0 <= i < l.len() ==> l[i].price != 0,
    ensures
        forall|p: i64|
            #[trigger] apply_levels(Map::<i64, u64>::empty(), l).dom().contains(p) <==> exists|
                i: int,
            | 0 <= i < l.len() && l[i].price == p && l[i].size != 0,
        forall|i: int|
            0 <= i < l.len() && l[i].size != 0 ==> apply_levels(
                Map::<i64, u64>::empty(),
                l,
            ).dom().contains(#[trigger] l[i].price) && apply_levels(Map::<i64, u64>::empty(), l)[l[i].price]
                == l[i].size,
    decreases l.len(),
{
    if l.len() > 0 {
        let pre = l.drop_last();
        assert(forall|i: int| 0 <= i < pre.len() ==> pre[i] == l[i]);
        lemma_apply_levels_distinct(pre);
        let b = l.last();
        let m0 = apply_levels(Map::<i64, u64>::empty(), pre);
        let m = apply_levels(Map::<i64, u64>::empty(), l);
        assert(m == apply_level(m0, b));
        assert(!m0.dom().contains(b.price)) by {
            if m0.dom().contains(b.price) {
                let i = choose|i: int| 0 <= i < pre.len() && pre[i].price == b.price && pre[i].size
                    != 0;
                assert(l[i].price != l[l.len() - 1].price);
            }
        }
        assert forall|p: i64| #[trigger] m.dom().contains(p) implies exists|i: int|
            0 <= i < l.len() && l[i].price == p && l[i].size != 0 by {
            if p == b.price {
                assert(l[l.len() - 1].price == p && l[l.len() - 1].size != 0);
            } else {
                assert(m0.dom().contains(p));
                let i = choose|i: int| 0 <= i < pre.len() && pre[i].price == p && pre[i].size != 0;
                assert(l[i].price == p && l[i].size != 0);
            }
        }
        assert forall|p: i64|
            (exists|i: int| 0 <= i < l.len() && l[i].price == p && l[i].size != 0) implies m.dom().contains(
            p,
        ) by {
            let i = choose|i: int| 0 <= i < l.len() && l[i].price == p && l[i].size != 0;
            if i < l.len() - 1 {
                assert(pre[i].price == p && pre[i].size != 0);
                assert(p != b.price);
            }
        }
        assert forall|i: int| 0 <= i < l.len() && l[i].size != 0 implies m.dom().contains(
            #[trigger] l[i].price,
        ) && m[l[i].price] == l[i].size by {
            if i < l.len() - 1 {
                assert(pre[i] == l[i]);
                assert(l[i].price != b.price);
            }
        }
    }
}

/// After a snapshot `replace(side, l)` whose levels carry distinct non-zero
/// prices, walking that side yields exactly the non-remove entries of `l`,
/// in ascending price order: `s` here is any sequence with the snapshot's
/// map — the side the book actually stores — and it contains a level if and
/// only if the batch carried it with a positive size.
pub proof fn lemma_replace_exact(l: Seq<Book>, s: Seq<Book>)
    requires
        side_wf(s),
        side_map(s) == apply_levels(Map::<i64, u64>::empty(), l),
        forall|i: int, j: int| 0 <= i < j < l.len() ==> l[i].price != l[j].price,
        forall|i: int| 0 <= i < l.len() ==> l[i].price != 0,
    ensures
        forall|b: Book| #[trigger] s.contains(b) <==> l.contains(b) && b.size > 0,
        forall|i: int, j: int| 0 <= i < j < s.len() ==> s[i].price < s[j].price,
{
    lemma_side_map_index(s);
    lemma_apply_levels_distinct(l);
    let m = side_map(s);
    assert forall|b: Book| #[trigger] s.contains(b) implies l.contains(b) && b.size > 0 by {
        let k = choose|k: int| 0 <= k < s.len() && s[k] == b;
        assert(m.dom().contains(s[k].price) && m[s[k].price] == s[k].size);
        let i = choose|i: int| 0 <= i < l.len() && l[i].price == b.price && l[i].size != 0;
        assert(m[l[i].price] == l[i].size);
        assert(l[i] == b);
    }
    assert forall|b: Book| l.contains(b) && b.size > 0 implies #[trigger] s.contains(b) by {
        let i = choose|i: int| 0 <= i < l.len() && l[i] == b;
        assert(m.dom().contains(l[i].price) && m[l[i].price] == l[i].size);
        let k = choose|k: int| 0 <= k < s.len() && s[k].price == b.price;
        assert(m[s[k].price] == s[k].size);
        assert(s[k] == b);
    }
}

/// A well-formed side is determined by its map: two snapshots of the same
/// levels store bit-for-bit the same side, and a replay of the same feed
/// rebuilds the identical book.
pub proof fn lemma_side_canonical(s1: Seq<Book>, s2: Seq<Book>)
    requires
        side_wf(s1),
        side_wf(s2),
        side_map(s1) == side_map(s2),
    ensures
        s1 == s2,
    decreases s1.len(),
{
    lemma_side_map_index(s1);
    lemma_side_map_index(s2);
    if s1.len() == 0 {
        if s2.len() > 0 {
            assert(side_map(s2).dom().contains(s2[0].price));
            assert(side_map(s1).dom().contains(s2[0].price));
        }
        assert(s1 =~= s2);
    } else {
        assert(s2.len() > 0) by {
            assert(side_map(s1).dom().contains(s1[0].price));
        }
        let b1 = s1.last();
        let b2 = s2.last();
        assert(b1 == b2) by {
            assert(side_map(s2).dom().contains(b1.price));
            let j = choose|j: int| 0 <= j < s2.len() && s2[j].price == b1.price;
            assert(s2[j].price <= b2.price) by {
                if j < s2.len() - 1 {
                    assert(s2[j].price < s2[s2.len() - 1].price);
                }
            }
            assert(side_map(s1).dom().contains(b2.price));
            let i = choose|i: int| 0 <= i < s1.len() && s1[i].price == b2.price;
            assert(s1[i].price <= b1.price) by {
                if i < s1.len() - 1 {
                    assert(s1[i].price < s1[s1.len() - 1].price);
                }
            }
            assert(b1.price == b2.price);
            assert(side_map(s1)[b1.price] == b1.size);
            assert(side_map(s2)[b2.price] == b2.size);
        }
        let pre1 = s1.drop_last();
        let pre2 = s2.drop_last();
        assert(forall|i: int| 0 <= i < pre1.len() ==> pre1[i] == s1[i]);
        assert(forall|i: int| 0 <= i < pre2.len() ==> pre2[i] == s2[i]);
        assert(side_wf(pre1));
        assert(side_wf(pre2));
        lemma_side_map_index(pre1);
        lemma_side_map_index(pre2);
        assert(!side_map(pre1).dom().contains(b1.price)) by {
            if side_map(pre1).dom().contains(b1.price) {
                let i = choose|i: int| 0 <= i < pre1.len() && pre1[i].price == b1.price;
                assert(s1[i].price < s1[s1.len() - 1].price);
            }
        }
        assert(!side_map(pre2).dom().contains(b2.price)) by {
            if side_map(pre2).dom().contains(b2.price) {
                let i = choose|i: int| 0 <= i < pre2.len() && pre2[i].price == b2.price;
                assert(s2[i].price < s2[s2.len() - 1].price);
            }
        }
        assert(side_map(pre1) =~= side_map(pre2)) by {
            assert(side_map(s1) == side_map(pre1).insert(b1.price, b1.size));
            assert(side_map(s2) == side_map(pre2).insert(b1.price, b1.size));
            assert forall|p: i64| side_map(pre1).dom().contains(p) implies side_map(
                pre2,
            ).dom().contains(p) && side_map(pre1)[p] == side_map(pre2)[p] by {
                assert(p != b1.price);
                assert(side_map(s1).dom().contains(p));
            }
            assert forall|p: i64| side_map(pre2).dom().contains(p) implies side_map(
                pre1,
            ).dom().contains(p) by {
                assert(p != b1.price);
                assert(side_map(s2).dom().contains(p));
            }
        }
        lemma_side_canonical(pre1, pre2);
        assert(s1 =~= s2);
    }
}

/// Apply a whole batch of levels to one side, first to last.
fn side_apply(v: &mut Vec<Book>, books: &Vec<Book>)
    requires
        side_wf(old(v)@),
    ensures
        side_wf(final(v)@),
        side_map(final(v)@) == apply_levels(side_map(old(v)@), books@),
{
    let ghost m0 = side_map(v@);
    let mut k: usize = 0;
    while k < books.len()
        invariant
            side_wf(v@),
            k <= books@.len(),
            side_map(v@) == apply_levels(m0, books@.take(k as int)),
        decreases books@.len() - k,
    {
        let b = books[k];
        proof {
            assert(books@.take(k as int + 1).drop_last() =~= books@.take(k as int));
            assert(books@.take(k as int + 1).last() == books@[k as int]);
        }
        if b.is_remove() {
            side_remove(v, b.price);
        } else if b.price != 0 {
            side_upsert(v, b);
        }
        k += 1;
    }
    proof {
        assert(books@.take(books@.len() as int) =~= books@);
    }
}

/// The side addressed by `side`, and the one it leaves alone.
pub open spec fn other_side(side: BookSide) -> BookSide {
    match side {
        BookSide::Ask => BookSide::Bid,
        BookSide::Bid => BookSide::Ask,
    }
}

/// The best price of a side: smallest for asks, largest for bids, zero when
/// the side is empty.
pub open spec fn side_best(s: Seq<Book>, side: BookSide) -> i64 {
    if s.len() == 0 {
        0
    } else {
        match side {
            BookSide::Ask => s[0].price,
            BookSide::Bid => s[s.len() - 1].price,
        }
    }
}

/// What `(price, found)` coming back from a wall scan of side `s` means:
/// `found` exactly when a wall is resting on `s`, and then `price` is the
/// price of a wall on `s` and the best such price — smallest for asks,
/// largest for bids. Without a hit the price is zero.
pub open spec fn scan_ok(s: Seq<Book>, cfg: Config, own: Option<i64>, r: (i64, bool)) -> bool {
    &&& r.1 <==> exists|i: int| 0 <= i < s.len() && cfg.spec_is_wall(own, s[i])
    &&& r.1 ==> exists|i: int|
        0 <= i < s.len() && s[i].price == r.0 && cfg.spec_is_wall(own, s[i])
    &&& r.1 ==> forall|i: int|
        0 <= i < s.len() && cfg.spec_is_wall(own, s[i]) ==> match cfg.side {
            BookSide::Ask => r.0 <= s[i].price,
            BookSide::Bid => r.0 >= s[i].price,
        }
    &&& !r.1 ==> r.0 == 0
}

/// The order book: two price-sorted sides and the time of the last update.
#[derive(Clone, Debug)]
pub struct Orderboard {
    ask: Vec<Book>,
    bid: Vec<Book>,
    update_at: i64,
}

impl Orderboard {
    /// The ask side, best (smallest) price first.
    pub closed spec fn asks(self) -> Seq<Book> {
        self.ask@
    }

    /// The bid side in ascending price order; the best bid is the last entry.
    pub closed spec fn bids(self) -> Seq<Book> {
        self.bid@
    }

    /// The timestamp recorded by the last `update_at` call.
    pub closed spec fn spec_update_at(self) -> i64 {
        self.update_at
    }

    pub open spec fn side_seq(self, side: BookSide) -> Seq<Book> {
        match side {
            BookSide::Ask => self.asks(),
            BookSide::Bid => self.bids(),
        }
    }

    /// Both sides keep the book invariant: ascending unique prices, no zero
    /// price, no zero size.
    pub open spec fn wf(self) -> bool {
        side_wf(self.asks()) && side_wf(self.bids())
    }

    pub fn new() -> (b: Orderboard)
        ensures
            b.wf(),
            b.asks() == Seq::<Book>::empty(),
            b.bids() == Seq::<Book>::empty(),
            b.spec_update_at() == 0,
    {
        Orderboard { ask: Vec::new(), bid: Vec::new(), update_at: 0 }
    }

    /// A copy of the ask side.
    pub fn ask(&self) -> (r: Vec<Book>)
        ensures
            r@ == self.asks(),
    {
        let mut out: Vec<Book> = Vec::new();
        let mut k: usize = 0;
        while k < self.ask.len()
            invariant
                k <= self.ask@.len(),
                out@ == self.ask@.take(k as int),
            decreases self.ask@.len() - k,
        {
            out.push(self.ask[k]);
            proof {
                assert(self.ask@.take(k as int + 1) =~= self.ask@.take(k as int).push(
                    self.ask@[k as int],
                ));
            }
            k += 1;
        }
        proof {
            assert(self.ask@.take(self.ask@.len() as int) =~= self.ask@);
        }
        out
    }

    /// A copy of the bid side.
    pub fn bid(&self) -> (r: Vec<Book>)
        ensures
            r@ == self.bids(),
    {
        let mut out: Vec<Book> = Vec::new();
        let mut k: usize = 0;
        while k < self.bid.len()
            invariant
                k <= self.bid@.len(),
                out@ == self.bid@.take(k as int),
            decreases self.bid@.len() - k,
        {
            out.push(self.bid[k]);
            proof {
                assert(self.bid@.take(k as int + 1) =~= self.bid@.take(k as int).push(
                    self.bid@[k as int],
                ));
            }
            k += 1;
        }
        proof {
            assert(self.bid@.take(self.bid@.len() as int) =~= self.bid@);
        }
        out
    }

    pub fn len(&self) -> (r: (usize, usize))
        ensures
            r.0 == self.asks().len(),
            r.1 == self.bids().len(),
    {
        (self.ask.len(), self.bid.len())
    }

    /// Best ask and best bid, zero for an empty side.
    pub fn best_prices(&self) -> (r: (i64, i64))
        ensures
            r.0 == side_best(self.asks(), BookSide::Ask),
            r.1 == side_best(self.bids(), BookSide::Bid),
    {
        let ask_price: i64 = if self.ask.len() == 0 {
            0
        } else {
            self.ask[0].price
        };
        let bid_price: i64 = if self.bid.len() == 0 {
            0
        } else {
            self.bid[self.bid.len() - 1].price
        };
        (ask_price, bid_price)
    }

    /// Best price of one side; on a well-formed book it bounds every level
    /// of that side.
    pub fn best(&self, target_side: BookSide) -> (r: i64)
        ensures
            r == side_best(self.side_seq(target_side), target_side),
            self.wf() && self.side_seq(target_side).len() > 0 ==> match target_side {
                BookSide::Ask => forall|i: int|
                    0 <= i < self.asks().len() ==> r <= self.asks()[i].price,
                BookSide::Bid => forall|i: int|
                    0 <= i < self.bids().len() ==> r >= self.bids()[i].price,
            },
    {
        match target_side {
            BookSide::Ask => {
                if self.ask.len() == 0 {
                    0
                } else {
                    self.ask[0].price
                }
            },
            BookSide::Bid => {
                if self.bid.len() == 0 {
                    0
                } else {
                    self.bid[self.bid.len() - 1].price
                }
            },
        }
    }

    /// Record the wall-clock instant of the latest book change, as handed in
    /// by the caller.
    pub fn update_at(&mut self, now: i64) -> (r: i64)
        ensures
            final(self).asks() == old(self).asks(),
            final(self).bids() == old(self).bids(),
            final(self).spec_update_at() == now,
            r == now,
    {
        self.update_at = now;
        self.update_at
    }

    /// Snapshot replace: the named side is rebuilt from `book` alone.
    pub fn replace(&mut self, target_side: BookSide, book: Vec<Book>)
        requires
            old(self).wf(),
        ensures
            final(self).wf(),
            side_map(final(self).side_seq(target_side)) == apply_levels(
                Map::<i64, u64>::empty(),
                book@,
            ),
            final(self).side_seq(other_side(target_side)) == old(self).side_seq(
                other_side(target_side),
            ),
            final(self).spec_update_at() == old(self).spec_update_at(),
    {
        match target_side {
            BookSide::Ask => self.replace_ask(book),
            BookSide::Bid => self.replace_bid(book),
        }
    }

    pub fn replace_ask(&mut self, ask: Vec<Book>)
        ensures
            final(self).wf() == side_wf(old(self).bids()) && side_wf(final(self).asks()),
            side_map(final(self).asks()) == apply_levels(Map::<i64, u64>::empty(), ask@),
            final(self).bids() == old(self).bids(),
            final(self).spec_update_at() == old(self).spec_update_at(),
    {
        self.ask = Vec::new();
        side_apply(&mut self.ask, &ask);
    }

    pub fn replace_bid(&mut self, bid: Vec<Book>)
        ensures
            final(self).wf() == side_wf(old(self).asks()) && side_wf(final(self).bids()),
            side_map(final(self).bids()) == apply_levels(Map::<i64, u64>::empty(), bid@),
            final(self).asks() == old(self).asks(),
            final(self).spec_update_at() == old(self).spec_update_at(),
    {
        self.bid = Vec::new();
        side_apply(&mut self.bid, &bid);
    }

    /// Delta apply: delete each remove-sentinel price, upsert the rest, in
    /// batch order.
    pub fn update_delta(&mut self, target_side: BookSide, books: Vec<Book>)
        requires
            old(self).wf(),
        ensures
            final(self).wf(),
            side_map(final(self).side_seq(target_side)) == apply_levels(
                side_map(old(self).side_seq(target_side)),
                books@,
            ),
            final(self).side_seq(other_side(target_side)) == old(self).side_seq(
                other_side(target_side),
            ),
            final(self).spec_update_at() == old(self).spec_update_at(),
    {
        match target_side {
            BookSide::Ask => side_apply(&mut self.ask, &books),
            BookSide::Bid => side_apply(&mut self.bid, &books),
        }
    }

    /// A delta of a single level.
    pub fn push(&mut self, target_side: BookSide, book: Book)
        requires
            old(self).wf(),
        ensures
            final(self).wf(),
            side_map(final(self).side_seq(target_side)) == apply_level(
                side_map(old(self).side_seq(target_side)),
                book,
            ),
            final(self).side_seq(other_side(target_side)) == old(self).side_seq(
                other_side(target_side),
            ),
            final(self).spec_update_at() == old(self).spec_update_at(),
    {
        match target_side {
            BookSide::Ask => self.push_to_ask(book),
            BookSide::Bid => self.push_to_bid(book),
        }
    }

    pub fn push_to_ask(&mut self, book: Book)
        requires
            side_wf(old(self).asks()),
        ensures
            side_wf(final(self).asks()),
            side_map(final(self).asks()) == apply_level(side_map(old(self).asks()), book),
            final(self).bids() == old(self).bids(),
            final(self).spec_update_at() == old(self).spec_update_at(),
    {
        if book.is_remove() {
            side_remove(&mut self.ask, book.price);
            return ;
        }
        if book.price != 0 {
            side_upsert(&mut self.ask, book);
        }
    }

    /// The wall scan: walk the configured side from its best price towards
    /// its worst and stop at the first level that is large, inside the band,
    /// and not the engine's own price. Returns `(price, true)` on a hit and
    /// `(0, false)` when no level qualifies, so a hit is always the
    /// best-priced wall: the smallest on the ask side, the largest on the
    /// bid side.
    pub fn target_book(&self, filter_config: &Config, prev_own_order_price: Option<i64>) -> (r: (
        i64,
        bool,
    ))
        requires
            self.wf(),
        ensures
            r.1 <==> exists|i: int|
                0 <= i < self.side_seq(filter_config.side).len() && filter_config.spec_is_wall(
                    prev_own_order_price,
                    self.side_seq(filter_config.side)[i],
                ),
            r.1 ==> exists|i: int|
                0 <= i < self.side_seq(filter_config.side).len() && self.side_seq(
                    filter_config.side,
                )[i].price == r.0 && filter_config.spec_is_wall(
                    prev_own_order_price,
                    self.side_seq(filter_config.side)[i],
                ),
            r.1 ==> forall|i: int|
                0 <= i < self.side_seq(filter_config.side).len() && filter_config.spec_is_wall(
                    prev_own_order_price,
                    self.side_seq(filter_config.side)[i],
                ) ==> match filter_config.side {
                    BookSide::Ask => r.0 <= self.side_seq(filter_config.side)[i].price,
                    BookSide::Bid => r.0 >= self.side_seq(filter_config.side)[i].price,
                },
            !r.1 ==> r.0 == 0,
    {
        match filter_config.side {
            BookSide::Ask => {
                // best ask first: ascending walk
                let mut k: usize = 0;
                while k < self.ask.len()
                    invariant
                        self.wf(),
                        filter_config.side == BookSide::Ask,
                        k <= self.asks().len(),
                        forall|j: int|
                            0 <= j < k ==> !filter_config.spec_is_wall(
                                prev_own_order_price,
                                self.asks()[j],
                            ),
                    decreases self.asks().len() - k,
                {
                    let book = self.ask[k];
                    if filter_config.is_large(&book) && filter_config.is_range(&book)
                        && !filter_config.is_excluded(&book, prev_own_order_price) {
                        // the stored price is its own key, so the
                        // key/value consistency check reduces to the zero
                        // guard, which the side invariant rules out
                        if !book.is_zero() {
                            assert forall|i: int|
                                0 <= i < self.asks().len() && filter_config.spec_is_wall(
                                    prev_own_order_price,
                                    self.asks()[i],
                                ) implies book.price <= self.asks()[i].price by {
                                if i > k {
                                    assert(self.asks()[k as int].price < self.asks()[i].price);
                                }
                            }
                            proof {
                                let s = self.side_seq(filter_config.side);
                                assert(s == self.asks());
                                assert(s[k as int] == book);
                                assert(0 <= k < s.len() && s[k as int].price == book.price
                                    && filter_config.spec_is_wall(
                                    prev_own_order_price,
                                    s[k as int],
                                ));
                            }
                            return (book.price, true);
                        } else {
                            proof {
                                assert(false);
                            }
                            return (0, false);
                        }
                    }
                    k += 1;
                }
                (0, false)
            },
            BookSide::Bid => {
                // best bid last: descending walk
                let mut k: usize = self.bid.len();
                while k > 0
                    invariant
                        self.wf(),
                        filter_config.side == BookSide::Bid,
                        k <= self.bids().len(),
                        forall|j: int|
                            k <= j < self.bids().len() ==> !filter_config.spec_is_wall(
                                prev_own_order_price,
                                self.bids()[j],
                            ),
                    decreases k,
                {
                    let book = self.bid[k - 1];
                    if filter_config.is_large(&book) && filter_config.is_range(&book)
                        && !filter_config.is_excluded(&book, prev_own_order_price) {
                        if !book.is_zero() {
                            assert forall|i: int|
                                0 <= i < self.bids().len() && filter_config.spec_is_wall(
                                    prev_own_order_price,
                                    self.bids()[i],
                                ) implies book.price >= self.bids()[i].price by {
                                if i < k - 1 {
                                    assert(self.bids()[i].price < self.bids()[k - 1].price);
                                }
                            }
                            proof {
                                let s = self.side_seq(filter_config.side);
                                assert(s == self.bids());
                                assert(s[k - 1] == book);
                                assert(0 <= k - 1 < s.len() && s[k - 1].price == book.price
                                    && filter_config.spec_is_wall(prev_own_order_price, s[k - 1]));
                            }
                            return (book.price, true);
                        } else {
                            proof {
                                assert(false);
                            }
                            return (0, false);
                        }
                    }
                    k -= 1;
                }
                (0, false)
            },
        }
    }

    pub fn push_to_bid(&mut self, book: Book)
        requires
            side_wf(old(self).bids()),
        ensures
            side_wf(final(self).bids()),
            side_map(final(self).bids()) == apply_level(side_map(old(self).bids()), book),
            final(self).asks() == old(self).asks(),
            final(self).spec_update_at() == old(self).spec_update_at(),
    {
        if book.is_remove() {
            side_remove(&mut self.bid, book.price);
            return ;
        }
        if book.price != 0 {
            side_upsert(&mut self.bid, book);
        }
    }
}

} // verus!


//! Stable ordering of timestamped records, newest first.

use vstd::prelude::*;

verus! {

/// A record that carries a timestamp.
pub trait Stamped: Sized {
    /// The record's timestamp.
    spec fn stamp_spec(&self) -> int;

    /// The record's timestamp.
    fn stamp(&self) -> (r: i64)
        ensures
            r as int == self.stamp_spec(),
    ;
}

/// `s` with `x` placed after every record at least as recent.
pub open spec fn insert_newest_first<T: Stamped>(s: Seq<T>, x: T) -> Seq<T>
    decreases s.len(),
{
    if s.len() == 0 {
        seq![x]
    } else if s[0].stamp_spec() < x.stamp_spec() {
        seq![x] + s
    } else {
        seq![s[0]] + insert_newest_first(s.drop_first(), x)
    }
}

/// `s` ordered newest first, records with equal stamps kept in their order.
pub open spec fn newest_first<T: Stamped>(s: Seq<T>) -> Seq<T>
    decreases s.len(),
{
    if s.len() == 0 {
        s
    } else {
        insert_newest_first(newest_first(s.drop_last()), s.last())
    }
}

/// Whether `s` is ordered by non-increasing timestamp.
pub open spec fn is_newest_first<T: Stamped>(s: Seq<T>) -> bool {
    forall|i: int, j: int| 0 <= i < j < s.len() ==> s[i].stamp_spec() >= s[j].stamp_spec()
}

/// The records of `s` stamped at or after `floor`, in order.
pub open spec fn since<T: Stamped>(s: Seq<T>, floor: int) -> Seq<T>
    decreases s.len(),
{
    if s.len() == 0 {
        s
    } else if s.last().stamp_spec() >= floor {
        since(s.drop_last(), floor).push(s.last())
    } else {
        since(s.drop_last(), floor)
    }
}

proof fn lemma_insert_at<T: Stamped>(s: Seq<T>, x: T, p: int)
    requires
        0 <= p <= s.len(),
        forall|k: int| 0 <= k < p ==> s[k].stamp_spec() >= x.stamp_spec(),
        p == s.len() || s[p].stamp_spec() < x.stamp_spec(),
    ensures
        insert_newest_first(s, x) == s.insert(p, x),
    decreases p,
{
    if s.len() == 0 {
        assert(s.insert(p, x) =~= seq![x]);
    } else if p == 0 {
        assert(s.insert(p, x) =~= seq![x] + s);
    } else {
        lemma_insert_at(s.drop_first(), x, p - 1);
        assert(s.insert(p, x) =~= seq![s[0]] + s.drop_first().insert(p - 1, x));
    }
}

/// Inserting keeps the records and the order.
pub proof fn lemma_insert_newest_first<T: Stamped>(s: Seq<T>, x: T)
    ensures
        insert_newest_first(s, x).len() == s.len() + 1,
        forall|i: int|
            0 <= i < insert_newest_first(s, x).len() ==> (insert_newest_first(s, x)[i] == x
                || s.contains(insert_newest_first(s, x)[i])),
        insert_newest_first(s, x).contains(x),
        forall|y: T| s.contains(y) ==> insert_newest_first(s, x).contains(y),
        is_newest_first(s) ==> is_newest_first(insert_newest_first(s, x)),
    decreases s.len(),
{
    let r = insert_newest_first(s, x);
    if s.len() == 0 {
        assert(r[0] == x);
    } else if s[0].stamp_spec() < x.stamp_spec() {
        assert(r[0] == x);
        assert forall|i: int| 0 <= i < r.len() implies (r[i] == x || s.contains(r[i])) by {
            if i > 0 {
                assert(r[i] == s[i - 1]);
            }
        }
        assert forall|y: T| s.contains(y) implies r.contains(y) by {
            let k = choose|k: int| 0 <= k < s.len() && s[k] == y;
            assert(r[k + 1] == y);
        }
    } else {
        let t = s.drop_first();
        lemma_insert_newest_first(t, x);
        let rt = insert_newest_first(t, x);
        assert(r == seq![s[0]] + rt);
        assert forall|i: int| 0 <= i < r.len() implies (r[i] == x || s.contains(r[i])) by {
            if i == 0 {
                assert(s[0] == r[0]);
            } else {
                assert(r[i] == rt[i - 1]);
                if rt[i - 1] != x {
                    let k = choose|k: int| 0 <= k < t.len() && t[k] == rt[i - 1];
                    assert(s[k + 1] == r[i]);
                }
            }
        }
        let kx = choose|k: int| 0 <= k < rt.len() && rt[k] == x;
        assert(r[kx + 1] == x);
        assert forall|y: T| s.contains(y) implies r.contains(y) by {
            let k = choose|k: int| 0 <= k < s.len() && s[k] == y;
            if k == 0 {
                assert(r[0] == y);
            } else {
                assert(t[k - 1] == y);
                assert(t.contains(y));
                let j = choose|j: int| 0 <= j < rt.len() && rt[j] == y;
                assert(r[j + 1] == y);
            }
        }
        if is_newest_first(s) {
            assert(is_newest_first(t));
            assert forall|i: int, j: int| 0 <= i < j < r.len() implies r[i].stamp_spec()
                >= r[j].stamp_spec() by {
                if i == 0 {
                    assert(r[j] == rt[j - 1]);
                    if rt[j - 1] != x {
                        let k = choose|k: int| 0 <= k < t.len() && t[k] == rt[j - 1];
                        assert(s[k + 1] == t[k]);
                    }
                } else {
                    assert(r[i] == rt[i - 1]);
                    assert(r[j] == rt[j - 1]);
                }
            }
        }
    }
}

/// Ordering keeps the length and the records, and orders them.
pub proof fn lemma_newest_first<T: Stamped>(s: Seq<T>)
    ensures
        newest_first(s).len() == s.len(),
        forall|i: int| 0 <= i < s.len() ==> s.contains(#[trigger] newest_first(s)[i]),
        forall|y: T| s.contains(y) ==> newest_first(s).contains(y),
        is_newest_first(newest_first(s)),
    decreases s.len(),
{
    if s.len() > 0 {
        let init = s.drop_last();
        lemma_newest_first(init);
        let si = newest_first(init);
        lemma_insert_newest_first(si, s.last());
        let r = newest_first(s);
        assert forall|i: int| 0 <= i < s.len() implies s.contains(#[trigger] r[i]) by {
            if r[i] != s.last() {
                assert(si.contains(r[i]));
                let j = choose|j: int| 0 <= j < si.len() && si[j] == r[i];
                assert(init.contains(si[j]));
                let k = choose|k: int| 0 <= k < init.len() && init[k] == si[j];
                assert(s[k] == r[i]);
            } else {
                assert(s[s.len() - 1] == r[i]);
            }
        }
        assert forall|y: T| s.contains(y) implies r.contains(y) by {
            let k = choose|k: int| 0 <= k < s.len() && s[k] == y;
            if k < s.len() - 1 {
                assert(init[k] == y);
                assert(init.contains(y));
                assert(si.contains(y));
            }
        }
    }
}

/// `since` keeps exactly the records stamped at or after `floor`.
pub proof fn lemma_since<T: Stamped>(s: Seq<T>, floor: int)
    ensures
        forall|y: T| since(s, floor).contains(y) <==> (s.contains(y) && y.stamp_spec() >= floor),
    decreases s.len(),
{
    if s.len() > 0 {
        let init = s.drop_last();
        lemma_since(init, floor);
        let si = since(init, floor);
        if s.last().stamp_spec() >= floor {
            assert(since(s, floor) == si.push(s.last()));
        } else {
            assert(since(s, floor) == si);
        }
        assert forall|y: T| since(s, floor).contains(y) <==> (s.contains(y) && y.stamp_spec() >= floor) by {
            if since(s, floor).contains(y) {
                let k = choose|k: int| 0 <= k < since(s, floor).len() && since(s, floor)[k] == y;
                if k < si.len() {
                    assert(si[k] == y);
                    assert(si.contains(y));
                    assert(init.contains(y));
                    let j = choose|j: int| 0 <= j < init.len() && init[j] == y;
                    assert(s[j] == y);
                } else {
                    assert(y == s.last());
                    assert(s[s.len() - 1] == y);
                }
            }
            if s.contains(y) && y.stamp_spec() >= floor {
                let k = choose|k: int| 0 <= k < s.len() && s[k] == y;
                if k < s.len() - 1 {
                    assert(init[k] == y);
                    assert(init.contains(y));
                    assert(si.contains(y));
                    let j = choose|j: int| 0 <= j < si.len() && si[j] == y;
                    assert(since(s, floor)[j] == y);
                } else {
                    assert(since(s, floor) == si.push(y));
                    assert(since(s, floor)[si.len() as int] == y);
                }
            }
        }
    }
}

/// The records stamped at or after `floor`, newest first; records with
/// equal stamps keep their order.
pub fn select_since<T: Stamped>(rows: Vec<T>, floor: i64) -> (r: Vec<T>)
    ensures
        r@ == newest_first(since(rows@, floor as int)),
{
    let n = rows.len();
    let ghost all = rows@;
    let mut rest = rows;
    let mut out: Vec<T> = Vec::new();
    let mut i: usize = 0;
    while i < n
        invariant
            n == all.len(),
            i <= n,
            rest@ == all.subrange(i as int, n as int),
            out@ == newest_first(since(all.take(i as int), floor as int)),
        decreases n - i,
    {
        let x = rest.remove(0);
        proof {
            assert(x == all[i as int]);
            let t = all.take(i + 1);
            assert(t.drop_last() =~= all.take(i as int));
            assert(t.last() == x);
        }
        let key = x.stamp();
        if key >= floor {
            let mut p: usize = 0;
            while p < out.len() && out[p].stamp() >= key
                invariant
                    p <= out@.len(),
                    key as int == x.stamp_spec(),
                    forall|k: int| 0 <= k < p ==> out@[k].stamp_spec() >= x.stamp_spec(),
                decreases out@.len() - p,
            {
                p = p + 1;
            }
            proof {
                let s0 = since(all.take(i as int), floor as int);
                let s1 = since(all.take(i + 1), floor as int);
                assert(s1 == s0.push(x));
                assert(s1.drop_last() =~= s0);
                assert(s1.last() == x);
                lemma_insert_at(out@, x, p as int);
            }
            out.insert(p, x);
        }
        i = i + 1;
        assert(rest@ =~= all.subrange(i as int, n as int));
    }
    assert(all.take(n as int) =~= all);
    out
}

} // verus!

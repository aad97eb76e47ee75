//! Putting dated things in order of time, keeping the order of ties
//! (as `sort_by_key` does).
use vstd::prelude::*;

use crate::clock::Stamp;

verus! {

/// Something with an instant to be ordered by.
pub trait Dated {
    /// The instant of `self`.
    spec fn date_of(&self) -> Stamp;

    /// The instant of `self`.
    fn date(&self) -> (r: Stamp)
        ensures
            r == self.date_of(),
    ;
}

/// Whether an item dated `a` may stand before one dated `b`: newest first, or
/// oldest first.
pub open spec fn may_precede(a: Stamp, b: Stamp, newest_first: bool) -> bool {
    if newest_first {
        !b.is_after(a)
    } else {
        !a.is_after(b)
    }
}

/// Whether `s` is in order of `key`.
pub open spec fn in_order<T>(s: Seq<T>, key: spec_fn(T) -> Stamp, newest_first: bool) -> bool {
    forall|i: int, j: int|
        0 <= i < j < s.len() ==> may_precede(key(#[trigger] s[i]), key(#[trigger] s[j]), newest_first)
}

/// Whether `p` takes `a` to `b`: `b[k]` is `a[p[k]]`, no element of `a` is
/// used twice, and elements with equal keys keep their order.
pub open spec fn rearranged_by<T>(a: Seq<T>, b: Seq<T>, key: spec_fn(T) -> Stamp, p: Seq<int>) -> bool {
    &&& a.len() == b.len()
    &&& p.len() == b.len()
    &&& forall|k: int| 0 <= k < p.len() ==> 0 <= #[trigger] p[k] < a.len() && b[k] == a[p[k]]
    &&& forall|k1: int, k2: int| 0 <= k1 < k2 < p.len() ==> #[trigger] p[k1] != #[trigger] p[k2]
    &&& forall|k1: int, k2: int|
        0 <= k1 < k2 < p.len() && key(#[trigger] b[k1]) == key(#[trigger] b[k2]) ==> p[k1] < p[k2]
}

/// `b` is `a` put in order of `key`, ties in their order in `a`: what a
/// stable sort gives.
pub open spec fn sorted_stably<T>(a: Seq<T>, b: Seq<T>, key: spec_fn(T) -> Stamp, newest_first: bool) -> bool {
    &&& in_order(b, key, newest_first)
    &&& exists|p: Seq<int>| rearranged_by(a, b, key, p)
}

/// The instant of a dated value, as a function.
pub open spec fn date_key<T: Dated>() -> spec_fn(T) -> Stamp {
    |x: T| x.date_of()
}

/// Whether an item dated `d` goes before one dated `e` that is already placed.
fn goes_before(d: Stamp, e: Stamp, newest_first: bool) -> (r: bool)
    ensures
        r == !may_precede(e, d, newest_first),
{
    if newest_first {
        d.after(&e)
    } else {
        e.after(&d)
    }
}

/// `v` in order of date, newest first or oldest first, ties kept in their order.
pub fn sort_by_date<T: Dated>(v: Vec<T>, newest_first: bool) -> (out: Vec<T>)
    ensures
        sorted_stably(v@, out@, date_key::<T>(), newest_first),
{
    let ghost key = date_key::<T>();
    let ghost src = v@;
    let mut out: Vec<T> = Vec::new();
    let ghost mut p: Seq<int> = Seq::empty();
    let mut n: usize = 0;
    for x in it: v.into_iter()
        invariant
            it.seq() == src,
            key == date_key::<T>(),
            n == it.index(),
            n <= src.len(),
            out@.len() == n,
            in_order(out@, key, newest_first),
            rearranged_by(src.take(n as int), out@, key, p),
    {
        assert(x == src[n as int]);
        let d = x.date();
        let mut pos: usize = 0;
        while pos < out.len() && !goes_before(d, out[pos].date(), newest_first)
            invariant
                pos <= out@.len(),
                key == date_key::<T>(),
                forall|k: int|
                    0 <= k < pos ==> may_precede(key(#[trigger] out@[k]), d, newest_first),
            decreases out@.len() - pos,
        {
            pos = pos + 1;
        }
        let ghost old_out = out@;
        let ghost old_p = p;
        out.insert(pos, x);
        proof {
            p = old_p.insert(pos as int, n as int);
            let a = src.take(n + 1);
            assert(a.take(n as int) =~= src.take(n as int));
            assert(a[n as int] == x);
            assert(key(x) == d);
            assert forall|i: int, j: int| 0 <= i < j < out@.len() implies may_precede(
                key(#[trigger] out@[i]),
                key(#[trigger] out@[j]),
                newest_first,
            ) by {
                if j < pos {
                    assert(out@[i] == old_out[i] && out@[j] == old_out[j]);
                } else if j == pos {
                    assert(out@[i] == old_out[i]);
                } else if i == pos {
                    assert(out@[j] == old_out[j - 1]);
                    assert(may_precede(key(old_out[pos as int]), key(old_out[j - 1]), newest_first)
                        || j - 1 == pos);
                } else if i < pos {
                    assert(out@[i] == old_out[i] && out@[j] == old_out[j - 1]);
                } else {
                    assert(out@[i] == old_out[i - 1] && out@[j] == old_out[j - 1]);
                }
            }
            assert forall|k: int| 0 <= k < p.len() implies 0 <= #[trigger] p[k] < a.len() && out@[k]
                == a[p[k]] by {
                if k < pos {
                    assert(p[k] == old_p[k] && out@[k] == old_out[k]);
                } else if k > pos {
                    assert(p[k] == old_p[k - 1] && out@[k] == old_out[k - 1]);
                }
            }
            assert forall|k1: int, k2: int| 0 <= k1 < k2 < p.len() implies #[trigger] p[k1]
                != #[trigger] p[k2] by {
                if k1 == pos {
                    assert(p[k2] == old_p[k2 - 1]);
                } else if k2 == pos {
                    assert(p[k1] == old_p[k1]);
                } else if k1 < pos {
                    if k2 < pos {
                        assert(p[k1] == old_p[k1] && p[k2] == old_p[k2]);
                    } else {
                        assert(p[k1] == old_p[k1] && p[k2] == old_p[k2 - 1]);
                    }
                } else {
                    assert(p[k1] == old_p[k1 - 1] && p[k2] == old_p[k2 - 1]);
                }
            }
            assert forall|k1: int, k2: int|
                0 <= k1 < k2 < p.len() && key(#[trigger] out@[k1]) == key(
                    #[trigger] out@[k2],
                ) implies p[k1] < p[k2] by {
                if k1 == pos {
                    // everything after the new element is strictly on its other side
                    assert(out@[k2] == old_out[k2 - 1]);
                    assert(p[k2] == old_p[k2 - 1]);
                    assert(may_precede(key(old_out[pos as int]), key(old_out[k2 - 1]), newest_first)
                        || k2 - 1 == pos);
                } else if k2 == pos {
                    assert(p[k1] == old_p[k1]);
                } else if k1 < pos {
                    if k2 < pos {
                        assert(p[k1] == old_p[k1] && p[k2] == old_p[k2]);
                        assert(out@[k1] == old_out[k1] && out@[k2] == old_out[k2]);
                    } else {
                        assert(p[k1] == old_p[k1] && p[k2] == old_p[k2 - 1]);
                        assert(out@[k1] == old_out[k1] && out@[k2] == old_out[k2 - 1]);
                    }
                } else {
                    assert(p[k1] == old_p[k1 - 1] && p[k2] == old_p[k2 - 1]);
                    assert(out@[k1] == old_out[k1 - 1] && out@[k2] == old_out[k2 - 1]);
                }
            }
            assert(rearranged_by(a, out@, key, p));
        }
        n = out.len();
    }
    assert(src.take(n as int) =~= src);
    out
}

/// Whether `p` rearranges `a` into `b` after a change of element type that
/// keeps the key: `f` maps each element, `ka` and `kb` agree through it.
pub proof fn lemma_sorted_stably_map<A, B>(
    a: Seq<A>,
    b: Seq<A>,
    ka: spec_fn(A) -> Stamp,
    f: spec_fn(A) -> B,
    kb: spec_fn(B) -> Stamp,
    newest_first: bool,
)
    requires
        sorted_stably(a, b, ka, newest_first),
        forall|x: A| #[trigger] kb(f(x)) == ka(x),
    ensures
        sorted_stably(a.map_values(f), b.map_values(f), kb, newest_first),
{
    let p = choose|p: Seq<int>| rearranged_by(a, b, ka, p);
    let fa = a.map_values(f);
    let fb = b.map_values(f);
    assert forall|i: int, j: int| 0 <= i < j < fb.len() implies may_precede(
        kb(#[trigger] fb[i]),
        kb(#[trigger] fb[j]),
        newest_first,
    ) by {
        assert(kb(f(b[i])) == ka(b[i]));
        assert(kb(f(b[j])) == ka(b[j]));
        assert(may_precede(ka(b[i]), ka(b[j]), newest_first));
    }
    assert forall|k: int| 0 <= k < p.len() implies 0 <= #[trigger] p[k] < fa.len() && fb[k] == fa[p[k]] by {
        assert(b[k] == a[p[k]]);
    }
    assert forall|k1: int, k2: int|
        0 <= k1 < k2 < p.len() && kb(#[trigger] fb[k1]) == kb(#[trigger] fb[k2]) implies p[k1] < p[k2] by {
        assert(kb(f(b[k1])) == ka(b[k1]));
        assert(kb(f(b[k2])) == ka(b[k2]));
    }
    assert(rearranged_by(fa, fb, kb, p));
}

} // verus!

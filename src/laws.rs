//! Facts about runs of stack operations, stated over the contracts of
//! `List::push`, `List::pop`, `IntoIter::next` and the mutable traversal.
use vstd::prelude::*;
use crate::list::{rest, top};

verus! {

/// A run of pushes: `ss[i + 1]` is what `List::push` leaves when it pushes
/// `vs[i]` onto a stack holding `ss[i]`.
pub open spec fn is_push_run<T>(ss: Seq<Seq<T>>, vs: Seq<T>) -> bool {
    &&& ss.len() == vs.len() + 1
    &&& forall|i: int| 0 <= i < vs.len() ==> ss[i + 1] == seq![#[trigger] vs[i]] + ss[i]
}

/// A run of pops: `rs[j]` is what `List::pop` (or `IntoIter::next`) returns
/// on a stack holding `ts[j]`, and `ts[j + 1]` is what it leaves.
pub open spec fn is_pop_run<T>(ts: Seq<Seq<T>>, rs: Seq<Option<T>>) -> bool {
    &&& ts.len() == rs.len() + 1
    &&& forall|j: int|
        0 <= j < rs.len() ==> #[trigger] rs[j] == top(ts[j]) && ts[j + 1] == rest(ts[j])
}

/// Pushing `vs` in order puts its values on top of the stack in reverse
/// order.
pub proof fn lemma_push_run<T>(ss: Seq<Seq<T>>, vs: Seq<T>)
    requires
        is_push_run(ss, vs),
    ensures
        ss[vs.len() as int] == vs.reverse() + ss[0],
{
    lemma_push_run_upto(ss, vs, vs.len() as int);
    assert(vs.subrange(0, vs.len() as int) =~= vs);
}

proof fn lemma_push_run_upto<T>(ss: Seq<Seq<T>>, vs: Seq<T>, k: int)
    requires
        is_push_run(ss, vs),
        0 <= k <= vs.len(),
    ensures
        ss[k] == vs.subrange(0, k).reverse() + ss[0],
    decreases k,
{
    if k == 0 {
        assert(vs.subrange(0, 0).reverse() + ss[0] =~= ss[0]);
    } else {
        lemma_push_run_upto(ss, vs, k - 1);
        assert(ss[k] == seq![vs[k - 1]] + ss[k - 1]);
        assert(vs.subrange(0, k).reverse() =~= seq![vs[k - 1]] + vs.subrange(0, k - 1).reverse());
        assert(seq![vs[k - 1]] + (vs.subrange(0, k - 1).reverse() + ss[0]) =~= vs.subrange(
            0,
            k,
        ).reverse() + ss[0]);
    }
}

/// The `j`-th of a run of pops returns the `j`-th value of the stack it
/// started from, and `None` once that stack has run out; the stack left
/// after `k` pops is the one it started from without its first `k` values,
/// and empty once they have all gone.
pub proof fn lemma_pop_run<T>(ts: Seq<Seq<T>>, rs: Seq<Option<T>>)
    requires
        is_pop_run(ts, rs),
    ensures
        forall|j: int|
            0 <= j < rs.len() ==> #[trigger] rs[j] == (if j < ts[0].len() {
                Some(ts[0][j])
            } else {
                None
            }),
        forall|k: int|
            0 <= k <= rs.len() ==> #[trigger] ts[k] == (if k < ts[0].len() {
                ts[0].subrange(k, ts[0].len() as int)
            } else {
                Seq::empty()
            }),
{
    assert forall|k: int| 0 <= k <= rs.len() implies #[trigger] ts[k] == (if k < ts[0].len() {
        ts[0].subrange(k, ts[0].len() as int)
    } else {
        Seq::empty()
    }) by {
        lemma_pop_run_upto(ts, rs, k);
    }
    assert forall|j: int| 0 <= j < rs.len() implies #[trigger] rs[j] == (if j < ts[0].len() {
        Some(ts[0][j])
    } else {
        None
    }) by {
        lemma_pop_run_upto(ts, rs, j);
        assert(rs[j] == top(ts[j]));
    }
}

proof fn lemma_pop_run_upto<T>(ts: Seq<Seq<T>>, rs: Seq<Option<T>>, k: int)
    requires
        is_pop_run(ts, rs),
        0 <= k <= rs.len(),
    ensures
        ts[k] == (if k < ts[0].len() {
            ts[0].subrange(k, ts[0].len() as int)
        } else {
            Seq::empty()
        }),
    decreases k,
{
    if k == 0 {
        if ts[0].len() == 0 {
            assert(ts[0] =~= Seq::<T>::empty());
        } else {
            assert(ts[0].subrange(0, ts[0].len() as int) =~= ts[0]);
        }
    } else {
        lemma_pop_run_upto(ts, rs, k - 1);
        assert(rs[k - 1] == top(ts[k - 1]) && ts[k] == rest(ts[k - 1]));
        if k - 1 < ts[0].len() {
            assert(ts[0].subrange(k - 1, ts[0].len() as int).drop_first() =~= ts[0].subrange(
                k,
                ts[0].len() as int,
            ));
            if k == ts[0].len() {
                assert(ts[0].subrange(k, ts[0].len() as int) =~= Seq::<T>::empty());
            }
        }
    }
}

/// Last in, first out: after `v1, ..., vn` have been pushed onto an empty
/// stack, `n` pops return `vn, ..., v1`, and a further pop returns `None`
/// and leaves the stack empty. Draining it with `List::into_iter` and
/// `IntoIter::next`, whose contracts are those of a pop run, yields exactly
/// the reverse of the order of the pushes, as many values as were pushed.
pub proof fn lemma_lifo<T>(ss: Seq<Seq<T>>, vs: Seq<T>, ts: Seq<Seq<T>>, rs: Seq<Option<T>>)
    requires
        is_push_run(ss, vs),
        ss[0] == Seq::<T>::empty(),
        is_pop_run(ts, rs),
        ts[0] == ss[vs.len() as int],
    ensures
        forall|j: int| 0 <= j < rs.len() && j < vs.len() ==> #[trigger] rs[j] == Some(vs[vs.len() - 1 - j]),
        forall|j: int| vs.len() <= j < rs.len() ==> #[trigger] rs[j] is None,
        rs.len() >= vs.len() ==> ts[rs.len() as int] == Seq::<T>::empty(),
{
    lemma_push_run(ss, vs);
    assert(ts[0] =~= vs.reverse());
    lemma_pop_run(ts, rs);
}

/// Popping an empty stack returns `None` and leaves it empty, however many
/// times it is done.
pub proof fn lemma_pop_empty<T>(ts: Seq<Seq<T>>, rs: Seq<Option<T>>)
    requires
        is_pop_run(ts, rs),
        ts[0] == Seq::<T>::empty(),
    ensures
        forall|j: int| 0 <= j < rs.len() ==> #[trigger] rs[j] is None,
        forall|k: int| 0 <= k < ts.len() ==> #[trigger] ts[k] == Seq::<T>::empty(),
{
    lemma_pop_run(ts, rs);
}

/// On a non-empty stack, the value that `peek` and `peek_mut` show is the one
/// that the next pop returns, and `peek_mut` left unwritten leaves the stack
/// as it was, so the pops that follow are unchanged.
pub proof fn lemma_peek_is_next_pop<T>(s: Seq<T>)
    requires
        s.len() > 0,
    ensures
        top(s) == Some(s[0]),
        s.update(0, s[0]) == s,
        rest(s.update(0, s[0])) == rest(s),
{
    assert(s.update(0, s[0]) =~= s);
}

/// Writing through a mutable traversal: `get_mut_iterator` promises that the
/// stack ends up holding `fs[0]`, the final values of the chain its cursor
/// points into. Step `i` of `LinkedListIterMut::next` promises that `fs[i]`
/// is the value finally written through the reference it hands out, `ws[i]`,
/// followed by `fs[i + 1]`, the final values of the chain left to the
/// cursor, which are empty once the cursor has run out. So after a full
/// traversal that writes `ws[i]` through the `i`-th reference (for instance
/// each value plus one), the stack holds exactly `ws`.
pub proof fn lemma_writes_through_traversal<T>(fs: Seq<Seq<T>>, ws: Seq<T>)
    requires
        fs.len() == ws.len() + 1,
        fs[ws.len() as int] == Seq::<T>::empty(),
        forall|i: int| 0 <= i < ws.len() ==> fs[i] == seq![#[trigger] ws[i]] + fs[i + 1],
    ensures
        fs[0] == ws,
{
    lemma_writes_from(fs, ws, 0);
    assert(ws.subrange(0, ws.len() as int) =~= ws);
}

proof fn lemma_writes_from<T>(fs: Seq<Seq<T>>, ws: Seq<T>, k: int)
    requires
        0 <= k <= ws.len(),
        fs.len() == ws.len() + 1,
        fs[ws.len() as int] == Seq::<T>::empty(),
        forall|i: int| 0 <= i < ws.len() ==> fs[i] == seq![#[trigger] ws[i]] + fs[i + 1],
    ensures
        fs[k] == ws.subrange(k, ws.len() as int),
    decreases ws.len() - k,
{
    if k < ws.len() {
        lemma_writes_from(fs, ws, k + 1);
        assert(fs[k] == seq![ws[k]] + fs[k + 1]);
        assert(seq![ws[k]] + ws.subrange(k + 1, ws.len() as int) =~= ws.subrange(k, ws.len() as int));
    } else {
        assert(ws.subrange(k, ws.len() as int) =~= Seq::<T>::empty());
    }
}

} // verus!

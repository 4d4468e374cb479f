//! Regions of a 32 by 32 grid and the flood fill that the editor runs on
//! tile layers, attributes and zones. A grid is a sequence of 1024 keys,
//! row after row; the region of a key around a position is what a walk
//! through neighbouring positions of that key reaches. The fill pops a
//! pending position, gives it the new key and pushes its neighbours that
//! still hold the old key; the lemmas here carry its invariants from one
//! step to the next and conclude that exactly the region was filled.

use vstd::prelude::*;

verus! {

/// A position on the 32 by 32 grid.
pub open spec fn in_grid(p: (int, int)) -> bool {
    0 <= p.0 < 32 && 0 <= p.1 < 32
}

/// Two positions side by side or one above the other.
pub open spec fn adjacent(p: (int, int), q: (int, int)) -> bool {
    ||| p.0 == q.0 && (q.1 == p.1 + 1 || q.1 == p.1 - 1)
    ||| p.1 == q.1 && (q.0 == p.0 + 1 || q.0 == p.0 - 1)
}

/// The index of a position in a grid: row after row.
pub open spec fn grid_index(p: (int, int)) -> int {
    p.0 + p.1 * 32
}

/// The key at a position of a grid.
pub open spec fn at<K>(g: Seq<K>, p: (int, int)) -> K {
    g[grid_index(p)]
}

/// A position given as two unsigned coordinates.
pub open spec fn pt(p: (u32, u32)) -> (int, int) {
    (p.0 as int, p.1 as int)
}

/// A walk through neighbouring positions that all hold key c.
pub open spec fn is_region_path<K>(g: Seq<K>, c: K, path: Seq<(int, int)>) -> bool {
    &&& path.len() > 0
    &&& forall|i: int| 0 <= i < path.len() ==> in_grid(#[trigger] path[i]) && at(g, path[i]) == c
    &&& forall|i: int| 0 <= i < path.len() - 1 ==> adjacent(#[trigger] path[i], path[i + 1])
}

/// Position b lies in the region of key c around position a.
pub open spec fn connected<K>(g: Seq<K>, c: K, a: (int, int), b: (int, int)) -> bool {
    exists|path: Seq<(int, int)>| #[trigger] is_region_path(g, c, path) && path[0] == a && path.last() == b
}

/// `after` is `before` with the region around `start` (the positions
/// that hold start's key and are reached through neighbours holding it)
/// given key n.
pub open spec fn filled<K>(before: Seq<K>, after: Seq<K>, start: (int, int), n: K) -> bool {
    &&& after.len() == 1024
    &&& forall|p: (int, int)| in_grid(p) ==>
        #[trigger] at(after, p) == (if connected(before, at(before, start), start, p) { n } else { at(before, p) })
}

/// How many of the first `hi` keys equal c.
spec fn count_key<K>(g: Seq<K>, hi: int, c: K) -> nat
    decreases hi,
{
    if hi <= 0 {
        0
    } else {
        count_key(g, hi - 1, c) + if g[hi - 1] == c { 1nat } else { 0nat }
    }
}

/// What the fill has left to do: five for each position that still
/// holds the old key, one for each pending position.
pub closed spec fn fill_measure<K>(g: Seq<K>, c: K, stack: Seq<(u32, u32)>) -> nat {
    5 * count_key(g, 1024, c) + stack.len()
}

proof fn lemma_count_key_update<K>(g: Seq<K>, hi: int, k: int, v: K, c: K)
    requires
        0 <= hi <= g.len(),
        0 <= k < g.len(),
    ensures
        k >= hi ==> count_key(g.update(k, v), hi, c) == count_key(g, hi, c),
        k < hi ==> count_key(g.update(k, v), hi, c) + (if g[k] == c { 1int } else { 0int })
            == count_key(g, hi, c) + (if v == c { 1int } else { 0int }),
    decreases hi,
{
    if hi > 0 {
        lemma_count_key_update(g, hi - 1, k, v, c);
    }
}

proof fn lemma_path_extend<K>(g: Seq<K>, c: K, path: Seq<(int, int)>, q: (int, int))
    requires
        is_region_path(g, c, path),
        in_grid(q),
        at(g, q) == c,
        adjacent(path.last(), q),
    ensures
        is_region_path(g, c, path.push(q)),
        path.push(q)[0] == path[0],
        path.push(q).last() == q,
{
    let np = path.push(q);
    assert forall|i: int| 0 <= i < np.len() - 1 implies adjacent(#[trigger] np[i], np[i + 1]) by {
        if i < path.len() - 1 {
            assert(np[i] == path[i] && np[i + 1] == path[i + 1]);
        } else {
            assert(np[i] == path.last());
        }
    }
    assert forall|i: int| 0 <= i < np.len() implies in_grid(#[trigger] np[i]) && at(g, np[i]) == c by {
        if i < path.len() {
            assert(np[i] == path[i]);
        }
    }
}

proof fn lemma_connected_step<K>(g: Seq<K>, c: K, a: (int, int), p: (int, int), q: (int, int))
    requires
        connected(g, c, a, p),
        in_grid(q),
        at(g, q) == c,
        adjacent(p, q),
    ensures
        connected(g, c, a, q),
{
    let path = choose|path: Seq<(int, int)>| #[trigger] is_region_path(g, c, path) && path[0] == a && path.last() == p;
    lemma_path_extend(g, c, path, q);
}

proof fn lemma_connected_self<K>(g: Seq<K>, c: K, a: (int, int))
    requires
        in_grid(a),
        at(g, a) == c,
    ensures
        connected(g, c, a, a),
{
    let path = seq![a];
    assert(is_region_path(g, c, path));
}

/// Along a walk from a filled start through positions of key c, every
/// position is filled when no filled position has a neighbour still of
/// key c.
proof fn lemma_walk_filled<K>(before: Seq<K>, after: Seq<K>, c: K, path: Seq<(int, int)>, k: int)
    requires
        is_region_path(before, c, path),
        0 <= k < path.len(),
        at(after, path[0]) != c,
        forall|p: (int, int), q: (int, int)|
            in_grid(p) && in_grid(q) && adjacent(p, q) && at(before, p) == c
                && #[trigger] at(after, p) != c ==> #[trigger] at(after, q) != c,
    ensures
        at(after, path[k]) != c,
    decreases k,
{
    if k > 0 {
        lemma_walk_filled(before, after, c, path, k - 1);
        assert(adjacent(path[k - 1], path[k]));
        assert(in_grid(path[k - 1]) && in_grid(path[k]));
        assert(at(before, path[k - 1]) == c);
    }
}

/// Each position holds its key from before, or is filled and in the
/// region.
#[verifier::opaque]
spec fn inv_cells<K>(before: Seq<K>, g: Seq<K>, c: K, n: K, start: (int, int)) -> bool {
    forall|p: (int, int)| in_grid(p) ==>
        #[trigger] at(g, p) == at(before, p) || (at(g, p) == n && connected(before, c, start, p))
}

/// Every pending position lies in the region.
#[verifier::opaque]
spec fn inv_stack<K>(before: Seq<K>, c: K, start: (int, int), stack: Seq<(u32, u32)>) -> bool {
    forall|k: int| 0 <= k < stack.len() ==>
        in_grid(#[trigger] pt(stack[k]))
            && at(before, pt(stack[k])) == c
            && connected(before, c, start, pt(stack[k]))
}

/// A pending position already filled has each neighbour of key c
/// pending further up the stack.
#[verifier::opaque]
spec fn inv_order<K>(g: Seq<K>, c: K, stack: Seq<(u32, u32)>) -> bool {
    forall|k: int, q: (int, int)|
        0 <= k < stack.len() && in_grid(q)
            && adjacent(pt(#[trigger] stack[k]), q)
            && at(g, pt(stack[k])) != c
            && #[trigger] at(g, q) == c
            ==> exists|j: int| k < j < stack.len() && pt(#[trigger] stack[j]) == q
}

/// A filled position has each neighbour of key c pending.
#[verifier::opaque]
spec fn inv_frontier<K>(before: Seq<K>, g: Seq<K>, c: K, stack: Seq<(u32, u32)>) -> bool {
    forall|p: (int, int), q: (int, int)|
        in_grid(p) && in_grid(q) && adjacent(p, q) && at(before, p) == c
            && #[trigger] at(g, p) != c
            && #[trigger] at(g, q) == c
            ==> exists|j: int| 0 <= j < stack.len() && pt(#[trigger] stack[j]) == q
}

/// The start stays pending until it is filled.
#[verifier::opaque]
spec fn inv_start<K>(g: Seq<K>, c: K, start: (int, int), stack: Seq<(u32, u32)>) -> bool {
    at(g, start) == c ==> exists|j: int| 0 <= j < stack.len() && pt(#[trigger] stack[j]) == start
}

/// What holds between the steps of a fill of the region of key c around
/// `start` with key n, with `stack` pending.
pub closed spec fn fill_inv<K>(before: Seq<K>, g: Seq<K>, c: K, n: K, start: (int, int), stack: Seq<(u32, u32)>) -> bool {
    &&& before.len() == 1024
    &&& g.len() == 1024
    &&& in_grid(start)
    &&& at(before, start) == c
    &&& n != c
    &&& inv_cells(before, g, c, n, start)
    &&& inv_stack(before, c, start, stack)
    &&& inv_order(g, c, stack)
    &&& inv_frontier(before, g, c, stack)
    &&& inv_start(g, c, start, stack)
}

/// One step of a fill: the top pending position t is popped and given
/// key n, then its neighbours that hold key c are pushed.
pub open spec fn fill_step<K>(
    g0: Seq<K>,
    g1: Seq<K>,
    c: K,
    n: K,
    stack0: Seq<(u32, u32)>,
    pushed: Seq<(u32, u32)>,
) -> bool {
    let t = pt(stack0.last());
    &&& stack0.len() > 0
    &&& in_grid(t)
    &&& n != c
    &&& g1 == g0.update(grid_index(t), n)
    &&& pushed.len() <= 4
    &&& forall|i: int| 0 <= i < pushed.len() ==>
        in_grid(#[trigger] pt(pushed[i])) && adjacent(t, pt(pushed[i])) && at(g1, pt(pushed[i])) == c
    &&& forall|q: (int, int)| in_grid(q) && adjacent(t, q) && #[trigger] at(g1, q) == c
        ==> exists|i: int| 0 <= i < pushed.len() && pt(#[trigger] pushed[i]) == q
}

proof fn lemma_step_cells<K>(g0: Seq<K>, g1: Seq<K>, t: (int, int), n: K)
    requires
        g0.len() == 1024,
        in_grid(t),
        g1 == g0.update(grid_index(t), n),
    ensures
        at(g1, t) == n,
        forall|p: (int, int)| in_grid(p) && p != t ==> #[trigger] at(g1, p) == at(g0, p),
{
    assert forall|p: (int, int)| in_grid(p) && p != t implies #[trigger] at(g1, p) == at(g0, p) by {
        assert(grid_index(p) != grid_index(t));
    }
}

proof fn lemma_step_region<K>(
    before: Seq<K>,
    g0: Seq<K>,
    g1: Seq<K>,
    c: K,
    n: K,
    start: (int, int),
    stack0: Seq<(u32, u32)>,
    pushed: Seq<(u32, u32)>,
)
    requires
        g0.len() == 1024,
        fill_step(g0, g1, c, n, stack0, pushed),
        inv_cells(before, g0, c, n, start),
        inv_stack(before, c, start, stack0),
    ensures
        inv_cells(before, g1, c, n, start),
        inv_stack(before, c, start, stack0.drop_last() + pushed),
{
    reveal(inv_cells);
    reveal(inv_stack);
    let t = pt(stack0.last());
    lemma_step_cells(g0, g1, t, n);
    let top = stack0.len() - 1;
    assert(stack0[top] == stack0.last());
    assert(connected(before, c, start, pt(stack0[top])));
    assert forall|p: (int, int)| in_grid(p) implies
        #[trigger] at(g1, p) == at(before, p) || (at(g1, p) == n && connected(before, c, start, p)) by {
        if p != t {
            assert(at(g1, p) == at(g0, p));
        }
    }
    let stack2 = stack0.drop_last() + pushed;
    let len1 = stack0.len() - 1;
    assert forall|k: int| 0 <= k < stack2.len() implies
        in_grid(#[trigger] pt(stack2[k]))
            && at(before, pt(stack2[k])) == c
            && connected(before, c, start, pt(stack2[k])) by {
        if k < len1 {
            assert(stack2[k] == stack0[k]);
        } else {
            let q = pt(stack2[k]);
            assert(stack2[k] == pushed[k - len1]);
            assert(in_grid(pt(pushed[k - len1])));
            assert(q != t);
            assert(at(g0, q) == at(g1, q));
            assert(at(before, q) == c);
            lemma_connected_step(before, c, start, t, q);
        }
    }
}

proof fn lemma_step_order<K>(
    g0: Seq<K>,
    g1: Seq<K>,
    c: K,
    n: K,
    stack0: Seq<(u32, u32)>,
    pushed: Seq<(u32, u32)>,
)
    requires
        g0.len() == 1024,
        fill_step(g0, g1, c, n, stack0, pushed),
        inv_order(g0, c, stack0),
        forall|k: int| 0 <= k < stack0.len() ==> in_grid(#[trigger] pt(stack0[k])),
    ensures
        inv_order(g1, c, stack0.drop_last() + pushed),
{
    reveal(inv_order);
    let t = pt(stack0.last());
    lemma_step_cells(g0, g1, t, n);
    let stack2 = stack0.drop_last() + pushed;
    let len1 = stack0.len() - 1;
    let top = len1;
    assert(pt(stack0[top]) == t);
    assert forall|k: int, q: (int, int)|
        0 <= k < stack2.len() && in_grid(q)
            && adjacent(pt(#[trigger] stack2[k]), q)
            && at(g1, pt(stack2[k])) != c
            && #[trigger] at(g1, q) == c
            implies exists|j: int| k < j < stack2.len() && pt(#[trigger] stack2[j]) == q by {
        if k >= len1 {
            assert(stack2[k] == pushed[k - len1]);
            assert(at(g1, pt(pushed[k - len1])) == c);
        } else {
            assert(stack2[k] == stack0[k]);
            let e = pt(stack0[k]);
            assert(in_grid(pt(stack0[k])));
            if e == t {
                let i = choose|i: int| 0 <= i < pushed.len() && pt(#[trigger] pushed[i]) == q;
                assert(stack2[len1 + i] == pushed[i]);
            } else {
                assert(at(g0, e) == at(g1, e));
                assert(q != t);
                assert(at(g0, q) == at(g1, q));
                assert(adjacent(pt(stack0[k]), q));
                let j = choose|j: int| k < j < stack0.len() && pt(#[trigger] stack0[j]) == q;
                assert(j != top);
                assert(stack2[j] == stack0[j]);
            }
        }
    }
}

proof fn lemma_step_frontier<K>(
    before: Seq<K>,
    g0: Seq<K>,
    g1: Seq<K>,
    c: K,
    n: K,
    start: (int, int),
    stack0: Seq<(u32, u32)>,
    pushed: Seq<(u32, u32)>,
)
    requires
        g0.len() == 1024,
        fill_step(g0, g1, c, n, stack0, pushed),
        inv_frontier(before, g0, c, stack0),
        inv_start(g0, c, start, stack0),
        in_grid(start),
    ensures
        inv_frontier(before, g1, c, stack0.drop_last() + pushed),
        inv_start(g1, c, start, stack0.drop_last() + pushed),
{
    reveal(inv_frontier);
    reveal(inv_start);
    let t = pt(stack0.last());
    lemma_step_cells(g0, g1, t, n);
    let stack2 = stack0.drop_last() + pushed;
    let len1 = stack0.len() - 1;
    let top = len1;
    assert(pt(stack0[top]) == t);
    assert forall|p: (int, int), q: (int, int)|
        in_grid(p) && in_grid(q) && adjacent(p, q) && at(before, p) == c
            && #[trigger] at(g1, p) != c
            && #[trigger] at(g1, q) == c
            implies exists|j: int| 0 <= j < stack2.len() && pt(#[trigger] stack2[j]) == q by {
        if p == t {
            let i = choose|i: int| 0 <= i < pushed.len() && pt(#[trigger] pushed[i]) == q;
            assert(stack2[len1 + i] == pushed[i]);
        } else {
            assert(at(g0, p) == at(g1, p));
            assert(q != t);
            assert(at(g0, q) == at(g1, q));
            let j = choose|j: int| 0 <= j < stack0.len() && pt(#[trigger] stack0[j]) == q;
            assert(j != top);
            assert(stack2[j] == stack0[j]);
        }
    }
    if at(g1, start) == c {
        assert(start != t);
        assert(at(g0, start) == at(g1, start));
        let j = choose|j: int| 0 <= j < stack0.len() && pt(#[trigger] stack0[j]) == start;
        assert(j != top);
        assert(stack2[j] == stack0[j]);
    }
}

proof fn lemma_step_measure<K>(
    g0: Seq<K>,
    g1: Seq<K>,
    c: K,
    n: K,
    stack0: Seq<(u32, u32)>,
    pushed: Seq<(u32, u32)>,
)
    requires
        g0.len() == 1024,
        n != c,
        fill_step(g0, g1, c, n, stack0, pushed),
        inv_order(g0, c, stack0),
    ensures
        fill_measure(g1, c, stack0.drop_last() + pushed) < fill_measure(g0, c, stack0),
{
    let t = pt(stack0.last());
    lemma_count_key_update(g0, 1024, grid_index(t), n, c);
    lemma_step_cells(g0, g1, t, n);
    if at(g0, t) != c {
        reveal(inv_order);
        let top = stack0.len() - 1;
        assert(pt(stack0[top]) == t);
        if pushed.len() > 0 {
            let q = pt(pushed[0]);
            assert(in_grid(q) && adjacent(t, q) && at(g1, q) == c);
            assert(q != t);
            assert(at(g0, q) == at(g1, q));
            assert(adjacent(pt(stack0[top]), q));
            let j = choose|j: int| top < j < stack0.len() && pt(#[trigger] stack0[j]) == q;
        }
    }
}

/// Every pending position lies in the region.
pub proof fn lemma_fill_pending<K>(before: Seq<K>, g: Seq<K>, c: K, n: K, start: (int, int), stack: Seq<(u32, u32)>)
    requires
        fill_inv(before, g, c, n, start, stack),
    ensures
        forall|k: int| 0 <= k < stack.len() ==>
            in_grid(#[trigger] pt(stack[k])) && at(before, pt(stack[k])) == c && connected(before, c, start, pt(stack[k])),
        g.len() == 1024,
{
    reveal(inv_stack);
}

/// The invariants hold before the first step, with only the start
/// pending.
pub proof fn lemma_fill_start<K>(before: Seq<K>, c: K, n: K, start: (int, int), stack: Seq<(u32, u32)>)
    requires
        before.len() == 1024,
        in_grid(start),
        at(before, start) == c,
        n != c,
        stack.len() == 1,
        pt(stack[0]) == start,
    ensures
        fill_inv(before, before, c, n, start, stack),
{
    reveal(inv_cells);
    reveal(inv_stack);
    reveal(inv_order);
    reveal(inv_frontier);
    reveal(inv_start);
    lemma_connected_self(before, c, start);
}

/// One step keeps the invariants and lowers the measure; the position
/// filled lay in the region.
pub proof fn lemma_fill_step<K>(
    before: Seq<K>,
    g0: Seq<K>,
    g1: Seq<K>,
    c: K,
    n: K,
    start: (int, int),
    stack0: Seq<(u32, u32)>,
    pushed: Seq<(u32, u32)>,
)
    requires
        fill_inv(before, g0, c, n, start, stack0),
        fill_step(g0, g1, c, n, stack0, pushed),
    ensures
        fill_inv(before, g1, c, n, start, stack0.drop_last() + pushed),
        fill_measure(g1, c, stack0.drop_last() + pushed) < fill_measure(g0, c, stack0),
        at(before, pt(stack0.last())) == c,
        connected(before, c, start, pt(stack0.last())),
{
    assert(forall|k: int| 0 <= k < stack0.len() ==> in_grid(#[trigger] pt(stack0[k]))) by {
        reveal(inv_stack);
    }
    assert(at(before, pt(stack0.last())) == c && connected(before, c, start, pt(stack0.last()))) by {
        reveal(inv_stack);
        assert(stack0[stack0.len() - 1] == stack0.last());
    }
    lemma_step_region(before, g0, g1, c, n, start, stack0, pushed);
    lemma_step_order(g0, g1, c, n, stack0, pushed);
    lemma_step_frontier(before, g0, g1, c, n, start, stack0, pushed);
    lemma_step_measure(g0, g1, c, n, stack0, pushed);
    assert(g1.len() == 1024);
}

/// With nothing pending, exactly the region has been filled.
pub proof fn lemma_fill_done<K>(before: Seq<K>, after: Seq<K>, c: K, n: K, start: (int, int))
    requires
        fill_inv(before, after, c, n, start, Seq::<(u32, u32)>::empty()),
    ensures
        filled(before, after, start, n),
{
    reveal(inv_cells);
    reveal(inv_frontier);
    reveal(inv_start);
    assert(at(after, start) != c);
    assert forall|p: (int, int), q: (int, int)|
        in_grid(p) && in_grid(q) && adjacent(p, q) && at(before, p) == c
            && #[trigger] at(after, p) != c
            implies #[trigger] at(after, q) != c by {
        if at(after, q) == c {
            let j = choose|j: int| 0 <= j < Seq::<(u32, u32)>::empty().len() && pt(#[trigger] Seq::<(u32, u32)>::empty()[j]) == q;
        }
    }
    assert forall|p: (int, int)| in_grid(p) implies #[trigger] at(after, p)
        == (if connected(before, at(before, start), start, p) { n } else { at(before, p) }) by {
        if connected(before, c, start, p) {
            let path = choose|path: Seq<(int, int)>| #[trigger] is_region_path(before, c, path) && path[0] == start && path.last() == p;
            lemma_walk_filled(before, after, c, path, path.len() - 1);
            assert(path[path.len() - 1] == p);
            assert(at(before, path[path.len() - 1]) == c);
        }
    }
}

/// The pushes of one step cover every neighbour of key c when each of
/// the four directions was checked.
pub proof fn lemma_step_neighbours<K>(g1: Seq<K>, c: K, pos: (u32, u32), pushed: Seq<(u32, u32)>)
    requires
        pos.0 < 32,
        pos.1 < 32,
        pos.1 > 0 && at(g1, (pos.0 as int, pos.1 - 1)) == c ==> pushed.contains((pos.0, (pos.1 - 1) as u32)),
        pos.1 + 1 < 32 && at(g1, (pos.0 as int, pos.1 + 1)) == c ==> pushed.contains((pos.0, (pos.1 + 1) as u32)),
        pos.0 > 0 && at(g1, (pos.0 - 1, pos.1 as int)) == c ==> pushed.contains(((pos.0 - 1) as u32, pos.1)),
        pos.0 + 1 < 32 && at(g1, (pos.0 + 1, pos.1 as int)) == c ==> pushed.contains(((pos.0 + 1) as u32, pos.1)),
    ensures
        forall|q: (int, int)| in_grid(q) && adjacent(pt(pos), q) && #[trigger] at(g1, q) == c
            ==> exists|i: int| 0 <= i < pushed.len() && pt(#[trigger] pushed[i]) == q,
{
    let t = pt(pos);
    assert forall|q: (int, int)| in_grid(q) && adjacent(t, q) && #[trigger] at(g1, q) == c
        implies exists|i: int| 0 <= i < pushed.len() && pt(#[trigger] pushed[i]) == q by {
        let e: (u32, u32) = if q.1 == t.1 - 1 && q.0 == t.0 {
            (pos.0, (pos.1 - 1) as u32)
        } else if q.1 == t.1 + 1 && q.0 == t.0 {
            (pos.0, (pos.1 + 1) as u32)
        } else if q.0 == t.0 - 1 && q.1 == t.1 {
            ((pos.0 - 1) as u32, pos.1)
        } else {
            ((pos.0 + 1) as u32, pos.1)
        };
        assert(pt(e) == q);
        assert(pushed.contains(e));
        let i = choose|i: int| 0 <= i < pushed.len() && pushed[i] == e;
        assert(pt(pushed[i]) == q);
    }
}

/// What a shorter prefix contains, the longer sequence contains.
pub proof fn lemma_prefix_contains(r: Seq<(u32, u32)>, s: Seq<(u32, u32)>, e: (u32, u32))
    requires
        r.len() <= s.len(),
        forall|i: int| 0 <= i < r.len() ==> s[i] == r[i],
    ensures
        r.contains(e) ==> s.contains(e),
{
    if r.contains(e) {
        let i = choose|i: int| 0 <= i < r.len() && r[i] == e;
        assert(s[i] == e);
    }
}

} // verus!

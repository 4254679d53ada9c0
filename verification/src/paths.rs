//! Walks on the board and the tables of the shortest ones.

use vstd::prelude::*;
use crate::board::Point;
use crate::constants::MAX_DIST;

verus! {

/// Number of cells of the board.
pub const CELLS: usize = 81;

/// Position of the cell `p` in a table that lists the cells row by row.
pub open spec fn cell_index(p: Point) -> int {
    p.y * 9 + p.x
}

/// The cell at position `i` of a table that lists the cells row by row.
pub open spec fn cell_at(i: int) -> Point {
    Point { x: (i % 9) as i32, y: (i / 9) as i32 }
}

/// `s` is a walk in `g`: one cell of the board or more, each linked to the
/// next.
pub open spec fn is_walk(g: spec_fn(Point, Point) -> bool, s: Seq<Point>) -> bool {
    &&& s.len() > 0
    &&& forall|i: int| 0 <= i < s.len() ==> (#[trigger] s[i]).spec_inbounds()
    &&& forall|i: int| 0 <= i < s.len() - 1 ==> g(#[trigger] s[i], s[i + 1])
}

/// `s` is a walk in `g` that starts at `a` and ends at `b`.
pub open spec fn walk_between(g: spec_fn(Point, Point) -> bool, s: Seq<Point>, a: Point, b: Point) -> bool {
    is_walk(g, s) && s[0] == a && s.last() == b
}

/// Some walk of exactly `k` steps leads from `a` to `b`.
pub open spec fn reaches_in(g: spec_fn(Point, Point) -> bool, a: Point, b: Point, k: int) -> bool {
    exists|s: Seq<Point>| #[trigger] walk_between(g, s, a, b) && s.len() == k + 1
}

/// Some walk leads from `a` to `b`.
pub open spec fn reaches(g: spec_fn(Point, Point) -> bool, a: Point, b: Point) -> bool {
    exists|s: Seq<Point>| #[trigger] walk_between(g, s, a, b)
}

/// `d` is the number of steps of a shortest walk from `a` to `b`.
pub open spec fn is_distance(g: spec_fn(Point, Point) -> bool, a: Point, b: Point, d: int) -> bool {
    &&& reaches_in(g, a, b, d)
    &&& forall|s: Seq<Point>| #[trigger] walk_between(g, s, a, b) ==> d + 1 <= s.len()
}

/// `dist` and `prev` are the tables of shortest walks from `src`: for each
/// cell, the length of a shortest walk to it, or `MAX_DIST` if there is none;
/// and the cell before it on one such walk.
pub open spec fn shortest_paths(
    g: spec_fn(Point, Point) -> bool,
    src: Point,
    dist: Seq<i32>,
    prev: Seq<Option<Point>>,
) -> bool {
    &&& dist.len() == CELLS
    &&& prev.len() == CELLS
    &&& forall|i: int|
        0 <= i < CELLS ==> if reaches(g, src, cell_at(i)) {
            #[trigger] dist[i] <= CELLS && is_distance(g, src, cell_at(i), dist[i] as int)
        } else {
            dist[i] == MAX_DIST
        }
    &&& forall|i: int|
        0 <= i < CELLS ==> match #[trigger] prev[i] {
            Some(u) => {
                &&& u.spec_inbounds()
                &&& g(u, cell_at(i))
                &&& dist[i] < MAX_DIST
                &&& dist[cell_index(u)] + 1 == dist[i]
            },
            None => cell_at(i) == src || dist[i] == MAX_DIST,
        }
}

/// A walk that is extended by a linked cell of the board is a walk.
pub proof fn lemma_walk_push(g: spec_fn(Point, Point) -> bool, s: Seq<Point>, a: Point, b: Point, c: Point)
    requires
        walk_between(g, s, a, b),
        g(b, c),
        c.spec_inbounds(),
    ensures
        walk_between(g, s.push(c), a, c),
        s.push(c).len() == s.len() + 1,
{
    let t = s.push(c);
    assert forall|i: int| 0 <= i < t.len() implies (#[trigger] t[i]).spec_inbounds() by {
        if i < s.len() {
            assert(t[i] == s[i]);
        }
    }
    assert forall|i: int| 0 <= i < t.len() - 1 implies g(#[trigger] t[i], t[i + 1]) by {
        if i < s.len() - 1 {
            assert(t[i] == s[i]);
            assert(t[i + 1] == s[i + 1]);
        } else {
            assert(t[i] == s.last());
        }
    }
}

/// One step is a walk.
pub proof fn lemma_step_reaches(g: spec_fn(Point, Point) -> bool, a: Point, b: Point)
    requires
        a.spec_inbounds(),
        b.spec_inbounds(),
        g(a, b),
    ensures
        reaches(g, a, b),
{
    let s = seq![a, b];
    assert(s[0] == a && s[1] == b);
    assert(walk_between(g, s, a, b));
}

/// A walk from `a` to `b` and a walk from `b` to `c` make a walk from `a` to
/// `c`.
pub proof fn lemma_reaches_transitive(g: spec_fn(Point, Point) -> bool, a: Point, b: Point, c: Point)
    requires
        reaches(g, a, b),
        reaches(g, b, c),
    ensures
        reaches(g, a, c),
{
    let s1 = choose|s: Seq<Point>| #[trigger] walk_between(g, s, a, b);
    let s2 = choose|s: Seq<Point>| #[trigger] walk_between(g, s, b, c);
    let t = s1 + s2.subrange(1, s2.len() as int);
    assert forall|i: int| 0 <= i < t.len() implies (#[trigger] t[i]).spec_inbounds() by {
        if i < s1.len() {
            assert(t[i] == s1[i]);
        } else {
            assert(t[i] == s2[i - s1.len() + 1]);
        }
    }
    assert forall|i: int| 0 <= i < t.len() - 1 implies g(#[trigger] t[i], t[i + 1]) by {
        if i < s1.len() - 1 {
            assert(t[i] == s1[i]);
            assert(t[i + 1] == s1[i + 1]);
        } else if i == s1.len() - 1 {
            assert(t[i] == s1.last());
            assert(t[i + 1] == s2[1]);
            assert(g(s2[0], s2[0int + 1]));
        } else {
            let k = i - s1.len() + 1;
            assert(t[i] == s2[k]);
            assert(t[i + 1] == s2[k + 1]);
        }
    }
    assert(t[0] == s1[0]);
    if s2.len() == 1 {
        assert(t =~= s1);
    } else {
        assert(t.last() == s2.last());
    }
    assert(walk_between(g, t, a, c));
}

/// The tables of shortest walks from one cell in one graph give every cell
/// the same distance, however they were found.
pub proof fn lemma_distances_are_unique(
    g: spec_fn(Point, Point) -> bool,
    src: Point,
    dist: Seq<i32>,
    prev: Seq<Option<Point>>,
    other_dist: Seq<i32>,
    other_prev: Seq<Option<Point>>,
)
    requires
        shortest_paths(g, src, dist, prev),
        shortest_paths(g, src, other_dist, other_prev),
    ensures
        dist == other_dist,
{
    assert forall|i: int| 0 <= i < CELLS implies dist[i] == other_dist[i] by {
        if reaches(g, src, cell_at(i)) {
            let d = dist[i] as int;
            let e = other_dist[i] as int;
            assert(is_distance(g, src, cell_at(i), d));
            assert(is_distance(g, src, cell_at(i), e));
            let s = choose|s: Seq<Point>| #[trigger] walk_between(g, s, src, cell_at(i)) && s.len() == d + 1;
            let t = choose|t: Seq<Point>| #[trigger] walk_between(g, t, src, cell_at(i)) && t.len() == e + 1;
            assert(e + 1 <= s.len());
            assert(d + 1 <= t.len());
        } else {
            assert(dist[i] == MAX_DIST);
            assert(other_dist[i] == MAX_DIST);
        }
    }
    assert(dist =~= other_dist);
}

/// Whether the table `prev` names a cell before `p`.
pub open spec fn has_prev(prev: Seq<Option<Point>>, p: Point) -> bool {
    p.spec_inbounds() && cell_index(p) < prev.len() && prev[cell_index(p)].is_some()
}

/// The cells that lead to `dst` in the table `prev`, `dst` last: at most
/// `fuel` of them, and without the cell that has no cell before it.
pub open spec fn trail(prev: Seq<Option<Point>>, dst: Point, fuel: nat) -> Seq<Point>
    decreases fuel,
{
    if fuel == 0 || !has_prev(prev, dst) {
        Seq::empty()
    } else {
        trail(prev, prev[cell_index(dst)].unwrap(), (fuel - 1) as nat).push(dst)
    }
}

/// In the tables of shortest walks from `src`, the trail of a cell that can
/// be reached is, behind `src`, a shortest walk from `src` to it.
pub proof fn lemma_trail_is_shortest(
    g: spec_fn(Point, Point) -> bool,
    src: Point,
    dist: Seq<i32>,
    prev: Seq<Option<Point>>,
    dst: Point,
    fuel: nat,
)
    requires
        shortest_paths(g, src, dist, prev),
        src.spec_inbounds(),
        dst.spec_inbounds(),
        dist[cell_index(dst)] < MAX_DIST,
        dist[cell_index(dst)] <= fuel,
    ensures
        walk_between(g, seq![src] + trail(prev, dst, fuel), src, dst),
        trail(prev, dst, fuel).len() == dist[cell_index(dst)],
        is_distance(g, src, dst, trail(prev, dst, fuel).len() as int),
    decreases fuel,
{
    let i = cell_index(dst);
    assert(cell_at(i) == dst);
    assert(walk_between(g, seq![src], src, src));
    assert(reaches(g, src, cell_at(cell_index(src))));
    if !reaches(g, src, dst) {
        assert(dist[i] == MAX_DIST);
    }
    assert(is_distance(g, src, dst, dist[i] as int));
    match prev[i] {
        Some(u) => {
            let j = cell_index(u);
            assert(cell_at(j) == u);
            if !reaches(g, src, u) {
                assert(dist[j] == MAX_DIST);
            }
            assert(is_distance(g, src, u, dist[j] as int));
            let w = choose|w: Seq<Point>| #[trigger] walk_between(g, w, src, u) && w.len() == dist[j] + 1;
            assert(dist[j] >= 0);
            lemma_trail_is_shortest(g, src, dist, prev, u, (fuel - 1) as nat);
            let t = seq![src] + trail(prev, u, (fuel - 1) as nat);
            lemma_walk_push(g, t, src, u, dst);
            assert(t.push(dst) =~= seq![src] + trail(prev, dst, fuel));
        },
        None => {
            assert(dst == src);
            assert(dist[i] == 0) by {
                assert(walk_between(g, seq![src], src, dst));
            }
            assert(seq![src] + trail(prev, dst, fuel) =~= seq![src]);
        },
    }
}

/// The state of a search from `src` after some cells have been settled.
pub(crate) open spec fn search_state(
    g: spec_fn(Point, Point) -> bool,
    src: Point,
    dist: Seq<i32>,
    prev: Seq<Option<Point>>,
    done: Seq<bool>,
    walks: Seq<Seq<Point>>,
    round: int,
) -> bool {
    &&& dist.len() == CELLS
    &&& prev.len() == CELLS
    &&& done.len() == CELLS
    &&& walks.len() == CELLS
    &&& src.spec_inbounds()
    &&& dist[cell_index(src)] == 0
    &&& prev[cell_index(src)].is_none()
    &&& 0 <= round <= CELLS
    &&& forall|i: int| 0 <= i < CELLS ==> 0 <= #[trigger] dist[i] <= MAX_DIST
    &&& forall|i: int| 0 <= i < CELLS && #[trigger] dist[i] < MAX_DIST ==> dist[i] <= round
    &&& forall|i: int|
        0 <= i < CELLS && #[trigger] dist[i] < MAX_DIST ==> walk_between(g, walks[i], src, cell_at(i))
            && walks[i].len() == dist[i] + 1
    &&& forall|i: int| 0 <= i < CELLS && #[trigger] done[i] ==> dist[i] < MAX_DIST
    &&& forall|i: int, j: int|
        0 <= i < CELLS && 0 <= j < CELLS && #[trigger] done[i] && !#[trigger] done[j] ==> dist[i]
            <= dist[j]
    &&& forall|i: int, j: int|
        0 <= i < CELLS && 0 <= j < CELLS && #[trigger] done[i] && g(cell_at(i), cell_at(j))
            ==> #[trigger] dist[j] <= dist[i] + 1
    &&& forall|i: int|
        0 <= i < CELLS ==> match #[trigger] prev[i] {
            Some(u) => {
                &&& u.spec_inbounds()
                &&& done[cell_index(u)]
                &&& g(u, cell_at(i))
                &&& dist[i] < MAX_DIST
                &&& dist[cell_index(u)] + 1 == dist[i]
            },
            None => cell_at(i) == src || dist[i] == MAX_DIST,
        }
}

/// Once no cell with a known distance is left unsettled, the tables hold
/// the shortest walks.
pub(crate) proof fn lemma_search_complete(
    g: spec_fn(Point, Point) -> bool,
    src: Point,
    dist: Seq<i32>,
    prev: Seq<Option<Point>>,
    done: Seq<bool>,
    walks: Seq<Seq<Point>>,
    round: int,
)
    requires
        search_state(g, src, dist, prev, done, walks, round),
        forall|i: int| 0 <= i < CELLS && !#[trigger] done[i] ==> dist[i] == MAX_DIST,
    ensures
        shortest_paths(g, src, dist, prev),
{
    assert forall|i: int| 0 <= i < CELLS implies if reaches(g, src, cell_at(i)) {
        #[trigger] dist[i] <= CELLS && is_distance(g, src, cell_at(i), dist[i] as int)
    } else {
        dist[i] == MAX_DIST
    } by {
        if reaches(g, src, cell_at(i)) {
            let s = choose|s: Seq<Point>| #[trigger] walk_between(g, s, src, cell_at(i));
            lemma_walk_bound(g, src, dist, done, round, s, s.len() - 1);
            assert(cell_index(cell_at(i)) == i);
            assert(walk_between(g, walks[i], src, cell_at(i)));
            assert forall|t: Seq<Point>| #[trigger] walk_between(g, t, src, cell_at(i)) implies dist[i]
                + 1 <= t.len() by {
                lemma_walk_bound(g, src, dist, done, round, t, t.len() - 1);
            }
        } else {
            if dist[i] < MAX_DIST {
                assert(walk_between(g, walks[i], src, cell_at(i)));
            }
        }
    }
}

/// In a finished search, the `j`-th cell of a walk from `src` has a distance
/// of at most `j`.
proof fn lemma_walk_bound(
    g: spec_fn(Point, Point) -> bool,
    src: Point,
    dist: Seq<i32>,
    done: Seq<bool>,
    round: int,
    s: Seq<Point>,
    j: int,
)
    requires
        dist.len() == CELLS,
        done.len() == CELLS,
        src.spec_inbounds(),
        dist[cell_index(src)] == 0,
        0 <= round <= CELLS,
        forall|i: int| 0 <= i < CELLS && #[trigger] dist[i] < MAX_DIST ==> dist[i] <= round,
        forall|i: int, j: int|
            0 <= i < CELLS && 0 <= j < CELLS && #[trigger] done[i] && g(cell_at(i), cell_at(j))
                ==> #[trigger] dist[j] <= dist[i] + 1,
        forall|i: int| 0 <= i < CELLS && !#[trigger] done[i] ==> dist[i] == MAX_DIST,
        is_walk(g, s),
        s[0] == src,
        0 <= j < s.len(),
    ensures
        dist[cell_index(s[j])] <= j,
        dist[cell_index(s[j])] < MAX_DIST,
    decreases j,
{
    if j > 0 {
        lemma_walk_bound(g, src, dist, done, round, s, j - 1);
        let a = s[j - 1];
        let b = s[j];
        assert(a.spec_inbounds());
        assert(b.spec_inbounds());
        assert(g(a, s[(j - 1) + 1]));
        let ia = cell_index(a);
        let ib = cell_index(b);
        assert(cell_at(ia) == a);
        assert(cell_at(ib) == b);
        assert(done[ia]);
        assert(dist[ib] <= dist[ia] + 1);
    }
}

/// The state of a search while the cell `best`, just settled, hands its
/// distance on to the cells before position `v`.
pub(crate) open spec fn relax_state(
    g: spec_fn(Point, Point) -> bool,
    src: Point,
    dist: Seq<i32>,
    prev: Seq<Option<Point>>,
    done: Seq<bool>,
    walks: Seq<Seq<Point>>,
    round: int,
    best: int,
    v: int,
) -> bool {
    &&& dist.len() == CELLS
    &&& prev.len() == CELLS
    &&& done.len() == CELLS
    &&& walks.len() == CELLS
    &&& src.spec_inbounds()
    &&& dist[cell_index(src)] == 0
    &&& prev[cell_index(src)].is_none()
    &&& 0 <= round < CELLS
    &&& 0 <= best < CELLS
    &&& 0 <= v <= CELLS
    &&& done[best]
    &&& dist[best] <= round
    &&& forall|i: int| 0 <= i < CELLS ==> 0 <= #[trigger] dist[i] <= MAX_DIST
    &&& forall|i: int| 0 <= i < CELLS && #[trigger] dist[i] < MAX_DIST ==> dist[i] <= round + 1
    &&& forall|i: int|
        0 <= i < CELLS && #[trigger] dist[i] < MAX_DIST ==> walk_between(g, walks[i], src, cell_at(i))
            && walks[i].len() == dist[i] + 1
    &&& forall|i: int| 0 <= i < CELLS && #[trigger] done[i] ==> dist[i] <= dist[best]
    &&& forall|i: int| 0 <= i < CELLS && !#[trigger] done[i] ==> dist[best] <= dist[i]
    &&& forall|i: int, j: int|
        0 <= i < CELLS && 0 <= j < CELLS && #[trigger] done[i] && g(cell_at(i), cell_at(j)) && (i
            != best || j < v) ==> #[trigger] dist[j] <= dist[i] + 1
    &&& forall|i: int|
        0 <= i < CELLS ==> match #[trigger] prev[i] {
            Some(u) => {
                &&& u.spec_inbounds()
                &&& done[cell_index(u)]
                &&& g(u, cell_at(i))
                &&& dist[i] < MAX_DIST
                &&& dist[cell_index(u)] + 1 == dist[i]
            },
            None => cell_at(i) == src || dist[i] == MAX_DIST,
        }
}

/// A cell that has just been settled has handed on its distance to no cell
/// yet.
pub(crate) proof fn lemma_relax_start(
    g: spec_fn(Point, Point) -> bool,
    src: Point,
    dist: Seq<i32>,
    prev: Seq<Option<Point>>,
    done: Seq<bool>,
    walks: Seq<Seq<Point>>,
    round: int,
    best: int,
)
    requires
        search_state(g, src, dist, prev, done, walks, round),
        round < CELLS,
        0 <= best < CELLS,
        !done[best],
        dist[best] < MAX_DIST,
        forall|i: int| 0 <= i < CELLS && !#[trigger] done[i] ==> dist[best] <= dist[i],
    ensures
        relax_state(g, src, dist, prev, done.update(best, true), walks, round, best, 0),
{
    let done2 = done.update(best, true);
    assert forall|i: int| 0 <= i < CELLS && #[trigger] done2[i] implies dist[i] <= dist[best] by {
        if i != best {
            assert(done[i]);
        }
    }
    assert forall|i: int, j: int|
        0 <= i < CELLS && 0 <= j < CELLS && #[trigger] done2[i] && g(cell_at(i), cell_at(j)) && (i
            != best || j < 0) implies #[trigger] dist[j] <= dist[i] + 1 by {
        assert(done[i]);
    }
    assert forall|i: int| 0 <= i < CELLS implies match #[trigger] prev[i] {
        Some(u) => {
            &&& u.spec_inbounds()
            &&& done2[cell_index(u)]
            &&& g(u, cell_at(i))
            &&& dist[i] < MAX_DIST
            &&& dist[cell_index(u)] + 1 == dist[i]
        },
        None => cell_at(i) == src || dist[i] == MAX_DIST,
    } by {
        match prev[i] {
            Some(u) => {
                assert(done[cell_index(u)]);
            },
            None => {},
        }
    }
}

/// A cell that is nearer by way of the settled cell takes its distance from
/// it.
pub(crate) proof fn lemma_relax_update(
    g: spec_fn(Point, Point) -> bool,
    src: Point,
    dist: Seq<i32>,
    prev: Seq<Option<Point>>,
    done: Seq<bool>,
    walks: Seq<Seq<Point>>,
    round: int,
    best: int,
    v: int,
)
    requires
        relax_state(g, src, dist, prev, done, walks, round, best, v),
        v < CELLS,
        g(cell_at(best), cell_at(v)),
        dist[best] + 1 < dist[v],
    ensures
        relax_state(
            g,
            src,
            dist.update(v, (dist[best] + 1) as i32),
            prev.update(v, Some(cell_at(best))),
            done,
            walks.update(v, walks[best].push(cell_at(v))),
            round,
            best,
            v + 1,
        ),
{
    let alt = (dist[best] + 1) as i32;
    let dist2 = dist.update(v, alt);
    let prev2 = prev.update(v, Some(cell_at(best)));
    let walks2 = walks.update(v, walks[best].push(cell_at(v)));
    assert(!done[v]);
    assert(v != best);
    assert(v != cell_index(src));
    assert(walk_between(g, walks[best], src, cell_at(best)));
    lemma_walk_push(g, walks[best], src, cell_at(best), cell_at(v));
    assert forall|i: int| 0 <= i < CELLS && #[trigger] dist2[i] < MAX_DIST implies walk_between(
        g,
        walks2[i],
        src,
        cell_at(i),
    ) && walks2[i].len() == dist2[i] + 1 by {
        if i != v {
            assert(dist[i] < MAX_DIST);
        }
    }
    assert forall|i: int| 0 <= i < CELLS && #[trigger] dist2[i] < MAX_DIST implies dist2[i] <= round
        + 1 by {
        if i != v {
            assert(dist[i] < MAX_DIST);
        }
    }
    assert forall|i: int| 0 <= i < CELLS && #[trigger] done[i] implies dist2[i] <= dist2[best] by {}
    assert forall|i: int| 0 <= i < CELLS && !#[trigger] done[i] implies dist2[best] <= dist2[i] by {}
    assert forall|i: int, j: int|
        0 <= i < CELLS && 0 <= j < CELLS && #[trigger] done[i] && g(cell_at(i), cell_at(j)) && (i
            != best || j < v + 1) implies #[trigger] dist2[j] <= dist2[i] + 1 by {
        assert(dist2[i] == dist[i]);
        assert(dist[i] <= dist[best]);
        if j == v {
            if i != best {
                assert(dist[j] <= dist[i] + 1);
            }
        } else {
            assert(dist[j] <= dist[i] + 1);
        }
    }
    assert forall|i: int| 0 <= i < CELLS implies match #[trigger] prev2[i] {
        Some(u) => {
            &&& u.spec_inbounds()
            &&& done[cell_index(u)]
            &&& g(u, cell_at(i))
            &&& dist2[i] < MAX_DIST
            &&& dist2[cell_index(u)] + 1 == dist2[i]
        },
        None => cell_at(i) == src || dist2[i] == MAX_DIST,
    } by {
        if i == v {
            assert(cell_index(cell_at(best)) == best);
        } else {
            match prev[i] {
                Some(u) => {
                    assert(done[cell_index(u)]);
                    assert(cell_index(u) != v);
                },
                None => {},
            }
        }
    }
}

/// A cell that is not nearer by way of the settled cell stays as it is.
pub(crate) proof fn lemma_relax_skip(
    g: spec_fn(Point, Point) -> bool,
    src: Point,
    dist: Seq<i32>,
    prev: Seq<Option<Point>>,
    done: Seq<bool>,
    walks: Seq<Seq<Point>>,
    round: int,
    best: int,
    v: int,
)
    requires
        relax_state(g, src, dist, prev, done, walks, round, best, v),
        v < CELLS,
        !(g(cell_at(best), cell_at(v)) && dist[best] + 1 < dist[v]),
    ensures
        relax_state(g, src, dist, prev, done, walks, round, best, v + 1),
{
    assert forall|i: int, j: int|
        0 <= i < CELLS && 0 <= j < CELLS && #[trigger] done[i] && g(cell_at(i), cell_at(j)) && (i
            != best || j < v + 1) implies #[trigger] dist[j] <= dist[i] + 1 by {
        if i == best && j == v {
        } else {
            assert(i != best || j < v);
        }
    }
}

/// When the settled cell has handed on its distance to every cell, the
/// search has come one round further.
pub(crate) proof fn lemma_relax_end(
    g: spec_fn(Point, Point) -> bool,
    src: Point,
    dist: Seq<i32>,
    prev: Seq<Option<Point>>,
    done: Seq<bool>,
    walks: Seq<Seq<Point>>,
    round: int,
    best: int,
)
    requires
        relax_state(g, src, dist, prev, done, walks, round, best, CELLS as int),
    ensures
        search_state(g, src, dist, prev, done, walks, round + 1),
{
    assert forall|i: int| 0 <= i < CELLS && #[trigger] done[i] implies dist[i] < MAX_DIST by {
        assert(dist[i] <= dist[best]);
    }
    assert forall|i: int, j: int|
        0 <= i < CELLS && 0 <= j < CELLS && #[trigger] done[i] && !#[trigger] done[j] implies dist[i]
            <= dist[j] by {
        assert(dist[i] <= dist[best]);
        assert(dist[best] <= dist[j]);
    }
}

} // verus!

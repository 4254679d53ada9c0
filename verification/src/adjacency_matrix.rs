//! Graphs on the cells of the board: shortest paths and connected cells.

use vstd::prelude::*;
use vstd::set_lib::*;
use crate::board::Point;
use crate::connectivity::{
    closing, in_frame, is_closure, joined, joined_below, lemma_closing_round, lemma_closing_step,
    lemma_joined_below_zero, node_cell, node_index, FRAME, NODES,
};
use crate::constants::{MAX_DIST, N};
use crate::paths::{
    cell_at, cell_index, lemma_relax_end, lemma_relax_skip, lemma_relax_start, lemma_relax_update,
    lemma_search_complete, relax_state, search_state, shortest_paths, trail, walk_between, CELLS,
};

verus! {

/// A way across the board, cell by cell.
#[derive(Clone, PartialEq, Eq, PartialOrd, Ord, Debug, Hash)]
pub struct Path {
    pub nodes: Vec<Point>,
}

impl Path {
    /// The way that holds no cell.
    pub fn new() -> (path: Path)
        ensures
            path.nodes@ == Seq::<Point>::empty(),
    {
        Path { nodes: Vec::new() }
    }
}

/// Position of the cell `p` in a table of the cells.
pub fn index_of(p: Point) -> (i: usize)
    requires
        p.spec_inbounds(),
    ensures
        i == cell_index(p),
        i < CELLS,
        cell_at(i as int) == p,
{
    (p.y * N + p.x) as usize
}

/// The cell at position `i` of a table of the cells.
pub fn cell_of(i: usize) -> (p: Point)
    requires
        i < CELLS,
    ensures
        p == cell_at(i as int),
        p.spec_inbounds(),
        cell_index(p) == i,
{
    Point { x: (i % 9) as i32, y: (i / 9) as i32 }
}

/// The cell that node `i` stands for.
pub fn node_of(i: usize) -> (p: Point)
    requires
        i < NODES,
    ensures
        p == node_cell(i as int),
        in_frame(p),
        node_index(p) == i,
{
    Point { x: (i % FRAME) as i32 - 1, y: (i / FRAME) as i32 - 1 }
}

/// The node that stands for the cell `p`.
pub fn index_of_node(p: Point) -> (i: usize)
    requires
        in_frame(p),
    ensures
        i == node_index(p),
        i < NODES,
        node_cell(i as int) == p,
{
    ((p.x + 1) + (p.y + 1) * 11) as usize
}

/// The rows of a table as plain values.
pub open spec fn rows_of(w: Seq<Vec<bool>>) -> Seq<Seq<bool>> {
    Seq::new(w.len(), |i: int| w[i]@)
}

/// A graph on the cells of the board, given by the test `adj` of whether one
/// cell is linked to another, and with it the graph of the ways that lead
/// across the board in the long run, given by the test `passable`. On a
/// board without pawns the two are one. The searches work on any such
/// graphs.
pub trait AdjacencyMatrix {
    /// The relation that `adj` decides: which cell is linked to which.
    spec fn links(&self) -> spec_fn(Point, Point) -> bool;

    /// The relation that `passable` decides: from which cell a way leads on
    /// to which. Shortest paths are searched in this graph.
    spec fn ways(&self) -> spec_fn(Point, Point) -> bool;

    /// Return a boolean specifying whether two points are adjacent
    fn adj(&self, a: Point, b: Point) -> (r: bool)
        ensures
            r == (self.links())(a, b),
    ;

    /// Return a boolean specifying whether a way leads on from `a` to `b`
    fn passable(&self, a: Point, b: Point) -> (r: bool)
        ensures
            r == (self.ways())(a, b),
    ;

    /// Reconstructs the shortest path to `dst` given the table of previous
    /// cells that `dijkstra` returns. The path ends in `dst` and holds every
    /// cell of the way but the one from which the search started.
    fn reconstruct_path(&self, prev: &Vec<Option<Point>>, dst: Point) -> (path: Path)
        ensures
            path.nodes@ == trail(prev@, dst, CELLS as nat),
    {
        let mut path = Path::new();
        let mut u = dst;
        let mut steps: usize = 0;
        while steps < CELLS && u.inbounds() && index_of(u) < prev.len() && prev[index_of(u)].is_some()
            invariant
                steps <= CELLS,
                trail(prev@, dst, CELLS as nat) == trail(prev@, u, (CELLS - steps) as nat) + path.nodes@,
            decreases CELLS - steps,
        {
            let ghost before = path.nodes@;
            let ghost rest = trail(prev@, prev@[cell_index(u)].unwrap(), (CELLS - steps - 1) as nat);
            path.nodes.insert(0, u);
            proof {
                assert(trail(prev@, u, (CELLS - steps) as nat) == rest.push(u));
                assert(rest.push(u) + before =~= rest + path.nodes@);
            }
            u = prev[index_of(u)].unwrap();
            steps = steps + 1;
        }
        proof {
            assert(trail(prev@, u, (CELLS - steps) as nat) =~= Seq::<Point>::empty());
            assert(Seq::<Point>::empty() + path.nodes@ =~= path.nodes@);
        }
        path
    }

    /// Use Dijkstra's algorithm to calculate single-source shortest paths in
    /// the graph of the ways. The first table gives for each cell of the
    /// board the number of steps of a shortest walk from `src` to it,
    /// `MAX_DIST` where no walk leads there; the second the cell before it
    /// on such a walk. From a cell off the board no walk leads anywhere.
    fn dijkstra(&self, src: Point) -> (r: (Vec<i32>, Vec<Option<Point>>))
        ensures
            r.0@.len() == CELLS,
            r.1@.len() == CELLS,
            src.spec_inbounds() ==> shortest_paths(self.ways(), src, r.0@, r.1@),
            !src.spec_inbounds() ==> forall|i: int|
                0 <= i < CELLS ==> r.0@[i] == MAX_DIST && (#[trigger] r.1@[i]).is_none(),
    {
        let mut dist: Vec<i32> = Vec::new();
        let mut prev: Vec<Option<Point>> = Vec::new();
        let mut done: Vec<bool> = Vec::new();
        let mut k: usize = 0;
        while k < CELLS
            invariant
                k <= CELLS,
                dist@.len() == k,
                prev@.len() == k,
                done@.len() == k,
                forall|i: int| 0 <= i < k ==> #[trigger] dist@[i] == MAX_DIST,
                forall|i: int| 0 <= i < k ==> (#[trigger] prev@[i]).is_none(),
                forall|i: int| 0 <= i < k ==> !#[trigger] done@[i],
            decreases CELLS - k,
        {
            dist.push(MAX_DIST);
            prev.push(None);
            done.push(false);
            k = k + 1;
        }
        if !src.inbounds() {
            return (dist, prev);
        }
        let start = index_of(src);
        dist.set(start, 0);
        let ghost mut walks: Seq<Seq<Point>> = Seq::new(CELLS as nat, |i: int| seq![src]);
        let ghost mut settled: Set<int> = Set::empty();
        let mut round: usize = 0;
        let mut finished = false;
        proof {
            assert(walk_between(self.ways(), seq![src], src, src));
            assert(cell_at(start as int) == src);
        }
        while !finished
            invariant
                search_state(self.ways(), src, dist@, prev@, done@, walks, round as int),
                settled.finite(),
                settled.len() == round,
                forall|i: int| settled.contains(i) <==> 0 <= i < CELLS && done@[i],
                finished ==> forall|i: int| 0 <= i < CELLS && !#[trigger] done@[i] ==> dist@[i] == MAX_DIST,
            decreases CELLS - round, if finished { 0int } else { 1int },
        {
            // the nearest cell that is not settled yet
            let mut best: usize = CELLS;
            let mut min: i32 = MAX_DIST;
            let mut j: usize = 0;
            while j < CELLS
                invariant
                    j <= CELLS,
                    dist@.len() == CELLS,
                    done@.len() == CELLS,
                    best <= CELLS,
                    0 <= min <= MAX_DIST,
                    forall|i: int| 0 <= i < CELLS ==> 0 <= #[trigger] dist@[i] <= MAX_DIST,
                    best == CELLS ==> min == MAX_DIST,
                    best < CELLS ==> !done@[best as int] && dist@[best as int] == min && min < MAX_DIST,
                    forall|i: int| 0 <= i < j && !#[trigger] done@[i] ==> min <= dist@[i],
                decreases CELLS - j,
            {
                if !done[j] && dist[j] < min {
                    min = dist[j];
                    best = j;
                }
                j = j + 1;
            }
            if best == CELLS {
                finished = true;
            } else {
                proof {
                    lemma_int_range(0, CELLS as int);
                    lemma_len_subset(settled.insert(best as int), set_int_range(0, CELLS as int));
                    lemma_relax_start(self.ways(), src, dist@, prev@, done@, walks, round as int, best as int);
                }
                // settle it, and see which cells are nearer by way of it
                done.set(best, true);
                proof {
                    settled = settled.insert(best as int);
                }
                let u = cell_of(best);
                let alt: i32 = min + 1;
                let mut v: usize = 0;
                while v < CELLS
                    invariant
                        v <= CELLS,
                        best < CELLS,
                        u == cell_at(best as int),
                        alt == dist@[best as int] + 1,
                        relax_state(
                            self.ways(),
                            src,
                            dist@,
                            prev@,
                            done@,
                            walks,
                            round as int,
                            best as int,
                            v as int,
                        ),
                        forall|i: int| settled.contains(i) <==> 0 <= i < CELLS && done@[i],
                    decreases CELLS - v,
                {
                    let c = cell_of(v);
                    if self.passable(u, c) && alt < dist[v] {
                        proof {
                            lemma_relax_update(
                                self.ways(),
                                src,
                                dist@,
                                prev@,
                                done@,
                                walks,
                                round as int,
                                best as int,
                                v as int,
                            );
                            walks = walks.update(v as int, walks[best as int].push(c));
                        }
                        dist.set(v, alt);
                        prev.set(v, Some(u));
                    } else {
                        proof {
                            lemma_relax_skip(
                                self.ways(),
                                src,
                                dist@,
                                prev@,
                                done@,
                                walks,
                                round as int,
                                best as int,
                                v as int,
                            );
                        }
                    }
                    v = v + 1;
                }
                proof {
                    lemma_relax_end(self.ways(), src, dist@, prev@, done@, walks, round as int, best as int);
                }
                round = round + 1;
            }
        }
        proof {
            lemma_search_complete(self.ways(), src, dist@, prev@, done@, walks, round as int);
        }
        (dist, prev)
    }

    /// Use Warshall's algorithm to determine point-to-point connectedness
    /// in the graph that `adj` decides. The nodes are the cells of the board
    /// and of the ring around it; the table tells of each pair of nodes
    /// whether a path of one step or more leads from the first to the
    /// second.
    fn warshall(&self) -> (w: Vec<Vec<bool>>)
        ensures
            is_closure(self.links(), rows_of(w@)),
    {
        let n = NODES;
        let mut flat: Vec<bool> = Vec::new();
        let mut a: usize = 0;
        while a < n
            invariant
                n == NODES,
                a <= n,
                flat@.len() == a * 121,
                forall|i: int|
                    0 <= i < flat@.len() ==> #[trigger] flat@[i] == (self.links())(
                        node_cell(i / 121),
                        node_cell(i % 121),
                    ),
            decreases n - a,
        {
            let mut b: usize = 0;
            while b < n
                invariant
                    n == NODES,
                    a < n,
                    b <= n,
                    flat@.len() == a * 121 + b,
                    forall|i: int|
                        0 <= i < flat@.len() ==> #[trigger] flat@[i] == (self.links())(
                            node_cell(i / 121),
                            node_cell(i % 121),
                        ),
                decreases n - b,
            {
                let linked = self.adj(node_of(a), node_of(b));
                flat.push(linked);
                b = b + 1;
            }
            a = a + 1;
        }
        proof {
            assert forall|x: int, y: int| 0 <= x < NODES && 0 <= y < NODES implies #[trigger] flat@[x * 121
                + y] == joined_below(self.links(), x, y, 0) by {
                let i = x * 121 + y;
                assert(i / 121 == x && i % 121 == y);
                lemma_joined_below_zero(self.links(), x, y);
            }
        }
        let mut k: usize = 0;
        while k < n
            invariant
                n == NODES,
                k <= n,
                flat@.len() == NODES * NODES,
                forall|x: int, y: int|
                    0 <= x < NODES && 0 <= y < NODES ==> #[trigger] flat@[x * 121 + y] == joined_below(
                        self.links(),
                        x,
                        y,
                        k as int,
                    ),
            decreases n - k,
        {
            proof {
                lemma_closing_round(self.links(), flat@, k as int);
            }
            let mut a: usize = 0;
            while a < n
                invariant
                    n == NODES,
                    k < n,
                    a <= n,
                    closing(self.links(), flat@, k as int, a as int, 0),
                decreases n - a,
            {
                let mut b: usize = 0;
                while b < n
                    invariant
                        n == NODES,
                        k < n,
                        a < n,
                        b <= n,
                        closing(self.links(), flat@, k as int, a as int, b as int),
                    decreases n - b,
                {
                    let v = flat[a * 121 + b] || (flat[a * 121 + k] && flat[k * 121 + b]);
                    proof {
                        lemma_closing_step(self.links(), flat@, k as int, a as int, b as int);
                    }
                    flat.set(a * 121 + b, v);
                    b = b + 1;
                }
                a = a + 1;
            }
            k = k + 1;
        }
        let mut w: Vec<Vec<bool>> = Vec::new();
        let mut a: usize = 0;
        while a < n
            invariant
                n == NODES,
                a <= n,
                flat@.len() == NODES * NODES,
                w@.len() == a,
                forall|x: int| 0 <= x < a ==> (#[trigger] w@[x])@.len() == NODES,
                forall|x: int, y: int|
                    0 <= x < a && 0 <= y < NODES ==> #[trigger] w@[x]@[y] == flat@[x * 121 + y],
            decreases n - a,
        {
            let mut row: Vec<bool> = Vec::new();
            let mut b: usize = 0;
            while b < n
                invariant
                    n == NODES,
                    a < n,
                    b <= n,
                    flat@.len() == NODES * NODES,
                    row@.len() == b,
                    forall|y: int| 0 <= y < b ==> #[trigger] row@[y] == flat@[a * 121 + y],
                decreases n - b,
            {
                row.push(flat[a * 121 + b]);
                b = b + 1;
            }
            w.push(row);
            a = a + 1;
        }
        proof {
            let table = rows_of(w@);
            assert forall|x: int, y: int| 0 <= x < NODES && 0 <= y < NODES implies #[trigger] table[x][y]
                == joined(self.links(), x, y) by {
                assert(w@[x]@[y] == flat@[x * 121 + y]);
            }
        }
        w
    }

    /// Whether, by the table that `warshall` returns, a path leads from the
    /// cell `a` to the cell `b`.
    fn connected(&self, warshall: &Vec<Vec<bool>>, a: Point, b: Point) -> (r: bool)
        requires
            in_frame(a),
            in_frame(b),
            warshall@.len() == NODES,
            forall|i: int| 0 <= i < NODES ==> (#[trigger] warshall@[i])@.len() == NODES,
        ensures
            r == rows_of(warshall@)[node_index(a)][node_index(b)],
            is_closure(self.links(), rows_of(warshall@)) ==> r == joined(
                self.links(),
                node_index(a),
                node_index(b),
            ),
    {
        let i = index_of_node(a);
        let j = index_of_node(b);
        assert(rows_of(warshall@)[i as int] == warshall@[i as int]@);
        warshall[i][j]
    }
}

} // verus!

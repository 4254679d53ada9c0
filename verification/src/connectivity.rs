//! Which cell is connected to which: the board and the ring of cells around
//! it, as the nodes of a graph.

use vstd::prelude::*;
use crate::board::Point;

verus! {

/// Side length of the board with the ring of cells around it.
pub const FRAME: usize = 11;

/// Number of nodes: the cells of the board and of the ring around it.
pub const NODES: usize = 121;

/// The cell that node `i` stands for. Node 0 is the cell `(-1, -1)`.
pub open spec fn node_cell(i: int) -> Point {
    Point { x: (i % 11 - 1) as i32, y: (i / 11 - 1) as i32 }
}

/// The node that stands for the cell `p`.
pub open spec fn node_index(p: Point) -> int {
    (p.x + 1) + (p.y + 1) * 11
}

/// Whether the cell `p` is a node: it lies on the board or on the ring
/// around it.
pub open spec fn in_frame(p: Point) -> bool {
    -1 <= p.x <= 9 && -1 <= p.y <= 9
}

/// `s` is a path from node `a` to node `b`: two nodes or more, each linked
/// to the next, and every node between the first and the last is below
/// `limit`.
pub open spec fn path_below(g: spec_fn(Point, Point) -> bool, s: Seq<int>, a: int, b: int, limit: int) -> bool {
    &&& s.len() >= 2
    &&& s[0] == a
    &&& s.last() == b
    &&& forall|i: int| 0 <= i < s.len() ==> 0 <= #[trigger] s[i] < NODES
    &&& forall|i: int| 0 <= i < s.len() - 1 ==> g(node_cell(#[trigger] s[i]), node_cell(s[i + 1]))
    &&& forall|i: int| 0 < i < s.len() - 1 ==> #[trigger] s[i] < limit
}

/// Some path leads from node `a` to node `b` past nodes below `limit` only.
pub open spec fn joined_below(g: spec_fn(Point, Point) -> bool, a: int, b: int, limit: int) -> bool {
    exists|s: Seq<int>| #[trigger] path_below(g, s, a, b, limit)
}

/// Some path of one step or more leads from node `a` to node `b`.
pub open spec fn joined(g: spec_fn(Point, Point) -> bool, a: int, b: int) -> bool {
    joined_below(g, a, b, NODES as int)
}

/// Whether the table `w`, row after row, tells of each pair of nodes
/// whether a path leads from the first to the second.
pub open spec fn is_closure(g: spec_fn(Point, Point) -> bool, w: Seq<Seq<bool>>) -> bool {
    &&& w.len() == NODES
    &&& forall|a: int| 0 <= a < NODES ==> (#[trigger] w[a]).len() == NODES
    &&& forall|a: int, b: int| 0 <= a < NODES && 0 <= b < NODES ==> #[trigger] w[a][b] == joined(g, a, b)
}

/// A path that may pass no node at all is a single step.
pub proof fn lemma_joined_below_zero(g: spec_fn(Point, Point) -> bool, a: int, b: int)
    requires
        0 <= a < NODES,
        0 <= b < NODES,
    ensures
        joined_below(g, a, b, 0) == g(node_cell(a), node_cell(b)),
{
    if g(node_cell(a), node_cell(b)) {
        let s = seq![a, b];
        assert(s[0] == a && s[1] == b);
        assert(path_below(g, s, a, b, 0));
    }
    if joined_below(g, a, b, 0) {
        let s = choose|s: Seq<int>| #[trigger] path_below(g, s, a, b, 0);
        if s.len() > 2 {
            assert(s[1] < 0);
        }
        assert(g(node_cell(s[0]), node_cell(s[0int + 1])));
    }
}

/// A path past nodes below `limit` is a path past nodes below any greater
/// limit.
pub proof fn lemma_joined_below_grows(g: spec_fn(Point, Point) -> bool, a: int, b: int, limit: int, more: int)
    requires
        joined_below(g, a, b, limit),
        limit <= more,
    ensures
        joined_below(g, a, b, more),
{
    let s = choose|s: Seq<int>| #[trigger] path_below(g, s, a, b, limit);
    assert(path_below(g, s, a, b, more));
}

/// Two paths past nodes below `k` that meet in node `k` make a path past
/// nodes below `k + 1`.
pub proof fn lemma_joined_through(g: spec_fn(Point, Point) -> bool, a: int, b: int, k: int)
    requires
        joined_below(g, a, k, k + 1),
        joined_below(g, k, b, k + 1),
    ensures
        joined_below(g, a, b, k + 1),
{
    let s1 = choose|s: Seq<int>| #[trigger] path_below(g, s, a, k, k + 1);
    let s2 = choose|s: Seq<int>| #[trigger] path_below(g, s, k, b, k + 1);
    let t = s1 + s2.subrange(1, s2.len() as int);
    assert forall|i: int| 0 <= i < t.len() implies 0 <= #[trigger] t[i] < NODES by {
        if i < s1.len() {
            assert(t[i] == s1[i]);
        } else {
            assert(t[i] == s2[i - s1.len() + 1]);
        }
    }
    assert forall|i: int| 0 <= i < t.len() - 1 implies g(node_cell(#[trigger] t[i]), node_cell(t[i + 1])) by {
        if i < s1.len() - 1 {
            assert(t[i] == s1[i]);
            assert(t[i + 1] == s1[i + 1]);
        } else if i == s1.len() - 1 {
            assert(t[i] == s1.last());
            assert(t[i + 1] == s2[1]);
            assert(g(node_cell(s2[0]), node_cell(s2[0int + 1])));
        } else {
            let j = i - s1.len() + 1;
            assert(t[i] == s2[j]);
            assert(t[i + 1] == s2[j + 1]);
        }
    }
    assert forall|i: int| 0 < i < t.len() - 1 implies #[trigger] t[i] < k + 1 by {
        if i < s1.len() - 1 {
            assert(t[i] == s1[i]);
        } else if i == s1.len() - 1 {
            assert(t[i] == s1.last());
        } else {
            let j = i - s1.len() + 1;
            assert(t[i] == s2[j]);
        }
    }
    assert(t[0] == s1[0]);
    assert(t.last() == s2.last());
    assert(path_below(g, t, a, b, k + 1));
}

/// A path past nodes below `k + 1` either keeps below `k`, or it is made of
/// a path to node `k` and a path from node `k` that both keep below `k`.
pub proof fn lemma_path_splits(g: spec_fn(Point, Point) -> bool, s: Seq<int>, a: int, b: int, k: int)
    requires
        path_below(g, s, a, b, k + 1),
    ensures
        joined_below(g, a, b, k) || (joined_below(g, a, k, k) && joined_below(g, k, b, k)),
    decreases s.len(),
{
    if forall|i: int| 0 < i < s.len() - 1 ==> #[trigger] s[i] != k {
        assert(path_below(g, s, a, b, k));
    } else {
        let i = choose|i: int| 0 < i < s.len() - 1 && #[trigger] s[i] == k;
        let left = s.subrange(0, i + 1);
        let right = s.subrange(i, s.len() as int);
        assert forall|j: int| 0 <= j < left.len() - 1 implies g(
            node_cell(#[trigger] left[j]),
            node_cell(left[j + 1]),
        ) by {
            assert(left[j] == s[j]);
            assert(left[j + 1] == s[j + 1]);
        }
        assert forall|j: int| 0 < j < left.len() - 1 implies #[trigger] left[j] < k + 1 by {
            assert(left[j] == s[j]);
        }
        assert forall|j: int| 0 <= j < left.len() implies 0 <= #[trigger] left[j] < NODES by {
            assert(left[j] == s[j]);
        }
        assert(left.last() == s[i]);
        assert(path_below(g, left, a, k, k + 1));
        assert forall|j: int| 0 <= j < right.len() - 1 implies g(
            node_cell(#[trigger] right[j]),
            node_cell(right[j + 1]),
        ) by {
            assert(right[j] == s[i + j]);
            assert(right[j + 1] == s[i + j + 1]);
        }
        assert forall|j: int| 0 < j < right.len() - 1 implies #[trigger] right[j] < k + 1 by {
            assert(right[j] == s[i + j]);
        }
        assert forall|j: int| 0 <= j < right.len() implies 0 <= #[trigger] right[j] < NODES by {
            assert(right[j] == s[i + j]);
        }
        assert(right[0] == s[i]);
        assert(right.last() == s.last());
        assert(path_below(g, right, k, b, k + 1));
        lemma_path_splits(g, left, a, k, k);
        lemma_path_splits(g, right, k, b, k);
    }
}

/// The table of a search for connected nodes, while it lets paths pass node
/// `k` and has done so for the cells before `(a, b)`: the rows before row
/// `a`, and in row `a` the columns before `b`. The table is kept as one
/// row.
pub(crate) open spec fn closing(g: spec_fn(Point, Point) -> bool, w: Seq<bool>, k: int, a: int, b: int) -> bool {
    &&& w.len() == NODES * NODES
    &&& 0 <= k < NODES
    &&& forall|x: int, y: int|
        0 <= x < NODES && 0 <= y < NODES && #[trigger] w[x * 121 + y] ==> joined_below(g, x, y, k + 1)
    &&& forall|x: int, y: int|
        0 <= x < NODES && 0 <= y < NODES && joined_below(g, x, y, k) ==> #[trigger] w[x * 121 + y]
    &&& forall|x: int, y: int|
        0 <= x < NODES && 0 <= y < NODES && (x < a || (x == a && y < b)) && joined_below(g, x, y, k + 1)
            ==> #[trigger] w[x * 121 + y]
}

/// One cell of the table is brought up to date.
pub(crate) proof fn lemma_closing_step(g: spec_fn(Point, Point) -> bool, w: Seq<bool>, k: int, a: int, b: int)
    requires
        closing(g, w, k, a, b),
        0 <= a < NODES,
        0 <= b < NODES,
    ensures
        closing(
            g,
            w.update(a * 121 + b, w[a * 121 + b] || (w[a * 121 + k] && w[k * 121 + b])),
            k,
            a,
            b + 1,
        ),
{
    let v = w[a * 121 + b] || (w[a * 121 + k] && w[k * 121 + b]);
    let w2 = w.update(a * 121 + b, v);
    assert forall|x: int, y: int|
        0 <= x < NODES && 0 <= y < NODES && #[trigger] w2[x * 121 + y] implies joined_below(g, x, y, k + 1) by {
        if x == a && y == b {
            if !w[a * 121 + b] {
                assert(w[a * 121 + k] && w[k * 121 + b]);
                lemma_joined_through(g, a, b, k);
            }
        } else {
            assert(x * 121 + y != a * 121 + b);
            assert(w[x * 121 + y]);
        }
    }
    assert forall|x: int, y: int|
        0 <= x < NODES && 0 <= y < NODES && joined_below(g, x, y, k) implies #[trigger] w2[x * 121 + y] by {
        assert(w[x * 121 + y]);
    }
    assert forall|x: int, y: int|
        0 <= x < NODES && 0 <= y < NODES && (x < a || (x == a && y < b + 1)) && joined_below(g, x, y, k + 1)
        implies #[trigger] w2[x * 121 + y] by {
        if x == a && y == b {
            let s = choose|s: Seq<int>| #[trigger] path_below(g, s, a, b, k + 1);
            lemma_path_splits(g, s, a, b, k);
            if joined_below(g, a, b, k) {
                assert(w[a * 121 + b]);
            } else {
                assert(w[a * 121 + k]);
                assert(w[k * 121 + b]);
            }
        } else {
            assert(x * 121 + y != a * 121 + b);
            assert(w[x * 121 + y]);
        }
    }
}

/// A table that is up to date for paths past nodes below `k` is ready to
/// let paths pass node `k`.
pub(crate) proof fn lemma_closing_round(g: spec_fn(Point, Point) -> bool, w: Seq<bool>, k: int)
    requires
        w.len() == NODES * NODES,
        0 <= k < NODES,
        forall|x: int, y: int|
            0 <= x < NODES && 0 <= y < NODES ==> #[trigger] w[x * 121 + y] == joined_below(g, x, y, k),
    ensures
        closing(g, w, k, 0, 0),
{
    assert forall|x: int, y: int|
        0 <= x < NODES && 0 <= y < NODES && #[trigger] w[x * 121 + y] implies joined_below(g, x, y, k + 1) by {
        lemma_joined_below_grows(g, x, y, k, k + 1);
    }
}

} // verus!

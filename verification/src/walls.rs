//! The walls on a board, and the steps they leave open.

use vstd::prelude::*;
use crate::adjacency_matrix::AdjacencyMatrix;
use crate::board::{Orientation, Point, Wall};

verus! {

/// Whether the set holds the wall with orientation `o` centred on the
/// lattice point `(x, y)`.
pub open spec fn holds(walls: Set<Wall>, o: Orientation, x: int, y: int) -> bool {
    &&& i32::MIN <= x <= i32::MAX
    &&& i32::MIN <= y <= i32::MAX
    &&& walls.contains(Wall { x: x as i32, y: y as i32, orientation: o })
}

/// Whether a wall lies across the step between the neighbouring cells `a`
/// and `b`. A wall is two cells long, so two walls can lie across any one
/// step.
pub open spec fn blocked(walls: Set<Wall>, a: Point, b: Point) -> bool {
    if !a.spec_neighbors(b) {
        false
    } else if a.y == b.y {
        let x = if a.x > b.x { a.x } else { b.x };
        holds(walls, Orientation::Vertical, x as int, a.y as int) || holds(
            walls,
            Orientation::Vertical,
            x as int,
            a.y + 1,
        )
    } else {
        let y = if a.y > b.y { a.y } else { b.y };
        holds(walls, Orientation::Horizontal, a.x as int, y as int) || holds(
            walls,
            Orientation::Horizontal,
            a.x + 1,
            y as int,
        )
    }
}

/// Whether a pawn could step from `a` to `b` on a board with these walls and
/// no other pawn.
pub open spec fn open_step(walls: Set<Wall>, a: Point, b: Point) -> bool {
    a.spec_neighbors(b) && a.spec_inbounds() && b.spec_inbounds() && !blocked(walls, a, b)
}

/// The graph of the open steps.
pub open spec fn passages(walls: Set<Wall>) -> spec_fn(Point, Point) -> bool {
    |a: Point, b: Point| open_step(walls, a, b)
}

/// Whether `w` cannot be added to `walls`: it is there already, or it
/// crosses a wall at its centre, or it overlaps a wall on its own line.
pub open spec fn collides(walls: Set<Wall>, w: Wall) -> bool {
    ||| walls.contains(w)
    ||| walls.contains(w.spec_rotated())
    ||| match w.orientation {
        Orientation::Vertical => holds(walls, w.orientation, w.x as int, w.y - 1) || holds(
            walls,
            w.orientation,
            w.x as int,
            w.y + 1,
        ),
        Orientation::Horizontal => holds(walls, w.orientation, w.x - 1, w.y as int) || holds(
            walls,
            w.orientation,
            w.x + 1,
            w.y as int,
        ),
    }
}

/// A step is blocked in one direction exactly when it is blocked in the
/// other.
pub proof fn lemma_blocked_symmetric(walls: Set<Wall>, a: Point, b: Point)
    ensures
        blocked(walls, a, b) == blocked(walls, b, a),
        open_step(walls, a, b) == open_step(walls, b, a),
{
}

/// Adding a wall that was not there and taking it away again leaves every
/// step as it was.
pub proof fn lemma_insert_remove_restores(walls: Set<Wall>, w: Wall, a: Point, b: Point)
    requires
        !walls.contains(w),
    ensures
        walls.insert(w).remove(w) == walls,
        blocked(walls.insert(w).remove(w), a, b) == blocked(walls, a, b),
        open_step(walls.insert(w).remove(w), a, b) == open_step(walls, a, b),
{
    assert(walls.insert(w).remove(w) =~= walls);
}

/// A set of walls.
#[derive(Debug)]
pub struct WallSet {
    pub items: Vec<Wall>,
}

impl View for WallSet {
    type V = Set<Wall>;

    open spec fn view(&self) -> Set<Wall> {
        self.items@.to_set()
    }
}

impl WallSet {
    /// No wall is stored twice.
    pub open spec fn wf(&self) -> bool {
        self.items@.no_duplicates()
    }

    /// The set that holds no wall.
    pub fn new() -> (s: WallSet)
        ensures
            s.wf(),
            s@ == Set::<Wall>::empty(),
    {
        let s = WallSet { items: Vec::new() };
        assert(s@ =~= Set::<Wall>::empty());
        s
    }

    /// Number of walls in the set.
    pub fn len(&self) -> (n: usize)
        ensures
            n == self.items@.len(),
            self.wf() ==> n == self@.len(),
    {
        proof {
            if self.wf() {
                self.items@.unique_seq_to_set();
            }
        }
        self.items.len()
    }

    /// Position of `wall` in the store, if it is there.
    fn position(&self, wall: &Wall) -> (r: Option<usize>)
        ensures
            match r {
                Some(i) => i < self.items@.len() && self.items@[i as int] == *wall,
                None => !self@.contains(*wall),
            },
    {
        let mut i: usize = 0;
        while i < self.items.len()
            invariant
                i <= self.items@.len(),
                forall|j: int| 0 <= j < i ==> self.items@[j] != *wall,
            decreases self.items@.len() - i,
        {
            if self.items[i] == *wall {
                return Some(i);
            }
            i = i + 1;
        }
        None
    }

    /// Whether `wall` is in the set.
    pub fn contains(&self, wall: &Wall) -> (r: bool)
        ensures
            r == self@.contains(*wall),
    {
        self.position(wall).is_some()
    }

    /// Adds a wall; tells whether it was new.
    pub fn insert(&mut self, wall: Wall) -> (fresh: bool)
        requires
            old(self).wf(),
        ensures
            final(self).wf(),
            final(self)@ == old(self)@.insert(wall),
            fresh == !old(self)@.contains(wall),
    {
        if self.contains(&wall) {
            assert(self@.insert(wall) =~= self@);
            false
        } else {
            let ghost before = self.items@;
            self.items.push(wall);
            proof {
                assert(self.items@ == before.push(wall));
                assert forall|i: int, j: int|
                    0 <= i < self.items@.len() && 0 <= j < self.items@.len() && i != j implies self.items@[i]
                    != self.items@[j] by {
                    if i < before.len() {
                        assert(before.contains(before[i]));
                    }
                    if j < before.len() {
                        assert(before.contains(before[j]));
                    }
                }
                assert forall|w: Wall| self.items@.to_set().contains(w) <==> before.to_set().insert(
                    wall,
                ).contains(w) by {
                    if self.items@.contains(w) {
                        let k = choose|k: int| 0 <= k < self.items@.len() && self.items@[k] == w;
                        if k < before.len() {
                            assert(before[k] == w);
                        }
                    }
                    if before.contains(w) {
                        let k = choose|k: int| 0 <= k < before.len() && before[k] == w;
                        assert(self.items@[k] == w);
                    }
                    if w == wall {
                        assert(self.items@[before.len() as int] == w);
                    }
                }
                assert(self@ =~= before.to_set().insert(wall));
            }
            true
        }
    }

    /// Takes a wall away; tells whether it was there.
    pub fn remove(&mut self, wall: &Wall) -> (found: bool)
        requires
            old(self).wf(),
        ensures
            final(self).wf(),
            final(self)@ == old(self)@.remove(*wall),
            found == old(self)@.contains(*wall),
    {
        match self.position(wall) {
            Some(i) => {
                let ghost before = self.items@;
                self.items.remove(i);
                proof {
                    assert(self.items@ == before.remove(i as int));
                    assert forall|a: int, b: int|
                        0 <= a < self.items@.len() && 0 <= b < self.items@.len() && a != b implies self.items@[a]
                        != self.items@[b] by {
                        let a2 = if a < i { a } else { a + 1 };
                        let b2 = if b < i { b } else { b + 1 };
                        assert(self.items@[a] == before[a2]);
                        assert(self.items@[b] == before[b2]);
                    }
                    assert forall|w: Wall| self.items@.to_set().contains(w) <==> before.to_set().remove(
                        *wall,
                    ).contains(w) by {
                        if self.items@.contains(w) {
                            let k = choose|k: int| 0 <= k < self.items@.len() && self.items@[k] == w;
                            let k2 = if k < i { k } else { k + 1 };
                            assert(before[k2] == w);
                            assert(before.contains(w));
                        }
                        if before.contains(w) && w != *wall {
                            let k = choose|k: int| 0 <= k < before.len() && before[k] == w;
                            let k2 = if k < i { k } else { k - 1 };
                            assert(self.items@[k2] == w);
                        }
                    }
                    assert(self@ =~= before.to_set().remove(*wall));
                }
                true
            },
            None => {
                assert(self@.remove(*wall) =~= self@);
                false
            },
        }
    }

    /// Whether the set holds the wall with orientation `o` centred on
    /// `(x, y)`.
    fn holds_at(&self, o: Orientation, x: i64, y: i64) -> (r: bool)
        ensures
            r == holds(self@, o, x as int, y as int),
    {
        if x < i32::MIN as i64 || x > i32::MAX as i64 || y < i32::MIN as i64 || y > i32::MAX as i64 {
            false
        } else {
            self.contains(&Wall { x: x as i32, y: y as i32, orientation: o })
        }
    }

    /// Whether a wall lies across the step between `a` and `b`.
    pub fn blocks(&self, a: Point, b: Point) -> (r: bool)
        ensures
            r == blocked(self@, a, b),
    {
        if !a.neighbors(b) {
            false
        } else if a.y == b.y {
            let x: i64 = if a.x > b.x { a.x as i64 } else { b.x as i64 };
            self.holds_at(Orientation::Vertical, x, a.y as i64) || self.holds_at(
                Orientation::Vertical,
                x,
                a.y as i64 + 1,
            )
        } else {
            let y: i64 = if a.y > b.y { a.y as i64 } else { b.y as i64 };
            self.holds_at(Orientation::Horizontal, a.x as i64, y) || self.holds_at(
                Orientation::Horizontal,
                a.x as i64 + 1,
                y,
            )
        }
    }

    /// Whether `wall` is in the set already, crosses a wall of the set or
    /// overlaps one.
    pub fn collides_with(&self, wall: &Wall) -> (r: bool)
        ensures
            r == collides(self@, *wall),
    {
        if self.contains(wall) || self.contains(&wall.rotated()) {
            return true;
        }
        let x = wall.x as i64;
        let y = wall.y as i64;
        match wall.orientation {
            Orientation::Vertical => self.holds_at(wall.orientation, x, y - 1) || self.holds_at(
                wall.orientation,
                x,
                y + 1,
            ),
            Orientation::Horizontal => self.holds_at(wall.orientation, x - 1, y) || self.holds_at(
                wall.orientation,
                x + 1,
                y,
            ),
        }
    }
}

/// The graph of the steps that the walls leave open, whatever pawns stand on
/// the board.
impl AdjacencyMatrix for WallSet {
    open spec fn links(&self) -> spec_fn(Point, Point) -> bool {
        passages(self@)
    }

    open spec fn ways(&self) -> spec_fn(Point, Point) -> bool {
        passages(self@)
    }

    /// Whether a pawn could step from `a` to `b` if no other pawn were in
    /// its way.
    fn adj(&self, a: Point, b: Point) -> (r: bool) {
        let r = a.neighbors(b) && a.inbounds() && b.inbounds() && !self.blocks(a, b);
        assert(r == (self.links())(a, b));
        r
    }

    /// The same as `adj`: on a board without pawns every step is a way.
    fn passable(&self, a: Point, b: Point) -> (r: bool) {
        let r = self.adj(a, b);
        assert(r == (self.ways())(a, b));
        r
    }
}

} // verus!

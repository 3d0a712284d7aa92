//! The mathematics of a terrain mask: which cells are solid, what a carve
//! removes, and which cells are still held up by the ground.

use vstd::prelude::*;

verus! {

/// The mathematical content of a terrain: its extent and the set of its
/// solid cells. A cell is a pair `(x, y)`; `y` grows downwards, and the row
/// `y == height - 1` is the ground.
pub struct Mask {
    pub width: int,
    pub height: int,
    pub solid: Set<(int, int)>,
}

impl Mask {
    /// Whether the cell `c` lies inside the extent.
    pub open spec fn in_bounds(self, c: (int, int)) -> bool {
        0 <= c.0 < self.width && 0 <= c.1 < self.height
    }

    /// Every solid cell lies inside the extent.
    pub open spec fn well_formed(self) -> bool {
        forall|c: (int, int)| #[trigger] self.solid.contains(c) ==> self.in_bounds(c)
    }

    /// The mask after the cell `c` is made solid or empty. A cell outside
    /// the extent is left as it is: empty.
    pub open spec fn with_cell(self, c: (int, int), solid: bool) -> Mask {
        if !self.in_bounds(c) {
            self
        } else if solid {
            Mask { solid: self.solid.insert(c), ..self }
        } else {
            Mask { solid: self.solid.remove(c), ..self }
        }
    }

    /// The mask after every cell of the disc around `center` is emptied.
    pub open spec fn carved(self, center: (int, int), radius: int) -> Mask {
        Mask {
            solid: Set::new(|c: (int, int)| self.solid.contains(c) && !in_disc(c, center, radius)),
            ..self
        }
    }
}

/// Whether the cell `c` lies within `radius` of `center`, the rim included.
pub open spec fn in_disc(c: (int, int), center: (int, int), radius: int) -> bool {
    (c.0 - center.0) * (c.0 - center.0) + (c.1 - center.1) * (c.1 - center.1) <= radius * radius
}

/// The value nearest to `v` in the range from `lo` to `hi`.
pub open spec fn clamp(v: int, lo: int, hi: int) -> int {
    if v < lo {
        lo
    } else if v > hi {
        hi
    } else {
        v
    }
}

/// Whether two cells share an edge.
pub open spec fn adjacent(a: (int, int), b: (int, int)) -> bool {
    ||| a.0 == b.0 && (a.1 == b.1 + 1 || a.1 + 1 == b.1)
    ||| a.1 == b.1 && (a.0 == b.0 + 1 || a.0 + 1 == b.0)
}

impl Mask {
    /// The topmost solid cell of the column `x` at or below the row `from`,
    /// if there is one.
    pub open spec fn column_top(self, x: int, from: int) -> Option<int>
        decreases self.height - from,
    {
        if from >= self.height {
            None
        } else if self.solid.contains((x, from)) {
            Some(from)
        } else {
            self.column_top(x, from + 1)
        }
    }

    /// What `column_top` finds is a solid cell with no solid cell between
    /// `from` and it; it finds none only where the column has no solid cell
    /// from `from` down.
    pub proof fn lemma_column_top(self, x: int, from: int)
        requires
            self.well_formed(),
        ensures
            match self.column_top(x, from) {
                Some(y) => from <= y < self.height && self.solid.contains((x, y)) && forall|v: int|
                    from <= v < y ==> !self.solid.contains((x, v)),
                None => forall|v: int| from <= v ==> !self.solid.contains((x, v)),
            },
        decreases self.height - from,
    {
        if from < self.height && !self.solid.contains((x, from)) {
            self.lemma_column_top(x, from + 1);
        }
    }

    /// A solid cell of the ground row.
    pub open spec fn grounded(self, c: (int, int)) -> bool {
        self.solid.contains(c) && c.1 == self.height - 1
    }

    /// A chain of solid cells that starts on the ground row and in which
    /// each cell shares an edge with the one before it.
    pub open spec fn support_path(self, p: Seq<(int, int)>) -> bool {
        &&& p.len() > 0
        &&& self.grounded(p[0])
        &&& forall|i: int| 0 <= i < p.len() ==> self.solid.contains(#[trigger] p[i])
        &&& forall|i: int| 0 < i < p.len() ==> adjacent(p[i - 1], #[trigger] p[i])
    }

    /// Whether the cell `c` is solid and joined to the ground row through
    /// solid cells that share edges.
    pub open spec fn supported(self, c: (int, int)) -> bool {
        exists|p: Seq<(int, int)>| #[trigger] self.support_path(p) && p.last() == c
    }

    /// Whether nothing is left to collapse: every solid cell is supported.
    pub open spec fn settled(self) -> bool {
        forall|c: (int, int)| #[trigger] self.solid.contains(c) ==> self.supported(c)
    }

    /// The solid cells that have lost their support.
    pub open spec fn loose(self) -> Set<(int, int)> {
        Set::new(|c: (int, int)| self.solid.contains(c) && !self.supported(c))
    }

    /// The mask after every loose cell is emptied.
    pub open spec fn collapsed(self) -> Mask {
        Mask { solid: Set::new(|c: (int, int)| self.solid.contains(c) && self.supported(c)), ..self }
    }

    /// A solid cell of the ground row is supported.
    pub proof fn lemma_grounded_supported(self, c: (int, int))
        requires
            self.grounded(c),
        ensures
            self.supported(c),
    {
        let p = seq![c];
        assert(self.support_path(p));
        assert(p.last() == c);
    }

    /// A solid cell that shares an edge with a supported cell is supported.
    pub proof fn lemma_support_spreads(self, c: (int, int), n: (int, int))
        requires
            self.supported(c),
            adjacent(c, n),
            self.solid.contains(n),
        ensures
            self.supported(n),
    {
        let p = choose|p: Seq<(int, int)>| #[trigger] self.support_path(p) && p.last() == c;
        let q = p.push(n);
        assert forall|i: int| 0 < i < q.len() implies adjacent(q[i - 1], #[trigger] q[i]) by {
            if i < p.len() {
                assert(q[i] == p[i]);
                assert(q[i - 1] == p[i - 1]);
            }
        }
        assert(self.support_path(q));
        assert(q.last() == n);
    }

    /// Every cell of a support path is itself supported.
    pub proof fn lemma_path_cells_supported(self, p: Seq<(int, int)>, i: int)
        requires
            self.support_path(p),
            0 <= i < p.len(),
        ensures
            self.supported(p[i]),
    {
        let q = p.take(i + 1);
        assert(self.support_path(q));
        assert(q.last() == p[i]);
    }

    /// Collapsing leaves a settled mask.
    pub proof fn lemma_collapsed_is_settled(self)
        ensures
            self.collapsed().settled(),
    {
        let after = self.collapsed();
        assert forall|c: (int, int)| #[trigger] after.solid.contains(c) implies after.supported(
            c,
        ) by {
            let p = choose|p: Seq<(int, int)>| #[trigger] self.support_path(p) && p.last() == c;
            assert forall|i: int| 0 <= i < p.len() implies after.solid.contains(#[trigger] p[i]) by {
                self.lemma_path_cells_supported(p, i);
            }
            assert(after.solid.contains(p[0]));
            assert(after.support_path(p));
        }
    }

    /// A settled mask has no loose cell, and collapsing does not change it.
    pub proof fn lemma_settled_is_fixed(self)
        requires
            self.settled(),
        ensures
            self.collapsed() == self,
            self.loose() == Set::<(int, int)>::empty(),
    {
        assert(self.collapsed().solid =~= self.solid);
        assert(self.loose() =~= Set::<(int, int)>::empty());
    }

    /// Collapse is idempotent: a second collapse removes nothing and has no
    /// loose cell to turn into debris.
    pub proof fn lemma_collapse_idempotent(self)
        ensures
            self.collapsed().collapsed() == self.collapsed(),
            self.collapsed().loose() == Set::<(int, int)>::empty(),
    {
        self.lemma_collapsed_is_settled();
        self.collapsed().lemma_settled_is_fixed();
    }

    /// Collapse is complete: afterwards a cell is solid exactly when it was
    /// solid and supported before, so no loose cell survives and no
    /// supported cell is lost.
    pub proof fn lemma_collapse_complete(self, c: (int, int))
        ensures
            self.loose().contains(c) ==> !self.collapsed().solid.contains(c),
            self.solid.contains(c) && !self.loose().contains(c) ==> self.collapsed().solid.contains(c),
            self.solid == self.collapsed().solid.union(self.loose()),
            self.collapsed().solid.disjoint(self.loose()),
    {
        assert(self.solid =~= self.collapsed().solid.union(self.loose()));
    }
}

} // verus!

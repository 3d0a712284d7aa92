//! The destructible terrain mask: solidity queries, carving, and the
//! collapse of terrain that has lost its connection to the ground.

use crate::mask::{adjacent, clamp, in_disc, Mask};
use vstd::prelude::*;

verus! {

/// Largest width and height, in cells, that a terrain can have.
pub const MAX_DIM: usize = 32768;

/// The value at column `x`, row `y` of a grid stored row by row.
pub open spec fn grid_at(cells: Seq<bool>, width: int, x: int, y: int) -> bool {
    cells[y * width + x]
}

proof fn lemma_index_in_range(x: int, y: int, w: int, h: int)
    requires
        0 <= x < w,
        0 <= y < h,
    ensures
        0 <= y * w + x < w * h,
{
    assert(0 <= y * w && (y + 1) * w <= h * w && (y + 1) * w == y * w + w) by (nonlinear_arith)
        requires
            0 <= x < w,
            0 <= y < h,
    ;
}

proof fn lemma_index_unique(x1: int, y1: int, x2: int, y2: int, w: int)
    requires
        0 <= x1 < w,
        0 <= x2 < w,
        y1 * w + x1 == y2 * w + x2,
    ensures
        x1 == x2,
        y1 == y2,
{
    if y1 < y2 {
        assert(y2 * w >= y1 * w + w) by (nonlinear_arith)
            requires
                y1 < y2,
                w > 0,
        ;
    } else if y2 < y1 {
        assert(y1 * w >= y2 * w + w) by (nonlinear_arith)
            requires
                y2 < y1,
                w > 0,
        ;
    }
}

proof fn lemma_outside_disc(d: int, e: int, r: int)
    requires
        0 <= r,
        d > r || d < -r,
    ensures
        d * d + e * e > r * r,
{
    assert(d * d > r * r && e * e >= 0) by (nonlinear_arith)
        requires
            0 <= r,
            d > r || d < -r,
    ;
}

/// The low end of the span of columns (or rows) that a disc covers,
/// cut to the extent `0..n`.
fn clip_low(center: i64, radius: u32, n: usize) -> (lo: usize)
    requires
        n <= MAX_DIM,
    ensures
        lo == clamp(center - radius, 0, n as int),
{
    let low: i128 = center as i128 - radius as i128;
    if low <= 0 {
        0
    } else if low >= n as i128 {
        n
    } else {
        low as usize
    }
}

/// The high end, exclusive, of the span of columns (or rows) that a disc
/// covers, cut to the extent `0..n`.
fn clip_high(center: i64, radius: u32, n: usize) -> (hi: usize)
    requires
        n <= MAX_DIM,
    ensures
        hi == clamp(center + radius + 1, 0, n as int),
{
    let high: i128 = center as i128 + radius as i128 + 1;
    if high <= 0 {
        0
    } else if high >= n as i128 {
        n
    } else {
        high as usize
    }
}

/// How many entries of `s` are still `false`.
spec fn count_false(s: Seq<bool>) -> nat
    decreases s.len(),
{
    if s.len() == 0 {
        0
    } else {
        count_false(s.drop_last()) + if s.last() {
            0nat
        } else {
            1nat
        }
    }
}

proof fn lemma_count_false_update(s: Seq<bool>, i: int)
    requires
        0 <= i < s.len(),
        !s[i],
    ensures
        count_false(s.update(i, true)) + 1 == count_false(s),
    decreases s.len(),
{
    let t = s.update(i, true);
    if i == s.len() - 1 {
        assert(t.drop_last() =~= s.drop_last());
    } else {
        assert(t.drop_last() =~= s.drop_last().update(i, true));
        lemma_count_false_update(s.drop_last(), i);
    }
}

/// Every marked cell is solid and supported.
spec fn marks_sound(m: Mask, marks: Seq<bool>) -> bool {
    &&& marks.len() == m.width * m.height
    &&& forall|x: int, y: int|
        0 <= x < m.width && 0 <= y < m.height && #[trigger] grid_at(marks, m.width, x, y)
            ==> m.solid.contains((x, y)) && m.supported((x, y))
}

/// Every solid cell of the ground row is marked.
spec fn ground_marked(m: Mask, marks: Seq<bool>) -> bool {
    forall|x: int, y: int|
        0 <= x < m.width && 0 <= y < m.height && y == m.height - 1 && m.solid.contains((x, y))
            ==> #[trigger] grid_at(marks, m.width, x, y)
}

/// Every cell waiting on the stack is inside the extent and marked.
spec fn pending_marked(m: Mask, marks: Seq<bool>, stack: Seq<(usize, usize)>) -> bool {
    forall|i: int|
        0 <= i < stack.len() ==> {
            let c = #[trigger] stack[i];
            c.0 < m.width && c.1 < m.height && grid_at(marks, m.width, c.0 as int, c.1 as int)
        }
}

spec fn on_stack(stack: Seq<(usize, usize)>, c: (int, int)) -> bool {
    exists|i: int| 0 <= i < stack.len() && (#[trigger] stack[i]).0 == c.0 && stack[i].1 == c.1
}

/// Every marked cell, but for `skip` and those waiting on the stack, has
/// all its solid neighbours marked.
spec fn spread_done(
    m: Mask,
    marks: Seq<bool>,
    stack: Seq<(usize, usize)>,
    skip: Option<(int, int)>,
) -> bool {
    forall|c: (int, int), n: (int, int)|
        m.in_bounds(c) && grid_at(marks, m.width, c.0, c.1) && #[trigger] adjacent(c, n)
            && m.solid.contains(n) && skip != Some(c) ==> grid_at(marks, m.width, n.0, n.1)
            || on_stack(stack, c)
}

/// Once nothing waits on the stack, every cell of a support path is marked.
proof fn lemma_marks_cover(m: Mask, marks: Seq<bool>, p: Seq<(int, int)>, i: int)
    requires
        m.well_formed(),
        m.support_path(p),
        0 <= i < p.len(),
        ground_marked(m, marks),
        spread_done(m, marks, Seq::empty(), None),
    ensures
        grid_at(marks, m.width, p[i].0, p[i].1),
    decreases i,
{
    assert(m.solid.contains(p[i]));
    if i == 0 {
    } else {
        lemma_marks_cover(m, marks, p, i - 1);
        assert(m.solid.contains(p[i - 1]));
        assert(adjacent(p[i - 1], p[i]));
        assert(!on_stack(Seq::empty(), p[i - 1]));
    }
}

/// Whether `debris` lists the loose cells of `mask`: each of them once,
/// nothing else, row by row from the top and from left to right in a row.
pub open spec fn lists_loose(mask: Mask, debris: Seq<(usize, usize)>) -> bool {
    &&& forall|k: int|
        0 <= k < debris.len() ==> mask.loose().contains(
            ((#[trigger] debris[k]).0 as int, debris[k].1 as int),
        )
    &&& forall|c: (int, int)|
        mask.loose().contains(c) ==> exists|k: int|
            0 <= k < debris.len() && (#[trigger] debris[k]).0 == c.0 && debris[k].1 == c.1
    &&& forall|j: int, k: int|
        0 <= j < k < debris.len() ==> debris[j].1 < debris[k].1 || (debris[j].1 == debris[k].1
            && debris[j].0 < debris[k].0)
}

/// A rectangular grid of cells, each solid or empty.
pub struct Terrain {
    width: usize,
    height: usize,
    cells: Vec<bool>,
}

impl View for Terrain {
    type V = Mask;

    closed spec fn view(&self) -> Mask {
        Mask {
            width: self.width as int,
            height: self.height as int,
            solid: Set::new(
                |c: (int, int)|
                    0 <= c.0 < self.width && 0 <= c.1 < self.height && grid_at(
                        self.cells@,
                        self.width as int,
                        c.0,
                        c.1,
                    ),
            ),
        }
    }
}

impl Terrain {
    #[verifier::type_invariant]
    spec fn inv(self) -> bool {
        &&& self.width <= MAX_DIM
        &&& self.height <= MAX_DIM
        &&& self.cells.len() == self.width * self.height
    }

    /// The view of a terrain never holds a solid cell outside its extent,
    /// and no side of its extent is negative.
    pub proof fn lemma_view_well_formed(&self)
        ensures
            self@.well_formed(),
            0 <= self@.width,
            0 <= self@.height,
    {
    }

    /// An empty terrain of the given extent, or `None` when a side is
    /// longer than `MAX_DIM`.
    pub fn new(width: usize, height: usize) -> (t: Option<Terrain>)
        ensures
            t is Some <==> width <= MAX_DIM && height <= MAX_DIM,
            t matches Some(t) ==> t@.width == width && t@.height == height && t@.solid
                == Set::<(int, int)>::empty(),
    {
        if width > MAX_DIM || height > MAX_DIM {
            return None;
        }
        assert(width * height <= MAX_DIM * MAX_DIM) by (nonlinear_arith)
            requires
                width <= MAX_DIM,
                height <= MAX_DIM,
        ;
        let n: usize = width * height;
        let mut cells: Vec<bool> = Vec::new();
        let mut i: usize = 0;
        while i < n
            invariant
                i <= n,
                cells.len() == i,
                forall|k: int| 0 <= k < i ==> !cells[k],
            decreases n - i,
        {
            cells.push(false);
            i += 1;
        }
        let t = Terrain { width, height, cells };
        proof {
            assert forall|c: (int, int)| !t@.solid.contains(c) by {
                if 0 <= c.0 < width && 0 <= c.1 < height {
                    lemma_index_in_range(c.0, c.1, width as int, height as int);
                }
            }
            assert(t@.solid =~= Set::<(int, int)>::empty());
        }
        Some(t)
    }

    /// Does nothing but recall what holds of every terrain: no side is
    /// longer than `MAX_DIM`, and no cell outside the extent is solid.
    pub(crate) fn recall_extent(&self)
        ensures
            0 <= self@.width <= MAX_DIM,
            0 <= self@.height <= MAX_DIM,
            self@.well_formed(),
    {
        proof {
            use_type_invariant(self);
        }
    }

    /// The number of columns.
    pub fn width(&self) -> (w: usize)
        ensures
            w == self@.width,
            w <= MAX_DIM,
    {
        proof {
            use_type_invariant(self);
        }
        self.width
    }

    /// The number of rows.
    pub fn height(&self) -> (h: usize)
        ensures
            h == self@.height,
            h <= MAX_DIM,
    {
        proof {
            use_type_invariant(self);
        }
        self.height
    }

    fn cell_index(&self, x: usize, y: usize) -> (i: usize)
        requires
            x < self.width,
            y < self.height,
        ensures
            i == y * self.width + x,
            i < self.cells.len(),
    {
        proof {
            use_type_invariant(self);
            lemma_index_in_range(x as int, y as int, self.width as int, self.height as int);
        }
        y * self.width + x
    }

    /// Whether the cell `(x, y)` is solid. A cell outside the extent is not.
    pub fn is_solid(&self, x: i64, y: i64) -> (solid: bool)
        ensures
            solid == self@.solid.contains((x as int, y as int)),
    {
        if x < 0 || y < 0 {
            return false;
        }
        proof {
            use_type_invariant(self);
        }
        if x >= self.width as i64 || y >= self.height as i64 {
            return false;
        }
        let i: usize = self.cell_index(x as usize, y as usize);
        self.cells[i]
    }

    /// The topmost solid cell of the column `x`, if the column has one.
    pub fn surface(&self, x: i64) -> (top: Option<usize>)
        ensures
            match top {
                Some(y) => self@.column_top(x as int, 0) == Some(y as int) && y < self@.height
                    <= MAX_DIM,
                None => self@.column_top(x as int, 0) is None,
            },
    {
        proof {
            use_type_invariant(self);
        }
        let mut y: usize = 0;
        while y < self.height
            invariant
                y <= self.height,
                self.height <= MAX_DIM,
                self@.height == self.height,
                self@.column_top(x as int, 0) == self@.column_top(x as int, y as int),
            decreases self.height - y,
        {
            if self.is_solid(x, y as i64) {
                return Some(y);
            }
            y += 1;
        }
        None
    }

    /// Makes the cell `(x, y)` solid or empty. A cell outside the extent is
    /// left alone.
    pub fn set_solid(&mut self, x: i64, y: i64, solid: bool)
        ensures
            final(self)@ == old(self)@.with_cell((x as int, y as int), solid),
    {
        proof {
            use_type_invariant(&*self);
        }
        if x < 0 || y < 0 || x >= self.width as i64 || y >= self.height as i64 {
            return ;
        }
        let i: usize = self.cell_index(x as usize, y as usize);
        self.cells[i] = solid;
        proof {
            let w = self.width as int;
            assert forall|c: (int, int)|
                self@.solid.contains(c) == old(self)@.with_cell(
                    (x as int, y as int),
                    solid,
                ).solid.contains(c) by {
                if 0 <= c.0 < self.width && 0 <= c.1 < self.height {
                    lemma_index_in_range(c.0, c.1, w, self.height as int);
                    if c.1 * w + c.0 == i {
                        lemma_index_unique(c.0, c.1, x as int, y as int, w);
                    }
                }
            }
            assert(self@.solid =~= old(self)@.with_cell((x as int, y as int), solid).solid);
        }
    }

    /// Empties every cell within `radius` of `(cx, cy)`, the rim included.
    /// The part of the disc that lies outside the extent is ignored.
    pub fn carve(&mut self, cx: i64, cy: i64, radius: u32)
        ensures
            final(self)@ == old(self)@.carved((cx as int, cy as int), radius as int),
    {
        proof {
            use_type_invariant(&*self);
        }
        let w: usize = self.width;
        let h: usize = self.height;
        let x0: usize = clip_low(cx, radius, w);
        let x1: usize = clip_high(cx, radius, w);
        let y0: usize = clip_low(cy, radius, h);
        let y1: usize = clip_high(cy, radius, h);
        assert(radius * radius <= 0xffff_ffff * 0xffff_ffff) by (nonlinear_arith)
            requires
                radius <= 0xffff_ffff,
        ;
        let r2: u64 = radius as u64 * radius as u64;
        let ghost before = self.cells@;
        let ghost center = (cx as int, cy as int);
        let mut y: usize = y0;
        while y < y1
            invariant
                self.width == w,
                self.height == h,
                w <= MAX_DIM,
                h <= MAX_DIM,
                self.cells.len() == w * h,
                before.len() == w * h,
                x0 == clamp(cx - radius, 0, w as int),
                x1 == clamp(cx + radius + 1, 0, w as int),
                y0 == clamp(cy - radius, 0, h as int),
                y1 == clamp(cy + radius + 1, 0, h as int),
                y0 <= y <= y1,
                r2 == radius * radius,
                center == (cx as int, cy as int),
                forall|a: int, b: int|
                    0 <= a < w && 0 <= b < h ==> #[trigger] grid_at(self.cells@, w as int, a, b)
                        == (grid_at(before, w as int, a, b) && !(y0 <= b < y && x0 <= a < x1
                        && in_disc((a, b), center, radius as int))),
            decreases y1 - y,
        {
            let mut x: usize = x0;
            while x < x1
                invariant
                    self.width == w,
                    self.height == h,
                    w <= MAX_DIM,
                    h <= MAX_DIM,
                    self.cells.len() == w * h,
                    before.len() == w * h,
                    x0 == clamp(cx - radius, 0, w as int),
                    x1 == clamp(cx + radius + 1, 0, w as int),
                    y0 == clamp(cy - radius, 0, h as int),
                    y1 == clamp(cy + radius + 1, 0, h as int),
                    x0 <= x <= x1,
                    y0 <= y < y1,
                    r2 == radius * radius,
                    center == (cx as int, cy as int),
                    forall|a: int, b: int|
                        0 <= a < w && 0 <= b < h ==> #[trigger] grid_at(self.cells@, w as int, a, b)
                            == (grid_at(before, w as int, a, b) && !(((y0 <= b < y && x0 <= a < x1)
                            || (b == y && x0 <= a < x)) && in_disc(
                            (a, b),
                            center,
                            radius as int,
                        ))),
                decreases x1 - x,
            {
                let dx: i64 = x as i64 - cx;
                let dy: i64 = y as i64 - cy;
                let adx: u64 = if dx < 0 {
                    (-dx) as u64
                } else {
                    dx as u64
                };
                let ady: u64 = if dy < 0 {
                    (-dy) as u64
                } else {
                    dy as u64
                };
                assert(adx * adx <= radius * radius && ady * ady <= radius * radius && adx * adx
                    == dx * dx && ady * ady == dy * dy) by (nonlinear_arith)
                    requires
                        adx <= radius,
                        ady <= radius,
                        adx == dx || adx == -dx,
                        ady == dy || ady == -dy,
                ;
                assert(radius * radius <= 0xffff_ffff * 0xffff_ffff) by (nonlinear_arith)
                    requires
                        radius <= 0xffff_ffff,
                ;
                let d2: u128 = (adx * adx) as u128 + (ady * ady) as u128;
                if d2 <= r2 as u128 {
                    let i: usize = self.cell_index(x, y);
                    let ghost prev = self.cells@;
                    self.cells[i] = false;
                    proof {
                        assert forall|a: int, b: int| 0 <= a < w && 0 <= b < h implies #[trigger] grid_at(
                            self.cells@,
                            w as int,
                            a,
                            b,
                        ) == (grid_at(before, w as int, a, b) && !(((y0 <= b < y && x0 <= a < x1)
                            || (b == y && x0 <= a < x + 1)) && in_disc(
                            (a, b),
                            center,
                            radius as int,
                        ))) by {
                            lemma_index_in_range(a, b, w as int, h as int);
                            if b * w + a == i {
                                lemma_index_unique(a, b, x as int, y as int, w as int);
                            } else {
                                assert(grid_at(self.cells@, w as int, a, b) == grid_at(
                                    prev,
                                    w as int,
                                    a,
                                    b,
                                ));
                            }
                        }
                    }
                }
                x += 1;
            }
            y += 1;
        }
        proof {
            let goal = old(self)@.carved(center, radius as int);
            assert forall|c: (int, int)| self@.solid.contains(c) == goal.solid.contains(c) by {
                if 0 <= c.0 < w && 0 <= c.1 < h {
                    assert(grid_at(self.cells@, w as int, c.0, c.1) == (grid_at(
                        before,
                        w as int,
                        c.0,
                        c.1,
                    ) && !(y0 <= c.1 < y1 && x0 <= c.0 < x1 && in_disc(c, center, radius as int))));
                    if !(x0 <= c.0 < x1) {
                        lemma_outside_disc(c.0 - cx, c.1 - cy, radius as int);
                    }
                    if !(y0 <= c.1 < y1) {
                        lemma_outside_disc(c.1 - cy, c.0 - cx, radius as int);
                    }
                }
            }
            assert(self@.solid =~= goal.solid);
        }
    }

    /// Marks the cell `to`, a neighbour of the marked cell `from`, when it
    /// is solid and not yet marked, and puts it on the stack.
    fn spread(
        &self,
        marks: &mut Vec<bool>,
        stack: &mut Vec<(usize, usize)>,
        from: (usize, usize),
        to: (usize, usize),
    )
        requires
            from.0 < self.width,
            from.1 < self.height,
            to.0 < self.width,
            to.1 < self.height,
            adjacent((from.0 as int, from.1 as int), (to.0 as int, to.1 as int)),
            grid_at(old(marks)@, self.width as int, from.0 as int, from.1 as int),
            marks_sound(self@, old(marks)@),
            ground_marked(self@, old(marks)@),
            pending_marked(self@, old(marks)@, old(stack)@),
            spread_done(self@, old(marks)@, old(stack)@, Some((from.0 as int, from.1 as int))),
        ensures
            marks_sound(self@, final(marks)@),
            ground_marked(self@, final(marks)@),
            pending_marked(self@, final(marks)@, final(stack)@),
            spread_done(self@, final(marks)@, final(stack)@, Some((from.0 as int, from.1 as int))),
            forall|x: int, y: int|
                0 <= x < self.width && 0 <= y < self.height && grid_at(
                    old(marks)@,
                    self.width as int,
                    x,
                    y,
                ) ==> #[trigger] grid_at(final(marks)@, self.width as int, x, y),
            self@.solid.contains((to.0 as int, to.1 as int)) ==> grid_at(
                final(marks)@,
                self.width as int,
                to.0 as int,
                to.1 as int,
            ),
            count_false(final(marks)@) <= count_false(old(marks)@),
            (final(marks)@ == old(marks)@ && final(stack)@ == old(stack)@) || count_false(
                final(marks)@,
            ) < count_false(old(marks)@),
    {
        proof {
            use_type_invariant(self);
        }
        let i: usize = self.cell_index(to.0, to.1);
        if self.cells[i] && !marks[i] {
            let ghost w = self.width as int;
            let ghost h = self.height as int;
            let ghost m = self@;
            let ghost before = marks@;
            let ghost waiting = stack@;
            let ghost src = (from.0 as int, from.1 as int);
            let ghost dst = (to.0 as int, to.1 as int);
            marks[i] = true;
            stack.push(to);
            proof {
                lemma_count_false_update(before, i as int);
                assert(m.solid.contains(dst));
                assert(grid_at(before, w, src.0, src.1));
                assert(m.supported(src));
                m.lemma_support_spreads(src, dst);
                assert forall|x: int, y: int| 0 <= x < w && 0 <= y < h implies #[trigger] grid_at(
                    marks@,
                    w,
                    x,
                    y,
                ) == (grid_at(before, w, x, y) || (x, y) == dst) by {
                    lemma_index_in_range(x, y, w, h);
                    if y * w + x == i {
                        lemma_index_unique(x, y, dst.0, dst.1, w);
                    }
                }
                assert(stack@[waiting.len() as int] == to);
                assert forall|c: (int, int)| on_stack(waiting, c) implies on_stack(stack@, c) by {
                    let k = choose|k: int|
                        0 <= k < waiting.len() && (#[trigger] waiting[k]).0 == c.0 && waiting[k].1
                            == c.1;
                    assert(stack@[k] == waiting[k]);
                }
                assert(on_stack(stack@, dst));
                assert forall|k: int| 0 <= k < stack@.len() implies ({
                    let c = #[trigger] stack@[k];
                    c.0 < m.width && c.1 < m.height && grid_at(marks@, m.width, c.0 as int, c.1 as int)
                }) by {
                    if k < waiting.len() {
                        assert(stack@[k] == waiting[k]);
                    }
                }
                assert forall|c: (int, int), n: (int, int)|
                    m.in_bounds(c) && grid_at(marks@, m.width, c.0, c.1) && #[trigger] adjacent(c, n)
                        && m.solid.contains(n) && Some(src) != Some(c) implies grid_at(
                    marks@,
                    m.width,
                    n.0,
                    n.1,
                ) || on_stack(stack@, c) by {
                    if c == dst {
                    } else {
                        assert(grid_at(before, w, c.0, c.1));
                        assert(grid_at(before, w, n.0, n.1) || on_stack(waiting, c));
                    }
                }
            }
        }
    }

    /// Marks every supported cell: the solid cells that the ground row
    /// reaches through solid cells sharing edges.
    fn mark_supported(&self) -> (marks: Vec<bool>)
        ensures
            marks.len() == self.width * self.height,
            forall|x: int, y: int|
                0 <= x < self.width && 0 <= y < self.height ==> #[trigger] grid_at(
                    marks@,
                    self.width as int,
                    x,
                    y,
                ) == (self@.solid.contains((x, y)) && self@.supported((x, y))),
    {
        proof {
            use_type_invariant(self);
        }
        let w: usize = self.width;
        let h: usize = self.height;
        let n: usize = self.cells.len();
        let ghost m = self@;
        let mut marks: Vec<bool> = Vec::new();
        let mut k: usize = 0;
        while k < n
            invariant
                k <= n,
                marks.len() == k,
                forall|j: int| 0 <= j < k ==> !marks[j],
            decreases n - k,
        {
            marks.push(false);
            k += 1;
        }
        let mut stack: Vec<(usize, usize)> = Vec::new();
        assert forall|x: int, y: int| 0 <= x < w && 0 <= y < h implies !#[trigger] grid_at(
            marks@,
            w as int,
            x,
            y,
        ) by {
            lemma_index_in_range(x, y, w as int, h as int);
        }
        assert(marks_sound(m, marks@) && spread_done(m, marks@, stack@, None));
        if h > 0 {
            let y: usize = h - 1;
            let mut x: usize = 0;
            while x < w
                invariant
                    x <= w,
                    w == self.width,
                    h == self.height,
                    y == h - 1,
                    m == self@,
                    self.cells.len() == w * h,
                    marks_sound(m, marks@),
                    pending_marked(m, marks@, stack@),
                    forall|a: int, b: int|
                        0 <= a < w && 0 <= b < h && #[trigger] grid_at(marks@, w as int, a, b)
                            ==> on_stack(stack@, (a, b)),
                    forall|a: int|
                        0 <= a < x && m.solid.contains((a, y as int)) ==> #[trigger] grid_at(
                            marks@,
                            w as int,
                            a,
                            y as int,
                        ),
                decreases w - x,
            {
                let i: usize = self.cell_index(x, y);
                if self.cells[i] {
                    let ghost before = marks@;
                    let ghost waiting = stack@;
                    marks[i] = true;
                    stack.push((x, y));
                    proof {
                        let c = (x as int, y as int);
                        assert(m.grounded(c));
                        m.lemma_grounded_supported(c);
                        assert forall|a: int, b: int|
                            0 <= a < w && 0 <= b < h implies #[trigger] grid_at(marks@, w as int, a, b)
                            == (grid_at(before, w as int, a, b) || (a, b) == c) by {
                            lemma_index_in_range(a, b, w as int, h as int);
                            if b * w + a == i {
                                lemma_index_unique(a, b, c.0, c.1, w as int);
                            }
                        }
                        assert(stack@[waiting.len() as int] == (x, y));
                        assert forall|d: (int, int)| on_stack(waiting, d) implies on_stack(
                            stack@,
                            d,
                        ) by {
                            let j = choose|j: int|
                                0 <= j < waiting.len() && (#[trigger] waiting[j]).0 == d.0
                                    && waiting[j].1 == d.1;
                            assert(stack@[j] == waiting[j]);
                        }
                        assert(on_stack(stack@, c));
                        assert forall|j: int| 0 <= j < stack@.len() implies ({
                            let d = #[trigger] stack@[j];
                            d.0 < m.width && d.1 < m.height && grid_at(
                                marks@,
                                m.width,
                                d.0 as int,
                                d.1 as int,
                            )
                        }) by {
                            if j < waiting.len() {
                                assert(stack@[j] == waiting[j]);
                            }
                        }
                    }
                }
                x += 1;
            }
        }
        assert(ground_marked(m, marks@));
        assert(spread_done(m, marks@, stack@, None));
        while stack.len() > 0
            invariant
                w == self.width,
                h == self.height,
                m == self@,
                self.cells.len() == w * h,
                marks_sound(m, marks@),
                ground_marked(m, marks@),
                pending_marked(m, marks@, stack@),
                spread_done(m, marks@, stack@, None),
            decreases count_false(marks@), stack.len(),
        {
            let ghost waiting = stack@;
            let ghost count = count_false(marks@);
            let cur: (usize, usize) = stack.pop().unwrap();
            let ghost c = (cur.0 as int, cur.1 as int);
            proof {
                assert(waiting[waiting.len() - 1] == cur);
                assert forall|j: int| 0 <= j < stack@.len() implies stack@[j] == waiting[j] by {}
                assert forall|d: (int, int)| on_stack(waiting, d) && d != c implies on_stack(
                    stack@,
                    d,
                ) by {
                    let j = choose|j: int|
                        0 <= j < waiting.len() && (#[trigger] waiting[j]).0 == d.0 && waiting[j].1
                            == d.1;
                    assert(stack@[j] == waiting[j]);
                }
                assert(spread_done(m, marks@, stack@, Some(c)));
            }
            let ghost rest = stack@;
            if cur.0 > 0 {
                self.spread(&mut marks, &mut stack, cur, (cur.0 - 1, cur.1));
            }
            if cur.0 + 1 < w {
                self.spread(&mut marks, &mut stack, cur, (cur.0 + 1, cur.1));
            }
            if cur.1 > 0 {
                self.spread(&mut marks, &mut stack, cur, (cur.0, cur.1 - 1));
            }
            if cur.1 + 1 < h {
                self.spread(&mut marks, &mut stack, cur, (cur.0, cur.1 + 1));
            }
            proof {
                assert forall|d: (int, int), n: (int, int)|
                    m.in_bounds(d) && grid_at(marks@, m.width, d.0, d.1) && #[trigger] adjacent(d, n)
                        && m.solid.contains(n) implies grid_at(marks@, m.width, n.0, n.1)
                    || on_stack(stack@, d) by {
                    if d == c {
                        assert(m.in_bounds(n));
                    }
                }
            }
        }
        proof {
            assert(stack@ =~= Seq::empty());
            assert forall|x: int, y: int| 0 <= x < w && 0 <= y < h implies #[trigger] grid_at(
                marks@,
                w as int,
                x,
                y,
            ) == (m.solid.contains((x, y)) && m.supported((x, y))) by {
                if m.solid.contains((x, y)) && m.supported((x, y)) {
                    let p = choose|p: Seq<(int, int)>| #[trigger]
                        m.support_path(p) && p.last() == (x, y);
                    lemma_marks_cover(m, marks@, p, p.len() - 1);
                }
            }
        }
        marks
    }

    /// Whether nothing is left to collapse: every solid cell is joined to
    /// the ground row through solid cells sharing edges.
    pub fn is_settled(&self) -> (settled: bool)
        ensures
            settled == self@.settled(),
    {
        proof {
            use_type_invariant(self);
        }
        let marks: Vec<bool> = self.mark_supported();
        let w: usize = self.width;
        let h: usize = self.height;
        let mut y: usize = 0;
        while y < h
            invariant
                y <= h,
                w == self.width,
                h == self.height,
                self.cells.len() == w * h,
                marks.len() == w * h,
                forall|a: int, b: int|
                    0 <= a < w && 0 <= b < h ==> #[trigger] grid_at(marks@, w as int, a, b) == (
                    self@.solid.contains((a, b)) && self@.supported((a, b))),
                forall|a: int, b: int|
                    0 <= a < w && 0 <= b < y && #[trigger] grid_at(self.cells@, w as int, a, b)
                        ==> grid_at(marks@, w as int, a, b),
            decreases h - y,
        {
            let mut x: usize = 0;
            while x < w
                invariant
                    x <= w,
                    y < h,
                    w == self.width,
                    h == self.height,
                    self.cells.len() == w * h,
                    marks.len() == w * h,
                    forall|a: int, b: int|
                        0 <= a < w && 0 <= b < h ==> #[trigger] grid_at(marks@, w as int, a, b)
                            == (self@.solid.contains((a, b)) && self@.supported((a, b))),
                    forall|a: int, b: int|
                        0 <= a < w && (0 <= b < y || (b == y && a < x)) && #[trigger] grid_at(
                            self.cells@,
                            w as int,
                            a,
                            b,
                        ) ==> grid_at(marks@, w as int, a, b),
                decreases w - x,
            {
                let i: usize = self.cell_index(x, y);
                if self.cells[i] && !marks[i] {
                    proof {
                        let c = (x as int, y as int);
                        assert(grid_at(self.cells@, w as int, c.0, c.1));
                        assert(!grid_at(marks@, w as int, c.0, c.1));
                        assert(self@.solid.contains(c));
                        assert(!self@.supported(c));
                    }
                    return false;
                }
                assert(grid_at(self.cells@, w as int, x as int, y as int) == self.cells@[i as int]);
                assert(grid_at(marks@, w as int, x as int, y as int) == marks@[i as int]);
                x += 1;
            }
            y += 1;
        }
        proof {
            assert forall|c: (int, int)| #[trigger] self@.solid.contains(c) implies self@.supported(
                c,
            ) by {
                assert(grid_at(self.cells@, w as int, c.0, c.1));
                assert(grid_at(marks@, w as int, c.0, c.1));
            }
        }
        true
    }

    /// Empties every solid cell that is no longer joined to the ground row
    /// through solid cells sharing edges, and returns those cells, each
    /// once, row by row from the top.
    pub fn collapse(&mut self) -> (debris: Vec<(usize, usize)>)
        ensures
            final(self)@ == old(self)@.collapsed(),
            lists_loose(old(self)@, debris@),
    {
        proof {
            use_type_invariant(&*self);
        }
        let marks: Vec<bool> = self.mark_supported();
        let w: usize = self.width;
        let h: usize = self.height;
        let ghost m = self@;
        let ghost before = self.cells@;
        let mut debris: Vec<(usize, usize)> = Vec::new();
        let mut y: usize = 0;
        while y < h
            invariant
                y <= h,
                w == self.width,
                h == self.height,
                w <= MAX_DIM,
                h <= MAX_DIM,
                self.cells.len() == w * h,
                before.len() == w * h,
                marks.len() == w * h,
                forall|a: int, b: int|
                    0 <= a < w && 0 <= b < h ==> #[trigger] grid_at(self.cells@, w as int, a, b)
                        == (grid_at(before, w as int, a, b) && (b < y ==> grid_at(
                        marks@,
                        w as int,
                        a,
                        b,
                    ))),
                forall|k: int|
                    0 <= k < debris.len() ==> {
                        let d = #[trigger] debris[k];
                        d.0 < w && d.1 < y && grid_at(before, w as int, d.0 as int, d.1 as int)
                            && !grid_at(marks@, w as int, d.0 as int, d.1 as int)
                    },
                forall|a: int, b: int|
                    0 <= a < w && 0 <= b < y && #[trigger] grid_at(before, w as int, a, b)
                        && !grid_at(marks@, w as int, a, b) ==> on_stack(debris@, (a, b)),
                forall|j: int, k: int|
                    0 <= j < k < debris.len() ==> debris[j].1 < debris[k].1 || (debris[j].1
                        == debris[k].1 && debris[j].0 < debris[k].0),
            decreases h - y,
        {
            let mut x: usize = 0;
            while x < w
                invariant
                    x <= w,
                    y < h,
                    w == self.width,
                    h == self.height,
                    w <= MAX_DIM,
                    h <= MAX_DIM,
                    self.cells.len() == w * h,
                    before.len() == w * h,
                    marks.len() == w * h,
                    forall|a: int, b: int|
                        0 <= a < w && 0 <= b < h ==> #[trigger] grid_at(self.cells@, w as int, a, b)
                            == (grid_at(before, w as int, a, b) && (b < y || (b == y && a < x)
                            ==> grid_at(marks@, w as int, a, b))),
                    forall|k: int|
                        0 <= k < debris.len() ==> {
                            let d = #[trigger] debris[k];
                            d.0 < w && (d.1 < y || (d.1 == y && d.0 < x)) && grid_at(
                                before,
                                w as int,
                                d.0 as int,
                                d.1 as int,
                            ) && !grid_at(marks@, w as int, d.0 as int, d.1 as int)
                        },
                    forall|a: int, b: int|
                        0 <= a < w && (0 <= b < y || (b == y && a < x)) && #[trigger] grid_at(
                            before,
                            w as int,
                            a,
                            b,
                        ) && !grid_at(marks@, w as int, a, b) ==> on_stack(debris@, (a, b)),
                    forall|j: int, k: int|
                        0 <= j < k < debris.len() ==> debris[j].1 < debris[k].1 || (debris[j].1
                            == debris[k].1 && debris[j].0 < debris[k].0),
                decreases w - x,
            {
                let i: usize = self.cell_index(x, y);
                let ghost cells_before = self.cells@;
                let ghost found = debris@;
                assert(grid_at(cells_before, w as int, x as int, y as int) == cells_before[i as int]);
                assert(grid_at(marks@, w as int, x as int, y as int) == marks@[i as int]);
                assert(grid_at(cells_before, w as int, x as int, y as int) == grid_at(
                    before,
                    w as int,
                    x as int,
                    y as int,
                ));
                if self.cells[i] && !marks[i] {
                    self.cells[i] = false;
                    debris.push((x, y));
                }
                proof {
                    assert forall|a: int, b: int| 0 <= a < w && 0 <= b < h implies #[trigger] grid_at(
                        self.cells@,
                        w as int,
                        a,
                        b,
                    ) == (grid_at(before, w as int, a, b) && (b < y || (b == y && a < x + 1)
                        ==> grid_at(marks@, w as int, a, b))) by {
                        lemma_index_in_range(a, b, w as int, h as int);
                        if b * w + a == i {
                            lemma_index_unique(a, b, x as int, y as int, w as int);
                        } else {
                            assert(grid_at(self.cells@, w as int, a, b) == grid_at(
                                cells_before,
                                w as int,
                                a,
                                b,
                            ));
                        }
                    }
                    assert forall|d: (int, int)| on_stack(found, d) implies on_stack(debris@, d) by {
                        let j = choose|j: int|
                            0 <= j < found.len() && (#[trigger] found[j]).0 == d.0 && found[j].1
                                == d.1;
                        assert(debris@[j] == found[j]);
                    }
                    if debris@.len() > found.len() {
                        assert(debris@[found.len() as int] == (x, y));
                        assert(on_stack(debris@, (x as int, y as int)));
                    }
                    assert forall|k: int| 0 <= k < debris.len() implies ({
                        let d = #[trigger] debris[k];
                        d.0 < w && (d.1 < y || (d.1 == y && d.0 < x + 1)) && grid_at(
                            before,
                            w as int,
                            d.0 as int,
                            d.1 as int,
                        ) && !grid_at(marks@, w as int, d.0 as int, d.1 as int)
                    }) by {
                        if k < found.len() {
                            assert(debris[k] == found[k]);
                        }
                    }
                    assert forall|j: int, k: int| 0 <= j < k < debris.len() implies debris[j].1
                        < debris[k].1 || (debris[j].1 == debris[k].1 && debris[j].0
                        < debris[k].0) by {
                        assert(debris[j] == found[j]);
                        if k < found.len() {
                            assert(debris[k] == found[k]);
                        }
                    }
                }
                x += 1;
            }
            y += 1;
        }
        proof {
            let goal = m.collapsed();
            assert forall|c: (int, int)| self@.solid.contains(c) == goal.solid.contains(c) by {
                if 0 <= c.0 < w && 0 <= c.1 < h {
                    assert(grid_at(self.cells@, w as int, c.0, c.1) == (grid_at(
                        before,
                        w as int,
                        c.0,
                        c.1,
                    ) && grid_at(marks@, w as int, c.0, c.1)));
                }
            }
            assert(self@.solid =~= goal.solid);
            assert forall|c: (int, int)| m.loose().contains(c) implies exists|k: int|
                0 <= k < debris.len() && (#[trigger] debris[k]).0 == c.0 && debris[k].1 == c.1 by {
                assert(grid_at(before, w as int, c.0, c.1));
                assert(on_stack(debris@, c));
            }
        }
        debris
    }
}

} // verus!

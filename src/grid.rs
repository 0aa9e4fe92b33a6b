use vstd::prelude::*;

verus! {

/// Largest magnitude of an actor coordinate, in world units.
pub const COORD_LIMIT: i64 = 1_000_000_000_000;

/// Largest side of an actor or of a grid cell, in world units.
pub const SIZE_LIMIT: i64 = 1_000_000;

/// Largest number of columns, and of rows, of a grid.
pub const GRID_LIMIT: usize = 1_000_000;

/// Whether the half-open span `[p, p + len)` meets the span of cell `c`,
/// `[c * s, c * s + s)`, in a positive length.
pub open spec fn span_hits(p: int, len: int, s: int, c: int) -> bool {
    c * s < p + len && p < c * s + s
}

/// A rectangle with integer corners that the collider can be asked about.
pub open spec fn rect_ok(x: int, y: int, w: int, h: int) -> bool {
    -2 * COORD_LIMIT <= x <= 2 * COORD_LIMIT && -2 * COORD_LIMIT <= y <= 2 * COORD_LIMIT
        && 1 <= w <= SIZE_LIMIT && 1 <= h <= SIZE_LIMIT
}

/// A static grid of square cells, each blocking or empty, stored row by row.
/// Cell `(cx, cy)` covers `[cx * cell_size, (cx + 1) * cell_size)` along x and
/// the same along y; everything outside the grid is empty.
pub struct TileGrid {
    pub cells: Vec<bool>,
    pub cols: usize,
    pub rows: usize,
    pub cell_size: i64,
}

impl TileGrid {
    pub open spec fn wf(&self) -> bool {
        &&& self.cols <= GRID_LIMIT
        &&& self.rows <= GRID_LIMIT
        &&& self.cells@.len() == self.cols * self.rows
        &&& 1 <= self.cell_size <= SIZE_LIMIT
    }

    pub open spec fn blocking_spec(&self, cx: int, cy: int) -> bool {
        &&& 0 <= cx < self.cols
        &&& 0 <= cy < self.rows
        &&& self.cells@[cy * self.cols + cx]
    }

    /// The rectangle `[x, x + w) x [y, y + h)` overlaps a blocking cell.
    pub open spec fn hits(&self, x: int, y: int, w: int, h: int) -> bool {
        exists|cx: int, cy: int|
            #[trigger] self.blocking_spec(cx, cy) && span_hits(x, w, self.cell_size as int, cx)
                && span_hits(y, h, self.cell_size as int, cy)
    }

    /// Builds a grid from cells listed row by row, `cols` to a row. Fails
    /// unless the cells fill whole rows, the sizes are within the limits and
    /// the cell size is positive.
    pub fn from_cells(cells: Vec<bool>, cols: usize, cell_size: i64) -> (r: Option<TileGrid>)
        ensures
            r is Some <==> (1 <= cols <= GRID_LIMIT && (cells@.len() as int) % (cols as int) == 0
                && (cells@.len() as int) / (cols as int) <= GRID_LIMIT && 1 <= cell_size <= SIZE_LIMIT),
            r matches Some(g) ==> (g.wf() && g.cells@ == cells@ && g.cols == cols
                && g.cell_size == cell_size),
    {
        if cols == 0 || cols > GRID_LIMIT || cell_size < 1 || cell_size > SIZE_LIMIT {
            return None;
        }
        let len = cells.len();
        if len % cols != 0 || len / cols > GRID_LIMIT {
            return None;
        }
        let rows = len / cols;
        proof {
            vstd::arithmetic::div_mod::lemma_fundamental_div_mod(len as int, cols as int);
        }
        Some(TileGrid { cells, cols, rows, cell_size })
    }

    /// Whether cell `(cx, cy)` is blocking; cells outside the grid are not.
    pub fn blocking(&self, cx: usize, cy: usize) -> (r: bool)
        requires
            self.wf(),
        ensures
            r == self.blocking_spec(cx as int, cy as int),
    {
        if cx < self.cols && cy < self.rows {
            let len = self.cells.len();
            proof {
                lemma_cell_index(self.cols as int, self.rows as int, cx as int, cy as int);
                assert(cy * self.cols + cx < len);
            }
            let i = cy * self.cols + cx;
            self.cells[i]
        } else {
            false
        }
    }

    /// Whether the rectangle `[x, x + w) x [y, y + h)` overlaps a blocking cell.
    pub fn collides(&self, x: i64, y: i64, w: i64, h: i64) -> (r: bool)
        requires
            self.wf(),
            rect_ok(x as int, y as int, w as int, h as int),
        ensures
            r == self.hits(x as int, y as int, w as int, h as int),
    {
        let s = self.cell_size;
        if x + w <= 0 || y + h <= 0 {
            proof {
                assert forall|cx: int, cy: int| #[trigger] self.blocking_spec(cx, cy) implies
                    !(span_hits(x as int, w as int, s as int, cx) && span_hits(y as int, h as int, s as int, cy)) by {
                    lemma_span_range(x as int, w as int, s as int, cx);
                    lemma_span_range(y as int, h as int, s as int, cy);
                }
            }
            return false;
        }
        let cx0: i64 = if x < 0 { 0 } else { x / s };
        let cx1: i64 = (x + w - 1) / s;
        let cy0: i64 = if y < 0 { 0 } else { y / s };
        let cy1: i64 = (y + h - 1) / s;
        let cx_end: i64 = if cx1 < self.cols as i64 { cx1 + 1 } else { self.cols as i64 };
        let cy_end: i64 = if cy1 < self.rows as i64 { cy1 + 1 } else { self.rows as i64 };
        proof {
            assert(cx0 == lo_cell(x as int, s as int));
            assert(cy0 == lo_cell(y as int, s as int));
            assert forall|c: int| #![auto] span_hits(x as int, w as int, s as int, c) && c >= 0
                <==> cx0 <= c <= cx1 by {
                lemma_span_range(x as int, w as int, s as int, c);
            }
            assert forall|c: int| #![auto] span_hits(y as int, h as int, s as int, c) && c >= 0
                <==> cy0 <= c <= cy1 by {
                lemma_span_range(y as int, h as int, s as int, c);
            }
            vstd::arithmetic::div_mod::lemma_div_pos_is_pos((x + w - 1) as int, s as int);
            vstd::arithmetic::div_mod::lemma_div_pos_is_pos((y + h - 1) as int, s as int);
            if x >= 0 {
                vstd::arithmetic::div_mod::lemma_div_pos_is_pos(x as int, s as int);
            }
            if y >= 0 {
                vstd::arithmetic::div_mod::lemma_div_pos_is_pos(y as int, s as int);
            }
        }
        let mut cy: i64 = cy0;
        while cy < cy_end
            invariant
                self.wf(),
                s == self.cell_size,
                cy0 <= cy,
                cy0 >= 0,
                cx0 >= 0,
                cy_end <= self.rows,
                cx_end <= self.cols,
                cy <= cy_end || cy == cy0,
                forall|c: int| #![auto] span_hits(x as int, w as int, s as int, c) && c >= 0
                    <==> cx0 <= c <= cx1,
                forall|c: int| #![auto] span_hits(y as int, h as int, s as int, c) && c >= 0
                    <==> cy0 <= c <= cy1,
                cx_end == if cx1 < self.cols { cx1 + 1 } else { self.cols as int },
                cy_end == if cy1 < self.rows { cy1 + 1 } else { self.rows as int },
                forall|a: int, b: int|
                    cy0 <= b < cy && #[trigger] self.blocking_spec(a, b) ==> !span_hits(
                        x as int,
                        w as int,
                        s as int,
                        a,
                    ),
            decreases cy_end - cy,
        {
            let mut cx: i64 = cx0;
            while cx < cx_end
                invariant
                    self.wf(),
                    s == self.cell_size,
                    cy0 <= cy < cy_end,
                    cx0 <= cx,
                    cy0 >= 0,
                    cx0 >= 0,
                    cy_end <= self.rows,
                    cx_end <= self.cols,
                    forall|c: int| #![auto] span_hits(x as int, w as int, s as int, c) && c >= 0
                        <==> cx0 <= c <= cx1,
                    forall|c: int| #![auto] span_hits(y as int, h as int, s as int, c) && c >= 0
                        <==> cy0 <= c <= cy1,
                    cy_end == if cy1 < self.rows { cy1 + 1 } else { self.rows as int },
                    cx_end == if cx1 < self.cols { cx1 + 1 } else { self.cols as int },
                    forall|a: int|
                        cx0 <= a < cx && #[trigger] self.blocking_spec(a, cy as int) ==> false,
                decreases cx_end - cx,
            {
                if self.blocking(cx as usize, cy as usize) {
                    proof {
                        assert(span_hits(x as int, w as int, s as int, cx as int));
                        assert(span_hits(y as int, h as int, s as int, cy as int));
                        assert(self.blocking_spec(cx as int, cy as int));
                        assert(self.hits(x as int, y as int, w as int, h as int));
                    }
                    return true;
                }
                cx = cx + 1;
            }
            proof {
                assert forall|a: int, b: int|
                    cy0 <= b < cy + 1 && #[trigger] self.blocking_spec(a, b) implies !span_hits(
                    x as int,
                    w as int,
                    s as int,
                    a,
                ) by {
                    if b == cy && span_hits(x as int, w as int, s as int, a) {
                        assert(a >= 0);
                        assert(cx0 <= a < cx_end);
                    }
                }
            }
            cy = cy + 1;
        }
        proof {
            assert forall|a: int, b: int| #[trigger] self.blocking_spec(a, b) implies !(span_hits(
                x as int,
                w as int,
                s as int,
                a,
            ) && span_hits(y as int, h as int, s as int, b)) by {
                if span_hits(y as int, h as int, s as int, b) {
                    assert(b >= 0);
                    assert(cy0 <= b <= cy1);
                }
            }
        }
        false
    }
}

/// First cell, from the left, that a span starting at `p` can meet.
pub open spec fn lo_cell(p: int, s: int) -> int {
    if p < 0 {
        0
    } else {
        p / s
    }
}

proof fn lemma_cell_index(cols: int, rows: int, cx: int, cy: int)
    requires
        0 <= cx < cols,
        0 <= cy < rows,
    ensures
        0 <= cy * cols + cx < cols * rows,
{
    assert(cy * cols + cx < cols * rows) by (nonlinear_arith)
        requires
            0 <= cx < cols,
            0 <= cy < rows,
    ;
    assert(0 <= cy * cols) by (nonlinear_arith)
        requires
            0 <= cy,
            0 <= cols,
    ;
}

/// A span of positive length that ends after 0 meets the cells from
/// `lo_cell(p, s)` to `(p + len - 1) / s`, and no other cell at or after 0.
proof fn lemma_span_range(p: int, len: int, s: int, c: int)
    requires
        s >= 1,
        len >= 1,
    ensures
        p + len <= 0 ==> !(span_hits(p, len, s, c) && c >= 0),
        p + len > 0 ==> (span_hits(p, len, s, c) && c >= 0 <==> lo_cell(p, s) <= c <= (p + len
            - 1) / s),
{
    if p + len <= 0 {
        if c >= 0 {
            assert(c * s >= 0) by (nonlinear_arith)
                requires
                    c >= 0,
                    s >= 1,
            ;
        }
    } else {
        let e = p + len - 1;
        let q = e / s;
        vstd::arithmetic::div_mod::lemma_fundamental_div_mod(e, s);
        vstd::arithmetic::div_mod::lemma_mod_bound(e, s);
        let qs = e % s;
        if c * s < p + len {
            if c > q {
                assert(c * s >= q * s + s) by (nonlinear_arith)
                    requires
                        c >= q + 1,
                        s >= 1,
                ;
            }
        }
        if c <= q {
            assert(c * s <= q * s) by (nonlinear_arith)
                requires
                    c <= q,
                    s >= 1,
            ;
        }
        if p >= 0 {
            let r = p / s;
            vstd::arithmetic::div_mod::lemma_fundamental_div_mod(p, s);
            vstd::arithmetic::div_mod::lemma_mod_bound(p, s);
            if p < c * s + s {
                if c < r {
                    assert(c * s + s <= r * s) by (nonlinear_arith)
                        requires
                            c + 1 <= r,
                            s >= 1,
                    ;
                }
            }
            if c >= r {
                assert(c * s >= r * s) by (nonlinear_arith)
                    requires
                        c >= r,
                        s >= 1,
                ;
            }
        } else {
            if c >= 0 {
                assert(c * s >= 0) by (nonlinear_arith)
                    requires
                        c >= 0,
                        s >= 1,
                ;
            }
        }
        assert(q >= 0) by {
            vstd::arithmetic::div_mod::lemma_div_pos_is_pos(e, s);
        }
    }
}

} // verus!

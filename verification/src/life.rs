//! The cellular-automaton core: the per-cell transition rule, the
//! whole-grid step, and pattern seeding.
//!
//! A grid is a row-major `Vec<Vec<bool>>`; its mathematical model is the
//! `Seq<Seq<bool>>` obtained with `deep_view()`. The grid is bounded, not
//! toroidal: a neighbor outside the bounds is simply dead.

use vstd::prelude::*;

use crate::framebuffer::Framebuffer;
use crate::framebuffer::lemma_row_major_in_range;
use crate::framebuffer::lemma_row_major_injective;

verus! {

/// Color painted for a cell that is live in the next generation.
pub const LIVE_COLOR: u32 = 0x81C14B;

/// Color painted for a cell that is dead in the next generation.
pub const DEAD_COLOR: u32 = 0x204E4A;

/// Every row has the same length as the first: the grid is rectangular.
pub open spec fn grid_wf(g: Seq<Seq<bool>>) -> bool {
    forall|y: int| 0 <= y < g.len() ==> (#[trigger] g[y]).len() == g[0].len()
}

/// Number of columns (0 for a grid with no rows).
pub open spec fn grid_width(g: Seq<Seq<bool>>) -> int {
    if g.len() == 0 {
        0
    } else {
        g[0].len() as int
    }
}

/// Number of rows.
pub open spec fn grid_height(g: Seq<Seq<bool>>) -> int {
    g.len() as int
}

/// Whether the cell at column `x`, row `y` is live. Any position outside
/// the grid bounds is dead, which is exactly the no-wraparound boundary
/// condition of the neighbor count.
pub open spec fn cell_at(g: Seq<Seq<bool>>, x: int, y: int) -> bool {
    0 <= y < g.len() && 0 <= x < g[y].len() && g[y][x]
}

/// A live cell counts as 1 toward a neighbor tally.
pub open spec fn live_as_count(b: bool) -> int {
    if b {
        1
    } else {
        0
    }
}

/// How many of the 8 surrounding cells are live; out-of-bounds positions
/// contribute 0.
pub open spec fn neighbor_count(g: Seq<Seq<bool>>, x: int, y: int) -> int {
    live_as_count(cell_at(g, x - 1, y - 1)) + live_as_count(cell_at(g, x, y - 1)) + live_as_count(
        cell_at(g, x + 1, y - 1),
    ) + live_as_count(cell_at(g, x - 1, y)) + live_as_count(cell_at(g, x + 1, y)) + live_as_count(
        cell_at(g, x - 1, y + 1),
    ) + live_as_count(cell_at(g, x, y + 1)) + live_as_count(cell_at(g, x + 1, y + 1))
}

/// The Game of Life rule for one cell: a live cell survives with 2 or 3
/// live neighbors, a dead cell is born with exactly 3.
pub open spec fn next_cell(g: Seq<Seq<bool>>, x: int, y: int) -> bool {
    if cell_at(g, x, y) {
        neighbor_count(g, x, y) == 2 || neighbor_count(g, x, y) == 3
    } else {
        neighbor_count(g, x, y) == 3
    }
}

/// One generation applied to the whole grid.
pub open spec fn step_spec(g: Seq<Seq<bool>>) -> Seq<Seq<bool>> {
    Seq::new(g.len(), |y: int| Seq::new(grid_width(g) as nat, |x: int| next_cell(g, x, y)))
}

/// The grid has exactly `h` rows of exactly `w` cells each.
pub open spec fn grid_dims(g: Seq<Seq<bool>>, w: int, h: int) -> bool {
    g.len() == h && forall|y: int| 0 <= y < h ==> (#[trigger] g[y]).len() == w
}

/// The color a cell gets when the step paints it.
pub open spec fn cell_color(live: bool) -> u32 {
    if live {
        LIVE_COLOR
    } else {
        DEAD_COLOR
    }
}

/// Reading a cell of the stepped grid is applying the rule to the old
/// grid, and stepping keeps the dimensions and rectangular shape.
pub proof fn lemma_step_spec_cell(g: Seq<Seq<bool>>, x: int, y: int)
    requires
        grid_wf(g),
    ensures
        grid_wf(step_spec(g)),
        grid_height(step_spec(g)) == grid_height(g),
        grid_width(step_spec(g)) == grid_width(g),
        cell_at(step_spec(g), x, y) == (0 <= x < grid_width(g) && 0 <= y < grid_height(g)
            && next_cell(g, x, y)),
{
}

/// A position outside the grid bounds never holds a live cell, so the
/// neighbor tally never counts anything beyond the boundary.
pub proof fn lemma_outside_is_dead(g: Seq<Seq<bool>>, x: int, y: int)
    requires
        grid_wf(g),
        !(0 <= x < grid_width(g) && 0 <= y < grid_height(g)),
    ensures
        !cell_at(g, x, y),
{
}

/// A cell with exactly 3 live neighbors is live in the next generation,
/// whatever its current state.
pub proof fn lemma_three_neighbors_lives(g: Seq<Seq<bool>>, x: int, y: int)
    requires
        neighbor_count(g, x, y) == 3,
    ensures
        next_cell(g, x, y),
{
}

/// An isolated live cell, with 0 or 1 live neighbors, dies.
pub proof fn lemma_isolated_cell_dies(g: Seq<Seq<bool>>, x: int, y: int)
    requires
        cell_at(g, x, y),
        neighbor_count(g, x, y) <= 1,
    ensures
        !next_cell(g, x, y),
{
}

/// A live cell with more than 3 live neighbors dies of overpopulation.
pub proof fn lemma_overpopulated_cell_dies(g: Seq<Seq<bool>>, x: int, y: int)
    requires
        cell_at(g, x, y),
        neighbor_count(g, x, y) > 3,
    ensures
        !next_cell(g, x, y),
{
}

/// A live top-left corner cell whose in-bounds neighbors are all dead
/// dies next step, whatever the grid size: the five positions beyond the
/// corner contribute nothing.
pub proof fn lemma_lonely_corner_dies(g: Seq<Seq<bool>>)
    requires
        grid_wf(g),
        cell_at(g, 0, 0),
        !cell_at(g, 1, 0),
        !cell_at(g, 0, 1),
        !cell_at(g, 1, 1),
    ensures
        !next_cell(g, 0, 0),
{
}

/// Whether the cell at column `x`, row `y` of `state` is live; positions
/// outside the grid read as dead.
pub fn cell_is_live(state: &Vec<Vec<bool>>, x: usize, y: usize) -> (r: bool)
    ensures
        r == cell_at(state.deep_view(), x as int, y as int),
{
    y < state.len() && x < state[y].len() && state[y][x]
}

/// Count the live cells among the 8 neighbors of `(x, y)`; cells beyond
/// the grid boundary do not count.
pub fn get_live_neighbors(state: &Vec<Vec<bool>>, x: usize, y: usize) -> (count: usize)
    requires
        x < usize::MAX,
        y < usize::MAX,
    ensures
        count == neighbor_count(state.deep_view(), x as int, y as int),
        count <= 8,
{
    let mut count: usize = 0;
    if x > 0 && y > 0 && cell_is_live(state, x - 1, y - 1) {
        count = count + 1;
    }
    if y > 0 && cell_is_live(state, x, y - 1) {
        count = count + 1;
    }
    if y > 0 && cell_is_live(state, x + 1, y - 1) {
        count = count + 1;
    }
    if x > 0 && cell_is_live(state, x - 1, y) {
        count = count + 1;
    }
    if cell_is_live(state, x + 1, y) {
        count = count + 1;
    }
    if x > 0 && cell_is_live(state, x - 1, y + 1) {
        count = count + 1;
    }
    if cell_is_live(state, x, y + 1) {
        count = count + 1;
    }
    if cell_is_live(state, x + 1, y + 1) {
        count = count + 1;
    }
    count
}

/// Position `(cx, cy)` is one of the pattern's offsets translated by the
/// anchor `(x, y)`.
pub open spec fn pattern_hits(pat: Seq<(usize, usize)>, x: int, y: int, cx: int, cy: int) -> bool {
    exists|k: int|
        0 <= k < pat.len() && cx == x + (#[trigger] pat[k]).0 && cy == y + pat[k].1
}

/// Extending the seeded prefix of a pattern by one offset extends the
/// set of hit positions by exactly that offset's translation.
proof fn lemma_pattern_hits_extend(
    pat: Seq<(usize, usize)>,
    k: int,
    x: int,
    y: int,
    cx: int,
    cy: int,
)
    requires
        0 <= k < pat.len(),
    ensures
        pattern_hits(pat.subrange(0, k + 1), x, y, cx, cy) == (pattern_hits(
            pat.subrange(0, k),
            x,
            y,
            cx,
            cy,
        ) || (cx == x + pat[k].0 && cy == y + pat[k].1)),
{
    let pre = pat.subrange(0, k);
    let ext = pat.subrange(0, k + 1);
    if pattern_hits(ext, x, y, cx, cy) {
        let j = choose|j: int|
            0 <= j < ext.len() && cx == x + (#[trigger] ext[j]).0 && cy == y + ext[j].1;
        if j < k {
            assert(pre[j] == ext[j]);
            assert(pattern_hits(pre, x, y, cx, cy));
        } else {
            assert(ext[k] == pat[k]);
        }
    }
    if pattern_hits(pre, x, y, cx, cy) {
        let j = choose|j: int|
            0 <= j < pre.len() && cx == x + (#[trigger] pre[j]).0 && cy == y + pre[j].1;
        assert(ext[j] == pre[j]);
        assert(pattern_hits(ext, x, y, cx, cy));
    }
    if cx == x + pat[k].0 && cy == y + pat[k].1 {
        assert(ext[k] == pat[k]);
        assert(pattern_hits(ext, x, y, cx, cy));
    }
}

/// Mark as live every cell at `anchor + offset` for each offset of
/// `pattern`. An offset whose translated position falls outside the grid
/// is silently skipped; every cell that is not hit keeps its state, so
/// overlapping placements simply OR their live cells.
#[verifier::loop_isolation(false)]
pub fn set_pattern(state: &mut Vec<Vec<bool>>, pattern: &[(usize, usize)], x: usize, y: usize)
    requires
        grid_wf(old(state).deep_view()),
    ensures
        grid_wf(final(state).deep_view()),
        final(state)@.len() == old(state)@.len(),
        grid_width(final(state).deep_view()) == grid_width(old(state).deep_view()),
        forall|cx: int, cy: int|
            #![trigger cell_at(final(state).deep_view(), cx, cy)]
            #![trigger cell_at(old(state).deep_view(), cx, cy)]
            cell_at(final(state).deep_view(), cx, cy) == (cell_at(old(state).deep_view(), cx, cy)
                || (0 <= cx < grid_width(old(state).deep_view()) && 0 <= cy < grid_height(
                old(state).deep_view(),
            ) && pattern_hits(pattern@, x as int, y as int, cx, cy))),
{
    let ghost g0 = state.deep_view();
    let height = state.len();
    let width = if height > 0 {
        state[0].len()
    } else {
        0
    };
    proof {
        assert forall|b: int| 0 <= b < height implies (#[trigger] g0[b]).len() == width by {
            assert(g0[b].len() == g0[0].len());
            assert(g0[0].len() == state@[0]@.len());
        }
        assert(grid_dims(g0, width as int, height as int));
    }
    let mut k: usize = 0;
    while k < pattern.len()
        invariant
            grid_dims(state.deep_view(), width as int, height as int),
            state@.len() == height,
            k <= pattern@.len(),
            forall|cx: int, cy: int|
                #![trigger cell_at(state.deep_view(), cx, cy)]
                #![trigger cell_at(g0, cx, cy)]
                cell_at(state.deep_view(), cx, cy) == (cell_at(g0, cx, cy) || (0 <= cx < width
                    && 0 <= cy < height && pattern_hits(
                    pattern@.subrange(0, k as int),
                    x as int,
                    y as int,
                    cx,
                    cy,
                ))),
        decreases pattern@.len() - k,
    {
        let (dx, dy) = pattern[k];
        let mut target: Option<(usize, usize)> = None;
        if let Some(cx) = x.checked_add(dx) {
            if let Some(cy) = y.checked_add(dy) {
                if cy < height && cx < width {
                    target = Some((cx, cy));
                }
            }
        }
        let ghost rows_prev = state@;
        let ghost dv_prev = state.deep_view();
        match target {
            Some((cx, cy)) => {
                proof {
                    assert(state.deep_view()[cy as int].len() == width);
                    assert(state@[cy as int]@.len() == width);
                }
                state[cy].set(cx, true);
                proof {
                    assert(state@ == rows_prev.update(cy as int, state@[cy as int]));
                    assert(state@[cy as int]@ == rows_prev[cy as int]@.update(cx as int, true));
                    assert forall|b: int| 0 <= b < height implies (#[trigger] state.deep_view()[b]).len()
                        == width by {
                        if b == cy {
                            assert(state@[b]@.len() == rows_prev[b]@.len());
                            assert(dv_prev[b].len() == width);
                        } else {
                            assert(state@[b] == rows_prev[b]);
                            assert(dv_prev[b].len() == width);
                        }
                    }
                    assert forall|a: int, b: int|
                        #![trigger cell_at(state.deep_view(), a, b)]
                        #![trigger cell_at(g0, a, b)]
                        cell_at(state.deep_view(), a, b) == (cell_at(g0, a, b) || (0 <= a < width
                            && 0 <= b < height && pattern_hits(
                            pattern@.subrange(0, k as int + 1),
                            x as int,
                            y as int,
                            a,
                            b,
                        ))) by {
                        lemma_pattern_hits_extend(pattern@, k as int, x as int, y as int, a, b);
                        if 0 <= b < height {
                            if b == cy && a == cx {
                                assert(state@[b]@[a]);
                                assert(cell_at(state.deep_view(), a, b));
                            } else if b == cy {
                                assert(a != cx);
                                assert(0 <= a < width ==> state@[b]@[a] == rows_prev[b]@[a]);
                                assert(cell_at(state.deep_view(), a, b) == cell_at(dv_prev, a, b));
                            } else {
                                assert(state@[b] == rows_prev[b]);
                                assert(cell_at(state.deep_view(), a, b) == cell_at(dv_prev, a, b));
                            }
                        } else {
                            assert(!cell_at(state.deep_view(), a, b));
                            assert(!cell_at(dv_prev, a, b));
                        }
                    }
                }
            },
            None => {
                proof {
                    assert(x as int + dx as int >= width || y as int + dy as int >= height);
                    assert forall|a: int, b: int|
                        #![trigger cell_at(state.deep_view(), a, b)]
                        #![trigger cell_at(g0, a, b)]
                        cell_at(state.deep_view(), a, b) == (cell_at(g0, a, b) || (0 <= a < width
                            && 0 <= b < height && pattern_hits(
                            pattern@.subrange(0, k as int + 1),
                            x as int,
                            y as int,
                            a,
                            b,
                        ))) by {
                        lemma_pattern_hits_extend(pattern@, k as int, x as int, y as int, a, b);
                    }
                }
            },
        }
        k = k + 1;
    }
    proof {
        assert(pattern@.subrange(0, pattern@.len() as int) =~= pattern@);
        if height > 0 {
            assert(state.deep_view()[0].len() == width);
            assert(g0[0].len() == width);
        }
    }
}

/// Compute the next generation of `current_state` and, in the same pass,
/// paint every cell's color into `framebuffer`: `LIVE_COLOR` where the
/// cell will be live, `DEAD_COLOR` where it will be dead. The grid must
/// match the framebuffer's declared dimensions; the returned grid does
/// too, and the input grid is left untouched.
pub fn render(framebuffer: &mut Framebuffer, current_state: &Vec<Vec<bool>>) -> (next_state: Vec<
    Vec<bool>,
>)
    requires
        old(framebuffer).wf(),
        grid_dims(
            current_state.deep_view(),
            old(framebuffer).width as int,
            old(framebuffer).height as int,
        ),
    ensures
        final(framebuffer).wf(),
        final(framebuffer).width == old(framebuffer).width,
        final(framebuffer).height == old(framebuffer).height,
        next_state.deep_view() == step_spec(current_state.deep_view()),
        grid_dims(
            next_state.deep_view(),
            old(framebuffer).width as int,
            old(framebuffer).height as int,
        ),
        forall|x: int, y: int|
            0 <= x < old(framebuffer).width && 0 <= y < old(framebuffer).height ==> final(framebuffer).pixels@[y * (old(framebuffer).width as int) + x] == cell_color(
                next_cell(current_state.deep_view(), x, y),
            ),
{
    let width = framebuffer.width;
    let height = framebuffer.height;
    let ghost g = current_state.deep_view();

    let mut next_state: Vec<Vec<bool>> = Vec::new();
    let mut y: usize = 0;
    while y < height
        invariant
            framebuffer.wf(),
            framebuffer.width == width,
            framebuffer.height == height,
            g == current_state.deep_view(),
            grid_dims(g, width as int, height as int),
            y <= height,
            next_state@.len() == y,
            forall|yy: int|
                0 <= yy < y ==> (#[trigger] next_state.deep_view()[yy]).len() == width,
            forall|xx: int, yy: int|
                0 <= yy < y && 0 <= xx < width ==> next_state.deep_view()[yy][xx] == next_cell(
                    g,
                    xx,
                    yy,
                ),
            forall|xx: int, yy: int|
                0 <= yy < y && 0 <= xx < width ==> framebuffer.pixels@[yy * (width as int) + xx]
                    == cell_color(next_cell(g, xx, yy)),
        decreases height - y,
    {
        let mut row: Vec<bool> = Vec::new();
        let mut x: usize = 0;
        while x < width
            invariant
                framebuffer.wf(),
                framebuffer.width == width,
                framebuffer.height == height,
                g == current_state.deep_view(),
                grid_dims(g, width as int, height as int),
                y < height,
                x <= width,
                row@.len() == x,
                forall|xx: int| 0 <= xx < x ==> row@[xx] == next_cell(g, xx, y as int),
                forall|xx: int|
                    0 <= xx < x ==> framebuffer.pixels@[(y as int) * (width as int) + xx]
                        == cell_color(next_cell(g, xx, y as int)),
                forall|xx: int, yy: int|
                    0 <= yy < y && 0 <= xx < width ==> framebuffer.pixels@[yy * (width as int) + xx]
                        == cell_color(next_cell(g, xx, yy)),
            decreases width - x,
        {
            let live_neighbors = get_live_neighbors(current_state, x, y);
            proof {
                assert(current_state@[y as int]@.len() == width);
            }
            let alive: bool;
            if current_state[y][x] {
                if live_neighbors < 2 || live_neighbors > 3 {
                    alive = false;
                } else {
                    alive = true;
                }
            } else {
                if live_neighbors == 3 {
                    alive = true;
                } else {
                    alive = false;
                }
            }
            proof {
                assert(cell_at(g, x as int, y as int) == current_state@[y as int]@[x as int]);
                assert(alive == next_cell(g, x as int, y as int));
            }
            row.push(alive);
            if alive {
                framebuffer.set_current_color(LIVE_COLOR);
            } else {
                framebuffer.set_current_color(DEAD_COLOR);
            }
            framebuffer.point(x, y);
            proof {
                lemma_row_major_in_range(width as int, height as int, x as int, y as int);
                assert forall|xx: int, yy: int|
                    0 <= yy < y && 0 <= xx < width implies framebuffer.pixels@[yy * (width as int)
                    + xx] == cell_color(next_cell(g, xx, yy)) by {
                    lemma_row_major_in_range(width as int, height as int, xx, yy);
                    if yy * (width as int) + xx == (y as int) * (width as int) + (x as int) {
                        lemma_row_major_injective(width as int, xx, yy, x as int, y as int);
                    }
                }
                assert forall|xx: int| 0 <= xx < x + 1 implies framebuffer.pixels@[(y as int) * (
                width as int) + xx] == cell_color(next_cell(g, xx, y as int)) by {
                    lemma_row_major_in_range(width as int, height as int, xx, y as int);
                }
            }
            x = x + 1;
        }
        let ghost rows_before = next_state@;
        let ghost dv_before = next_state.deep_view();
        next_state.push(row);
        proof {
            assert forall|yy: int| 0 <= yy < y + 1 implies (#[trigger] next_state.deep_view()[yy]).len()
                == width by {
                if yy < y {
                    assert(next_state@[yy] == rows_before[yy]);
                    assert(dv_before[yy].len() == width);
                } else {
                    assert(next_state@[yy] == row);
                }
            }
            assert forall|xx: int, yy: int|
                0 <= yy < y + 1 && 0 <= xx < width implies next_state.deep_view()[yy][xx]
                == next_cell(g, xx, yy) by {
                if yy < y {
                    assert(next_state@[yy] == rows_before[yy]);
                    assert(dv_before[yy][xx] == next_cell(g, xx, yy));
                } else {
                    assert(next_state@[yy] == row);
                    assert(row@[xx] == next_cell(g, xx, yy));
                }
            }
        }
        y = y + 1;
    }
    proof {
        assert(next_state.deep_view() =~~= step_spec(g));
    }
    next_state
}

} // verus!

//! The named organisms used to seed the grid, as lists of `(dx, dy)`
//! offsets from an anchor, and proofs of how the step function treats
//! the two smallest of them: the block is a still life and the toad is a
//! period-2 oscillator.

use vstd::prelude::*;

use crate::life::cell_at;
use crate::life::grid_height;
use crate::life::grid_wf;
use crate::life::grid_width;
use crate::life::lemma_step_spec_cell;
use crate::life::next_cell;
use crate::life::pattern_hits;
use crate::life::step_spec;

verus! {

/// The glider, a spaceship that travels one cell diagonally every 4 steps.
pub fn glider() -> (p: Vec<(usize, usize)>)
    ensures
        p@ == seq![(1usize, 0usize), (2usize, 1usize), (0usize, 2usize), (1usize, 2usize), (2usize, 2usize)],
{
    let mut p: Vec<(usize, usize)> = Vec::new();
    p.push((1, 0));
    p.push((2, 1));
    p.push((0, 2));
    p.push((1, 2));
    p.push((2, 2));
    proof {
        assert(p@ =~= seq![(1usize, 0usize), (2usize, 1usize), (0usize, 2usize), (1usize, 2usize), (2usize, 2usize)]);
    }
    p
}

/// The toad, a period-2 oscillator.
pub fn toad() -> (p: Vec<(usize, usize)>)
    ensures
        p@ == seq![(1usize, 0usize), (2usize, 0usize), (3usize, 0usize), (0usize, 1usize), (1usize, 1usize), (2usize, 1usize)],
{
    let mut p: Vec<(usize, usize)> = Vec::new();
    p.push((1, 0));
    p.push((2, 0));
    p.push((3, 0));
    p.push((0, 1));
    p.push((1, 1));
    p.push((2, 1));
    proof {
        assert(p@ =~= seq![(1usize, 0usize), (2usize, 0usize), (3usize, 0usize), (0usize, 1usize), (1usize, 1usize), (2usize, 1usize)]);
    }
    p
}

/// The loaf, a still life.
pub fn loaf() -> (p: Vec<(usize, usize)>)
    ensures
        p@ == seq![(1usize, 0usize), (2usize, 0usize), (0usize, 1usize), (3usize, 1usize), (1usize, 2usize), (3usize, 2usize), (2usize, 3usize)],
{
    let mut p: Vec<(usize, usize)> = Vec::new();
    p.push((1, 0));
    p.push((2, 0));
    p.push((0, 1));
    p.push((3, 1));
    p.push((1, 2));
    p.push((3, 2));
    p.push((2, 3));
    proof {
        assert(p@ =~= seq![(1usize, 0usize), (2usize, 0usize), (0usize, 1usize), (3usize, 1usize), (1usize, 2usize), (3usize, 2usize), (2usize, 3usize)]);
    }
    p
}

/// The boat, a still life.
pub fn boat() -> (p: Vec<(usize, usize)>)
    ensures
        p@ == seq![(0usize, 0usize), (1usize, 0usize), (0usize, 1usize), (2usize, 1usize), (1usize, 2usize)],
{
    let mut p: Vec<(usize, usize)> = Vec::new();
    p.push((0, 0));
    p.push((1, 0));
    p.push((0, 1));
    p.push((2, 1));
    p.push((1, 2));
    proof {
        assert(p@ =~= seq![(0usize, 0usize), (1usize, 0usize), (0usize, 1usize), (2usize, 1usize), (1usize, 2usize)]);
    }
    p
}

/// The middle-weight spaceship, which travels horizontally.
pub fn middle_weight_spaceship() -> (p: Vec<(usize, usize)>)
    ensures
        p@ == seq![(2usize, 0usize), (3usize, 0usize), (4usize, 0usize), (1usize, 1usize), (5usize, 1usize), (0usize, 2usize), (5usize, 2usize), (5usize, 3usize), (0usize, 3usize), (1usize, 4usize), (3usize, 4usize)],
{
    let mut p: Vec<(usize, usize)> = Vec::new();
    p.push((2, 0));
    p.push((3, 0));
    p.push((4, 0));
    p.push((1, 1));
    p.push((5, 1));
    p.push((0, 2));
    p.push((5, 2));
    p.push((5, 3));
    p.push((0, 3));
    p.push((1, 4));
    p.push((3, 4));
    proof {
        assert(p@ =~= seq![(2usize, 0usize), (3usize, 0usize), (4usize, 0usize), (1usize, 1usize), (5usize, 1usize), (0usize, 2usize), (5usize, 2usize), (5usize, 3usize), (0usize, 3usize), (1usize, 4usize), (3usize, 4usize)]);
    }
    p
}

/// The tub, a still life.
pub fn tub() -> (p: Vec<(usize, usize)>)
    ensures
        p@ == seq![(1usize, 0usize), (0usize, 1usize), (2usize, 1usize), (1usize, 2usize)],
{
    let mut p: Vec<(usize, usize)> = Vec::new();
    p.push((1, 0));
    p.push((0, 1));
    p.push((2, 1));
    p.push((1, 2));
    proof {
        assert(p@ =~= seq![(1usize, 0usize), (0usize, 1usize), (2usize, 1usize), (1usize, 2usize)]);
    }
    p
}

/// The block, a 2x2 still life.
pub fn block() -> (p: Vec<(usize, usize)>)
    ensures
        p@ == seq![(0usize, 0usize), (1usize, 0usize), (0usize, 1usize), (1usize, 1usize)],
{
    let mut p: Vec<(usize, usize)> = Vec::new();
    p.push((0, 0));
    p.push((1, 0));
    p.push((0, 1));
    p.push((1, 1));
    proof {
        assert(p@ =~= seq![(0usize, 0usize), (1usize, 0usize), (0usize, 1usize), (1usize, 1usize)]);
    }
    p
}

/// The bee hive, a still life.
pub fn bee_hive() -> (p: Vec<(usize, usize)>)
    ensures
        p@ == seq![(1usize, 0usize), (2usize, 0usize), (0usize, 1usize), (3usize, 1usize), (1usize, 2usize), (2usize, 2usize)],
{
    let mut p: Vec<(usize, usize)> = Vec::new();
    p.push((1, 0));
    p.push((2, 0));
    p.push((0, 1));
    p.push((3, 1));
    p.push((1, 2));
    p.push((2, 2));
    proof {
        assert(p@ =~= seq![(1usize, 0usize), (2usize, 0usize), (0usize, 1usize), (3usize, 1usize), (1usize, 2usize), (2usize, 2usize)]);
    }
    p
}

/// The pulsar, a large period-3 oscillator.
pub fn pulsar() -> (p: Vec<(usize, usize)>)
    ensures
        p@ == seq![(2usize, 0usize), (3usize, 0usize), (4usize, 0usize), (8usize, 0usize), (9usize, 0usize), (10usize, 0usize), (0usize, 2usize), (5usize, 2usize), (7usize, 2usize), (12usize, 2usize), (0usize, 3usize), (5usize, 3usize), (7usize, 3usize), (12usize, 3usize), (0usize, 4usize), (5usize, 4usize), (7usize, 4usize), (12usize, 4usize), (2usize, 5usize), (3usize, 5usize), (4usize, 5usize), (8usize, 5usize), (9usize, 5usize), (10usize, 5usize), (2usize, 7usize), (3usize, 7usize), (4usize, 7usize), (8usize, 7usize), (9usize, 7usize), (10usize, 7usize), (0usize, 8usize), (5usize, 8usize), (7usize, 8usize), (12usize, 8usize), (0usize, 9usize), (5usize, 9usize), (7usize, 9usize), (12usize, 9usize), (0usize, 10usize), (5usize, 10usize), (7usize, 10usize), (12usize, 10usize), (2usize, 12usize), (3usize, 12usize), (4usize, 12usize), (8usize, 12usize), (9usize, 12usize), (10usize, 12usize)],
{
    let mut p: Vec<(usize, usize)> = Vec::new();
    p.push((2, 0));
    p.push((3, 0));
    p.push((4, 0));
    p.push((8, 0));
    p.push((9, 0));
    p.push((10, 0));
    p.push((0, 2));
    p.push((5, 2));
    p.push((7, 2));
    p.push((12, 2));
    p.push((0, 3));
    p.push((5, 3));
    p.push((7, 3));
    p.push((12, 3));
    p.push((0, 4));
    p.push((5, 4));
    p.push((7, 4));
    p.push((12, 4));
    p.push((2, 5));
    p.push((3, 5));
    p.push((4, 5));
    p.push((8, 5));
    p.push((9, 5));
    p.push((10, 5));
    p.push((2, 7));
    p.push((3, 7));
    p.push((4, 7));
    p.push((8, 7));
    p.push((9, 7));
    p.push((10, 7));
    p.push((0, 8));
    p.push((5, 8));
    p.push((7, 8));
    p.push((12, 8));
    p.push((0, 9));
    p.push((5, 9));
    p.push((7, 9));
    p.push((12, 9));
    p.push((0, 10));
    p.push((5, 10));
    p.push((7, 10));
    p.push((12, 10));
    p.push((2, 12));
    p.push((3, 12));
    p.push((4, 12));
    p.push((8, 12));
    p.push((9, 12));
    p.push((10, 12));
    proof {
        assert(p@ =~= seq![(2usize, 0usize), (3usize, 0usize), (4usize, 0usize), (8usize, 0usize), (9usize, 0usize), (10usize, 0usize), (0usize, 2usize), (5usize, 2usize), (7usize, 2usize), (12usize, 2usize), (0usize, 3usize), (5usize, 3usize), (7usize, 3usize), (12usize, 3usize), (0usize, 4usize), (5usize, 4usize), (7usize, 4usize), (12usize, 4usize), (2usize, 5usize), (3usize, 5usize), (4usize, 5usize), (8usize, 5usize), (9usize, 5usize), (10usize, 5usize), (2usize, 7usize), (3usize, 7usize), (4usize, 7usize), (8usize, 7usize), (9usize, 7usize), (10usize, 7usize), (0usize, 8usize), (5usize, 8usize), (7usize, 8usize), (12usize, 8usize), (0usize, 9usize), (5usize, 9usize), (7usize, 9usize), (12usize, 9usize), (0usize, 10usize), (5usize, 10usize), (7usize, 10usize), (12usize, 10usize), (2usize, 12usize), (3usize, 12usize), (4usize, 12usize), (8usize, 12usize), (9usize, 12usize), (10usize, 12usize)]);
    }
    p
}


/// The four cells of a block whose top-left corner is `(bx, by)`.
pub open spec fn block_shape(bx: int, by: int, cx: int, cy: int) -> bool {
    (cx == bx || cx == bx + 1) && (cy == by || cy == by + 1)
}

/// The grid holds exactly one block, fully inside the bounds, and every
/// other cell is dead.
pub open spec fn only_block(g: Seq<Seq<bool>>, bx: int, by: int) -> bool {
    &&& grid_wf(g)
    &&& 0 <= bx && bx + 1 < grid_width(g)
    &&& 0 <= by && by + 1 < grid_height(g)
    &&& forall|cx: int, cy: int| #[trigger] cell_at(g, cx, cy) == block_shape(bx, by, cx, cy)
}

/// On a grid holding only a block, every cell keeps its state: each block
/// cell has exactly 3 live neighbors, and no outside cell has more than 2.
proof fn lemma_block_cell(g: Seq<Seq<bool>>, bx: int, by: int, x: int, y: int)
    requires
        only_block(g, bx, by),
    ensures
        next_cell(g, x, y) == cell_at(g, x, y),
{
    assert(cell_at(g, x - 1, y - 1) == block_shape(bx, by, x - 1, y - 1));
    assert(cell_at(g, x, y - 1) == block_shape(bx, by, x, y - 1));
    assert(cell_at(g, x + 1, y - 1) == block_shape(bx, by, x + 1, y - 1));
    assert(cell_at(g, x - 1, y) == block_shape(bx, by, x - 1, y));
    assert(cell_at(g, x + 1, y) == block_shape(bx, by, x + 1, y));
    assert(cell_at(g, x - 1, y + 1) == block_shape(bx, by, x - 1, y + 1));
    assert(cell_at(g, x, y + 1) == block_shape(bx, by, x, y + 1));
    assert(cell_at(g, x + 1, y + 1) == block_shape(bx, by, x + 1, y + 1));
    assert(cell_at(g, x, y) == block_shape(bx, by, x, y));
}

/// The block is a still life: one step of a grid holding only a block,
/// surrounded by dead cells, returns the grid unchanged.
pub proof fn lemma_block_still_life(g: Seq<Seq<bool>>, bx: int, by: int)
    requires
        only_block(g, bx, by),
    ensures
        step_spec(g) == g,
{
    assert forall|y: int| 0 <= y < g.len() implies step_spec(g)[y] =~= g[y] by {
        assert(g[y].len() == grid_width(g));
        assert forall|x: int| 0 <= x < g[y].len() implies step_spec(g)[y][x] == g[y][x] by {
            lemma_block_cell(g, bx, by, x, y);
            assert(cell_at(g, x, y) == g[y][x]);
        }
    }
    assert(step_spec(g) =~~= g);
}

/// The six cells of a toad in its resting phase, anchored at `(ax, ay)`:
/// a row of three over a row of three, offset by one.
pub open spec fn toad_shape(ax: int, ay: int, cx: int, cy: int) -> bool {
    (cy == ay && (cx == ax + 1 || cx == ax + 2 || cx == ax + 3)) || (cy == ay + 1 && (cx == ax
        || cx == ax + 1 || cx == ax + 2))
}

/// The six cells of a toad one step later: two vertical pairs flanking
/// the resting rows, plus one cell above and one below.
pub open spec fn toad_flip_shape(ax: int, ay: int, cx: int, cy: int) -> bool {
    (cy == ay - 1 && cx == ax + 2) || (cy == ay && (cx == ax || cx == ax + 3)) || (cy == ay + 1 && (
    cx == ax || cx == ax + 3)) || (cy == ay + 2 && cx == ax + 1)
}

/// The grid holds exactly a resting toad, with one row of margin above
/// and below inside the bounds, and every other cell is dead.
pub open spec fn only_toad(g: Seq<Seq<bool>>, ax: int, ay: int) -> bool {
    &&& grid_wf(g)
    &&& 0 <= ax && ax + 3 < grid_width(g)
    &&& 1 <= ay && ay + 2 < grid_height(g)
    &&& forall|cx: int, cy: int| #[trigger] cell_at(g, cx, cy) == toad_shape(ax, ay, cx, cy)
}

/// The grid holds exactly a flipped toad and every other cell is dead.
pub open spec fn only_toad_flip(g: Seq<Seq<bool>>, ax: int, ay: int) -> bool {
    &&& grid_wf(g)
    &&& 0 <= ax && ax + 3 < grid_width(g)
    &&& 1 <= ay && ay + 2 < grid_height(g)
    &&& forall|cx: int, cy: int| #[trigger] cell_at(g, cx, cy) == toad_flip_shape(ax, ay, cx, cy)
}

/// One step of a resting toad produces the flipped toad at each cell.
proof fn lemma_toad_cell_rest(g: Seq<Seq<bool>>, ax: int, ay: int, x: int, y: int)
    requires
        only_toad(g, ax, ay),
    ensures
        next_cell(g, x, y) == toad_flip_shape(ax, ay, x, y),
{
    assert(cell_at(g, x - 1, y - 1) == toad_shape(ax, ay, x - 1, y - 1));
    assert(cell_at(g, x, y - 1) == toad_shape(ax, ay, x, y - 1));
    assert(cell_at(g, x + 1, y - 1) == toad_shape(ax, ay, x + 1, y - 1));
    assert(cell_at(g, x - 1, y) == toad_shape(ax, ay, x - 1, y));
    assert(cell_at(g, x + 1, y) == toad_shape(ax, ay, x + 1, y));
    assert(cell_at(g, x - 1, y + 1) == toad_shape(ax, ay, x - 1, y + 1));
    assert(cell_at(g, x, y + 1) == toad_shape(ax, ay, x, y + 1));
    assert(cell_at(g, x + 1, y + 1) == toad_shape(ax, ay, x + 1, y + 1));
    assert(cell_at(g, x, y) == toad_shape(ax, ay, x, y));
}

/// One step of a flipped toad restores the resting toad at each cell.
proof fn lemma_toad_cell_flip(g: Seq<Seq<bool>>, ax: int, ay: int, x: int, y: int)
    requires
        only_toad_flip(g, ax, ay),
    ensures
        next_cell(g, x, y) == toad_shape(ax, ay, x, y),
{
    assert(cell_at(g, x - 1, y - 1) == toad_flip_shape(ax, ay, x - 1, y - 1));
    assert(cell_at(g, x, y - 1) == toad_flip_shape(ax, ay, x, y - 1));
    assert(cell_at(g, x + 1, y - 1) == toad_flip_shape(ax, ay, x + 1, y - 1));
    assert(cell_at(g, x - 1, y) == toad_flip_shape(ax, ay, x - 1, y));
    assert(cell_at(g, x + 1, y) == toad_flip_shape(ax, ay, x + 1, y));
    assert(cell_at(g, x - 1, y + 1) == toad_flip_shape(ax, ay, x - 1, y + 1));
    assert(cell_at(g, x, y + 1) == toad_flip_shape(ax, ay, x, y + 1));
    assert(cell_at(g, x + 1, y + 1) == toad_flip_shape(ax, ay, x + 1, y + 1));
    assert(cell_at(g, x, y) == toad_flip_shape(ax, ay, x, y));
}

/// The toad is a period-2 oscillator: one step of a grid holding only a
/// resting toad changes the grid, and a second step restores it exactly.
pub proof fn lemma_toad_oscillates(g: Seq<Seq<bool>>, ax: int, ay: int)
    requires
        only_toad(g, ax, ay),
    ensures
        only_toad_flip(step_spec(g), ax, ay),
        step_spec(g) != g,
        step_spec(step_spec(g)) == g,
{
    let g1 = step_spec(g);
    lemma_step_spec_cell(g, 0, 0);
    assert forall|cx: int, cy: int| #[trigger] cell_at(g1, cx, cy) == toad_flip_shape(
        ax,
        ay,
        cx,
        cy,
    ) by {
        lemma_step_spec_cell(g, cx, cy);
        lemma_toad_cell_rest(g, ax, ay, cx, cy);
    }
    assert(only_toad_flip(g1, ax, ay));
    let g2 = step_spec(g1);
    lemma_step_spec_cell(g1, 0, 0);
    assert forall|cx: int, cy: int| #[trigger] cell_at(g2, cx, cy) == toad_shape(
        ax,
        ay,
        cx,
        cy,
    ) by {
        lemma_step_spec_cell(g1, cx, cy);
        lemma_toad_cell_flip(g1, ax, ay, cx, cy);
    }
    assert forall|y: int| 0 <= y < g.len() implies g2[y] =~= g[y] by {
        assert(g[y].len() == grid_width(g));
        assert(g2[y].len() == grid_width(g));
        assert forall|x: int| 0 <= x < g[y].len() implies g2[y][x] == g[y][x] by {
            assert(cell_at(g2, x, y) == toad_shape(ax, ay, x, y));
            assert(cell_at(g, x, y) == toad_shape(ax, ay, x, y));
        }
    }
    assert(g2 =~~= g);
    assert(cell_at(g, ax + 1, ay));
    assert(!cell_at(g1, ax + 1, ay));
}


/// Seeding the block's offsets at anchor `(bx, by)` hits exactly the
/// four cells of `block_shape`.
proof fn lemma_block_pattern_hits(x: int, y: int, cx: int, cy: int)
    ensures
        pattern_hits(
            seq![(0usize, 0usize), (1usize, 0usize), (0usize, 1usize), (1usize, 1usize)],
            x,
            y,
            cx,
            cy,
        ) == block_shape(x, y, cx, cy),
{
    let pat = seq![(0usize, 0usize), (1usize, 0usize), (0usize, 1usize), (1usize, 1usize)];
    if pattern_hits(pat, x, y, cx, cy) {
        let k = choose|k: int|
            0 <= k < pat.len() && cx == x + (#[trigger] pat[k]).0 && cy == y + pat[k].1;
        assert(block_shape(x, y, cx, cy));
    }
    if block_shape(x, y, cx, cy) {
        if cx == x && cy == y {
            assert(cx == x + pat[0].0 && cy == y + pat[0].1);
        } else if cx == x + 1 && cy == y {
            assert(cx == x + pat[1].0 && cy == y + pat[1].1);
        } else if cx == x && cy == y + 1 {
            assert(cx == x + pat[2].0 && cy == y + pat[2].1);
        } else {
            assert(cx == x + pat[3].0 && cy == y + pat[3].1);
        }
        assert(pattern_hits(pat, x, y, cx, cy));
    }
}

/// Seeding the block pattern into an all-dead grid, anywhere it fits,
/// yields exactly the block-only configuration: the hypotheses are the
/// contract of `crate::life::set_pattern` applied to `crate::patterns::block`.
pub proof fn lemma_seeded_block(d: Seq<Seq<bool>>, g: Seq<Seq<bool>>, bx: usize, by: usize)
    requires
        grid_wf(d),
        forall|cx: int, cy: int| !#[trigger] cell_at(d, cx, cy),
        bx + 1 < grid_width(d),
        by + 1 < grid_height(d),
        grid_wf(g),
        g.len() == d.len(),
        grid_width(g) == grid_width(d),
        forall|cx: int, cy: int|
            #[trigger] cell_at(g, cx, cy) == (cell_at(d, cx, cy) || (0 <= cx < grid_width(d) && 0
                <= cy < grid_height(d) && pattern_hits(
                seq![(0usize, 0usize), (1usize, 0usize), (0usize, 1usize), (1usize, 1usize)],
                bx as int,
                by as int,
                cx,
                cy,
            ))),
    ensures
        only_block(g, bx as int, by as int),
{
    assert forall|cx: int, cy: int| #[trigger] cell_at(g, cx, cy) == block_shape(
        bx as int,
        by as int,
        cx,
        cy,
    ) by {
        lemma_block_pattern_hits(bx as int, by as int, cx, cy);
    }
}

/// Seeding the toad's offsets at anchor `(ax, ay)` hits exactly the six
/// cells of the resting `toad_shape`.
proof fn lemma_toad_pattern_hits(x: int, y: int, cx: int, cy: int)
    ensures
        pattern_hits(
            seq![
                (1usize, 0usize),
                (2usize, 0usize),
                (3usize, 0usize),
                (0usize, 1usize),
                (1usize, 1usize),
                (2usize, 1usize),
            ],
            x,
            y,
            cx,
            cy,
        ) == toad_shape(x, y, cx, cy),
{
    let pat = seq![
        (1usize, 0usize),
        (2usize, 0usize),
        (3usize, 0usize),
        (0usize, 1usize),
        (1usize, 1usize),
        (2usize, 1usize),
    ];
    if pattern_hits(pat, x, y, cx, cy) {
        let k = choose|k: int|
            0 <= k < pat.len() && cx == x + (#[trigger] pat[k]).0 && cy == y + pat[k].1;
        assert(toad_shape(x, y, cx, cy));
    }
    if toad_shape(x, y, cx, cy) {
        if cy == y && cx == x + 1 {
            assert(cx == x + pat[0].0 && cy == y + pat[0].1);
        } else if cy == y && cx == x + 2 {
            assert(cx == x + pat[1].0 && cy == y + pat[1].1);
        } else if cy == y && cx == x + 3 {
            assert(cx == x + pat[2].0 && cy == y + pat[2].1);
        } else if cy == y + 1 && cx == x {
            assert(cx == x + pat[3].0 && cy == y + pat[3].1);
        } else if cy == y + 1 && cx == x + 1 {
            assert(cx == x + pat[4].0 && cy == y + pat[4].1);
        } else {
            assert(cx == x + pat[5].0 && cy == y + pat[5].1);
        }
        assert(pattern_hits(pat, x, y, cx, cy));
    }
}

/// Seeding the toad pattern into an all-dead grid, with a row of margin
/// above and below, yields exactly the resting-toad configuration: the
/// hypotheses are the contract of `crate::life::set_pattern` applied to
/// `crate::patterns::toad`.
pub proof fn lemma_seeded_toad(d: Seq<Seq<bool>>, g: Seq<Seq<bool>>, ax: usize, ay: usize)
    requires
        grid_wf(d),
        forall|cx: int, cy: int| !#[trigger] cell_at(d, cx, cy),
        ax + 3 < grid_width(d),
        1 <= ay,
        ay + 2 < grid_height(d),
        grid_wf(g),
        g.len() == d.len(),
        grid_width(g) == grid_width(d),
        forall|cx: int, cy: int|
            #[trigger] cell_at(g, cx, cy) == (cell_at(d, cx, cy) || (0 <= cx < grid_width(d) && 0
                <= cy < grid_height(d) && pattern_hits(
                seq![
                    (1usize, 0usize),
                    (2usize, 0usize),
                    (3usize, 0usize),
                    (0usize, 1usize),
                    (1usize, 1usize),
                    (2usize, 1usize),
                ],
                ax as int,
                ay as int,
                cx,
                cy,
            ))),
    ensures
        only_toad(g, ax as int, ay as int),
{
    assert forall|cx: int, cy: int| #[trigger] cell_at(g, cx, cy) == toad_shape(
        ax as int,
        ay as int,
        cx,
        cy,
    ) by {
        lemma_toad_pattern_hits(ax as int, ay as int, cx, cy);
    }
}

} // verus!

use game_of_life::framebuffer::Framebuffer;
use game_of_life::life::render;
use game_of_life::life::set_pattern;
use game_of_life::patterns;

fn dead_grid(width: usize, height: usize) -> Vec<Vec<bool>> {
    let mut g: Vec<Vec<bool>> = Vec::new();
    for _ in 0..height {
        let mut row: Vec<bool> = Vec::new();
        for _ in 0..width {
            row.push(false);
        }
        g.push(row);
    }
    g
}

fn live_cells(g: &Vec<Vec<bool>>) -> Vec<(usize, usize)> {
    let mut cells: Vec<(usize, usize)> = Vec::new();
    for y in 0..g.len() {
        for x in 0..g[y].len() {
            if g[y][x] {
                cells.push((x, y));
            }
        }
    }
    cells
}

fn sorted(mut cells: Vec<(usize, usize)>) -> Vec<(usize, usize)> {
    cells.sort();
    cells
}

#[test]
fn seed_marks_translated_offsets() {
    let mut g = dead_grid(10, 10);
    set_pattern(&mut g, &patterns::block(), 3, 4);
    assert_eq!(sorted(live_cells(&g)), vec![(3, 4), (3, 5), (4, 4), (4, 5)]);
}

#[test]
fn seed_out_of_bounds_is_clipped() {
    // a block at (9, 9) of a 10x10 grid only has its corner inside
    let mut g = dead_grid(10, 10);
    set_pattern(&mut g, &patterns::block(), 9, 9);
    assert_eq!(sorted(live_cells(&g)), vec![(9, 9)]);
}

#[test]
fn seed_out_of_bounds_leaves_other_cells_alone() {
    let mut g = dead_grid(10, 10);
    g[0][0] = true;
    g[5][5] = true;
    set_pattern(&mut g, &patterns::glider(), 8, 8);
    // the glider's offsets land on (9,8), (10,9), (8,10), (9,10), (10,10);
    // only (9, 8) is in bounds, and (0,0) and (5,5) stay untouched
    assert_eq!(sorted(live_cells(&g)), vec![(0, 0), (5, 5), (9, 8)]);
}

#[test]
fn seed_far_out_of_bounds_writes_nothing() {
    let mut g = dead_grid(6, 6);
    set_pattern(&mut g, &patterns::tub(), usize::MAX, 2);
    set_pattern(&mut g, &patterns::tub(), 2, usize::MAX);
    assert_eq!(live_cells(&g).len(), 0);
    assert_eq!(g.len(), 6);
    for row in &g {
        assert_eq!(row.len(), 6);
    }
}

#[test]
fn seeding_twice_ors_cells() {
    let mut g = dead_grid(10, 10);
    set_pattern(&mut g, &patterns::block(), 2, 2);
    set_pattern(&mut g, &patterns::block(), 3, 3);
    assert_eq!(
        sorted(live_cells(&g)),
        vec![(2, 2), (2, 3), (3, 2), (3, 3), (3, 4), (4, 3), (4, 4)]
    );
}

#[test]
fn pattern_offsets() {
    assert_eq!(patterns::glider(), vec![(1, 0), (2, 1), (0, 2), (1, 2), (2, 2)]);
    assert_eq!(patterns::toad(), vec![(1, 0), (2, 0), (3, 0), (0, 1), (1, 1), (2, 1)]);
    assert_eq!(patterns::block(), vec![(0, 0), (1, 0), (0, 1), (1, 1)]);
    assert_eq!(patterns::tub(), vec![(1, 0), (0, 1), (2, 1), (1, 2)]);
    assert_eq!(patterns::boat(), vec![(0, 0), (1, 0), (0, 1), (2, 1), (1, 2)]);
    assert_eq!(
        patterns::loaf(),
        vec![(1, 0), (2, 0), (0, 1), (3, 1), (1, 2), (3, 2), (2, 3)]
    );
    assert_eq!(
        patterns::bee_hive(),
        vec![(1, 0), (2, 0), (0, 1), (3, 1), (1, 2), (2, 2)]
    );
    assert_eq!(patterns::middle_weight_spaceship().len(), 11);
    assert_eq!(patterns::pulsar().len(), 48);
}

#[test]
fn block_is_a_still_life() {
    let mut g = dead_grid(6, 6);
    set_pattern(&mut g, &patterns::block(), 2, 2);
    let before = g.clone();
    let mut fb = Framebuffer::new(6, 6);
    let after = render(&mut fb, &g);
    assert_eq!(after, before);
}

#[test]
fn toad_oscillates_with_period_two() {
    let mut g = dead_grid(8, 8);
    set_pattern(&mut g, &patterns::toad(), 2, 3);
    let start = g.clone();
    let mut fb = Framebuffer::new(8, 8);
    let one = render(&mut fb, &g);
    assert_ne!(one, start);
    let two = render(&mut fb, &one);
    assert_eq!(two, start);
}

#[test]
fn glider_steps_and_translates() {
    // a glider seeded at (1, 1) on a 10x10 all-dead grid
    let mut g = dead_grid(10, 10);
    set_pattern(&mut g, &patterns::glider(), 1, 1);
    assert_eq!(
        sorted(live_cells(&g)),
        vec![(1, 3), (2, 1), (2, 3), (3, 2), (3, 3)]
    );
    let mut fb = Framebuffer::new(10, 10);

    // one step: the known second glider phase
    let g1 = render(&mut fb, &g);
    assert_eq!(
        sorted(live_cells(&g1)),
        vec![(1, 2), (2, 3), (2, 4), (3, 2), (3, 3)]
    );

    // after 4 steps the glider has the same shape, translated by (1, 1)
    let mut cur = g;
    for _ in 0..4 {
        cur = render(&mut fb, &cur);
    }
    assert_eq!(
        sorted(live_cells(&cur)),
        vec![(2, 4), (3, 2), (3, 4), (4, 3), (4, 4)]
    );
}

use game_of_life::framebuffer::Framebuffer;
use game_of_life::life::get_live_neighbors;
use game_of_life::life::render;
use game_of_life::life::DEAD_COLOR;
use game_of_life::life::LIVE_COLOR;

fn dead_grid(width: usize, height: usize) -> Vec<Vec<bool>> {
    let mut g: Vec<Vec<bool>> = Vec::new();
    for _ in 0..height {
        let mut row: Vec<bool> = Vec::new();
        for _ in 0..width {
            row.push(false);
        }
        g.push(row);
    }
    g
}

fn live_cells(g: &Vec<Vec<bool>>) -> Vec<(usize, usize)> {
    let mut cells: Vec<(usize, usize)> = Vec::new();
    for y in 0..g.len() {
        for x in 0..g[y].len() {
            if g[y][x] {
                cells.push((x, y));
            }
        }
    }
    cells
}

#[test]
fn birth_with_three_neighbors() {
    // a dead cell at (1, 1) with exactly 3 live neighbors becomes live
    let mut g = dead_grid(4, 4);
    g[0][0] = true;
    g[0][1] = true;
    g[0][2] = true;
    let mut fb = Framebuffer::new(4, 4);
    let next = render(&mut fb, &g);
    assert!(next[1][1]);
}

#[test]
fn survival_with_three_neighbors() {
    // a live cell with exactly 3 live neighbors stays live
    let mut g = dead_grid(4, 4);
    g[0][0] = true;
    g[0][1] = true;
    g[0][2] = true;
    g[1][1] = true;
    let mut fb = Framebuffer::new(4, 4);
    let next = render(&mut fb, &g);
    assert!(next[1][1]);
}

#[test]
fn lone_cell_dies() {
    let mut g = dead_grid(5, 5);
    g[2][2] = true;
    let mut fb = Framebuffer::new(5, 5);
    let next = render(&mut fb, &g);
    assert_eq!(live_cells(&next).len(), 0);
}

#[test]
fn pair_dies() {
    // two adjacent live cells have 1 neighbor each: both die
    let mut g = dead_grid(5, 5);
    g[2][2] = true;
    g[2][3] = true;
    let mut fb = Framebuffer::new(5, 5);
    let next = render(&mut fb, &g);
    assert_eq!(live_cells(&next).len(), 0);
}

#[test]
fn overpopulated_cell_dies() {
    // a live cell surrounded by 4 live neighbors dies
    let mut g = dead_grid(5, 5);
    g[1][2] = true;
    g[2][1] = true;
    g[2][2] = true;
    g[2][3] = true;
    g[3][2] = true;
    let mut fb = Framebuffer::new(5, 5);
    let next = render(&mut fb, &g);
    assert!(!next[2][2]);
}

#[test]
fn lonely_corner_cell_dies() {
    // the top-left corner only has 3 in-bounds neighbors; with all of
    // them dead a live corner cell dies, whatever the grid size
    for size in 2..6 {
        let mut g = dead_grid(size, size);
        g[0][0] = true;
        let mut fb = Framebuffer::new(size, size);
        let next = render(&mut fb, &g);
        assert!(!next[0][0]);
    }
}

#[test]
fn corner_neighbors_not_counted_outside() {
    // a corner cell with 2 live in-bounds neighbors survives: nothing
    // beyond the boundary is counted, in either direction
    let mut g = dead_grid(3, 3);
    g[0][0] = true;
    g[0][1] = true;
    g[1][0] = true;
    let mut fb = Framebuffer::new(3, 3);
    let next = render(&mut fb, &g);
    assert!(next[0][0]);
}

#[test]
fn neighbor_count_at_edges() {
    // all cells live in a 3x3 grid: the center sees 8, edges 5, corners 3
    let mut g = dead_grid(3, 3);
    for y in 0..3 {
        for x in 0..3 {
            g[y][x] = true;
        }
    }
    assert_eq!(get_live_neighbors(&g, 1, 1), 8);
    assert_eq!(get_live_neighbors(&g, 1, 0), 5);
    assert_eq!(get_live_neighbors(&g, 0, 1), 5);
    assert_eq!(get_live_neighbors(&g, 0, 0), 3);
    assert_eq!(get_live_neighbors(&g, 2, 2), 3);
}

#[test]
fn render_paints_every_cell() {
    // the framebuffer ends up with LIVE_COLOR exactly where the next
    // generation is live and DEAD_COLOR everywhere else
    let mut g = dead_grid(4, 3);
    g[0][0] = true;
    g[0][1] = true;
    g[1][0] = true;
    g[1][1] = true;
    let mut fb = Framebuffer::new(4, 3);
    let next = render(&mut fb, &g);
    for y in 0..3 {
        for x in 0..4 {
            let expected = if next[y][x] { LIVE_COLOR } else { DEAD_COLOR };
            assert_eq!(fb.pixels[y * 4 + x], expected);
        }
    }
    // the block stays, so some pixels really are the live color
    assert_eq!(fb.pixels[0], LIVE_COLOR);
    assert_eq!(fb.pixels[3], DEAD_COLOR);
}

#[test]
fn render_keeps_dimensions() {
    let g = dead_grid(7, 5);
    let mut fb = Framebuffer::new(7, 5);
    let next = render(&mut fb, &g);
    assert_eq!(next.len(), 5);
    for row in &next {
        assert_eq!(row.len(), 7);
    }
    assert_eq!(fb.width, 7);
    assert_eq!(fb.height, 5);
    assert_eq!(fb.pixels.len(), 35);
}

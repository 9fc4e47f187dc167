use castle_game::fixed::{fx_add, fx_div, fx_mul, fx_sub, FX_ONE, FX_LIMIT};
use castle_game::geom::{BoundingBox, Point};
use castle_game::terrain::{MaskBuffer, Terrain, TerrainMask, EMPTY_COLOR};

const SOLID: u32 = 0xFF112233;

fn terrain_with_row(w: usize, h: usize, row: usize) -> Terrain {
    let mut t = Terrain::new((w, h));
    let mut x = 0;
    while x < w {
        t.draw_pixel((x, row), SOLID);
        x += 1;
    }
    t
}

#[test]
fn fixed_point_operations_are_exact() {
    assert_eq!(fx_add(1500, 2500), 4000);
    assert_eq!(fx_sub(1500, 2500), -1000);
    assert_eq!(fx_mul(2000, 3000), 6000);
    assert_eq!(fx_div(1000, 3000), 333);
    assert_eq!(fx_mul(-2000, 3000), -6000);
    assert_eq!(fx_add(FX_LIMIT, FX_LIMIT), FX_LIMIT);
    assert_eq!(fx_sub(-FX_LIMIT, FX_LIMIT), -FX_LIMIT);
}

#[test]
fn point_cells_truncate_toward_zero() {
    assert_eq!(Point::new(1500, -1500).as_i32(), (1, -1));
    assert_eq!(Point::new(999, -999).as_i32(), (0, 0));
    assert_eq!(Point::new(2000, 3000).as_usize(), (2, 3));
}

#[test]
fn bounding_box_normalizes_and_halves() {
    let b = BoundingBox::new(Point::new(4000, 5000), Point::new(0, 1000));
    assert_eq!(b.min, Point::new(0, 1000));
    assert_eq!(b.max, Point::new(4000, 5000));
    assert_eq!(b.width(), 4000);
    assert_eq!(b.height(), 4000);
    let half = b.to_half_width();
    assert_eq!(half.min.x, 1000);
    assert_eq!(half.max.x, 3000);
    assert_eq!(half.min.y, 1000);
    assert_eq!(half.max.y, 5000);
}

#[test]
fn boxes_touching_do_not_intersect() {
    let a = BoundingBox::new(Point::new(0, 0), Point::new(1000, 1000));
    let b = BoundingBox::new(Point::new(1000, 0), Point::new(2000, 1000));
    let c = BoundingBox::new(Point::new(500, 0), Point::new(1500, 1000));
    assert!(!a.intersects(&b));
    assert!(a.intersects(&c));
}

#[test]
fn new_terrain_is_fully_passable() {
    let t = Terrain::new((64, 32));
    assert_eq!(t.size(), (64, 32));
    // Line queries across an empty terrain find nothing, wherever they run.
    assert_eq!(t.line_collides((0, 0), (63, 31)), None);
    assert_eq!(t.line_collides((63, 0), (0, 31)), None);
    assert_eq!(t.line_collides((5, 5), (5, 5)), None);
}

#[test]
fn line_collides_reports_first_solid_cell() {
    let mut t = Terrain::new((20, 20));
    t.draw_pixel((5, 7), SOLID);
    t.draw_pixel((9, 7), SOLID);
    // Walking left to right along row 7 stops at column 5 first.
    assert_eq!(t.line_collides((0, 7), (19, 7)), Some((5, 7)));
    // Walking right to left stops at column 9 first.
    assert_eq!(t.line_collides((19, 7), (0, 7)), Some((9, 7)));
    // A different row passes through.
    assert_eq!(t.line_collides((0, 8), (19, 8)), None);
}

#[test]
fn line_collides_skips_out_of_bounds_cells() {
    let mut t = Terrain::new((10, 10));
    t.draw_pixel((0, 3), SOLID);
    // The walk starts outside the raster; those cells are passable.
    assert_eq!(t.line_collides((-5, 3), (9, 3)), Some((0, 3)));
}

#[test]
fn rect_collides_top_edge_convention() {
    // Solid material exactly in the box's top cell row.
    let mut t = Terrain::new((30, 30));
    t.draw_pixel((10, 5), SOLID);
    let hit_box = BoundingBox::new(Point::new(10000, 5000), Point::new(12000, 8000));
    let hit = t.rect_collides(hit_box).expect("top row holds material");
    assert_eq!(hit, (10, 5));
    assert_eq!(hit.1, 5); // equals the box's top cell row: head-blocked

    // Solid material only below the top row reports a non-top hit.
    let mut t2 = Terrain::new((30, 30));
    t2.draw_pixel((11, 8), SOLID);
    let hit2 = t2.rect_collides(hit_box).expect("bottom row holds material");
    assert_eq!(hit2, (11, 8));
    assert!(hit2.1 > 5);

    // No material at all: no hit.
    let t3 = Terrain::new((30, 30));
    assert_eq!(t3.rect_collides(hit_box), None);
}

#[test]
fn draw_pixel_marks_one_cell() {
    let mut t = Terrain::new((8, 8));
    t.draw_pixel((3, 4), SOLID);
    assert_eq!(t.buffer[4 * 8 + 3], SOLID);
    assert_eq!(t.buffer[4 * 8 + 2], EMPTY_COLOR);
}

#[test]
fn apply_mask_writes_cells_verbatim_including_sentinel() {
    let mut t = terrain_with_row(16, 16, 6);
    // A three-cell-wide mask: erase, keep-solid, erase.
    let mask = MaskBuffer {
        cells: vec![EMPTY_COLOR, SOLID, EMPTY_COLOR],
        width: 3,
        height: 1,
    };
    t.apply_mask(&mask, (8, 6));
    // Centered on (8, 6): the mask covers columns 7..=9 of row 6.
    assert_eq!(t.buffer[6 * 16 + 7], EMPTY_COLOR);
    assert_eq!(t.buffer[6 * 16 + 8], SOLID);
    assert_eq!(t.buffer[6 * 16 + 9], EMPTY_COLOR);
    // Outside the stamp the row is untouched.
    assert_eq!(t.buffer[6 * 16 + 6], SOLID);
    assert_eq!(t.buffer[6 * 16 + 10], SOLID);
    // The crater opened a passable gap.
    assert_eq!(t.line_collides((7, 6), (7, 6)), None);
}

#[test]
fn apply_mask_skips_cells_outside_the_raster() {
    let mut t = terrain_with_row(8, 8, 0);
    let mask = MaskBuffer { cells: vec![EMPTY_COLOR; 9], width: 3, height: 3 };
    // Centered on a corner: most of the stamp falls outside.
    t.apply_mask(&mask, (0, 0));
    assert_eq!(t.buffer[0], EMPTY_COLOR);
    assert_eq!(t.buffer[1], EMPTY_COLOR);
    assert_eq!(t.buffer[2], SOLID);
}

#[test]
fn terrain_mask_keeps_its_fields() {
    let m = TerrainMask::new(3, (12, 34));
    assert_eq!(m.id, 3);
    assert_eq!(m.pos, (12, 34));
}

#[test]
fn box_cell_summary_matches_corner_and_extent() {
    let b = BoundingBox::new(Point::new(1500, 2500), Point::new(4500, 7500));
    assert_eq!(b.to_i32(), (1, 2, 3, 5));
}

#[test]
fn translated_box_shifts_both_corners() {
    let b = BoundingBox::new(Point::new(0, 0), Point::new(2000, 1000));
    let world = b.translated(Point::new(500, -500));
    assert_eq!(world.min, Point::new(500, -500));
    assert_eq!(world.max, Point::new(2500, 500));
}

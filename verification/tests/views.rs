use goliard::glyph::glyph_for;
use goliard::render::render_from_bits;
use goliard::views::{
    CenterView, DelayView, GenerationView, IsRunningView, PopulationView, ScaleView, StepView,
};

#[test]
fn is_running_view() {
    let running = IsRunningView::new(true);
    let stopped = IsRunningView::new(false);

    assert_eq!(running.format(), "running".to_owned());
    assert_eq!(stopped.format(), "stopped".to_owned());

    assert_eq!(running.required_size(), ("running".len(), 1));
    assert_eq!(stopped.required_size(), ("running".len(), 1));
}

#[test]
fn life_view() {
    // An empty grid answers every sub-cell query dead.
    let empty_bits = vec![false; 8];
    let empty = render_from_bits(1, 1, &empty_bits);
    assert_eq!(empty.len(), 1);
    assert_eq!(empty[0].len(), 1);

    // A grid with the whole 2x4 block at the origin alive answers every
    // sub-cell query alive.
    let full_bits = vec![true; 8];
    let full = render_from_bits(1, 1, &full_bits);
    assert_eq!(full.len(), 1);
    assert_eq!(full[0].len(), 1);
}

#[test]
fn generation_view_formats() {
    let v = GenerationView::new(42);
    assert_eq!(v.format(), "gen: 42");
    assert_eq!(v.required_size(), ("gen: 42".len(), 1));
}

#[test]
fn population_view_formats() {
    let v = PopulationView::new(0);
    assert_eq!(v.format(), "pop: 0");
    assert_eq!(v.required_size(), ("pop: 0".len(), 1));
}

#[test]
fn step_view_formats() {
    let v = StepView::new(1);
    assert_eq!(v.format(), "step: 1");
    assert_eq!(v.required_size(), ("step: 1".len(), 1));
}

#[test]
fn delay_view_formats() {
    let v = DelayView::new(32);
    assert_eq!(v.format(), "delay: 32 ms");
    assert_eq!(v.required_size(), ("delay: 32 ms".len(), 1));
}

#[test]
fn center_view_formats() {
    let v = CenterView::new((-3, 4));
    assert_eq!(v.format(), "center: (-3, 4)");
    assert_eq!(v.required_size(), ("center: (-3, 4)".len(), 1));

    let origin = CenterView::new((0, 0));
    assert_eq!(origin.format(), "center: (0, 0)");
}

#[test]
fn scale_view_formats() {
    let v = ScaleView::new(2);
    assert_eq!(v.format(), "scale: 2:1");
    assert_eq!(v.required_size(), ("scale: 2:1".len(), 1));
}

#[test]
fn glyph_matches_table() {
    // The all-dead tuple picks the blank braille cell, first in the table.
    let dead = glyph_for(&[false; 8]);
    assert_eq!(dead, '\u{2800}');
    assert_eq!(dead, braille::BRAILLE[0][0][0][0][0][0][0][0]);

    // The all-alive tuple picks the full cell, last in the table.
    let full = glyph_for(&[true; 8]);
    assert_eq!(full, braille::BRAILLE[1][1][1][1][1][1][1][1]);
    assert_ne!(full, dead);
}

#[test]
fn glyph_is_pure() {
    // The same 8-tuple always picks the same character.
    let bits = [true, false, true, false, false, true, false, true];
    assert_eq!(glyph_for(&bits), glyph_for(&bits));
    assert_eq!(
        glyph_for(&bits),
        braille::BRAILLE[1][0][1][0][0][1][0][1]
    );
}

#[test]
fn two_live_cells_render_top_row() {
    // Live cells at world (0, 0) and (1, 0), scale 1, center (0, 0), in a
    // one-cell viewport: the first two sub-cells are alive, the rest dead.
    let bits = vec![true, true, false, false, false, false, false, false];
    let rows = render_from_bits(1, 1, &bits);
    assert_eq!(rows[0][0], braille::BRAILLE[1][1][0][0][0][0][0][0]);
}

#[test]
fn empty_grid_renders_all_dead() {
    let bits = vec![false; 3 * 2 * 8];
    let rows = render_from_bits(3, 2, &bits);
    assert_eq!(rows.len(), 2);
    for row in &rows {
        assert_eq!(row.len(), 3);
        for &c in row {
            assert_eq!(c, '\u{2800}');
        }
    }
}

#[test]
fn render_keeps_cell_order() {
    // Cell (0, 0) fully alive, cell (1, 0) dead: each keeps its own glyph.
    let mut bits = vec![true; 8];
    bits.extend(vec![false; 8]);
    let rows = render_from_bits(2, 1, &bits);
    assert_eq!(rows[0][0], braille::BRAILLE[1][1][1][1][1][1][1][1]);
    assert_eq!(rows[0][1], '\u{2800}');
}

#[test]
fn degenerate_viewport_renders_nothing() {
    let bits: Vec<bool> = vec![];
    let rows = render_from_bits(0, 5, &bits);
    assert_eq!(rows.len(), 5);
    for row in &rows {
        assert_eq!(row.len(), 0);
    }
    let no_rows = render_from_bits(5, 0, &bits);
    assert_eq!(no_rows.len(), 0);
}

use goliard::decimal::{dec_len, dec_len_signed, dec_len_u128, i64_to_dec, u128_to_dec, u64_to_dec};
use goliard::quantize::subcell_regions;
use goliard::state::{BoundingBox, State};
use goliard::stepper::wake_cycle;

#[test]
fn decimal_renders_exactly() {
    assert_eq!(u64_to_dec(0), "0");
    assert_eq!(u64_to_dec(7), "7");
    assert_eq!(u64_to_dec(32), "32");
    assert_eq!(u64_to_dec(1000), "1000");
    assert_eq!(u64_to_dec(u64::MAX), "18446744073709551615");
    assert_eq!(i64_to_dec(-5), "-5");
    assert_eq!(i64_to_dec(0), "0");
    assert_eq!(i64_to_dec(i64::MIN), "-9223372036854775808");
    assert_eq!(u128_to_dec(0), "0");
    assert_eq!(u128_to_dec(u128::MAX), "340282366920938463463374607431768211455");
    assert_eq!(dec_len_u128(u128::MAX), 39);
    assert_eq!(dec_len(0), 1);
    assert_eq!(dec_len(12345), 5);
    assert_eq!(dec_len_signed(-12345), 6);
}

#[test]
fn empty_grid_defaults() {
    let s = State::new_centered(None, 80, 24);
    assert!(!s.is_running);
    assert_eq!(s.scale, 1);
    assert_eq!(s.center, (0, 0));
    assert_eq!(s.delay_millis, 32);
}

#[test]
fn autofit_exact_span_is_scale_one() {
    // A box spanning exactly 2*width by 4*height world cells fits at 1:1.
    let b = BoundingBox { x_min: 0, y_min: 0, x_max: 2 * 10 - 1, y_max: 4 * 5 - 1 };
    let s = State::new_centered(Some(b), 10, 5);
    assert_eq!(s.scale, 1);
}

#[test]
fn autofit_doubling_extent_doubles_scale() {
    // Doubling the box width, holding the output fixed, doubles the zoom.
    let wide = BoundingBox { x_min: 0, y_min: 0, x_max: 4 * 10 - 1, y_max: 4 * 5 - 1 };
    let s = State::new_centered(Some(wide), 10, 5);
    assert_eq!(s.scale, 2);

    // So does doubling the box height.
    let tall = BoundingBox { x_min: 0, y_min: 0, x_max: 2 * 10 - 1, y_max: 8 * 5 - 1 };
    let t = State::new_centered(Some(tall), 10, 5);
    assert_eq!(t.scale, 2);
}

#[test]
fn autofit_rounds_up_to_power_of_two() {
    // A 6-by-6 box on a single cell needs scale 3 to fit; the next power
    // of two is 4.
    let b = BoundingBox { x_min: 0, y_min: 0, x_max: 5, y_max: 5 };
    let s = State::new_centered(Some(b), 1, 1);
    assert_eq!(s.scale, 4);
    assert!(s.scale.is_power_of_two());
}

#[test]
fn autofit_centers_on_midpoint() {
    let b = BoundingBox { x_min: 2, y_min: -6, x_max: 6, y_max: -2 };
    let s = State::new_centered(Some(b), 80, 24);
    assert_eq!(s.center, (4, -4));

    // The midpoint rounds toward zero, as the machine's division does.
    let odd = BoundingBox { x_min: -3, y_min: -3, x_max: 0, y_max: 2 };
    let t = State::new_centered(Some(odd), 80, 24);
    assert_eq!(t.center, (-1, 0));
}

#[test]
fn stepper_steps_only_when_running() {
    // A cycle decided while paused leaves the generation alone.
    let idle = wake_cycle(false, 5);
    assert!(!idle.step);
    assert_eq!(idle.generation, 5);

    // Once the flag is set, the next wake advances by exactly one.
    let stepping = wake_cycle(true, 5);
    assert!(stepping.step);
    assert_eq!(stepping.generation, 6);

    // Clearing it again stops any further advancement.
    let paused = wake_cycle(false, 6);
    assert!(!paused.step);
    assert_eq!(paused.generation, 6);
}

#[test]
fn subcells_tile_the_origin_cell() {
    // One screen cell at scale 1 centered on the origin: eight single-cell
    // windows, two across, four down.
    let regions = subcell_regions(0, 0, 1, 1, 1, (0, 0));
    assert_eq!(regions.len(), 8);
    let expected = [
        (0, 0),
        (1, 0),
        (0, 1),
        (1, 1),
        (0, 2),
        (1, 2),
        (0, 3),
        (1, 3),
    ];
    for (i, &(x, y)) in expected.iter().enumerate() {
        assert_eq!(regions[i].x_min, x);
        assert_eq!(regions[i].x_max, x);
        assert_eq!(regions[i].y_min, y);
        assert_eq!(regions[i].y_max, y);
    }
}

#[test]
fn subcells_scale_and_pan() {
    // At scale 2 each window is a 2-by-2 block and the whole cell block is
    // anchored relative to the viewport middle and the pan center.
    let regions = subcell_regions(0, 0, 3, 3, 2, (10, -10));
    // x offset: 2 * (0 - 1) * 2 + 10 = 6; y offset: 4 * (0 - 1) * 2 - 10 = -18.
    assert_eq!(regions[0].x_min, 6);
    assert_eq!(regions[0].x_max, 7);
    assert_eq!(regions[0].y_min, -18);
    assert_eq!(regions[0].y_max, -17);
    assert_eq!(regions[7].x_min, 8);
    assert_eq!(regions[7].x_max, 9);
    assert_eq!(regions[7].y_min, -12);
    assert_eq!(regions[7].y_max, -11);
}

#[test]
fn subcells_saturate_at_world_edge() {
    // Panned to the far corner of the world, windows clamp to the signed
    // 64-bit range instead of wrapping.
    let regions = subcell_regions(1, 0, 2, 1, 1, (i64::MAX, i64::MAX));
    for r in &regions {
        assert!(r.x_min <= r.x_max);
        assert_eq!(r.x_max, i64::MAX);
    }
}

#[test]
fn zoom_commands_keep_power_of_two() {
    assert_eq!(State::zoom_out_scale(1), 2);
    assert_eq!(State::zoom_out_scale(4), 8);
    assert_eq!(State::zoom_in_scale(8), 4);
    // Zooming in stops at 1:1; zooming out stops inside the 64-bit range.
    assert_eq!(State::zoom_in_scale(1), 1);
    assert_eq!(State::zoom_out_scale(1 << 62), 1 << 62);
    assert!(State::zoom_out_scale(1 << 40).is_power_of_two());
}

#[test]
fn pan_moves_by_scale_multiples_and_saturates() {
    assert_eq!(State::pan_center((0, 0), 2, 0, 4), (8, 0));
    assert_eq!(State::pan_center((10, -10), 0, -4, 2), (10, -18));
    // At the world edge the center saturates instead of wrapping.
    assert_eq!(State::pan_center((i64::MAX, 0), 2, 0, 1), (i64::MAX, 0));
    assert_eq!(State::pan_center((i64::MIN, 0), -2, 0, 1), (i64::MIN, 0));
}

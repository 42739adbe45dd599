//! Frames, glyph packing and synthesized styles.
use terminal::atlas::{apply_faux_bold, apply_faux_italic};
use terminal::render::needs_full_redraw;

#[test]
fn faux_bold_smears_pixels_rightward() {
    // 3x2 bitmap with a single lit pixel on the left edge of each row.
    let mut bitmap = vec![200, 0, 0, 150, 0, 0];
    apply_faux_bold(&mut bitmap, 3, 2);
    assert_eq!(bitmap, vec![200, 200, 0, 150, 150, 0]);
}

#[test]
fn faux_italic_shears_top_rows_right() {
    // A single lit pixel in the left column of a tall bitmap: after
    // shearing, the top pixel shifts right while the bottom stays put.
    let mut bitmap = vec![200, 0, 0, 150, 0, 0];
    apply_faux_italic(&mut bitmap, 3, 2);
    // Top row (row 0) shifts right by `skew`; bottom row stays.
    assert_eq!(bitmap[0], 0, "top pixel moved");
    assert_eq!(bitmap[1], 200, "top pixel sheared right");
    assert_eq!(bitmap[3], 150, "bottom pixel unmoved");
}




#[test]
fn damage_path_requires_full_redraw_for_initial_frame_and_dynamic_overlays() {
    assert!(needs_full_redraw(
        false, false, false, false, false, false, 0, 100
    ));
    assert!(needs_full_redraw(
        true, false, true, false, false, false, 1, 100
    ));
    assert!(needs_full_redraw(
        true, false, false, true, false, false, 1, 100
    ));
    assert!(needs_full_redraw(
        true, false, false, false, true, false, 1, 100
    ));
}

#[test]
fn damage_path_allows_small_terminal_only_updates() {
    assert!(!needs_full_redraw(
        true, false, false, false, false, false, 1, 100
    ));
    assert!(needs_full_redraw(
        true, false, false, false, false, false, 51, 100
    ));
    assert!(needs_full_redraw(
        true, false, false, false, false, true, 1, 100
    ));
}

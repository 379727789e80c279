use layerpen::docking::placement_fits;
use layerpen::docking::{position, toolbar_panel_size, toolbar_size, Rect};

#[test]
fn dock_avoids_edges_and_negative_origins() {
    let a = Rect { x: -1920, y: 0, w: 1920, h: 1040 };
    assert_eq!(position(Rect { x: -130, y: 50, w: 112, h: 620 }, a, 520, 660, 8), (-658, 50));
    assert_eq!(position(Rect { x: -1800, y: 880, w: 640, h: 122 }, a, 520, 660, 8), (-1800, 212));
    let (x, y) = position(Rect { x: 500, y: 500, w: 112, h: 620 }, Rect { x: 0, y: 0, w: 640, h: 480 }, 620, 460, 8);
    assert_eq!((x, y), (20, 20));
}

#[test]
fn two_orientations_keep_a_single_strip_and_expand_only_across_it() {
    assert_eq!(toolbar_size(false, 14), (742, 64));
    assert_eq!(toolbar_size(true, 14), (64, 742));
    assert_eq!(toolbar_panel_size(false, true, 14), (742, 344));
    assert_eq!(toolbar_panel_size(true, true, 14), (344, 742));
    for vertical in [false, true] {
        assert_eq!(toolbar_panel_size(vertical, false, 14), toolbar_size(vertical, 14));
    }
}

#[test]
fn minimal_toolbar_retains_fixed_controls_and_panel_space() {
    assert_eq!(toolbar_size(false, 0), (210, 64));
    assert_eq!(toolbar_size(true, 0), (64, 210));
    assert_eq!(toolbar_panel_size(false, true, 0), (280, 344));
    assert_eq!(toolbar_panel_size(true, true, 0), (344, 210));
    assert_eq!(toolbar_size(false, 18), (894, 64));
    assert_eq!(toolbar_size(false, usize::MAX), (894, 64));
}

#[test]
fn panel_goes_below_a_horizontal_toolbar_when_it_fits() {
    let area = Rect { x: 0, y: 0, w: 1920, h: 1080 };
    assert_eq!(position(Rect { x: 100, y: 24, w: 742, h: 64 }, area, 520, 700, 8), (100, 96));
}

#[test]
fn panel_larger_than_the_area_is_pinned_to_its_origin() {
    let area = Rect { x: 10, y: 20, w: 300, h: 200 };
    assert_eq!(position(Rect { x: 50, y: 50, w: 64, h: 400 }, area, 520, 700, 8), (10, 20));
}

#[test]
fn placements_that_would_overflow_are_detected() {
    let area = Rect { x: 0, y: 0, w: 1920, h: 1080 };
    assert!(placement_fits(Rect { x: 100, y: 24, w: 742, h: 64 }, area, 520, 700, 8));
    assert!(!placement_fits(Rect { x: i32::MAX - 10, y: 24, w: 742, h: 64 }, area, 520, 700, 8));
    assert!(!placement_fits(Rect { x: 0, y: i32::MIN + 5, w: 64, h: 742 }, area, 520, 700, 8));
}

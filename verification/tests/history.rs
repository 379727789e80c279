use layerpen::history::{History, Recorded};
use layerpen::model::{Point, Stroke};

fn bits(v: f64) -> u64 {
    v.to_bits()
}

fn x_of(s: &Stroke, i: usize) -> f64 {
    f64::from_bits(s.points[i].x)
}

fn y_of(s: &Stroke, i: usize) -> f64 {
    f64::from_bits(s.points[i].y)
}

fn stroke() -> Stroke {
    Stroke {
        tool: "pen".into(),
        color: "#ff0000".into(),
        width: bits(4.),
        opacity: bits(0.3),
        points: vec![Point { x: bits(0.5), y: bits(0.5) }],
        text: None,
        times: vec![],
    }
}

/// The stroke shifted by the drag and kept on the page, as the overlay's
/// geometry computes it; `None` for a drag that is not finite or moves
/// nothing.
fn dragged(before: &Stroke, dx: f64, dy: f64) -> Option<Stroke> {
    if !dx.is_finite() || !dy.is_finite() {
        return None;
    }
    let xs: Vec<f64> = (0..before.points.len()).map(|i| x_of(before, i)).collect();
    let ys: Vec<f64> = (0..before.points.len()).map(|i| y_of(before, i)).collect();
    let min_x = xs.iter().copied().fold(1., f64::min);
    let max_x = xs.iter().copied().fold(0., f64::max);
    let min_y = ys.iter().copied().fold(1., f64::min);
    let max_y = ys.iter().copied().fold(0., f64::max);
    let dx = dx.clamp(-min_x, 1. - max_x);
    let dy = dy.clamp(-min_y, 1. - max_y);
    if dx.abs() + dy.abs() < 1e-9 {
        return None;
    }
    let mut after = before.clone();
    for (i, p) in after.points.iter_mut().enumerate() {
        p.x = bits(xs[i] + dx);
        p.y = bits(ys[i] + dy);
    }
    Some(after)
}

fn move_by(h: &mut History, index: usize, dx: f64, dy: f64, duration: u64) -> bool {
    let points = h.strokes.get(index).and_then(|s| dragged(s, dx, dy)).map(|a| a.points);
    h.move_stroke(index, points, duration)
}

#[test]
fn fade_records_without_changing_persistent_history() {
    let mut h = History::default();
    let mut st = stroke();
    st.tool = "fade".into();
    assert!(st.valid_shape());
    h.record_fade(st, 1000);
    assert!(h.strokes.is_empty());
    assert!(h.undo.is_empty());
    assert_eq!(h.recording.len(), 1);
    h.clear();
    assert!(h.recording.is_empty());
}

#[test]
fn recording_resets_and_move_undo_redo_restore_positions() {
    let mut h = History::default();
    let mut st = stroke();
    st.times = vec![1000];
    h.push(st);
    assert_eq!(h.recording.len(), 1);
    assert!(move_by(&mut h, 0, 0.2, -0.2, 500));
    assert!((x_of(&h.strokes[0], 0) - 0.7).abs() < 1e-8);
    h.undo();
    assert_eq!(x_of(&h.strokes[0], 0), 0.5);
    h.redo();
    assert!((x_of(&h.strokes[0], 0) - 0.7).abs() < 1e-8);
    assert_eq!(h.recording.len(), 4);
    h.clear();
    assert!(h.recording.is_empty());
    assert!(h.started.is_none());
    assert!(h.undo.is_empty());
    assert!(h.redo.is_empty());
    h.push(stroke());
    match &h.recording[0] {
        Recorded::Draw { at, .. } => assert!(*at < 100),
        _ => panic!("expected new drawing"),
    };
}

#[test]
fn invalid_timing_and_moves_are_rejected() {
    let mut st = stroke();
    st.times = vec![0, 100];
    assert!(!st.valid_shape());
    st.times = vec![3_600_001];
    assert!(!st.valid_shape());
    let mut h = History::default();
    h.push(stroke());
    assert!(!move_by(&mut h, 0, f64::NAN, 0., 0));
    assert!(!move_by(&mut h, 4, 0.1, 0., 0));
    assert!(move_by(&mut h, 0, 99., -99., 0));
    assert_eq!(x_of(&h.strokes[0], 0), 1.);
    assert_eq!(y_of(&h.strokes[0], 0), 0.);
}

#[test]
fn undo_redo_branch_discards_future() {
    let mut h = History::default();
    h.push(stroke());
    h.push(stroke());
    h.undo();
    assert_eq!(h.strokes.len(), 1);
    h.redo();
    assert_eq!(h.strokes.len(), 2);
    h.undo();
    h.push(stroke());
    assert!(h.redo.is_empty());
}

#[test]
fn erase_gesture_restores_original_order_and_redoes() {
    let mut h = History::default();
    for (x, color) in [(0.3, "#ff0000"), (0.1, "#00ff00"), (0.7, "#0000ff")] {
        let mut s = stroke();
        s.points[0].x = bits(x);
        s.color = color.into();
        h.push(s);
    }
    // An eraser line from (0.3, 0.5) to (0.7, 0.5) crosses the first and the
    // last stroke.
    h.erase(&[true, false, true]);
    assert_eq!(h.strokes.len(), 1);
    assert_eq!(h.strokes[0].color, "#00ff00");
    h.undo();
    assert_eq!(
        h.strokes.iter().map(|s| s.color.as_str()).collect::<Vec<_>>(),
        vec!["#ff0000", "#00ff00", "#0000ff"]
    );
    h.redo();
    assert_eq!(h.strokes.len(), 1);
    h.undo();
    h.undo();
    assert_eq!(h.strokes.len(), 2);
}

#[test]
fn a_missed_erase_changes_nothing() {
    let mut h = History::default();
    h.push(stroke());
    h.undo();
    h.erase(&[]);
    assert_eq!(h.redo.len(), 1);
    assert_eq!(h.recording.len(), 2);
}

#[test]
fn undo_then_redo_restores_strokes_and_stacks() {
    let mut h = History::default();
    h.push(stroke());
    let mut second = stroke();
    second.color = "#00ff00".into();
    h.push(second);
    assert!(move_by(&mut h, 1, 0.1, 0.1, 10));
    let before: Vec<String> = h.strokes.iter().map(|s| format!("{s:?}")).collect();
    let undo_len = h.undo.len();
    h.undo();
    h.redo();
    assert_eq!(h.strokes.iter().map(|s| format!("{s:?}")).collect::<Vec<_>>(), before);
    assert_eq!(h.undo.len(), undo_len);
    assert!(h.redo.is_empty());
}

#[test]
fn gestures_longer_than_an_hour_or_bad_handles_are_refused() {
    let mut h = History::default();
    h.push(stroke());
    let after = dragged(&h.strokes[0], 0.1, 0.).unwrap();
    assert!(!h.move_stroke(0, Some(after.points.clone()), 3_600_001));
    assert!(!h.resize_stroke(0, "bad", Some((after.points.clone(), after.width)), 0));
    assert!(!h.resize_stroke(0, "se", None, 0));
    assert!(h.resize_stroke(0, "se", Some((after.points, after.width)), 3_600_000));
    assert_eq!(h.undo.len(), 2);
}

#[test]
fn undo_and_redo_on_empty_stacks_do_nothing() {
    let mut h = History::default();
    h.undo();
    h.redo();
    assert!(h.strokes.is_empty());
    assert!(h.recording.is_empty());
}

/// The points and width of the stroke scaled by dragging corner `handle` to
/// (`x`, `y`) on a `w` x `h` page, keeping the opposite corner, as the
/// overlay's geometry computes them; `None` when the point is not finite or
/// nothing changes.
fn resized(before: &Stroke, handle: &str, x: f64, y: f64, uniform: bool, w: f64, h: f64) -> Option<(Vec<Point>, u64)> {
    if !x.is_finite() || !y.is_finite() {
        return None;
    }
    let xs: Vec<f64> = (0..before.points.len()).map(|i| x_of(before, i)).collect();
    let ys: Vec<f64> = (0..before.points.len()).map(|i| y_of(before, i)).collect();
    let min_x = xs.iter().copied().fold(1., f64::min);
    let max_x = xs.iter().copied().fold(0., f64::max);
    let min_y = ys.iter().copied().fold(1., f64::min);
    let max_y = ys.iter().copied().fold(0., f64::max);
    let east = handle.ends_with('e');
    let south = handle.starts_with('s');
    let ax = if east { min_x } else { max_x };
    let ay = if south { min_y } else { max_y };
    let bw = (max_x - min_x).max(1. / w);
    let bh = (max_y - min_y).max(1. / h);
    let limit_x = (if east { 1. - ax } else { ax }) / bw;
    let limit_y = (if south { 1. - ay } else { ay }) / bh;
    let mut sx = ((x - ax) * if east { 1. } else { -1. } / bw).max(2. / w / bw).min(limit_x.max(0.));
    let mut sy = ((y - ay) * if south { 1. } else { -1. } / bh).max(2. / h / bh).min(limit_y.max(0.));
    if uniform {
        let scale = sx.max(sy).min(limit_x).min(limit_y).max(0.);
        sx = scale;
        sy = scale;
    }
    let points: Vec<Point> = (0..xs.len())
        .map(|i| Point {
            x: bits((ax + (xs[i] - ax) * sx).clamp(0., 1.)),
            y: bits((ay + (ys[i] - ay) * sy).clamp(0., 1.)),
        })
        .collect();
    let old_width = f64::from_bits(before.width);
    let width = (old_width * (sx * sy).sqrt()).clamp(0.25, 80.);
    // The numeric stroke rules; the library checks the rest.
    let in_range = |v: f64, lo: f64, hi: f64| v.is_finite() && (lo..=hi).contains(&v);
    let numbers_ok = in_range(width, 0.25, 80.)
        && points.iter().all(|p| in_range(f64::from_bits(p.x), 0., 1.) && in_range(f64::from_bits(p.y), 0., 1.));
    if !numbers_ok {
        return None;
    }
    let unchanged = (width - old_width).abs() < 1e-9
        && (0..xs.len()).all(|i| {
            (f64::from_bits(points[i].x) - xs[i]).abs() + (f64::from_bits(points[i].y) - ys[i]).abs() < 1e-9
        });
    if unchanged {
        None
    } else {
        Some((points, bits(width)))
    }
}

fn resize_by(h: &mut History, index: usize, handle: &str, x: f64, y: f64, uniform: bool, duration: u64) -> bool {
    let shape = h.strokes.get(index).and_then(|s| resized(s, handle, x, y, uniform, 1000., 1000.));
    h.resize_stroke(index, handle, shape, duration)
}

#[test]
fn resize_records_undo_and_preserves_opposite_corner() {
    let mut h = History::default();
    let mut st = stroke();
    st.tool = "rectangle".into();
    st.points = vec![Point { x: bits(0.2), y: bits(0.2) }, Point { x: bits(0.4), y: bits(0.4) }];
    h.push(st);
    assert!(resize_by(&mut h, 0, "se", 0.6, 0.8, false, 100));
    assert_eq!(x_of(&h.strokes[0], 0), 0.2);
    assert!((y_of(&h.strokes[0], 1) - 0.8).abs() < 1e-9);
    assert!(f64::from_bits(h.strokes[0].width) > 4.);
    h.undo();
    assert_eq!(x_of(&h.strokes[0], 1), 0.4);
    assert_eq!(f64::from_bits(h.strokes[0].width), 4.);
    h.redo();
    assert!(f64::from_bits(h.strokes[0].width) > 4.);
    assert!(!resize_by(&mut h, 0, "bad", 0.5, 0.5, false, 0));
    assert!(!resize_by(&mut h, 0, "se", f64::NAN, 0.5, false, 0));
    h.undo();
    assert!(resize_by(&mut h, 0, "se", 0.6, 0.8, true, 100));
    assert!((x_of(&h.strokes[0], 1) - y_of(&h.strokes[0], 1)).abs() < 1e-9);
}

#[test]
fn a_resize_keeps_the_stroke_and_records_a_move() {
    let mut h = History::default();
    let mut st = stroke();
    st.tool = "rectangle".into();
    st.color = "#00ff00".into();
    st.times = vec![5, 9];
    st.points = vec![Point { x: bits(0.2), y: bits(0.2) }, Point { x: bits(0.4), y: bits(0.4) }];
    h.push(st);
    let before = format!("{:?}", h.strokes[0]);
    let points = vec![Point { x: bits(0.2), y: bits(0.2) }, Point { x: bits(0.6), y: bits(0.8) }];
    assert!(h.resize_stroke(0, "se", Some((points, bits(6.))), 250));
    let s = &h.strokes[0];
    assert_eq!(s.tool, "rectangle");
    assert_eq!(s.color, "#00ff00");
    assert_eq!(s.times, vec![5, 9]);
    assert_eq!(s.opacity, bits(0.3));
    assert_eq!(s.width, bits(6.));
    assert_eq!(y_of(s, 1), 0.8);
    match h.recording.last() {
        Some(Recorded::Move { duration, index, before: b, after: a, .. }) => {
            assert_eq!(*duration, 250);
            assert_eq!(*index, 0);
            assert_eq!(format!("{b:?}"), before);
            assert_eq!(format!("{a:?}"), format!("{:?}", h.strokes[0]));
        },
        other => panic!("expected a move record, got {other:?}"),
    }
}

#[test]
fn a_move_keeps_the_width_and_records_a_move() {
    let mut h = History::default();
    h.push(stroke());
    assert!(move_by(&mut h, 0, 0.1, 0.0, 40));
    assert_eq!(h.strokes[0].width, bits(4.));
    assert!((x_of(&h.strokes[0], 0) - 0.6).abs() < 1e-9);
    assert!(matches!(h.recording.last(), Some(Recorded::Move { duration: 40, index: 0, .. })));
    assert_eq!(h.recording.len(), 2);
}

#[test]
fn a_resize_that_changes_the_point_count_is_refused() {
    let mut h = History::default();
    h.push(stroke());
    let points = vec![Point { x: bits(0.2), y: bits(0.2) }, Point { x: bits(0.6), y: bits(0.8) }];
    assert!(!h.resize_stroke(0, "se", Some((points.clone(), bits(6.))), 10));
    assert!(!h.resize_stroke(0, "se", Some((vec![], bits(6.))), 10));
    assert!(!h.move_stroke(0, Some(points), 10));
    assert_eq!(h.undo.len(), 1);
    assert_eq!(h.recording.len(), 1);
}

#[test]
fn a_resize_of_a_stroke_that_breaks_the_rules_is_refused() {
    let mut h = History::default();
    let mut st = stroke();
    st.color = "red".into();
    h.push(st);
    let points = vec![Point { x: bits(0.6), y: bits(0.6) }];
    assert!(!h.resize_stroke(0, "se", Some((points.clone(), bits(6.))), 10));
    assert!(h.move_stroke(0, Some(points), 10));
}

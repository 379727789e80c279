use layerpen::session::display_id;
use layerpen::history::History;
use layerpen::model::{default_preferences, Point, Preferences, Stroke};
use layerpen::session::{Display, Effect, Session};

fn bits(v: f64) -> u64 {
    v.to_bits()
}

fn stroke() -> Stroke {
    Stroke {
        tool: "pen".into(),
        color: "#ff0000".into(),
        width: bits(4.),
        opacity: bits(0.3),
        points: vec![Point { x: bits(0.5), y: bits(0.5) }],
        text: None,
        times: vec![],
    }
}

/// The numeric settings rules, which the application checks on the `f64`
/// values before handing the settings over.
fn numbers_ok(p: &Preferences) -> bool {
    let f = f64::from_bits;
    let in_range = |v: f64, lo: f64, hi: f64| v.is_finite() && (lo..=hi).contains(&v);
    in_range(f(p.spotlight_radius), 40., 300.)
        && in_range(f(p.spotlight_dim), 0.1, 0.9)
        && [1., 1.5, 2., 3.].contains(&f(p.spotlight_scale))
        && [0.5, 1., 2., 4.].contains(&f(p.gif_speed))
        && [p.pen_width, p.marker_width, p.eraser_width].iter().all(|v| in_range(f(*v), 1., 40.))
        && in_range(f(p.marker_opacity), 0.1, 0.8)
}

fn valid(p: &Preferences) -> bool {
    numbers_ok(p) && p.valid_discrete(true)
}

fn binding<'a>(p: &'a Preferences, id: &str) -> &'a layerpen::model::KeyBinding {
    &p.keybindings.iter().find(|(k, _)| k == id).unwrap().1
}

fn binding_mut<'a>(p: &'a mut Preferences, id: &str) -> &'a mut layerpen::model::KeyBinding {
    &mut p.keybindings.iter_mut().find(|(k, _)| k == id).unwrap().1
}

fn display(id: &str) -> Display {
    Display { id: id.into(), name: id.into(), x: 0, y: 0, width: 1920, height: 1080, scale: bits(1.) }
}

fn session_on(id: &str) -> Session {
    let mut p = default_preferences();
    p.monitor = Some(id.into());
    let mut s = Session::new(p, true, true);
    s.displays.push(display(id));
    s
}

fn document<'a>(s: &'a Session, id: &str) -> &'a History {
    &s.documents.iter().rev().find(|(k, _)| k == id).unwrap().1
}

#[test]
fn new_shortcut_migration_preserves_custom_keys_and_disables_conflict() {
    let mut p = default_preferences();
    p.keybindings.retain(|(k, _)| k != "fade" && k != "board");
    binding_mut(&mut p, "pen").key = "F".into();
    p.palette[0] = "#123456".into();
    let s = Session::new(p.clone(), numbers_ok(&p), true);
    assert_eq!(s.prefs.palette[0], "#123456");
    assert_eq!(binding(&s.prefs, "pen").key, "F");
    assert!(!binding(&s.prefs, "fade").enabled);
    assert!(binding(&s.prefs, "board").enabled);
    assert!(valid(&s.prefs));
}

#[test]
fn erasing_last_stroke_is_undoable_and_misses_preserve_redo() {
    let mut s = session_on("a");
    s.drawing = true;
    assert_eq!(s.add_stroke("a", stroke(), true, 0, &[]), Ok(()));
    let mut e = stroke();
    e.tool = "eraser".into();
    assert_eq!(s.add_stroke("a", e.clone(), true, 0, &[true]), Ok(()));
    assert!(document(&s, "a").strokes.is_empty());
    assert!(!document(&s, "a").undo.is_empty());
    assert_eq!(s.action("undo"), Ok(Effect::Refresh));
    // The eraser now passes beside the restored stroke.
    e.points[0].y = bits(0.1);
    assert_eq!(s.add_stroke("a", e, true, 0, &[false]), Ok(()));
    assert_eq!(document(&s, "a").redo.len(), 1);
    assert_eq!(s.action("redo"), Ok(Effect::Refresh));
    assert!(document(&s, "a").strokes.is_empty());
}

#[test]
fn missing_monitor_does_not_fall_back() {
    let mut p = default_preferences();
    p.monitor = Some("unplugged".into());
    let mut s = Session::new(p, true, true);
    s.displays.push(Display {
        id: "other".into(),
        name: "other".into(),
        x: 0,
        y: 0,
        width: 1920,
        height: 1080,
        scale: bits(1.),
    });
    assert!(s.selected().is_none());
}

#[test]
fn monitor_histories_are_isolated() {
    let mut s = session_on("a");
    s.drawing = true;
    s.add_stroke("a", stroke(), true, 0, &[]).unwrap();
    s.prefs.monitor = Some("b".into());
    s.displays.push(display("b"));
    s.add_stroke("b", stroke(), true, 0, &[]).unwrap();
    s.prefs.monitor = Some("a".into());
    s.action("undo").unwrap();
    assert_eq!(document(&s, "b").strokes.len(), 1);
    assert!(document(&s, "a").strokes.is_empty());
}

#[test]
fn settings_reject_invalid_ranges_and_shortcuts() {
    let mut p = default_preferences();
    p.marker_opacity = bits(2.);
    assert!(!valid(&p));
    p.marker_opacity = bits(0.4);
    p.shortcut = "D".into();
    assert!(!valid(&p));
}

#[test]
fn invalid_settings_fall_back_to_defaults_but_keep_the_monitor() {
    let mut p = default_preferences();
    p.monitor = Some("m".into());
    p.theme = "unknown".into();
    let s = Session::new(p, true, true);
    assert_eq!(s.prefs.theme, "blue");
    assert_eq!(s.prefs.monitor.as_deref(), Some("m"));
    assert_eq!(s.width, bits(4.));
    let q = default_preferences();
    let s = Session::new(q, false, true);
    assert_eq!(s.prefs.pen_width, bits(4.));
}

#[test]
fn board_action_cycles_screen_white_black_and_adapts_ink() {
    let mut s = session_on("a");
    assert_eq!(s.board(), "screen");
    s.color = "#f8fafc".into();
    assert_eq!(s.action("board"), Ok(Effect::Drawing(true)));
    assert_eq!(s.board(), "white");
    assert_eq!(s.color, "#171717");
    assert!(s.drawing);
    assert_eq!(s.action("board"), Ok(Effect::Drawing(true)));
    assert_eq!(s.board(), "black");
    assert_eq!(s.color, "#f8fafc");
    assert_eq!(s.action("board"), Ok(Effect::Drawing(true)));
    assert_eq!(s.board(), "screen");
    assert_eq!(s.action("board_black"), Ok(Effect::Drawing(true)));
    assert_eq!(s.board(), "black");
    assert_eq!(s.active_board(), "black");
    s.visible = false;
    assert_eq!(s.active_board(), "screen");
}

#[test]
fn actions_are_refused_while_capturing() {
    let mut s = session_on("a");
    s.capturing = true;
    assert_eq!(s.action("undo"), Err("내보내기 완료 후 편집하세요.".to_string()));
    assert_eq!(s.action("board"), Err("내보내기 후 보드를 바꾸세요.".to_string()));
    assert_eq!(s.action("zoom_reset"), Err("내보내기 후 확대를 종료하세요.".to_string()));
    assert_eq!(s.action("toggle_visibility"), Err("캡처 저장 후 표시 상태를 바꾸세요.".to_string()));
    assert_eq!(s.action("toggle"), Err("캡처를 저장하는 중입니다.".to_string()));
    assert_eq!(s.action("nonsense"), Err("Unknown action".to_string()));
    assert_eq!(s.action("quit"), Ok(Effect::Quit));
}

#[test]
fn drawing_needs_a_connected_monitor() {
    let mut p = default_preferences();
    p.monitor = Some("gone".into());
    let mut s = Session::new(p, true, true);
    assert_eq!(
        s.action("toggle"),
        Err("선택한 모니터가 연결되어 있지 않습니다. 설정에서 다시 선택하세요.".to_string())
    );
    assert!(!s.drawing);
    let mut s = Session::new(default_preferences(), true, true);
    assert_eq!(s.action("board"), Err("모니터를 선택하세요.".to_string()));
}

#[test]
fn toggle_and_visibility_switch_drawing_off_and_hide_the_layer() {
    let mut s = session_on("a");
    assert_eq!(s.action("toggle"), Ok(Effect::Drawing(true)));
    assert!(s.drawing && s.visible);
    assert_eq!(s.action("toggle_visibility"), Ok(Effect::Drawing(false)));
    assert!(!s.drawing && !s.visible);
    assert_eq!(s.action("toggle"), Ok(Effect::Drawing(true)));
    assert!(s.visible);
    assert_eq!(s.action("settings"), Ok(Effect::ToggleSettings));
    assert!(!s.drawing);
    assert_eq!(s.action("mouse"), Ok(Effect::Drawing(false)));
}

#[test]
fn clear_removes_strokes_recording_and_fading_strokes() {
    let mut s = session_on("a");
    s.drawing = true;
    s.add_stroke("a", stroke(), true, 0, &[]).unwrap();
    let mut f = stroke();
    f.tool = "fade".into();
    s.add_stroke("a", f, true, 1_000, &[]).unwrap();
    assert_eq!(s.shown_fading(1_500).map(|v| v.len()), Some(1));
    assert_eq!(s.shown_fading(4_000).map(|v| v.len()), Some(0));
    assert_eq!(s.action("clear"), Ok(Effect::Refresh));
    assert!(document(&s, "a").strokes.is_empty());
    assert!(document(&s, "a").recording.is_empty());
    assert!(s.shown_fading(1_500).is_none());
}

#[test]
fn fading_strokes_keep_the_latest_two_hundred() {
    let mut s = session_on("a");
    s.drawing = true;
    for i in 0..205u64 {
        let mut f = stroke();
        f.tool = "fade".into();
        f.color = format!("#{:06x}", i);
        s.add_stroke("a", f, true, 10_000 + i, &[]).unwrap();
    }
    let shown = s.shown_fading(10_300).unwrap();
    assert_eq!(shown.len(), 200);
    assert_eq!(shown[0].stroke.color, format!("#{:06x}", 5));
    assert_eq!(shown[199].life, 3000);
    assert_eq!(document(&s, "a").recording.len(), 205);
}

#[test]
fn strokes_are_dropped_or_refused_as_the_session_requires() {
    let mut s = session_on("a");
    assert_eq!(s.add_stroke("a", stroke(), true, 0, &[]), Ok(()));
    assert!(s.documents.is_empty());
    s.drawing = true;
    assert_eq!(s.add_stroke("b", stroke(), true, 0, &[]), Ok(()));
    assert!(s.documents.is_empty());
    assert_eq!(s.add_stroke("a", stroke(), false, 0, &[]), Err("Invalid stroke".to_string()));
    s.displays.clear();
    assert_eq!(s.add_stroke("a", stroke(), true, 0, &[]), Err("모니터 연결이 해제되었습니다.".to_string()));
}

#[test]
fn a_monitor_holds_at_most_five_thousand_strokes() {
    let mut s = session_on("a");
    s.drawing = true;
    for _ in 0..5000 {
        s.add_stroke("a", stroke(), true, 0, &[]).unwrap();
    }
    assert_eq!(
        s.add_stroke("a", stroke(), true, 0, &[]),
        Err("필기가 5,000개를 넘었습니다. 전체 지우기 후 계속하세요.".to_string())
    );
    assert_eq!(document(&s, "a").strokes.len(), 5000);
}

#[test]
fn zoom_tool_remembers_the_tool_to_return_to() {
    let mut s = session_on("a");
    s.drawing = true;
    assert_eq!(s.set_tool("select".into(), "#8b5cf6".into(), bits(6.), true), Ok(()));
    assert_eq!(s.set_tool("zoom".into(), "#8b5cf6".into(), bits(2.), true), Ok(()));
    assert_eq!(s.zoom_return_tool, "pen");
    assert_eq!(s.zoom_return_width, bits(6.));
    assert_eq!(s.set_tool("laser".into(), "#8b5cf6".into(), bits(2.), true), Err("Invalid tool".to_string()));
    assert_eq!(s.set_tool("pen".into(), "red".into(), bits(2.), true), Err("Invalid tool".to_string()));
    assert_eq!(s.set_tool("pen".into(), "#8b5cf6".into(), bits(200.), false), Err("Invalid tool".to_string()));
    let (display, board) = s.begin_zoom("a").unwrap();
    assert_eq!((display, board.as_str()), (0, "screen"));
    assert!(s.capturing && !s.drawing);
    assert_eq!(s.finish_zoom("a", Ok("data:image/png;base64,".into()), 7, bits(2.), 0, 0), Ok(()));
    assert!(s.drawing && !s.capturing);
    assert_eq!(s.tool, "pen");
    assert_eq!(s.width, bits(6.));
    assert_eq!(s.zoom_image(7), Ok("data:image/png;base64,".to_string()));
    assert_eq!(s.zoom_image(8), Err("확대 화면이 변경되었습니다.".to_string()));
    assert_eq!(s.action("zoom_reset"), Ok(Effect::Refresh));
    assert!(s.zoom.is_none());
}

#[test]
fn zoom_is_cancelled_when_the_monitor_changes() {
    let mut s = session_on("a");
    s.drawing = true;
    s.begin_zoom("a").unwrap();
    s.prefs.monitor = Some("b".into());
    assert_eq!(
        s.finish_zoom("a", Ok("img".into()), 1, bits(2.), 0, 0),
        Err("모니터가 변경되어 확대를 취소했습니다.".to_string())
    );
    assert!(s.zoom.is_none() && !s.capturing);
    let mut s = session_on("a");
    assert_eq!(s.begin_zoom("a"), Err("확대할 모니터 상태가 변경되었습니다.".to_string()));
}

#[test]
fn capture_runs_on_the_selected_monitor_only() {
    let mut s = session_on("a");
    assert_eq!(s.capture_target("a"), Err("캡처 도중 모니터가 변경되었습니다.".to_string()));
    assert_eq!(s.request_capture(), Ok(()));
    assert_eq!(s.request_capture(), Err("캡처를 저장하는 중입니다.".to_string()));
    assert_eq!(s.capture_target("a"), Ok(0));
    assert_eq!(s.capture_target("b"), Err("캡처 도중 모니터가 변경되었습니다.".to_string()));
    s.unlock();
    assert!(!s.capturing);
    s.displays.clear();
    assert_eq!(s.request_capture(), Err("캡처할 모니터를 선택하세요.".to_string()));
}

#[test]
fn gif_export_needs_a_recording() {
    let mut s = session_on("a");
    assert_eq!(s.check_gif().err(), Some("기록된 필기가 없습니다.".to_string()));
    s.drawing = true;
    s.add_stroke("a", stroke(), true, 0, &[]).unwrap();
    let start = s.check_gif().unwrap();
    assert_eq!(start.display, 0);
    assert!(!start.screen_background);
    assert_eq!(start.board, "screen");
    s.start_export();
    assert!(s.capturing && !s.drawing);
    assert_eq!(s.check_gif().err(), Some("이미 내보내는 중입니다.".to_string()));
}

#[test]
fn selecting_a_monitor_needs_it_connected() {
    let mut s = session_on("a");
    assert_eq!(
        s.select_monitor("b", vec![display("a")]),
        Err("모니터 연결이 변경되었습니다. 다시 선택하세요.".to_string())
    );
    assert_eq!(s.select_monitor("b", vec![display("a"), display("b")]), Ok(Some("a".to_string())));
    assert_eq!(s.prefs.monitor.as_deref(), Some("b"));
    s.restore_monitor(Some("a".into()));
    assert_eq!(s.prefs.monitor.as_deref(), Some("a"));
    s.capturing = true;
    assert_eq!(s.select_monitor("b", vec![]), Err("캡처 저장 후 모니터를 변경하세요.".to_string()));
}

#[test]
fn configure_keeps_the_monitor_and_follows_width_changes() {
    let mut s = session_on("a");
    let mut p = default_preferences();
    p.pen_width = bits(9.);
    p.shortcut = "Alt+K".into();
    assert_eq!(s.check_configure(&p, numbers_ok(&p), true), Ok(true));
    let previous = s.apply_configure(p);
    assert_eq!(s.prefs.monitor.as_deref(), Some("a"));
    s.finish_configure(&previous);
    assert_eq!(s.width, bits(9.));
    let mut bad = default_preferences();
    bad.language = "xx".into();
    assert!(s.check_configure(&bad, true, true).is_err());
    s.capturing = true;
    let q = default_preferences();
    assert_eq!(s.check_configure(&q, true, true), Err("캡처 저장 후 설정을 변경하세요.".to_string()));
}

#[test]
fn moves_and_resizes_need_the_select_tool() {
    let mut s = session_on("a");
    s.drawing = true;
    s.add_stroke("a", stroke(), true, 0, &[]).unwrap();
    assert_eq!(s.move_stroke("a", 0, None, 0), Err("이동 상태가 변경되었습니다.".to_string()));
    s.tool = "select".into();
    let mut after = stroke();
    after.points[0].x = bits(0.6);
    assert_eq!(s.move_stroke("a", 0, Some(after.points.clone()), 100), Ok(()));
    assert_eq!(document(&s, "a").strokes[0].points[0].x, bits(0.6));
    assert_eq!(s.resize_stroke("b", 0, "se", Some((after.points, after.width)), 100), Err("크기 조절 상태가 변경되었습니다.".to_string()));
}

#[test]
fn monitors_sharing_a_name_are_told_apart_by_origin() {
    assert_eq!(display_id("DELL U2720Q", 1, -1920, 0), "DELL U2720Q");
    assert_eq!(display_id("DELL U2720Q", 2, -1920, 0), "DELL U2720Q@-1920,0");
    assert_eq!(display_id("Display", 3, 2560, -1440), "Display@2560,-1440");
    assert_eq!(display_id("X", 2, i32::MIN, 0), format!("X@{},0", i32::MIN));
}

#[test]
fn commands_on_a_disconnected_monitor_are_refused() {
    let mut s = session_on("a");
    s.drawing = true;
    s.tool = "select".into();
    s.displays.clear();
    assert_eq!(s.resize_stroke("a", 0, "se", None, 0), Err("모니터 연결이 해제되었습니다.".to_string()));
    assert_eq!(s.begin_zoom("a"), Err("모니터 연결이 해제되었습니다.".to_string()));
    assert_eq!(s.check_gif().err(), Some("모니터 연결이 해제되었습니다.".to_string()));
    s.capturing = true;
    assert_eq!(s.capture_target("a"), Err("모니터 연결이 해제되었습니다.".to_string()));
    assert_eq!(
        s.set_tool("pen".into(), "#123456".into(), bits(2.), true),
        Err("내보내기 후 도구를 변경하세요.".to_string())
    );
    assert_eq!(s.check_select_gesture("a", "busy"), Err("busy".to_string()));
}

#[test]
fn theme_preferences_migrate_and_roundtrip_without_changing_ink() {
    let mut prefs = default_preferences();
    assert_eq!(prefs.theme, "blue");
    let palette = prefs.palette.clone();
    for theme in ["blue", "teal", "green", "orange", "purple"] {
        prefs.theme = theme.into();
        assert!(valid(&prefs));
        assert_eq!(prefs.theme, theme);
        assert_eq!(prefs.palette, palette);
    }
    prefs.theme = "unknown".into();
    assert!(!valid(&prefs));
}

#[test]
fn shortcut_mapping_roundtrips_and_rejects_enabled_duplicates() {
    let mut p = default_preferences();
    assert!(valid(&p));
    binding_mut(&mut p, "pen").key = "Mod+Alt+K".into();
    assert!(valid(&p));
    assert_eq!(binding(&p, "pen").key, "Mod+Alt+K");
    binding_mut(&mut p, "marker").key = "Mod+Alt+K".into();
    assert!(!valid(&p));
    binding_mut(&mut p, "marker").enabled = false;
    assert!(valid(&p));
    binding_mut(&mut p, "pen").key = "Mod+Shift+D".into();
    assert!(!valid(&p));
    p.global_shortcut_enabled = false;
    assert!(valid(&p));
    p.shortcut = "F9".into();
    assert!(valid(&p));
    p.gif_background = "screen".into();
    assert!(valid(&p));
    binding_mut(&mut p, "pen").key = "Escape".into();
    assert!(!valid(&p));
}

#[test]
fn language_preferences_persist_and_reject_unknown_values() {
    for language in ["auto", "ko", "en", "ja", "zh-CN"] {
        let mut p = default_preferences();
        p.language = language.into();
        assert_eq!(p.language, language);
        assert!(valid(&p));
    }
    let mut p = default_preferences();
    p.language = "unknown".into();
    assert!(!valid(&p));
}

use layerpen::model::{
    default_bindings, default_preferences, millis_from, now_ms, replace_text, valid_chord, valid_color, valid_font,
    Point, Stroke, TextData,
};

fn bits(v: f64) -> u64 {
    v.to_bits()
}

fn stroke() -> Stroke {
    Stroke {
        tool: "pen".into(),
        color: "#123456".into(),
        width: bits(4.),
        opacity: bits(0.3),
        points: vec![Point { x: bits(0.1), y: bits(0.1) }],
        text: None,
        times: vec![],
    }
}

#[test]
fn default_settings_hold_the_documented_values() {
    let p = default_preferences();
    assert_eq!(f64::from_bits(p.pen_width), 4.);
    assert_eq!(f64::from_bits(p.marker_width), 16.);
    assert_eq!(f64::from_bits(p.eraser_width), 24.);
    assert_eq!(f64::from_bits(p.marker_opacity), 0.3);
    assert_eq!(f64::from_bits(p.gif_speed), 1.);
    assert_eq!(f64::from_bits(p.spotlight_radius), 120.);
    assert_eq!(f64::from_bits(p.spotlight_dim), 0.65);
    assert_eq!(f64::from_bits(p.spotlight_scale), 2.);
    assert_eq!(p.shortcut, "CommandOrControl+Shift+D");
    assert_eq!(p.keybindings.len(), 25);
    assert!(p.valid_discrete(true));
    assert!(!p.valid_discrete(false));
}

#[test]
fn default_bindings_are_sorted_and_enabled() {
    let b = default_bindings();
    assert!(b.windows(2).all(|w| w[0].0 < w[1].0));
    assert!(b.iter().all(|(_, k)| k.enabled && valid_chord(&k.key)));
    assert_eq!(b[0].0, "board");
    assert_eq!(b[24].1.key, "0");
}

#[test]
fn chords_need_a_known_key_after_modifiers() {
    for ok in ["Mod+Z", "Mod+Shift+Delete", "F12", "Alt+K", "]", "Mod+Alt+Shift+ArrowLeft", "Tab"] {
        assert!(valid_chord(ok), "{ok}");
    }
    for bad in ["", "Mod+", "F13", "F0", "Escape", "Mod+Mod+Z", "Ctrl+Z", "zz"] {
        assert!(!valid_chord(bad), "{bad}");
    }
    assert_eq!(replace_text("CommandOrControl+Shift+D", "CommandOrControl", "Mod"), "Mod+Shift+D");
}

#[test]
fn colors_and_font_names_are_checked() {
    assert!(valid_color("#a0B9fF"));
    assert!(!valid_color("#a0B9f"));
    assert!(!valid_color("a0B9fF0"));
    assert!(!valid_color("#g00000"));
    assert!(valid_font("Malgun Gothic"));
    assert!(valid_font("Arial"));
    assert!(!valid_font("bad\nfont"));
    assert!(!valid_font("   "));
    assert!(!valid_font(&"x".repeat(161)));
    assert!(valid_font(&"가".repeat(160)));
}

#[test]
fn stroke_shapes_follow_the_tool_rules() {
    let s = stroke();
    assert!(s.valid_shape());
    let mut text = s.clone();
    text.tool = "text".into();
    text.points.push(Point { x: bits(0.4), y: bits(0.2) });
    text.text = Some(TextData {
        content: "한글 Text".into(),
        font: "Malgun Gothic".into(),
        size: bits(24.),
        box_width: bits(300.),
        box_height: bits(80.),
    });
    assert!(text.valid_shape());
    text.text.as_mut().unwrap().content = " ".into();
    assert!(!text.valid_shape());
    let mut no_text = s.clone();
    no_text.tool = "text".into();
    assert!(!no_text.valid_shape());
    let mut bad_tool = s.clone();
    bad_tool.tool = "laser".into();
    assert!(!bad_tool.valid_shape());
    let mut empty = s.clone();
    empty.points.clear();
    assert!(!empty.valid_shape());
    let mut timed = s;
    timed.times = vec![3_600_000];
    assert!(timed.valid_shape());
    assert_eq!(timed.duration(), 3_600_000);
}

#[test]
fn clock_readings_become_milliseconds() {
    assert_eq!(millis_from(None), 0);
    assert_eq!(millis_from(Some(1_700_000_000_123)), 1_700_000_000_123);
    assert_eq!(millis_from(Some((1u128 << 64) + 5)), 5);
    assert!(now_ms() > 1_600_000_000_000);
}

#[test]
fn width_settings_follow_the_tool() {
    let p = default_preferences();
    assert_eq!(p.width_for("marker"), bits(16.));
    assert_eq!(p.width_for("eraser"), bits(24.));
    assert_eq!(p.width_for("line"), bits(4.));
}

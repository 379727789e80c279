use layerpen::model::default_preferences;
use layerpen::profile::{directories, override_directory, upgrade_font_name, windows_same};
use std::path::Path;

#[test]
fn capture_folder_migration_preserves_custom_paths() {
    let pictures = Path::new("/users/example/Pictures");
    let pics = pictures.to_str().unwrap();
    let mut p = default_preferences();
    p.migrate_capture_dir(pics, None, false);
    assert_eq!(Path::new(&p.capture_dir), pictures.join("Pointory"));
    p.capture_dir = pictures.join("MonitorInk").to_string_lossy().into_owned();
    p.migrate_capture_dir(pics, None, false);
    assert_eq!(Path::new(&p.capture_dir), pictures.join("Pointory"));
    for old in ["OnPen", "LayerPen", "InkLatch", "Inklach", "Monitor Ink"] {
        p.capture_dir = pictures.join(old).to_string_lossy().into_owned();
        p.migrate_capture_dir(pics, None, false);
        assert_eq!(Path::new(&p.capture_dir), pictures.join("Pointory"));
    }
    p.capture_dir = pictures.join("Meetings").to_string_lossy().into_owned();
    let custom = p.capture_dir.clone();
    p.migrate_capture_dir(pics, None, false);
    assert_eq!(p.capture_dir, custom);
    p.capture_dir.clear();
    p.migrate_capture_dir(pics, Some("/test/profile"), false);
    assert_eq!(Path::new(&p.capture_dir), Path::new("/test/profile/captures"));
}

#[test]
fn profile_directories_prefer_an_override_and_list_legacy_folders() {
    let (dir, legacy) = directories("/cfg", "/cfg/dev.app", Some("/custom".into()));
    assert_eq!(dir, "/custom");
    assert!(legacy.is_empty());
    let (dir, legacy) = directories("/cfg", "/cfg/dev.app", None);
    assert_eq!(dir, "/cfg/Pointory");
    assert_eq!(
        legacy,
        vec!["/cfg/OnPen", "/cfg/LayerPen", "/cfg/InkLatch", "/cfg/Inklach", "/cfg/MonitorInk", "/cfg/Monitor Ink", "/cfg/dev.app"]
    );
    let (_, legacy) = directories("/cfg", "/cfg/OnPen", None);
    assert_eq!(legacy.len(), 6);
}

#[test]
fn the_first_profile_override_wins() {
    assert_eq!(override_directory(Some(String::from("a")), Some("b".into()), Some("c".into())), Some("a".into()));
    assert_eq!(override_directory(None, Some(String::from("b")), Some("c".into())), Some("b".into()));
    assert_eq!(override_directory(None, None, Some(String::from("c"))), Some("c".into()));
    assert_eq!(override_directory::<String>(None, None, None), None);
}

#[test]
fn imported_font_families_are_renamed_on_upgrade() {
    let id = "0123456789abcdef".repeat(4);
    assert_eq!(upgrade_font_name(format!("OnPenFont-{id}")), format!("PointoryFont-{id}"));
    assert_eq!(upgrade_font_name("OnPenFont-abc".into()), "OnPenFont-abc");
    assert_eq!(upgrade_font_name("Arial".into()), "Arial");
}

#[test]
fn windows_comparison_ignores_case_slashes_and_trailing_separators() {
    assert!(windows_same("c:/users/EXAMPLE/pictures/onpen/", "C:\\Users\\example\\Pictures\\OnPen"));
    assert!(windows_same("C:\\Pics\\\\", "c:\\pics"));
    assert!(!windows_same("C:\\Pics2", "C:\\Pics"));
    assert!(!windows_same("C:\\Pïcs", "C:\\PÏcs"));
}

#[test]
fn legacy_folders_are_all_different() {
    let (_, legacy) = directories("/config", "/app-config", None);
    assert_eq!(legacy.len(), 7);
    for a in 0..legacy.len() {
        for b in a + 1..legacy.len() {
            assert_ne!(legacy[a], legacy[b]);
        }
    }
    assert!(legacy[5].ends_with("Monitor Ink"));
}

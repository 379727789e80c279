use layerpen::capture::{
    board_color, capture_plan, check_gif_frame, check_gif_size, export_path, export_path_now, layer_png, png_data, png_data_url,
    CapturePlan, GifJob,
};

#[test]
fn data_urls_decode_to_png_bytes() {
    let png = "data:image/png;base64,iVBORw0KGgo=";
    assert_eq!(layer_png(png).unwrap(), vec![0x89, b'P', b'N', b'G', 0x0d, 0x0a, 0x1a, 0x0a]);
    assert_eq!(png_data("data:image/png;base64,aGk=").unwrap(), b"hi".to_vec());
    assert_eq!(layer_png("data:image/png;base64,aGk=").unwrap_err(), "Invalid PNG");
    assert_eq!(layer_png("data:image/jpeg;base64,aGk=").unwrap_err(), "Invalid PNG");
    assert!(png_data("data:image/png;base64,a").is_err());
    let huge = format!("data:image/png;base64,{}", "A".repeat(100_000_000));
    assert_eq!(layer_png(&huge).unwrap_err(), "캡처 이미지가 너무 큽니다.");
}

#[test]
fn captures_use_the_layer_a_board_or_the_screen() {
    assert_eq!(capture_plan(true, "screen"), CapturePlan::Layer);
    assert_eq!(capture_plan(true, "white"), CapturePlan::Layer);
    assert_eq!(capture_plan(false, "white"), CapturePlan::Board([255, 255, 255, 255]));
    assert_eq!(capture_plan(false, "black"), CapturePlan::Board([23, 23, 23, 255]));
    assert_eq!(capture_plan(false, "screen"), CapturePlan::Screen);
    assert_eq!(board_color("dark"), [23, 23, 23, 255]);
}

#[test]
fn export_files_go_into_an_absolute_folder() {
    assert_eq!(export_path("relative", "x", ".png"), Err("설정에서 저장 폴더를 선택하세요.".to_string()));
    let folder = std::path::PathBuf::from("/var/captures");
    let f = folder.to_str().unwrap();
    assert_eq!(
        export_path(f, "2024-01-02_03-04-05-000006", ".gif.part"),
        Ok(folder.join("2024-01-02_03-04-05-000006.gif.part").to_string_lossy().into_owned())
    );
    let now = export_path_now(f, ".png").unwrap();
    assert!(now.ends_with(".png"));
    assert!(now.starts_with(f));
}

#[test]
fn gif_sizes_frames_and_limits_are_checked() {
    assert!(check_gif_size(1000, 1000).is_ok());
    assert_eq!(check_gif_size(1001, 1000), Err("GIF 크기가 너무 큽니다.".to_string()));
    assert!(check_gif_size(0, 10).is_err());
    assert!(check_gif_size(u16::MAX, u16::MAX).is_err());
    assert_eq!(check_gif_frame("data:", 0), Err("Invalid GIF frame".to_string()));
    assert!(check_gif_frame("data:", 1).is_ok());
    assert!(check_gif_frame(&"x".repeat(8_000_001), 1).is_err());
    let mut job = GifJob::new(4, 3);
    assert_eq!(job.check_finish(), Err("GIF 프레임이 없습니다.".to_string()));
    assert_eq!(job.check_frame(4, 4), Err("GIF 프레임 제한을 초과했습니다.".to_string()));
    for _ in 0..3000 {
        job.check_frame(4, 3).unwrap();
        job.frame_written();
    }
    assert!(job.check_frame(4, 3).is_err());
    assert!(job.check_finish().is_ok());
}

#[test]
fn png_data_urls_carry_standard_base64() {
    assert_eq!(png_data_url(b"hello"), "data:image/png;base64,aGVsbG8=");
    assert_eq!(png_data_url(b""), "data:image/png;base64,");
    let bytes = vec![0x89, b'P', b'N', b'G', 0xff, 0xfe, 0];
    assert_eq!(png_data(&png_data_url(&bytes)), Ok(bytes));
}

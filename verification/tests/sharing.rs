use layerpen::sharing::{Added, SharedFiles};
use layerpen::sharing::{
    allowed, download_disposition, escape, index_page, mib_string, new_token, page, response_head,
    route, share_qr, share_url, Item, Live, Route,
};
use std::path::PathBuf;

fn item(id: &str, name: &str, size: u64) -> Item {
    Item { id: id.into(), name: name.into(), size, path: PathBuf::from("/tmp/none") }
}

fn get(path: &str, host: &str) -> Vec<u8> {
    format!("GET {path} HTTP/1.1\r\nHost: {host}\r\n\r\n").into_bytes()
}

#[test]
fn rejects_public_bind() {
    assert!(!allowed([8, 8, 8, 8]));
    assert!(allowed([192, 168, 1, 2]));
}

#[test]
fn lan_ranges_are_allowed_and_neighbours_are_not() {
    for ok in [[10, 0, 0, 1], [172, 16, 0, 1], [172, 31, 255, 255], [169, 254, 3, 4], [127, 0, 0, 1]] {
        assert!(allowed(ok));
    }
    for bad in [[172, 15, 0, 1], [172, 32, 0, 1], [192, 169, 0, 1], [169, 253, 0, 1], [0, 0, 0, 0]] {
        assert!(!allowed(bad));
    }
}

#[test]
fn names_are_escaped_for_html() {
    assert_eq!(escape("<a href='x'>&\"</a>"), "&lt;a href=&#39;x&#39;&gt;&amp;&quot;&lt;/a&gt;");
    assert_eq!(escape("plain"), "plain");
}

#[test]
fn sizes_are_written_in_mebibytes_with_one_decimal() {
    for size in [0u64, 15, 52_428, 52_429, 104_857, 157_286, 1_048_576, 1_101_005, 10_485_760, 123_456_789, 5_000_000_000] {
        assert_eq!(mib_string(size), format!("{:.1}", size as f64 / 1_048_576.), "{size}");
    }
}

#[test]
fn the_page_lists_escaped_names_or_says_it_is_empty() {
    let html = page(&[item("abc", "<lesson>.txt", 15)]);
    assert!(html.contains("<li><a href=\"file/abc\">&lt;lesson&gt;.txt</a><small>0.0 MB</small></li>"));
    assert!(!html.contains("No materials yet"));
    let empty = page(&[]);
    assert!(empty.contains("No materials yet. 아직 공유된 자료가 없습니다."));
    let index = index_page(&[item("abc", "a.txt", 1_048_576)]);
    assert!(index.contains("<script src=\"viewer.js\" defer></script></section><ul><li>"));
    assert!(index.contains("1.0 MB"));
}

#[test]
fn requests_are_routed_by_method_host_and_token() {
    let host = "127.0.0.1:8000";
    assert_eq!(route(&get("/tok/", host), "tok", host), Route::Index);
    assert_eq!(route(&get("/", host), "tok", host), Route::NotFound);
    assert_eq!(route(&get("/tok/", "evil.example"), "tok", host), Route::Forbidden);
    assert_eq!(route(&get("/tok/file/abc", host), "tok", host), Route::File("abc".into()));
    assert_eq!(route(&get("/tok/viewer.js", host), "tok", host), Route::ViewerScript);
    assert_eq!(route(&get("/tok/live.jpg", host), "tok", host), Route::LiveFrame);
    assert_eq!(route(b"POST /tok/ HTTP/1.1\r\nHost: 127.0.0.1:8000\r\n\r\n", "tok", host), Route::MethodNotAllowed);
    assert_eq!(route(&[0xff, 0xfe], "tok", host), Route::Ignore);
    let two_hosts = format!("GET /tok/ HTTP/1.1\r\nHost: {host}\r\nHOST: {host}\r\n\r\n").into_bytes();
    assert_eq!(route(&two_hosts, "tok", host), Route::Forbidden);
}

#[test]
fn live_frames_are_revoked_when_stopped() {
    let mut live = Live::new();
    assert!(live.served_frame().is_none());
    live.enabled = true;
    let generation = live.generation;
    assert!(live.offer_frame(generation, b"test-frame".to_vec()));
    assert_eq!(live.served_frame().map(|f| f.as_slice()), Some(&b"test-frame"[..]));
    live.stop();
    assert!(live.served_frame().is_none());
    assert!(!live.offer_frame(generation, b"late".to_vec()));
    assert!(live.frame.is_empty());
}

#[test]
fn responses_carry_the_security_headers() {
    let head = response_head("404 Not Found", "text/html; charset=utf-8", 9, "");
    assert!(head.starts_with("HTTP/1.1 404 Not Found\r\nContent-Type: text/html; charset=utf-8\r\nContent-Length: 9\r\nConnection: close\r\n"));
    assert!(head.contains("X-Content-Type-Options: nosniff\r\n"));
    assert!(head.ends_with("frame-ancestors 'none'; base-uri 'none'\r\n\r\n"));
    let extra = response_head("200 OK", "application/octet-stream", 0, "X: y\r\n");
    assert!(extra.ends_with("base-uri 'none'\r\nX: y\r\n\r\n"));
}

#[test]
fn download_names_are_percent_encoded_utf8() {
    assert_eq!(
        download_disposition("a b/é.txt"),
        "Content-Disposition: attachment; filename=\"download\"; filename*=UTF-8''%61%20%62%2F%C3%A9%2E%74%78%74\r\n"
    );
}

#[test]
fn tokens_and_addresses_have_their_fixed_form() {
    let t = new_token();
    assert_eq!(t.len(), 32);
    assert!(t.chars().all(|c| c.is_ascii_digit() || ('a'..='f').contains(&c)));
    assert_ne!(new_token(), t);
    assert_eq!(share_url("10.0.0.2:5000", &t), format!("http://10.0.0.2:5000/{t}/"));
}

#[test]
fn the_qr_code_is_an_svg_of_the_address() {
    assert_eq!(share_qr(""), Ok(String::new()));
    let svg = share_qr("http://10.0.0.2:5000/abc/").unwrap();
    assert!(svg.contains("<svg"));
    assert_eq!(share_qr("http://10.0.0.2:5000/abc/").unwrap(), svg);
    assert!(share_qr(&"x".repeat(8000)).is_err());
}

#[test]
fn shared_files_stay_ordered_unique_and_bounded() {
    let mut files = SharedFiles::new();
    assert_eq!(files.add(Item { id: "b".into(), name: "b".into(), size: 1, path: PathBuf::from("/x/b") }), Ok(Added::Shared));
    assert_eq!(files.add(Item { id: "a".into(), name: "a".into(), size: 1, path: PathBuf::from("/x/a") }), Ok(Added::Shared));
    assert_eq!(files.add(Item { id: "c".into(), name: "again".into(), size: 1, path: PathBuf::from("/x/a") }), Ok(Added::AlreadyShared));
    assert_eq!(files.items.iter().map(|f| f.id.as_str()).collect::<Vec<_>>(), vec!["a", "b"]);
    assert_eq!(files.find("b"), Some(1));
    files.remove("a");
    assert_eq!(files.find("a"), None);
    assert_eq!(files.find("b"), Some(0));
    for i in 0..99 {
        let id = format!("{i:03}");
        assert_eq!(files.add(Item { id: id.clone(), name: id.clone(), size: 0, path: PathBuf::from(format!("/y/{id}")) }), Ok(Added::Shared));
    }
    assert_eq!(files.items.len(), 100);
    assert_eq!(
        files.add(Item { id: "zz".into(), name: "zz".into(), size: 0, path: PathBuf::from("/y/zz") }),
        Err("Maximum 100 files · 최대 100개".to_string())
    );
    assert!(files.items.windows(2).all(|w| w[0].id < w[1].id));
}

use launcher_core::mime::get_mime_type;

fn mime_of(path: &[u8]) -> &'static str {
    get_mime_type(&path.to_vec())
}

#[test]
fn html_and_text_types() {
    assert_eq!(mime_of(b"/dist/index.html"), "text/html; charset=utf-8");
    assert_eq!(mime_of(b"/dist/app.js"), "application/javascript; charset=utf-8");
    assert_eq!(mime_of(b"/dist/style.css"), "text/css; charset=utf-8");
    assert_eq!(mime_of(b"/dist/data.json"), "application/json; charset=utf-8");
}

#[test]
fn binary_and_image_types() {
    assert_eq!(mime_of(b"/dist/engine.wasm"), "application/wasm");
    assert_eq!(mime_of(b"/dist/logo.png"), "image/png");
    assert_eq!(mime_of(b"/dist/photo.jpg"), "image/jpeg");
    assert_eq!(mime_of(b"/dist/photo.jpeg"), "image/jpeg");
    assert_eq!(mime_of(b"/dist/anim.gif"), "image/gif");
    assert_eq!(mime_of(b"/dist/icon.svg"), "image/svg+xml");
    assert_eq!(mime_of(b"/dist/favicon.ico"), "image/x-icon");
}

#[test]
fn font_and_map_types() {
    assert_eq!(mime_of(b"/dist/font.woff"), "font/woff");
    assert_eq!(mime_of(b"/dist/font.woff2"), "font/woff2");
    assert_eq!(mime_of(b"/dist/font.ttf"), "font/ttf");
    assert_eq!(mime_of(b"/dist/app.js.map"), "application/json");
}

#[test]
fn unknown_extension_is_octet_stream() {
    assert_eq!(mime_of(b"/dist/data.bin"), "application/octet-stream");
    assert_eq!(mime_of(b"/dist/archive.tar.xyz"), "application/octet-stream");
}

#[test]
fn missing_extension_is_octet_stream() {
    assert_eq!(mime_of(b"/dist/README"), "application/octet-stream");
    assert_eq!(mime_of(b"/dist/"), "application/octet-stream");
    assert_eq!(mime_of(b""), "application/octet-stream");
}

#[test]
fn hidden_file_has_no_extension() {
    assert_eq!(mime_of(b"/dist/.html"), "application/octet-stream");
    assert_eq!(mime_of(b".js"), "application/octet-stream");
}

#[test]
fn dot_in_directory_does_not_count() {
    assert_eq!(mime_of(b"/dist.d/file"), "application/octet-stream");
    assert_eq!(mime_of(b"/v1.2/app.js"), "application/javascript; charset=utf-8");
}

#[test]
fn trailing_dot_is_an_empty_extension() {
    assert_eq!(mime_of(b"/dist/file."), "application/octet-stream");
}

#[test]
fn extension_comparison_is_exact() {
    assert_eq!(mime_of(b"/dist/a.htm"), "application/octet-stream");
    assert_eq!(mime_of(b"/dist/a.jso"), "application/octet-stream");
    assert_eq!(mime_of(b"/dist/a.woff3"), "application/octet-stream");
}

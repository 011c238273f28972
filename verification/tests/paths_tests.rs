use launcher_core::paths::{
    index_html, is_contained, join_path, resolve_request_path, strip_leading_seps, strip_query,
};

#[test]
fn root_resolves_to_index_html() {
    let root_url = b"/".to_vec();
    let explicit = b"/index.html".to_vec();
    let r1 = resolve_request_path(&root_url);
    let r2 = resolve_request_path(&explicit);
    assert_eq!(r1, b"index.html".to_vec());
    assert_eq!(r1, r2);
}

#[test]
fn empty_url_resolves_to_index_html() {
    let url = b"".to_vec();
    assert_eq!(resolve_request_path(&url), b"index.html".to_vec());
}

#[test]
fn query_string_is_ignored() {
    let url = b"/app.js?v=2".to_vec();
    assert_eq!(resolve_request_path(&url), b"app.js".to_vec());
}

#[test]
fn query_only_url_resolves_to_index_html() {
    let url = b"/?rpc_port=10001".to_vec();
    assert_eq!(resolve_request_path(&url), b"index.html".to_vec());
}

#[test]
fn leading_separators_are_stripped() {
    let url = b"//assets/logo.png".to_vec();
    assert_eq!(resolve_request_path(&url), b"assets/logo.png".to_vec());
}

#[test]
fn strip_query_cuts_at_first_query_byte() {
    let p = b"a?b?c".to_vec();
    assert_eq!(strip_query(&p), b"a".to_vec());
    let q = b"abc".to_vec();
    assert_eq!(strip_query(&q), b"abc".to_vec());
    let e = b"".to_vec();
    assert_eq!(strip_query(&e), b"".to_vec());
}

#[test]
fn strip_leading_seps_keeps_inner_ones() {
    let p = b"///a/b".to_vec();
    assert_eq!(strip_leading_seps(&p), b"a/b".to_vec());
    let all = b"///".to_vec();
    assert_eq!(strip_leading_seps(&all), b"".to_vec());
}

#[test]
fn index_html_is_the_entry_file_name() {
    assert_eq!(index_html(), b"index.html".to_vec());
}

#[test]
fn join_path_inserts_one_separator() {
    let root = b"/opt/app/dist".to_vec();
    let rel = b"app.js".to_vec();
    assert_eq!(join_path(&root, &rel), b"/opt/app/dist/app.js".to_vec());
}

#[test]
fn containment_accepts_descendants_and_the_root_itself() {
    let root = b"/opt/app/dist".to_vec();
    assert!(is_contained(&root, &b"/opt/app/dist/app.js".to_vec()));
    assert!(is_contained(&root, &b"/opt/app/dist/sub/dir/x.css".to_vec()));
    assert!(is_contained(&root, &b"/opt/app/dist".to_vec()));
}

#[test]
fn containment_rejects_a_sibling_with_the_same_prefix() {
    let root = b"/opt/app/dist".to_vec();
    assert!(!is_contained(&root, &b"/opt/app/dist-evil/secret".to_vec()));
    assert!(!is_contained(&root, &b"/opt/app/distx".to_vec()));
}

#[test]
fn containment_rejects_paths_outside_the_root() {
    let root = b"/opt/app/dist".to_vec();
    assert!(!is_contained(&root, &b"/etc/passwd".to_vec()));
    assert!(!is_contained(&root, &b"/opt/app".to_vec()));
    assert!(!is_contained(&root, &b"/opt".to_vec()));
}

#[test]
fn containment_under_a_separator_terminated_root() {
    let root = b"/".to_vec();
    assert!(is_contained(&root, &b"/etc".to_vec()));
    assert!(is_contained(&root, &b"/".to_vec()));
}

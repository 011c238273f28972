use launcher_core::http::{
    build_error_response, build_file_response, resolve_outcome, ResolveError,
};

#[test]
fn unresolvable_candidate_is_not_found() {
    let root = Some(b"/opt/app/dist".to_vec());
    assert_eq!(resolve_outcome(None, root), Err(ResolveError::NotFound));
}

#[test]
fn unresolvable_root_is_internal_error() {
    let cand = Some(b"/opt/app/dist/app.js".to_vec());
    assert_eq!(resolve_outcome(cand, None), Err(ResolveError::InternalError));
}

#[test]
fn escaping_candidate_is_forbidden() {
    let cand = Some(b"/opt/app/secret.txt".to_vec());
    let root = Some(b"/opt/app/dist".to_vec());
    assert_eq!(resolve_outcome(cand, root), Err(ResolveError::Forbidden));
}

#[test]
fn sibling_directory_is_forbidden() {
    let cand = Some(b"/opt/app/dist-evil/secret".to_vec());
    let root = Some(b"/opt/app/dist".to_vec());
    assert_eq!(resolve_outcome(cand, root), Err(ResolveError::Forbidden));
}

#[test]
fn contained_candidate_resolves_to_itself() {
    let cand = Some(b"/opt/app/dist/app.js".to_vec());
    let root = Some(b"/opt/app/dist".to_vec());
    assert_eq!(resolve_outcome(cand, root), Ok(b"/opt/app/dist/app.js".to_vec()));
}

#[test]
fn served_file_gets_200_exact_bytes_and_mime() {
    let path = b"/opt/app/dist/app.js".to_vec();
    let content = b"console.log(1);".to_vec();
    let r = build_file_response(&path, Some(content.clone()));
    assert_eq!(r.status, 200);
    assert_eq!(r.body, content);
    assert_eq!(r.content_type, "application/javascript; charset=utf-8");
    assert!(r.allow_any_origin);
}

#[test]
fn unreadable_file_gets_404() {
    let path = b"/opt/app/dist/app.js".to_vec();
    let r = build_file_response(&path, None);
    assert_eq!(r.status, 404);
    assert_eq!(r.body, b"Not Found".to_vec());
    assert_eq!(r.content_type, "text/plain; charset=utf-8");
    assert!(!r.allow_any_origin);
}

#[test]
fn not_found_response() {
    let r = build_error_response(ResolveError::NotFound);
    assert_eq!(r.status, 404);
    assert_eq!(r.body, b"Not Found".to_vec());
    assert_eq!(r.content_type, "text/plain; charset=utf-8");
    assert!(!r.allow_any_origin);
}

#[test]
fn forbidden_response_never_carries_file_bytes() {
    let r = build_error_response(ResolveError::Forbidden);
    assert_eq!(r.status, 403);
    assert_eq!(r.body, b"Forbidden".to_vec());
    assert_eq!(r.content_type, "text/plain; charset=utf-8");
    assert!(!r.allow_any_origin);
}

#[test]
fn internal_error_response() {
    let r = build_error_response(ResolveError::InternalError);
    assert_eq!(r.status, 500);
    assert_eq!(r.body, b"Internal Error".to_vec());
    assert_eq!(r.content_type, "text/plain; charset=utf-8");
    assert!(!r.allow_any_origin);
}

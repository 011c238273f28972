use launcher_core::args::{browser_url, build_backend_args, cors_origins, u16_to_decimal};

#[test]
fn decimal_rendering_is_exact() {
    assert_eq!(u16_to_decimal(0), b"0".to_vec());
    assert_eq!(u16_to_decimal(7), b"7".to_vec());
    assert_eq!(u16_to_decimal(10), b"10".to_vec());
    assert_eq!(u16_to_decimal(10001), b"10001".to_vec());
    assert_eq!(u16_to_decimal(65535), b"65535".to_vec());
}

#[test]
fn cors_origins_lists_both_forms_of_the_ui_origin() {
    assert_eq!(
        cors_origins(10000),
        b"http://localhost:10000,http://127.0.0.1:10000".to_vec()
    );
}

#[test]
fn browser_url_embeds_the_rpc_port() {
    assert_eq!(
        browser_url(10000, 10001),
        b"http://localhost:10000/?rpc_port=10001".to_vec()
    );
}

#[test]
fn backend_args_without_a_trace_file() {
    let args = build_backend_args(10001, 10000, None);
    assert_eq!(args.len(), 5);
    assert_eq!(args[0], b"-D".to_vec());
    assert_eq!(args[1], b"--http-port".to_vec());
    assert_eq!(args[2], b"10001".to_vec());
    assert_eq!(args[3], b"--http-additional-cors-origins".to_vec());
    assert_eq!(
        args[4],
        b"http://localhost:10000,http://127.0.0.1:10000".to_vec()
    );
}

#[test]
fn backend_args_append_the_trace_file_last() {
    let args = build_backend_args(4242, 4243, Some(b"/tmp/run.trace".to_vec()));
    assert_eq!(args.len(), 6);
    assert_eq!(args[2], b"4242".to_vec());
    assert_eq!(
        args[4],
        b"http://localhost:4243,http://127.0.0.1:4243".to_vec()
    );
    assert_eq!(args[5], b"/tmp/run.trace".to_vec());
}

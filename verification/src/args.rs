//! Backend invocation arguments and the browser URL.
//!
//! The backend is spawned in its RPC-serving daemon mode, told its port and
//! the two origins the UI may call from, and optionally handed a trace file
//! to preload. Everything here is byte-exact string construction: decimal
//! port rendering, the CORS origin list, the argument vector, and the URL
//! the browser is pointed at.

use vstd::prelude::*;

verus! {

/// The decimal digit byte for a value below ten.
pub open spec fn spec_digit(d: nat) -> u8 {
    (48 + d) as u8
}

/// The decimal rendering of a number, most significant digit first, with no
/// leading zeros (a lone zero for zero).
pub open spec fn spec_decimal(n: nat) -> Seq<u8>
    decreases n,
{
    if n < 10 {
        seq![spec_digit(n)]
    } else {
        spec_decimal(n / 10) + seq![spec_digit(n % 10)]
    }
}

/// Renders a port number in decimal.
pub fn u16_to_decimal(n: u16) -> (r: Vec<u8>)
    ensures
        r@ == spec_decimal(n as nat),
    decreases n,
{
    if n < 10 {
        let mut v: Vec<u8> = Vec::new();
        v.push(48 + (n as u8));
        proof {
            assert(v@ =~= spec_decimal(n as nat));
        }
        v
    } else {
        let mut v = u16_to_decimal(n / 10);
        v.push(48 + ((n % 10) as u8));
        proof {
            assert(v@ =~= spec_decimal((n / 10) as nat) + seq![spec_digit((n % 10) as nat)]);
            assert((n / 10) as nat == (n as nat) / 10);
            assert((n % 10) as nat == (n as nat) % 10);
        }
        v
    }
}

/// The daemon-mode flag, `-D`.
pub open spec fn spec_daemon_flag() -> Seq<u8> {
    seq!['-' as u8, 'D' as u8]
}

/// The RPC port flag, `--http-port`.
pub open spec fn spec_port_flag() -> Seq<u8> {
    seq![
        '-' as u8,
        '-' as u8,
        'h' as u8,
        't' as u8,
        't' as u8,
        'p' as u8,
        '-' as u8,
        'p' as u8,
        'o' as u8,
        'r' as u8,
        't' as u8,
    ]
}

/// The CORS allow-list flag, `--http-additional-cors-origins`.
pub open spec fn spec_cors_flag() -> Seq<u8> {
    seq![
        '-' as u8,
        '-' as u8,
        'h' as u8,
        't' as u8,
        't' as u8,
        'p' as u8,
        '-' as u8,
        'a' as u8,
        'd' as u8,
        'd' as u8,
        'i' as u8,
        't' as u8,
        'i' as u8,
        'o' as u8,
        'n' as u8,
        'a' as u8,
        'l' as u8,
        '-' as u8,
        'c' as u8,
        'o' as u8,
        'r' as u8,
        's' as u8,
        '-' as u8,
        'o' as u8,
        'r' as u8,
        'i' as u8,
        'g' as u8,
        'i' as u8,
        'n' as u8,
        's' as u8,
    ]
}

/// The scheme-and-host prefix `http://localhost:`.
pub open spec fn spec_localhost_prefix() -> Seq<u8> {
    seq![
        'h' as u8,
        't' as u8,
        't' as u8,
        'p' as u8,
        ':' as u8,
        '/' as u8,
        '/' as u8,
        'l' as u8,
        'o' as u8,
        'c' as u8,
        'a' as u8,
        'l' as u8,
        'h' as u8,
        'o' as u8,
        's' as u8,
        't' as u8,
        ':' as u8,
    ]
}

/// The scheme-and-host prefix `http://127.0.0.1:`.
pub open spec fn spec_loopback_prefix() -> Seq<u8> {
    seq![
        'h' as u8,
        't' as u8,
        't' as u8,
        'p' as u8,
        ':' as u8,
        '/' as u8,
        '/' as u8,
        '1' as u8,
        '2' as u8,
        '7' as u8,
        '.' as u8,
        '0' as u8,
        '.' as u8,
        '0' as u8,
        '.' as u8,
        '1' as u8,
        ':' as u8,
    ]
}

/// The query suffix `/?rpc_port=` of the browser URL.
pub open spec fn spec_rpc_query_prefix() -> Seq<u8> {
    seq![
        '/' as u8,
        '?' as u8,
        'r' as u8,
        'p' as u8,
        'c' as u8,
        '_' as u8,
        'p' as u8,
        'o' as u8,
        'r' as u8,
        't' as u8,
        '=' as u8,
    ]
}

/// The CORS origin allow-list for a UI port: its `localhost` and `127.0.0.1`
/// origins, comma-separated.
pub open spec fn spec_cors_origins(ui_port: u16) -> Seq<u8> {
    spec_localhost_prefix() + spec_decimal(ui_port as nat) + seq![',' as u8]
        + spec_loopback_prefix() + spec_decimal(ui_port as nat)
}

/// The URL the browser is opened at: the UI server's root, with the RPC port
/// embedded as a query parameter so the served UI can discover the RPC
/// endpoint.
pub open spec fn spec_browser_url(ui_port: u16, rpc_port: u16) -> Seq<u8> {
    spec_localhost_prefix() + spec_decimal(ui_port as nat) + spec_rpc_query_prefix()
        + spec_decimal(rpc_port as nat)
}

fn daemon_flag() -> (r: Vec<u8>)
    ensures
        r@ == spec_daemon_flag(),
{
    let mut v: Vec<u8> = Vec::new();
    v.push('-' as u8);
    v.push('D' as u8);
    proof {
        assert(v@ =~= spec_daemon_flag());
    }
    v
}

fn port_flag() -> (r: Vec<u8>)
    ensures
        r@ == spec_port_flag(),
{
    let mut v: Vec<u8> = Vec::new();
    v.push('-' as u8);
    v.push('-' as u8);
    v.push('h' as u8);
    v.push('t' as u8);
    v.push('t' as u8);
    v.push('p' as u8);
    v.push('-' as u8);
    v.push('p' as u8);
    v.push('o' as u8);
    v.push('r' as u8);
    v.push('t' as u8);
    proof {
        assert(v@ =~= spec_port_flag());
    }
    v
}

fn cors_flag() -> (r: Vec<u8>)
    ensures
        r@ == spec_cors_flag(),
{
    let mut v: Vec<u8> = Vec::new();
    v.push('-' as u8);
    v.push('-' as u8);
    v.push('h' as u8);
    v.push('t' as u8);
    v.push('t' as u8);
    v.push('p' as u8);
    v.push('-' as u8);
    v.push('a' as u8);
    v.push('d' as u8);
    v.push('d' as u8);
    v.push('i' as u8);
    v.push('t' as u8);
    v.push('i' as u8);
    v.push('o' as u8);
    v.push('n' as u8);
    v.push('a' as u8);
    v.push('l' as u8);
    v.push('-' as u8);
    v.push('c' as u8);
    v.push('o' as u8);
    v.push('r' as u8);
    v.push('s' as u8);
    v.push('-' as u8);
    v.push('o' as u8);
    v.push('r' as u8);
    v.push('i' as u8);
    v.push('g' as u8);
    v.push('i' as u8);
    v.push('n' as u8);
    v.push('s' as u8);
    proof {
        assert(v@ =~= spec_cors_flag());
    }
    v
}

fn localhost_prefix() -> (r: Vec<u8>)
    ensures
        r@ == spec_localhost_prefix(),
{
    let mut v: Vec<u8> = Vec::new();
    v.push('h' as u8);
    v.push('t' as u8);
    v.push('t' as u8);
    v.push('p' as u8);
    v.push(':' as u8);
    v.push('/' as u8);
    v.push('/' as u8);
    v.push('l' as u8);
    v.push('o' as u8);
    v.push('c' as u8);
    v.push('a' as u8);
    v.push('l' as u8);
    v.push('h' as u8);
    v.push('o' as u8);
    v.push('s' as u8);
    v.push('t' as u8);
    v.push(':' as u8);
    proof {
        assert(v@ =~= spec_localhost_prefix());
    }
    v
}

fn loopback_prefix() -> (r: Vec<u8>)
    ensures
        r@ == spec_loopback_prefix(),
{
    let mut v: Vec<u8> = Vec::new();
    v.push('h' as u8);
    v.push('t' as u8);
    v.push('t' as u8);
    v.push('p' as u8);
    v.push(':' as u8);
    v.push('/' as u8);
    v.push('/' as u8);
    v.push('1' as u8);
    v.push('2' as u8);
    v.push('7' as u8);
    v.push('.' as u8);
    v.push('0' as u8);
    v.push('.' as u8);
    v.push('0' as u8);
    v.push('.' as u8);
    v.push('1' as u8);
    v.push(':' as u8);
    proof {
        assert(v@ =~= spec_loopback_prefix());
    }
    v
}

fn append_vec(dst: &mut Vec<u8>, src: &Vec<u8>)
    ensures
        final(dst)@ == old(dst)@ + src@,
{
    let mut k: usize = 0;
    while k < src.len()
        invariant
            0 <= k <= src@.len(),
            dst@ =~= old(dst)@ + src@.take(k as int),
        decreases src@.len() - k,
    {
        dst.push(src[k]);
        proof {
            assert(dst@ =~= old(dst)@ + src@.take(k as int + 1));
        }
        k += 1;
    }
    proof {
        assert(dst@ =~= old(dst)@ + src@);
    }
}

/// Builds the CORS origin allow-list handed to the backend for a UI port.
pub fn cors_origins(ui_port: u16) -> (r: Vec<u8>)
    ensures
        r@ == spec_cors_origins(ui_port),
{
    let mut v = localhost_prefix();
    let dec = u16_to_decimal(ui_port);
    append_vec(&mut v, &dec);
    v.push(',' as u8);
    let lb = loopback_prefix();
    append_vec(&mut v, &lb);
    append_vec(&mut v, &dec);
    proof {
        assert(v@ =~= spec_cors_origins(ui_port));
    }
    v
}

/// Builds the URL the browser is opened at.
pub fn browser_url(ui_port: u16, rpc_port: u16) -> (r: Vec<u8>)
    ensures
        r@ == spec_browser_url(ui_port, rpc_port),
{
    let mut v = localhost_prefix();
    let dec_ui = u16_to_decimal(ui_port);
    append_vec(&mut v, &dec_ui);
    v.push('/' as u8);
    v.push('?' as u8);
    v.push('r' as u8);
    v.push('p' as u8);
    v.push('c' as u8);
    v.push('_' as u8);
    v.push('p' as u8);
    v.push('o' as u8);
    v.push('r' as u8);
    v.push('t' as u8);
    v.push('=' as u8);
    let dec_rpc = u16_to_decimal(rpc_port);
    append_vec(&mut v, &dec_rpc);
    proof {
        assert(v@ =~= spec_browser_url(ui_port, rpc_port));
    }
    v
}

/// The argument vector the backend is spawned with: daemon mode, the RPC
/// port, the CORS allow-list for the UI port, and, when a trace file is to
/// be preloaded, its path as one positional argument.
pub open spec fn spec_backend_args(rpc_port: u16, ui_port: u16, trace: Option<Seq<u8>>) -> Seq<
    Seq<u8>,
> {
    let base = seq![
        spec_daemon_flag(),
        spec_port_flag(),
        spec_decimal(rpc_port as nat),
        spec_cors_flag(),
        spec_cors_origins(ui_port),
    ];
    match trace {
        Some(t) => base + seq![t],
        None => base,
    }
}

/// Builds the argument vector the backend is spawned with.
pub fn build_backend_args(rpc_port: u16, ui_port: u16, trace: Option<Vec<u8>>) -> (r: Vec<Vec<u8>>)
    ensures
        r.deep_view() == spec_backend_args(
            rpc_port,
            ui_port,
            match trace {
                Some(ref t) => Some(t@),
                None => None,
            },
        ),
{
    let mut r: Vec<Vec<u8>> = Vec::new();
    r.push(daemon_flag());
    r.push(port_flag());
    r.push(u16_to_decimal(rpc_port));
    r.push(cors_flag());
    r.push(cors_origins(ui_port));
    match trace {
        Some(t) => {
            r.push(t);
            proof {
                assert(forall|i: int| 0 <= i < r@.len() ==> #[trigger] r@[i].deep_view() =~= r@[i]@);
                assert(r.deep_view() =~~= spec_backend_args(rpc_port, ui_port, Some(r@[5]@)));
            }
            r
        },
        None => {
            proof {
                assert(forall|i: int| 0 <= i < r@.len() ==> #[trigger] r@[i].deep_view() =~= r@[i]@);
                assert(r.deep_view() =~~= spec_backend_args(rpc_port, ui_port, None));
            }
            r
        },
    }
}

} // verus!

//! Resolution outcomes and HTTP responses.
//!
//! The surrounding binary canonicalizes the joined candidate path and the
//! root directory against the real filesystem and hands the outcomes in as
//! optional byte paths. The functions here turn those outcomes into either
//! the canonical file to serve or an error, and build the response that goes
//! back on the wire: the file's bytes under its content type with a
//! permissive cross-origin header, or a plain-text error body.

use vstd::prelude::*;

verus! {

/// Why a request path could not be resolved to a file inside the root.
#[derive(PartialEq, Eq, Structural, Clone, Copy, Debug)]
pub enum ResolveError {
    /// The candidate path does not canonicalize: no such file.
    NotFound,
    /// The candidate canonicalizes outside the root subtree.
    Forbidden,
    /// The root directory itself does not canonicalize.
    InternalError,
}

/// What resolution yields for the two canonicalization outcomes: the
/// candidate when it canonicalized inside the canonical root, and otherwise
/// the error the spec assigns to the failure.
pub open spec fn spec_outcome(cand: Option<Seq<u8>>, root: Option<Seq<u8>>) -> Result<
    Seq<u8>,
    ResolveError,
> {
    match cand {
        None => Err(ResolveError::NotFound),
        Some(c) => match root {
            None => Err(ResolveError::InternalError),
            Some(r) => if crate::paths::spec_contained(r, c) {
                Ok(c)
            } else {
                Err(ResolveError::Forbidden)
            },
        },
    }
}

/// Decides what a request resolves to, given the canonicalization outcomes
/// of the candidate path and of the root: the canonical file to serve, or
/// the error to report. A candidate that did not canonicalize is absent; so
/// is a root that did not.
pub fn resolve_outcome(cand: Option<Vec<u8>>, root: Option<Vec<u8>>) -> (r: Result<
    Vec<u8>,
    ResolveError,
>)
    ensures
        match spec_outcome(
            match cand {
                Some(ref c) => Some(c@),
                None => None,
            },
            match root {
                Some(ref t) => Some(t@),
                None => None,
            },
        ) {
            Ok(c) => r matches Ok(v) && v@ == c,
            Err(e) => r == Err::<Vec<u8>, ResolveError>(e),
        },
{
    match cand {
        None => Err(ResolveError::NotFound),
        Some(c) => match root {
            None => Err(ResolveError::InternalError),
            Some(t) => if crate::paths::is_contained(&t, &c) {
                Ok(c)
            } else {
                Err(ResolveError::Forbidden)
            },
        },
    }
}

/// An HTTP response, as plain data: the surrounding binary puts it on the
/// wire unchanged.
pub struct HttpResponse {
    /// The status code: 200, 403, 404 or 500.
    pub status: u16,
    /// The value of the `Content-Type` header.
    pub content_type: &'static str,
    /// Whether an `Access-Control-Allow-Origin: *` header is attached.
    pub allow_any_origin: bool,
    /// The body bytes.
    pub body: Vec<u8>,
}

/// The plain-text content type carried by every error response.
pub open spec fn spec_text_plain() -> Seq<char> {
    "text/plain; charset=utf-8"@
}

/// The body of a 404 response.
pub open spec fn spec_not_found_body() -> Seq<u8> {
    seq!['N' as u8, 'o' as u8, 't' as u8, ' ' as u8, 'F' as u8, 'o' as u8, 'u' as u8, 'n' as u8, 'd' as u8]
}

/// The body of a 403 response.
pub open spec fn spec_forbidden_body() -> Seq<u8> {
    seq![
        'F' as u8,
        'o' as u8,
        'r' as u8,
        'b' as u8,
        'i' as u8,
        'd' as u8,
        'd' as u8,
        'e' as u8,
        'n' as u8,
    ]
}

/// The body of a 500 response.
pub open spec fn spec_internal_error_body() -> Seq<u8> {
    seq![
        'I' as u8,
        'n' as u8,
        't' as u8,
        'e' as u8,
        'r' as u8,
        'n' as u8,
        'a' as u8,
        'l' as u8,
        ' ' as u8,
        'E' as u8,
        'r' as u8,
        'r' as u8,
        'o' as u8,
        'r' as u8,
    ]
}

/// The status code an unresolved request is answered with.
pub open spec fn spec_error_status(e: ResolveError) -> u16 {
    match e {
        ResolveError::NotFound => 404,
        ResolveError::Forbidden => 403,
        ResolveError::InternalError => 500,
    }
}

/// The body text an unresolved request is answered with.
pub open spec fn spec_error_body(e: ResolveError) -> Seq<u8> {
    match e {
        ResolveError::NotFound => spec_not_found_body(),
        ResolveError::Forbidden => spec_forbidden_body(),
        ResolveError::InternalError => spec_internal_error_body(),
    }
}

fn not_found_body() -> (r: Vec<u8>)
    ensures
        r@ == spec_not_found_body(),
{
    let mut v: Vec<u8> = Vec::new();
    v.push('N' as u8);
    v.push('o' as u8);
    v.push('t' as u8);
    v.push(' ' as u8);
    v.push('F' as u8);
    v.push('o' as u8);
    v.push('u' as u8);
    v.push('n' as u8);
    v.push('d' as u8);
    proof {
        assert(v@ =~= spec_not_found_body());
    }
    v
}

fn forbidden_body() -> (r: Vec<u8>)
    ensures
        r@ == spec_forbidden_body(),
{
    let mut v: Vec<u8> = Vec::new();
    v.push('F' as u8);
    v.push('o' as u8);
    v.push('r' as u8);
    v.push('b' as u8);
    v.push('i' as u8);
    v.push('d' as u8);
    v.push('d' as u8);
    v.push('e' as u8);
    v.push('n' as u8);
    proof {
        assert(v@ =~= spec_forbidden_body());
    }
    v
}

fn internal_error_body() -> (r: Vec<u8>)
    ensures
        r@ == spec_internal_error_body(),
{
    let mut v: Vec<u8> = Vec::new();
    v.push('I' as u8);
    v.push('n' as u8);
    v.push('t' as u8);
    v.push('e' as u8);
    v.push('r' as u8);
    v.push('n' as u8);
    v.push('a' as u8);
    v.push('l' as u8);
    v.push(' ' as u8);
    v.push('E' as u8);
    v.push('r' as u8);
    v.push('r' as u8);
    v.push('o' as u8);
    v.push('r' as u8);
    proof {
        assert(v@ =~= spec_internal_error_body());
    }
    v
}

/// Builds the response for a file that was read: 200 with the exact bytes,
/// the content type of the path's extension, and the permissive
/// cross-origin header. A file that resolved but could not be read is
/// answered 404, exactly like one that never resolved.
pub fn build_file_response(path: &Vec<u8>, read_result: Option<Vec<u8>>) -> (r: HttpResponse)
    ensures
        match read_result {
            Some(ref content) => {
                &&& r.status == 200
                &&& r.body@ == content@
                &&& r.content_type@ == crate::mime::spec_mime(crate::mime::spec_extension(path@))
                &&& r.allow_any_origin
            },
            None => {
                &&& r.status == 404
                &&& r.body@ == spec_not_found_body()
                &&& r.content_type@ == spec_text_plain()
                &&& !r.allow_any_origin
            },
        },
{
    match read_result {
        Some(content) => HttpResponse {
            status: 200,
            content_type: crate::mime::get_mime_type(path),
            allow_any_origin: true,
            body: content,
        },
        None => build_error_response(ResolveError::NotFound),
    }
}

/// Builds the plain-text response for a request that did not resolve: 404
/// `Not Found`, 403 `Forbidden`, or 500 `Internal Error`.
pub fn build_error_response(e: ResolveError) -> (r: HttpResponse)
    ensures
        r.status == spec_error_status(e),
        r.body@ == spec_error_body(e),
        r.content_type@ == spec_text_plain(),
        !r.allow_any_origin,
{
    proof {
        reveal_strlit("text/plain; charset=utf-8");
    }
    match e {
        ResolveError::NotFound => HttpResponse {
            status: 404,
            content_type: "text/plain; charset=utf-8",
            allow_any_origin: false,
            body: not_found_body(),
        },
        ResolveError::Forbidden => HttpResponse {
            status: 403,
            content_type: "text/plain; charset=utf-8",
            allow_any_origin: false,
            body: forbidden_body(),
        },
        ResolveError::InternalError => HttpResponse {
            status: 500,
            content_type: "text/plain; charset=utf-8",
            allow_any_origin: false,
            body: internal_error_body(),
        },
    }
}

/// A candidate that canonicalizes inside the canonical root is resolved to
/// exactly that canonical file — and only such a candidate is: every other
/// one is refused as `Forbidden`, so no response is ever produced for a path
/// outside the root subtree.
pub proof fn lemma_containment_decides_service(root: Seq<u8>, cand: Seq<u8>)
    ensures
        crate::paths::spec_contained(root, cand) ==> spec_outcome(Some(cand), Some(root)) == Ok::<
            Seq<u8>,
            ResolveError,
        >(cand),
        !crate::paths::spec_contained(root, cand) ==> spec_outcome(Some(cand), Some(root)) == Err::<
            Seq<u8>,
            ResolveError,
        >(ResolveError::Forbidden),
{
}

} // verus!

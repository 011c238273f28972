//! The content-type table.
//!
//! A served file's content type is determined purely by its extension: the
//! part of its file name after the last dot, provided that dot is not the
//! name's first byte. A fixed table maps the known extensions to their MIME
//! strings; everything else is generic binary.

use vstd::prelude::*;

verus! {

/// The dot byte.
pub const DOT: u8 = 46;

/// The file name of a path: its longest suffix free of separator bytes.
pub open spec fn spec_file_name(p: Seq<u8>) -> Seq<u8>
    decreases p.len(),
{
    if p.len() == 0 {
        Seq::empty()
    } else if p.last() == crate::paths::SEP {
        Seq::empty()
    } else {
        spec_file_name(p.drop_last()) + seq![p.last()]
    }
}

/// The extension of a file name: what follows its last dot, provided that
/// dot is not the name's first byte. A name with no dot, or whose only dot
/// leads it (a hidden file), has none.
pub open spec fn spec_name_extension(name: Seq<u8>) -> Option<Seq<u8>>
    decreases name.len(),
{
    if name.len() == 0 {
        None
    } else if name.last() == DOT {
        if name.len() >= 2 {
            Some(Seq::empty())
        } else {
            None
        }
    } else {
        match spec_name_extension(name.drop_last()) {
            Some(e) => Some(e + seq![name.last()]),
            None => None,
        }
    }
}

/// The extension of a path: the extension of its file name.
pub open spec fn spec_extension(p: Seq<u8>) -> Option<Seq<u8>> {
    spec_name_extension(spec_file_name(p))
}

/// The fixed table from extension to MIME string; an unknown or absent
/// extension is generic binary.
pub open spec fn spec_mime(ext: Option<Seq<u8>>) -> Seq<char> {
    match ext {
        None => "application/octet-stream"@,
        Some(e) => {
            if e == seq!['h' as u8, 't' as u8, 'm' as u8, 'l' as u8] {
                "text/html; charset=utf-8"@
            } else if e == seq!['j' as u8, 's' as u8] {
                "application/javascript; charset=utf-8"@
            } else if e == seq!['c' as u8, 's' as u8, 's' as u8] {
                "text/css; charset=utf-8"@
            } else if e == seq!['j' as u8, 's' as u8, 'o' as u8, 'n' as u8] {
                "application/json; charset=utf-8"@
            } else if e == seq!['w' as u8, 'a' as u8, 's' as u8, 'm' as u8] {
                "application/wasm"@
            } else if e == seq!['p' as u8, 'n' as u8, 'g' as u8] {
                "image/png"@
            } else if e == seq!['j' as u8, 'p' as u8, 'g' as u8] {
                "image/jpeg"@
            } else if e == seq!['j' as u8, 'p' as u8, 'e' as u8, 'g' as u8] {
                "image/jpeg"@
            } else if e == seq!['g' as u8, 'i' as u8, 'f' as u8] {
                "image/gif"@
            } else if e == seq!['s' as u8, 'v' as u8, 'g' as u8] {
                "image/svg+xml"@
            } else if e == seq!['i' as u8, 'c' as u8, 'o' as u8] {
                "image/x-icon"@
            } else if e == seq!['w' as u8, 'o' as u8, 'f' as u8, 'f' as u8] {
                "font/woff"@
            } else if e == seq!['w' as u8, 'o' as u8, 'f' as u8, 'f' as u8, '2' as u8] {
                "font/woff2"@
            } else if e == seq!['t' as u8, 't' as u8, 'f' as u8] {
                "font/ttf"@
            } else if e == seq!['m' as u8, 'a' as u8, 'p' as u8] {
                "application/json"@
            } else {
                "application/octet-stream"@
            }
        },
    }
}

proof fn lemma_file_name_after(p: Seq<u8>, n: int)
    requires
        0 <= n <= p.len(),
        forall|j: int| n <= j < p.len() ==> p[j] != crate::paths::SEP,
        n > 0 ==> p[n - 1] == crate::paths::SEP,
    ensures
        spec_file_name(p) == p.skip(n),
    decreases p.len(),
{
    if p.len() == n {
        assert(p.skip(n) =~= Seq::<u8>::empty());
        if n > 0 {
            assert(p.last() == crate::paths::SEP);
        }
    } else {
        assert(p.last() != crate::paths::SEP);
        lemma_file_name_after(p.drop_last(), n);
        assert(p.drop_last().skip(n) =~= p.skip(n).drop_last());
        assert(p.skip(n).drop_last() + seq![p.last()] =~= p.skip(n));
    }
}

proof fn lemma_name_extension_after(name: Seq<u8>, d: int)
    requires
        2 <= d < name.len(),
        name[d - 1] == DOT,
        forall|j: int| d <= j < name.len() ==> name[j] != DOT,
    ensures
        spec_name_extension(name) == Some(name.skip(d)),
    decreases name.len(),
{
    assert(name.last() != DOT);
    if name.len() == d + 1 {
        assert(name.drop_last().last() == DOT);
        assert(name.drop_last().len() == d >= 2);
        assert(spec_name_extension(name.drop_last()) == Some(Seq::<u8>::empty()));
        assert(Seq::<u8>::empty() + seq![name.last()] =~= name.skip(d));
    } else {
        lemma_name_extension_after(name.drop_last(), d);
        assert(name.drop_last().skip(d) =~= name.skip(d).drop_last());
        assert(name.skip(d).drop_last() + seq![name.last()] =~= name.skip(d));
    }
}

proof fn lemma_name_extension_none(name: Seq<u8>)
    requires
        forall|j: int| 1 <= j < name.len() ==> name[j] != DOT,
    ensures
        spec_name_extension(name) is None,
    decreases name.len(),
{
    if name.len() == 0 {
    } else if name.last() == DOT {
        assert(name.len() == 1);
    } else {
        lemma_name_extension_none(name.drop_last());
    }
}

/// The bounds of the extension inside `p`: scans for the last separator and
/// the last dot, and yields the index right after the qualifying dot, or
/// nothing.
fn extension_start(p: &Vec<u8>) -> (r: Option<usize>)
    ensures
        match r {
            Some(d) => 0 < d <= p@.len() && spec_extension(p@) == Some(p@.skip(d as int)),
            None => spec_extension(p@) is None,
        },
{
    // Find the start of the file name: the index after the last separator.
    let mut name_start: usize = 0;
    let mut i: usize = 0;
    while i < p.len()
        invariant
            0 <= name_start <= i <= p@.len(),
            forall|j: int| name_start <= j < i ==> p@[j] != crate::paths::SEP,
            name_start > 0 ==> p@[name_start - 1] == crate::paths::SEP,
        decreases p@.len() - i,
    {
        if p[i] == crate::paths::SEP {
            name_start = i + 1;
        }
        i += 1;
    }
    proof {
        lemma_file_name_after(p@, name_start as int);
    }
    let ghost name = p@.skip(name_start as int);
    // Find the last dot strictly after the file name's first byte.
    let mut dot_after: usize = 0;  // 0: none found; otherwise the index after the dot
    let mut k: usize = name_start;
    while k < p.len()
        invariant
            name_start <= k <= p@.len(),
            dot_after == 0 ==> forall|j: int| name_start < j < k ==> p@[j] != DOT,
            dot_after != 0 ==> {
                &&& name_start + 1 < dot_after <= k
                &&& p@[dot_after - 1] == DOT
                &&& forall|j: int| dot_after <= j < k ==> p@[j] != DOT
            },
        decreases p@.len() - k,
    {
        if p[k] == DOT && k > name_start {
            dot_after = k + 1;
        }
        k += 1;
    }
    proof {
        assert(forall|j: int| 0 <= j < name.len() ==> name[j] == p@[name_start + j]);
    }
    if dot_after == 0 {
        proof {
            lemma_name_extension_none(name);
        }
        None
    } else {
        proof {
            let d = dot_after - name_start;
            assert(2 <= d <= name.len());
            if d == name.len() {
                // The dot is the name's last byte: the extension is empty.
                assert(name.last() == DOT);
                assert(spec_name_extension(name) == Some(Seq::<u8>::empty()));
                assert(p@.skip(dot_after as int) =~= Seq::<u8>::empty());
            } else {
                assert(name[d - 1] == DOT);
                lemma_name_extension_after(name, d);
                assert(name.skip(d) =~= p@.skip(dot_after as int));
            }
        }
        Some(dot_after)
    }
}

/// Looks a path's extension up in the fixed content-type table.
pub fn get_mime_type(path: &Vec<u8>) -> (r: &'static str)
    ensures
        r@ == spec_mime(spec_extension(path@)),
{
    let start = extension_start(path);
    match start {
        None => {
            proof {
                reveal_strlit("application/octet-stream");
            }
            "application/octet-stream"
        },
        Some(d) => {
            let n = path.len() - d;
            let ghost e = path@.skip(d as int);
            proof {
                assert(e.len() == n);
                assert(forall|j: int| 0 <= j < n ==> e[j] == path@[d + j]);
            }
            if n == 4 && path[d] == 'h' as u8 && path[d + 1] == 't' as u8 && path[d + 2] == 'm' as u8
                && path[d + 3] == 'l' as u8 {
                proof {
                    assert(e =~= seq!['h' as u8, 't' as u8, 'm' as u8, 'l' as u8]);
                    reveal_strlit("text/html; charset=utf-8");
                }
                "text/html; charset=utf-8"
            } else if n == 2 && path[d] == 'j' as u8 && path[d + 1] == 's' as u8 {
                proof {
                    assert(e =~= seq!['j' as u8, 's' as u8]);
                    reveal_strlit("application/javascript; charset=utf-8");
                }
                "application/javascript; charset=utf-8"
            } else if n == 3 && path[d] == 'c' as u8 && path[d + 1] == 's' as u8
                && path[d + 2] == 's' as u8 {
                proof {
                    assert(e =~= seq!['c' as u8, 's' as u8, 's' as u8]);
                    reveal_strlit("text/css; charset=utf-8");
                }
                "text/css; charset=utf-8"
            } else if n == 4 && path[d] == 'j' as u8 && path[d + 1] == 's' as u8
                && path[d + 2] == 'o' as u8 && path[d + 3] == 'n' as u8 {
                proof {
                    assert(e =~= seq!['j' as u8, 's' as u8, 'o' as u8, 'n' as u8]);
                    reveal_strlit("application/json; charset=utf-8");
                }
                "application/json; charset=utf-8"
            } else if n == 4 && path[d] == 'w' as u8 && path[d + 1] == 'a' as u8
                && path[d + 2] == 's' as u8 && path[d + 3] == 'm' as u8 {
                proof {
                    assert(e =~= seq!['w' as u8, 'a' as u8, 's' as u8, 'm' as u8]);
                    reveal_strlit("application/wasm");
                }
                "application/wasm"
            } else if n == 3 && path[d] == 'p' as u8 && path[d + 1] == 'n' as u8
                && path[d + 2] == 'g' as u8 {
                proof {
                    assert(e =~= seq!['p' as u8, 'n' as u8, 'g' as u8]);
                    reveal_strlit("image/png");
                }
                "image/png"
            } else if n == 3 && path[d] == 'j' as u8 && path[d + 1] == 'p' as u8
                && path[d + 2] == 'g' as u8 {
                proof {
                    assert(e =~= seq!['j' as u8, 'p' as u8, 'g' as u8]);
                    reveal_strlit("image/jpeg");
                }
                "image/jpeg"
            } else if n == 4 && path[d] == 'j' as u8 && path[d + 1] == 'p' as u8
                && path[d + 2] == 'e' as u8 && path[d + 3] == 'g' as u8 {
                proof {
                    assert(e =~= seq!['j' as u8, 'p' as u8, 'e' as u8, 'g' as u8]);
                    reveal_strlit("image/jpeg");
                }
                "image/jpeg"
            } else if n == 3 && path[d] == 'g' as u8 && path[d + 1] == 'i' as u8
                && path[d + 2] == 'f' as u8 {
                proof {
                    assert(e =~= seq!['g' as u8, 'i' as u8, 'f' as u8]);
                    reveal_strlit("image/gif");
                }
                "image/gif"
            } else if n == 3 && path[d] == 's' as u8 && path[d + 1] == 'v' as u8
                && path[d + 2] == 'g' as u8 {
                proof {
                    assert(e =~= seq!['s' as u8, 'v' as u8, 'g' as u8]);
                    reveal_strlit("image/svg+xml");
                }
                "image/svg+xml"
            } else if n == 3 && path[d] == 'i' as u8 && path[d + 1] == 'c' as u8
                && path[d + 2] == 'o' as u8 {
                proof {
                    assert(e =~= seq!['i' as u8, 'c' as u8, 'o' as u8]);
                    reveal_strlit("image/x-icon");
                }
                "image/x-icon"
            } else if n == 4 && path[d] == 'w' as u8 && path[d + 1] == 'o' as u8
                && path[d + 2] == 'f' as u8 && path[d + 3] == 'f' as u8 {
                proof {
                    assert(e =~= seq!['w' as u8, 'o' as u8, 'f' as u8, 'f' as u8]);
                    reveal_strlit("font/woff");
                }
                "font/woff"
            } else if n == 5 && path[d] == 'w' as u8 && path[d + 1] == 'o' as u8
                && path[d + 2] == 'f' as u8 && path[d + 3] == 'f' as u8
                && path[d + 4] == '2' as u8 {
                proof {
                    assert(e =~= seq!['w' as u8, 'o' as u8, 'f' as u8, 'f' as u8, '2' as u8]);
                    reveal_strlit("font/woff2");
                }
                "font/woff2"
            } else if n == 3 && path[d] == 't' as u8 && path[d + 1] == 't' as u8
                && path[d + 2] == 'f' as u8 {
                proof {
                    assert(e =~= seq!['t' as u8, 't' as u8, 'f' as u8]);
                    reveal_strlit("font/ttf");
                }
                "font/ttf"
            } else if n == 3 && path[d] == 'm' as u8 && path[d + 1] == 'a' as u8
                && path[d + 2] == 'p' as u8 {
                proof {
                    assert(e =~= seq!['m' as u8, 'a' as u8, 'p' as u8]);
                    reveal_strlit("application/json");
                }
                "application/json"
            } else {
                proof {
                    reveal_strlit("application/octet-stream");
                }
                "application/octet-stream"
            }
        },
    }
}

} // verus!

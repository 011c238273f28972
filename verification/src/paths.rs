//! Request-path normalization and the containment check.
//!
//! A request path arrives as the raw bytes of an HTTP request's URL. It is
//! normalized here: the query string and leading separators are stripped and
//! an empty remainder is replaced by the entry file name. The surrounding
//! binary joins the result onto the root directory and canonicalizes both
//! against the real filesystem; the containment check here then decides, on
//! the two canonical paths, whether the candidate lies inside the root.

use vstd::prelude::*;

verus! {

/// The path separator byte.
pub const SEP: u8 = 47;

/// The byte that starts a query string.
pub const QUERY: u8 = 63;

/// The bytes of the entry file name, `index.html`.
pub open spec fn spec_index_html() -> Seq<u8> {
    seq![
        'i' as u8,
        'n' as u8,
        'd' as u8,
        'e' as u8,
        'x' as u8,
        '.' as u8,
        'h' as u8,
        't' as u8,
        'm' as u8,
        'l' as u8,
    ]
}

/// The entry file name as a byte vector.
pub fn index_html() -> (r: Vec<u8>)
    ensures
        r@ == spec_index_html(),
{
    let mut v: Vec<u8> = Vec::new();
    v.push('i' as u8);
    v.push('n' as u8);
    v.push('d' as u8);
    v.push('e' as u8);
    v.push('x' as u8);
    v.push('.' as u8);
    v.push('h' as u8);
    v.push('t' as u8);
    v.push('m' as u8);
    v.push('l' as u8);
    proof {
        assert(v@ =~= spec_index_html());
    }
    v
}

/// The prefix of `p` before its first query byte: the whole of `p` when it
/// has none.
pub open spec fn spec_strip_query(p: Seq<u8>) -> Seq<u8>
    decreases p.len(),
{
    if p.len() == 0 {
        p
    } else if p[0] == QUERY {
        Seq::empty()
    } else {
        seq![p[0]] + spec_strip_query(p.drop_first())
    }
}

/// `p` without its leading separator bytes.
pub open spec fn spec_strip_leading_seps(p: Seq<u8>) -> Seq<u8>
    decreases p.len(),
{
    if p.len() > 0 && p[0] == SEP {
        spec_strip_leading_seps(p.drop_first())
    } else {
        p
    }
}

/// The relative path a request URL asks for: the query string and leading
/// separators stripped, and an empty remainder replaced by the entry file
/// name.
pub open spec fn spec_resolve_request(url: Seq<u8>) -> Seq<u8> {
    let s = spec_strip_leading_seps(spec_strip_query(url));
    if s.len() == 0 {
        spec_index_html()
    } else {
        s
    }
}

proof fn lemma_strip_query_take(p: Seq<u8>, n: int)
    requires
        0 <= n <= p.len(),
        forall|j: int| 0 <= j < n ==> p[j] != QUERY,
        n < p.len() ==> p[n] == QUERY,
    ensures
        spec_strip_query(p) == p.take(n),
    decreases p.len(),
{
    if p.len() == 0 {
        assert(p.take(n) =~= p);
    } else if p[0] == QUERY {
        assert(n == 0);
        assert(p.take(0) =~= Seq::<u8>::empty());
    } else {
        assert(n >= 1);
        lemma_strip_query_take(p.drop_first(), n - 1);
        assert(p.drop_first().take(n - 1) =~= p.take(n).drop_first());
        assert(seq![p[0]] + p.take(n).drop_first() =~= p.take(n));
    }
}

/// Cuts `p` at its first query byte.
pub fn strip_query(p: &Vec<u8>) -> (r: Vec<u8>)
    ensures
        r@ == spec_strip_query(p@),
{
    let mut i: usize = 0;
    while i < p.len() && p[i] != QUERY
        invariant
            0 <= i <= p@.len(),
            forall|j: int| 0 <= j < i ==> p@[j] != QUERY,
        decreases p@.len() - i,
    {
        i += 1;
    }
    proof {
        lemma_strip_query_take(p@, i as int);
    }
    let mut r: Vec<u8> = Vec::new();
    let mut k: usize = 0;
    while k < i
        invariant
            0 <= k <= i <= p@.len(),
            r@ =~= p@.take(k as int),
        decreases i - k,
    {
        r.push(p[k]);
        proof {
            assert(r@ =~= p@.take(k as int + 1));
        }
        k += 1;
    }
    proof {
        assert(r@ =~= p@.take(i as int));
    }
    r
}

proof fn lemma_strip_seps_skip(p: Seq<u8>, n: int)
    requires
        0 <= n <= p.len(),
        forall|j: int| 0 <= j < n ==> p[j] == SEP,
        n < p.len() ==> p[n] != SEP,
    ensures
        spec_strip_leading_seps(p) == p.skip(n),
    decreases n,
{
    if n == 0 {
        assert(p.skip(0) =~= p);
    } else {
        assert(p[0] == SEP);
        lemma_strip_seps_skip(p.drop_first(), n - 1);
        assert(p.drop_first().skip(n - 1) =~= p.skip(n));
    }
}

/// Removes every leading separator byte from `p`.
pub fn strip_leading_seps(p: &Vec<u8>) -> (r: Vec<u8>)
    ensures
        r@ == spec_strip_leading_seps(p@),
{
    let mut i: usize = 0;
    while i < p.len() && p[i] == SEP
        invariant
            0 <= i <= p@.len(),
            forall|j: int| 0 <= j < i ==> p@[j] == SEP,
        decreases p@.len() - i,
    {
        i += 1;
    }
    proof {
        lemma_strip_seps_skip(p@, i as int);
    }
    let mut r: Vec<u8> = Vec::new();
    let mut k: usize = i;
    while k < p.len()
        invariant
            i <= k <= p@.len(),
            r@ =~= p@.subrange(i as int, k as int),
        decreases p@.len() - k,
    {
        r.push(p[k]);
        proof {
            assert(r@ =~= p@.subrange(i as int, k as int + 1));
        }
        k += 1;
    }
    proof {
        assert(r@ =~= p@.skip(i as int));
    }
    r
}

/// Normalizes a request URL to the relative path it asks for: everything
/// from the first query byte on is ignored, leading separators are dropped,
/// and an empty remainder stands for the entry file.
pub fn resolve_request_path(url: &Vec<u8>) -> (r: Vec<u8>)
    ensures
        r@ == spec_resolve_request(url@),
{
    let q = strip_query(url);
    let s = strip_leading_seps(&q);
    if s.len() == 0 {
        index_html()
    } else {
        s
    }
}

/// Joins the root directory and a relative path with a single separator.
/// The result is a candidate only: the surrounding binary canonicalizes it
/// before the containment check.
pub fn join_path(root: &Vec<u8>, rel: &Vec<u8>) -> (r: Vec<u8>)
    ensures
        r@ == root@ + seq![SEP] + rel@,
{
    let mut r: Vec<u8> = Vec::new();
    let mut k: usize = 0;
    while k < root.len()
        invariant
            0 <= k <= root@.len(),
            r@ =~= root@.take(k as int),
        decreases root@.len() - k,
    {
        r.push(root[k]);
        proof {
            assert(r@ =~= root@.take(k as int + 1));
        }
        k += 1;
    }
    r.push(SEP);
    let mut j: usize = 0;
    while j < rel.len()
        invariant
            0 <= j <= rel@.len(),
            r@ =~= root@ + seq![SEP] + rel@.take(j as int),
        decreases rel@.len() - j,
    {
        r.push(rel[j]);
        proof {
            assert(r@ =~= root@ + seq![SEP] + rel@.take(j as int + 1));
        }
        j += 1;
    }
    proof {
        assert(r@ =~= root@ + seq![SEP] + rel@);
    }
    r
}

/// Whether the canonical path `cand` is the canonical root itself or lies
/// inside its subtree. Both arguments must already be canonical: absolute,
/// free of `..` and duplicate separators, and without a trailing separator
/// (except a root directory of a single separator). Containment is then a
/// component-wise prefix: `cand` equals `root`, or extends it at a component
/// boundary. Comparing at the boundary is what keeps a sibling such as
/// `/opt/app/dist-evil` from passing a check against `/opt/app/dist`.
pub open spec fn spec_contained(root: Seq<u8>, cand: Seq<u8>) -> bool {
    ||| root == cand
    ||| {
        &&& root.len() < cand.len()
        &&& cand.take(root.len() as int) == root
        &&& (cand[root.len() as int] == SEP || (root.len() > 0 && root[root.len() - 1] == SEP))
    }
}

/// Decides whether canonical path `cand` lies within the canonical `root`
/// subtree (or is the root itself).
pub fn is_contained(root: &Vec<u8>, cand: &Vec<u8>) -> (r: bool)
    ensures
        r == spec_contained(root@, cand@),
{
    if cand.len() < root.len() {
        proof {
            assert(!spec_contained(root@, cand@));
        }
        return false;
    }
    let mut k: usize = 0;
    while k < root.len()
        invariant
            0 <= k <= root@.len() <= cand@.len(),
            forall|j: int| 0 <= j < k ==> root@[j] == cand@[j],
        decreases root@.len() - k,
    {
        if root[k] != cand[k] {
            proof {
                assert(cand@.take(root@.len() as int)[k as int] != root@[k as int]);
                assert(root@ != cand@);
            }
            return false;
        }
        k += 1;
    }
    if cand.len() == root.len() {
        proof {
            assert(root@ =~= cand@);
        }
        true
    } else {
        proof {
            assert(cand@.take(root@.len() as int) =~= root@);
            assert(root@.len() < cand@.len() ==> root@ != cand@);
        }
        if cand[root.len()] == SEP {
            true
        } else if root.len() > 0 && root[root.len() - 1] == SEP {
            true
        } else {
            false
        }
    }
}

/// Everything from the first query byte on is ignored: a URL made of a
/// query-free path, the query byte, and any tail resolves exactly as the
/// path alone does.
pub proof fn lemma_query_ignored(p: Seq<u8>, tail: Seq<u8>)
    requires
        forall|j: int| 0 <= j < p.len() ==> p[j] != QUERY,
    ensures
        spec_resolve_request(p + seq![QUERY] + tail) == spec_resolve_request(p),
{
    let u = p + seq![QUERY] + tail;
    assert(u.len() == p.len() + 1 + tail.len());
    assert(forall|j: int| 0 <= j < p.len() ==> u[j] == p[j]);
    assert(u[p.len() as int] == QUERY);
    lemma_strip_query_take(u, p.len() as int);
    lemma_strip_query_no_query(p);
    assert(u.take(p.len() as int) =~= p);
}

/// A path without a query byte is left whole by the query strip.
pub proof fn lemma_strip_query_no_query(p: Seq<u8>)
    requires
        forall|j: int| 0 <= j < p.len() ==> p[j] != QUERY,
    ensures
        spec_strip_query(p) == p,
{
    lemma_strip_query_take(p, p.len() as int);
    assert(p.take(p.len() as int) =~= p);
}

/// The last component of `p`: its longest separator-free suffix.
pub open spec fn spec_last_component(p: Seq<u8>) -> Seq<u8>
    decreases p.len(),
{
    if p.len() == 0 {
        Seq::empty()
    } else if p.last() == SEP {
        Seq::empty()
    } else {
        spec_last_component(p.drop_last()) + seq![p.last()]
    }
}

proof fn lemma_last_component_le(p: Seq<u8>)
    ensures
        spec_last_component(p).len() <= p.len(),
    decreases p.len(),
{
    if p.len() > 0 && p.last() != SEP {
        lemma_last_component_le(p.drop_last());
    }
}

proof fn lemma_last_component_bounds(p: Seq<u8>)
    requires
        p.len() > 0,
        p.last() != SEP,
    ensures
        1 <= spec_last_component(p).len() <= p.len(),
{
    lemma_last_component_le(p.drop_last());
}

proof fn lemma_last_component_is_suffix(p: Seq<u8>)
    ensures
        spec_last_component(p).len() <= p.len(),
        spec_last_component(p) == p.skip(p.len() - spec_last_component(p).len()),
        forall|j: int| 0 <= j < spec_last_component(p).len() ==> spec_last_component(p)[j] != SEP,
    decreases p.len(),
{
    let c = spec_last_component(p);
    if p.len() == 0 || p.last() == SEP {
        assert(c =~= p.skip(p.len() - c.len()));
    } else {
        lemma_last_component_is_suffix(p.drop_last());
        let cd = spec_last_component(p.drop_last());
        assert(p.drop_last().skip(p.len() - 1 - cd.len()) =~= p.skip(p.len() - c.len()).drop_last());
        assert(c =~= p.skip(p.len() - c.len()));
    }
}

/// The components of a path: its maximal separator-free runs, in order.
pub open spec fn spec_components(p: Seq<u8>) -> Seq<Seq<u8>>
    decreases p.len(),
    via spec_components_decreases
{
    if p.len() == 0 {
        Seq::empty()
    } else if p.last() == SEP {
        spec_components(p.drop_last())
    } else {
        spec_components(p.take(p.len() - spec_last_component(p).len())) + seq![
            spec_last_component(p),
        ]
    }
}

#[via_fn]
proof fn spec_components_decreases(p: Seq<u8>) {
    if p.len() > 0 && p.last() != SEP {
        lemma_last_component_bounds(p);
    }
}

proof fn lemma_last_component_concat(a: Seq<u8>, b: Seq<u8>)
    requires
        b.len() > 0,
        b[0] == SEP,
    ensures
        spec_last_component(a + b) == spec_last_component(b),
    decreases b.len(),
{
    if b.len() == 1 {
        assert((a + b).last() == SEP);
    } else if b.last() == SEP {
        assert((a + b).last() == SEP);
    } else {
        assert((a + b).drop_last() =~= a + b.drop_last());
        lemma_last_component_concat(a, b.drop_last());
    }
}

proof fn lemma_components_concat(a: Seq<u8>, b: Seq<u8>)
    requires
        b.len() > 0,
        b[0] == SEP,
    ensures
        spec_components(a + b) == spec_components(a) + spec_components(b),
    decreases b.len(),
{
    if b.last() == SEP {
        assert((a + b).last() == SEP);
        if b.len() == 1 {
            assert((a + b).drop_last() =~= a);
            reveal_with_fuel(spec_components, 2);
            assert(b.drop_last() =~= Seq::<u8>::empty());
            assert(spec_components(b) =~= Seq::<Seq<u8>>::empty());
            assert(spec_components(a) + Seq::<Seq<u8>>::empty() =~= spec_components(a));
        } else {
            assert((a + b).drop_last() =~= a + b.drop_last());
            lemma_components_concat(a, b.drop_last());
        }
    } else {
        let u = a + b;
        let c = spec_last_component(b);
        lemma_last_component_concat(a, b);
        assert(spec_last_component(u) == c);
        lemma_last_component_is_suffix(b);
        // The last component is separator-free, while b starts with a
        // separator, so it is a strict suffix of b.
        assert(c.len() < b.len()) by {
            if c.len() == b.len() {
                assert(c == b.skip(0));
                assert(b.skip(0) =~= b);
                assert(c[0] == SEP);
            }
        }
        let b_rest = b.take(b.len() - c.len());
        assert(b_rest.len() >= 1);
        assert(b_rest[0] == SEP);
        assert(u.take(u.len() - c.len()) =~= a + b_rest);
        lemma_components_concat(a, b_rest);
        assert(spec_components(b) == spec_components(b_rest) + seq![c]);
        assert(spec_components(a) + (spec_components(b_rest) + seq![c]) =~= (spec_components(a)
            + spec_components(b_rest)) + seq![c]);
    }
}

/// Whether `p` is in canonical form: absolute, free of duplicate separators,
/// and without a trailing separator — except the filesystem root, a single
/// separator. Canonicalizing against the real filesystem yields such a path.
pub open spec fn spec_canonical_shape(p: Seq<u8>) -> bool {
    &&& p.len() > 0
    &&& p[0] == SEP
    &&& forall|i: int| 0 < i < p.len() ==> !(p[i - 1] == SEP && #[trigger] p[i] == SEP)
    &&& p.len() > 1 ==> p.last() != SEP
}

/// Containment never mistakes a sibling for a descendant: whenever the check
/// accepts `cand` against `root`, the components of `root` — its maximal
/// separator-free runs, in order — are a prefix of the components of `cand`.
/// The check is thus a component-wise prefix match, not a raw string-prefix
/// match.
pub proof fn lemma_contained_is_component_prefix(root: Seq<u8>, cand: Seq<u8>)
    requires
        spec_contained(root, cand),
    ensures
        spec_components(root).is_prefix_of(spec_components(cand)),
{
    if root == cand {
        assert(spec_components(root).is_prefix_of(spec_components(cand)));
    } else if cand[root.len() as int] == SEP {
        let rest = cand.skip(root.len() as int);
        assert(cand =~= root + rest);
        lemma_components_concat(root, rest);
        assert(spec_components(cand).take(spec_components(root).len() as int)
            =~= spec_components(root));
    } else {
        // The root itself ends with a separator.
        assert(root.len() > 0 && root[root.len() - 1] == SEP);
        let stem = root.drop_last();
        let tail = cand.skip(root.len() - 1);
        assert(tail.len() > 0 && tail[0] == SEP);
        assert(root =~= stem + seq![SEP]);
        lemma_components_concat(stem, seq![SEP]);
        assert(spec_components(seq![SEP]) =~= Seq::<Seq<u8>>::empty());
        assert(spec_components(root) =~= spec_components(stem));
        assert(cand =~= stem + tail);
        lemma_components_concat(stem, tail);
        assert(spec_components(cand).take(spec_components(stem).len() as int)
            =~= spec_components(stem));
    }
}

/// Components joined by single separators, without a leading one.
spec fn spec_join_components(cs: Seq<Seq<u8>>) -> Seq<u8>
    decreases cs.len(),
{
    if cs.len() == 0 {
        Seq::empty()
    } else if cs.len() == 1 {
        cs[0]
    } else {
        spec_join_components(cs.drop_last()) + seq![SEP] + cs.last()
    }
}

/// The canonical path with the given components: the root separator followed
/// by the components joined by separators.
spec fn spec_rejoin(cs: Seq<Seq<u8>>) -> Seq<u8> {
    seq![SEP] + spec_join_components(cs)
}

proof fn lemma_join_push(cs: Seq<Seq<u8>>, c: Seq<u8>)
    requires
        cs.len() >= 1,
    ensures
        spec_join_components(cs.push(c)) == spec_join_components(cs) + seq![SEP] + c,
{
    assert(cs.push(c).drop_last() =~= cs);
    assert(cs.push(c).last() == c);
}

proof fn lemma_join_concat(cs: Seq<Seq<u8>>, ds: Seq<Seq<u8>>)
    requires
        cs.len() >= 1,
        ds.len() >= 1,
    ensures
        spec_join_components(cs + ds) == spec_join_components(cs) + seq![SEP]
            + spec_join_components(ds),
    decreases ds.len(),
{
    if ds.len() == 1 {
        assert(cs + ds =~= cs.push(ds[0]));
        lemma_join_push(cs, ds[0]);
    } else {
        assert((cs + ds).drop_last() =~= cs + ds.drop_last());
        lemma_join_concat(cs, ds.drop_last());
        assert((cs + ds).last() == ds.last());
        assert(spec_join_components(cs) + seq![SEP] + (spec_join_components(ds.drop_last())
            + seq![SEP] + ds.last()) =~= (spec_join_components(cs) + seq![SEP]
            + spec_join_components(ds.drop_last())) + seq![SEP] + ds.last());
    }
}

proof fn lemma_last_component_maximal(p: Seq<u8>)
    requires
        p.len() > 0,
        p.last() != SEP,
        spec_last_component(p).len() < p.len(),
    ensures
        p[p.len() - spec_last_component(p).len() - 1] == SEP,
    decreases p.len(),
{
    let q = p.drop_last();
    if q.len() == 0 {
        assert(spec_last_component(p).len() == p.len());
    } else if q.last() == SEP {
        assert(spec_last_component(q) =~= Seq::<u8>::empty());
    } else {
        lemma_last_component_maximal(q);
    }
}

proof fn lemma_canonical_rejoin(p: Seq<u8>)
    requires
        spec_canonical_shape(p),
    ensures
        p == spec_rejoin(spec_components(p)),
    decreases p.len(),
{
    reveal_with_fuel(spec_components, 2);
    if p.len() == 1 {
        assert(p =~= seq![SEP]);
        assert(p.drop_last() =~= Seq::<u8>::empty());
        assert(spec_components(p) =~= Seq::<Seq<u8>>::empty());
        assert(spec_rejoin(Seq::<Seq<u8>>::empty()) =~= seq![SEP]);
    } else {
        assert(p.last() != SEP);
        let c = spec_last_component(p);
        lemma_last_component_is_suffix(p);
        assert(c.len() >= 1);
        assert(c.len() < p.len()) by {
            if c.len() == p.len() {
                assert(c == p.skip(0));
                assert(p.skip(0) =~= p);
                assert(c[0] == SEP);
            }
        }
        lemma_last_component_maximal(p);
        let cut = p.len() - c.len();
        let pfx = p.take(cut);
        assert(p[cut - 1] == SEP);
        assert(spec_components(p) == spec_components(pfx) + seq![c]);
        if cut == 1 {
            assert(pfx =~= seq![SEP]);
            assert(pfx.drop_last() =~= Seq::<u8>::empty());
            assert(spec_components(pfx) =~= Seq::<Seq<u8>>::empty());
            assert(spec_components(p) =~= seq![c]);
            assert(spec_rejoin(seq![c]) =~= seq![SEP] + c);
            assert(p =~= seq![SEP] + c);
        } else {
            // Duplicate-free separators rule out a separator right before the
            // one that precedes the last component.
            assert(p[cut - 2] != SEP);
            assert(cut >= 3) by {
                if cut == 2 {
                    assert(p[0] == SEP && p[1] == SEP);
                }
            }
            let stem = p.take(cut - 1);
            assert(stem.len() >= 2);
            assert(stem.last() == p[cut - 2]);
            assert(spec_canonical_shape(stem));
            lemma_canonical_rejoin(stem);
            assert(pfx =~= stem + seq![SEP]);
            lemma_components_concat(stem, seq![SEP]);
            assert(spec_components(seq![SEP]) =~= Seq::<Seq<u8>>::empty());
            assert(spec_components(pfx) =~= spec_components(stem));
            assert(spec_components(stem).len() >= 1);
            assert(spec_components(p) =~= spec_components(stem).push(c));
            lemma_join_push(spec_components(stem), c);
            assert(p =~= stem + seq![SEP] + c);
            assert(spec_rejoin(spec_components(p)) =~= stem + seq![SEP] + c);
        }
    }
}

/// Containment never wrongly refuses a descendant either: when `root` and
/// `cand` are in canonical form and the components of `root` are a prefix of
/// the components of `cand`, the check accepts `cand` against `root`.
/// Together with `lemma_contained_is_component_prefix`, the byte-level check
/// coincides with component-wise prefix matching on canonical paths.
pub proof fn lemma_component_prefix_is_contained(root: Seq<u8>, cand: Seq<u8>)
    requires
        spec_canonical_shape(root),
        spec_canonical_shape(cand),
        spec_components(root).is_prefix_of(spec_components(cand)),
    ensures
        spec_contained(root, cand),
{
    reveal_with_fuel(spec_components, 2);
    let rc = spec_components(root);
    let cc = spec_components(cand);
    lemma_canonical_rejoin(root);
    lemma_canonical_rejoin(cand);
    if rc.len() == cc.len() {
        assert(cc.take(cc.len() as int) =~= cc);
        assert(rc == cc);
        assert(root == cand);
    } else if rc.len() == 0 {
        assert(root =~= seq![SEP]);
        assert(cand.len() > 1) by {
            if cand.len() == 1 {
                assert(cand =~= seq![SEP]);
                assert(cand.drop_last() =~= Seq::<u8>::empty());
                assert(cc =~= Seq::<Seq<u8>>::empty());
            }
        }
        assert(cand.take(1) =~= seq![SEP]);
        assert(root[0] == SEP);
    } else {
        let extra = cc.skip(rc.len() as int);
        assert(cc =~= rc + extra);
        lemma_join_concat(rc, extra);
        assert(cand =~= root + seq![SEP] + spec_join_components(extra));
        assert(cand.take(root.len() as int) =~= root);
        assert(cand[root.len() as int] == SEP);
    }
}

} // verus!

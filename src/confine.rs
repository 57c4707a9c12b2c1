//! Which paths lie below a root directory, judged from the text of the paths
//! alone, so that nothing outside the roots is ever touched on disk.
use vstd::prelude::*;
use vstd::utf8::encode_utf8;

verus! {

/// The path separator.
pub const SEP: u8 = 0x2f;

/// The dot of `..`.
pub const DOT: u8 = 0x2e;

/// A path without its trailing separators.
pub open spec fn trim_separators(r: Seq<u8>) -> Seq<u8>
    decreases r.len(),
{
    if r.len() > 0 && r.last() == SEP {
        trim_separators(r.drop_last())
    } else {
        r
    }
}

/// A `..` segment starts at byte `i` of `s`.
pub open spec fn parent_segment_at(s: Seq<u8>, i: int) -> bool {
    &&& 0 <= i
    &&& i + 2 <= s.len()
    &&& s[i] == DOT
    &&& s[i + 1] == DOT
    &&& (i == 0 || s[i - 1] == SEP)
    &&& (i + 2 == s.len() || s[i + 2] == SEP)
}

/// `s` holds a `..` segment somewhere.
pub open spec fn climbs(s: Seq<u8>) -> bool {
    exists|i: int| parent_segment_at(s, i)
}

/// `p` names something strictly below the directory `root`: it is `root`
/// (without trailing separators), a separator, and a remainder that never
/// steps up with `..`.
pub open spec fn lies_below(root: Seq<u8>, p: Seq<u8>) -> bool {
    let base = trim_separators(root);
    &&& base.len() < p.len()
    &&& p.subrange(0, base.len() as int) == base
    &&& p[base.len() as int] == SEP
    &&& !climbs(p.subrange(base.len() as int + 1, p.len() as int))
}

/// `p` lies below one of `roots`.
pub open spec fn within_roots(roots: Seq<Seq<char>>, p: Seq<char>) -> bool {
    exists|k: int| 0 <= k < roots.len() && lies_below(encode_utf8(#[trigger] roots[k]), encode_utf8(p))
}

/// Trimming keeps a prefix of the path, and what it drops is separators.
proof fn lemma_trim_is_prefix(r: Seq<u8>)
    ensures
        trim_separators(r).len() <= r.len(),
        trim_separators(r) == r.subrange(0, trim_separators(r).len() as int),
        forall|j: int| trim_separators(r).len() <= j < r.len() ==> r[j] == SEP,
    decreases r.len(),
{
    if r.len() > 0 && r.last() == SEP {
        lemma_trim_is_prefix(r.drop_last());
        assert(r.drop_last().subrange(0, trim_separators(r).len() as int) == r.subrange(
            0,
            trim_separators(r).len() as int,
        ));
        assert forall|j: int| trim_separators(r).len() <= j < r.len() implies r[j] == SEP by {
            if j < r.len() - 1 {
                assert(r.drop_last()[j] == r[j]);
            }
        }
    } else {
        assert(r.subrange(0, r.len() as int) == r);
    }
}

/// A path that holds a `..` segment is within none of the roots, unless a
/// root holds one itself: no path can step up out of the root it names.
pub proof fn lemma_climbing_path_refused(roots: Seq<Seq<char>>, p: Seq<char>)
    requires
        climbs(encode_utf8(p)),
        forall|k: int| 0 <= k < roots.len() ==> !climbs(encode_utf8(#[trigger] roots[k])),
    ensures
        !within_roots(roots, p),
{
    let pb = encode_utf8(p);
    let i = choose|i: int| parent_segment_at(pb, i);
    assert forall|k: int| 0 <= k < roots.len() implies !lies_below(
        encode_utf8(#[trigger] roots[k]),
        pb,
    ) by {
        let rb = encode_utf8(roots[k]);
        let base = trim_separators(rb);
        let n = base.len() as int;
        if lies_below(rb, pb) {
            lemma_trim_is_prefix(rb);
            if i > n {
                let rest = pb.subrange(n + 1, pb.len() as int);
                assert(parent_segment_at(rest, i - n - 1));
            } else if i + 2 <= n {
                assert(pb.subrange(0, n)[i] == pb[i]);
                assert(pb.subrange(0, n)[i + 1] == pb[i + 1]);
                assert(i > 0 ==> pb.subrange(0, n)[i - 1] == pb[i - 1]);
                assert(i + 2 < n ==> pb.subrange(0, n)[i + 2] == pb[i + 2]);
                assert(parent_segment_at(rb, i));
            }
        }
    }
}

/// The length of `r` once its trailing separators are removed.
fn trimmed_len(r: &[u8]) -> (n: usize)
    ensures
        n <= r@.len(),
        trim_separators(r@) == r@.subrange(0, n as int),
{
    let mut n: usize = r.len();
    assert(r@.subrange(0, n as int) == r@);
    while n > 0 && r[n - 1] == SEP
        invariant
            n <= r@.len(),
            trim_separators(r@) == trim_separators(r@.subrange(0, n as int)),
        decreases n,
    {
        assert(r@.subrange(0, n as int).drop_last() == r@.subrange(0, n - 1));
        n = n - 1;
    }
    n
}

/// Whether the bytes of `p` from `start` on hold a `..` segment.
fn climbs_from(p: &[u8], start: usize) -> (b: bool)
    requires
        start <= p@.len(),
    ensures
        b == climbs(p@.subrange(start as int, p@.len() as int)),
{
    let ghost s = p@.subrange(start as int, p@.len() as int);
    let plen: usize = p.len();
    let n: usize = plen - start;
    let mut j: usize = 0;
    while j < n
        invariant
            n == s.len(),
            start + n == plen,
            plen == p@.len(),
            j <= n,
            s == p@.subrange(start as int, p@.len() as int),
            forall|jj: int| 0 <= jj < j ==> !parent_segment_at(s, jj),
        decreases n - j,
    {
        if n - j >= 2 && p[start + j] == DOT && p[start + j + 1] == DOT && (j == 0 || p[start + j
            - 1] == SEP) && (n - j == 2 || p[start + j + 2] == SEP) {
            assert(parent_segment_at(s, j as int));
            return true;
        }
        j = j + 1;
    }
    assert forall|i: int| !parent_segment_at(s, i) by {
        if 0 <= i && i < n {
        }
    }
    false
}

/// Whether `p` lies below the directory `root`.
pub fn is_below(root: &[u8], p: &[u8]) -> (b: bool)
    ensures
        b == lies_below(root@, p@),
{
    let base: usize = trimmed_len(root);
    let ghost base_seq = trim_separators(root@);
    if base >= p.len() {
        return false;
    }
    let mut i: usize = 0;
    while i < base
        invariant
            base < p@.len(),
            base <= root@.len(),
            base_seq == root@.subrange(0, base as int),
            base_seq == trim_separators(root@),
            i <= base,
            p@.subrange(0, i as int) == base_seq.subrange(0, i as int),
        decreases base - i,
    {
        if p[i] != root[i] {
            assert(p@.subrange(0, base as int)[i as int] == p@[i as int]);
            assert(base_seq[i as int] == root@[i as int]);
            assert(p@.subrange(0, base as int) != base_seq);
            return false;
        }
        assert(p@.subrange(0, i + 1) == base_seq.subrange(0, i + 1));
        i = i + 1;
    }
    assert(base_seq.subrange(0, base as int) == base_seq);
    if p[base] != SEP {
        return false;
    }
    !climbs_from(p, base + 1)
}

} // verus!

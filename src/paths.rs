//! Slash-separated paths held as bytes, and the arithmetic on them that the
//! extraction needs: stripping the root, joining onto a destination, and
//! taking the parent directory.
use vstd::prelude::*;

verus! {

/// The path separator, `/`.
pub const SEP: u8 = 47;

/// The path with one leading separator removed, if it has one.
pub open spec fn relative(p: Seq<u8>) -> Seq<u8> {
    if p.len() > 0 && p[0] == SEP {
        p.drop_first()
    } else {
        p
    }
}

/// `rel` appended to `root`, with a separator between them unless `root` is
/// empty or already ends in one.
pub open spec fn join(root: Seq<u8>, rel: Seq<u8>) -> Seq<u8> {
    if root.len() == 0 || root.last() == SEP {
        root + rel
    } else {
        root.push(SEP) + rel
    }
}

/// The path without its trailing separators.
pub open spec fn trim_end(s: Seq<u8>) -> Seq<u8>
    decreases s.len(),
{
    if s.len() > 0 && s.last() == SEP {
        trim_end(s.drop_last())
    } else {
        s
    }
}

/// Everything before the last separator of `s`; empty if it has none.
pub open spec fn before_last_sep(s: Seq<u8>) -> Seq<u8>
    decreases s.len(),
{
    if s.len() == 0 {
        s
    } else if s.last() == SEP {
        s.drop_last()
    } else {
        before_last_sep(s.drop_last())
    }
}

/// Where an entry stored at `path` lands under `root`.
pub open spec fn destination(root: Seq<u8>, path: Seq<u8>) -> Seq<u8> {
    join(root, relative(path))
}

/// The directory that must exist before an entry stored at `path` can be
/// written under `root`: `root` itself for an entry at the top level.
pub open spec fn parent_destination(root: Seq<u8>, path: Seq<u8>) -> Seq<u8> {
    let up = before_last_sep(trim_end(relative(path)));
    if up.len() == 0 {
        root
    } else {
        join(root, up)
    }
}

/// A fresh vector holding the bytes of `s`.
pub fn copy_bytes(s: &[u8]) -> (r: Vec<u8>)
    ensures
        r@ == s@,
{
    let mut r: Vec<u8> = Vec::new();
    let mut i: usize = 0;
    while i < s.len()
        invariant
            i <= s@.len(),
            r@ == s@.subrange(0, i as int),
        decreases s@.len() - i,
    {
        r.push(s[i]);
        i = i + 1;
        assert(r@ =~= s@.subrange(0, i as int));
    }
    assert(r@ =~= s@);
    r
}

/// Appends the bytes of `s` to `out`.
pub fn append_bytes(out: &mut Vec<u8>, s: &[u8])
    ensures
        final(out)@ == old(out)@ + s@,
{
    let mut i: usize = 0;
    while i < s.len()
        invariant
            i <= s@.len(),
            out@ == old(out)@ + s@.subrange(0, i as int),
        decreases s@.len() - i,
    {
        out.push(s[i]);
        i = i + 1;
        assert(out@ =~= old(out)@ + s@.subrange(0, i as int));
    }
    assert(s@.subrange(0, s@.len() as int) =~= s@);
}

/// Whether two byte strings are equal.
pub fn bytes_eq(a: &[u8], b: &[u8]) -> (r: bool)
    ensures
        r == (a@ == b@),
{
    if a.len() != b.len() {
        return false;
    }
    let mut i: usize = 0;
    while i < a.len()
        invariant
            a@.len() == b@.len(),
            i <= a@.len(),
            forall|j: int| 0 <= j < i ==> a@[j] == b@[j],
        decreases a@.len() - i,
    {
        if a[i] != b[i] {
            return false;
        }
        i = i + 1;
    }
    assert(a@ =~= b@);
    true
}

/// The path with one leading separator removed, if it has one.
pub fn strip_root(p: &[u8]) -> (r: Vec<u8>)
    ensures
        r@ == relative(p@),
{
    if p.len() > 0 && p[0] == SEP {
        let mut r: Vec<u8> = Vec::new();
        let mut i: usize = 1;
        while i < p.len()
            invariant
                1 <= i <= p@.len(),
                r@ == p@.subrange(1, i as int),
            decreases p@.len() - i,
        {
            r.push(p[i]);
            i = i + 1;
            assert(r@ =~= p@.subrange(1, i as int));
        }
        assert(r@ =~= p@.drop_first());
        r
    } else {
        copy_bytes(p)
    }
}

/// `rel` appended to `root`, with a separator between them where needed.
pub fn join_paths(root: &[u8], rel: &[u8]) -> (r: Vec<u8>)
    ensures
        r@ == join(root@, rel@),
{
    let mut r = copy_bytes(root);
    if root.len() != 0 && root[root.len() - 1] != SEP {
        r.push(SEP);
    }
    append_bytes(&mut r, rel);
    r
}

/// Length of `s` once its trailing separators are removed.
fn trimmed_len(s: &[u8]) -> (n: usize)
    ensures
        n <= s@.len(),
        trim_end(s@) == s@.subrange(0, n as int),
{
    let mut n: usize = s.len();
    assert(s@.subrange(0, n as int) =~= s@);
    while n > 0 && s[n - 1] == SEP
        invariant
            n <= s@.len(),
            trim_end(s@) == trim_end(s@.subrange(0, n as int)),
        decreases n,
    {
        assert(s@.subrange(0, n as int).drop_last() =~= s@.subrange(0, n - 1));
        n = n - 1;
    }
    n
}

/// Length of what stands before the last separator among the first `len`
/// bytes of `s`.
fn before_last_sep_len(s: &[u8], len: usize) -> (n: usize)
    requires
        len <= s@.len(),
    ensures
        n <= len,
        before_last_sep(s@.subrange(0, len as int)) == s@.subrange(0, n as int),
{
    let mut k: usize = len;
    while k > 0 && s[k - 1] != SEP
        invariant
            k <= len <= s@.len(),
            before_last_sep(s@.subrange(0, len as int)) == before_last_sep(
                s@.subrange(0, k as int),
            ),
        decreases k,
    {
        assert(s@.subrange(0, k as int).drop_last() =~= s@.subrange(0, k - 1));
        k = k - 1;
    }
    if k == 0 {
        assert(s@.subrange(0, 0) =~= Seq::<u8>::empty());
        0
    } else {
        assert(s@.subrange(0, k as int).drop_last() =~= s@.subrange(0, k - 1));
        k - 1
    }
}

/// Where an entry stored at `path` lands under `root`.
pub fn destination_of(root: &[u8], path: &[u8]) -> (r: Vec<u8>)
    ensures
        r@ == destination(root@, path@),
{
    let rel = strip_root(path);
    join_paths(root, rel.as_slice())
}

/// The directory to create before an entry stored at `path` is written under
/// `root`.
pub fn parent_destination_of(root: &[u8], path: &[u8]) -> (r: Vec<u8>)
    ensures
        r@ == parent_destination(root@, path@),
{
    let rel = strip_root(path);
    let t = trimmed_len(rel.as_slice());
    let n = before_last_sep_len(rel.as_slice(), t);
    if n == 0 {
        assert(before_last_sep(trim_end(relative(path@))).len() == 0);
        copy_bytes(root)
    } else {
        let up = copy_bytes(rel.as_slice().split_at(n).0);
        assert(up@ =~= rel@.subrange(0, n as int));
        join_paths(root, up.as_slice())
    }
}

/// Two absolute entry paths land on the same destination only if they are
/// the same path: entries written side by side never write to one place.
pub proof fn lemma_destination_injective(root: Seq<u8>, p: Seq<u8>, q: Seq<u8>)
    requires
        p.len() > 0 && p[0] == SEP,
        q.len() > 0 && q[0] == SEP,
        destination(root, p) == destination(root, q),
    ensures
        p == q,
{
    let base = if root.len() == 0 || root.last() == SEP { root } else { root.push(SEP) };
    assert(destination(root, p) == base + p.drop_first());
    assert(destination(root, q) == base + q.drop_first());
    assert(p.drop_first() =~= (base + p.drop_first()).subrange(base.len() as int, destination(root, p).len() as int));
    assert(q.drop_first() =~= (base + q.drop_first()).subrange(base.len() as int, destination(root, q).len() as int));
    assert(p =~= seq![SEP] + p.drop_first());
    assert(q =~= seq![SEP] + q.drop_first());
}

} // verus!

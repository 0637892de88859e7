//! Expansion of a set of names into the closed set of paths that extraction
//! may write.
//!
//! Each name stands for two paths, `/index/<name>` and `/salts/<name>`.
//! Entries are selected by exact path, so the set holds every ancestor of
//! each of those paths too, down to the root: otherwise the directories that
//! lead to them would never be written.
use vstd::prelude::*;
use vstd::utf8::encode_utf8;
use crate::paths::{SEP, bytes_eq, copy_bytes, append_bytes};

verus! {

/// `a` is `p` itself, the root `/`, or `p` cut just before one of its
/// separators (other than a leading one).
pub open spec fn is_ancestor(a: Seq<u8>, p: Seq<u8>) -> bool {
    ||| a == p
    ||| a == seq![SEP]
    ||| exists|k: int| 0 < k < p.len() && p[k] == SEP && a == p.subrange(0, k)
}

/// The ancestor closure of `p`: `p`, each directory above it, and the root.
pub open spec fn ancestors(p: Seq<u8>) -> Set<Seq<u8>> {
    Set::new(|a: Seq<u8>| is_ancestor(a, p))
}

/// The bytes `/index/`.
pub open spec fn index_prefix() -> Seq<u8> {
    seq![SEP, 105u8, 110u8, 100u8, 101u8, 120u8, SEP]
}

/// The bytes `/salts/`.
pub open spec fn salts_prefix() -> Seq<u8> {
    seq![SEP, 115u8, 97u8, 108u8, 116u8, 115u8, SEP]
}

/// The UTF-8 bytes of a name.
pub open spec fn name_bytes(name: String) -> Seq<u8> {
    encode_utf8(name@)
}

/// Every path that the names admit: the ancestor closures of `/index/<name>`
/// and `/salts/<name>` for each name.
pub open spec fn permitted_by(names: Seq<String>) -> Set<Seq<u8>> {
    Set::new(
        |a: Seq<u8>|
            exists|i: int|
                0 <= i < names.len() && (is_ancestor(a, index_prefix() + name_bytes(names[i]))
                    || is_ancestor(a, salts_prefix() + name_bytes(names[i]))),
    )
}

/// The paths held by a list of byte vectors.
pub open spec fn held(v: Seq<Vec<u8>>) -> Set<Seq<u8>> {
    Set::new(|a: Seq<u8>| exists|i: int| 0 <= i < v.len() && v[i]@ == a)
}

/// A set of paths that extraction may write.
#[derive(Clone, Debug)]
pub struct PermittedPaths {
    pub paths: Vec<Vec<u8>>,
}

impl View for PermittedPaths {
    type V = Set<Seq<u8>>;

    open spec fn view(&self) -> Set<Seq<u8>> {
        held(self.paths@)
    }
}

impl PermittedPaths {
    /// Whether `p` is a permitted path.
    pub fn contains(&self, p: &[u8]) -> (r: bool)
        ensures
            r == self@.contains(p@),
    {
        let mut i: usize = 0;
        while i < self.paths.len()
            invariant
                i <= self.paths@.len(),
                forall|j: int| 0 <= j < i ==> self.paths@[j]@ != p@,
            decreases self.paths@.len() - i,
        {
            if bytes_eq(self.paths[i].as_slice(), p) {
                assert(held(self.paths@).contains(p@));
                return true;
            }
            i = i + 1;
        }
        false
    }

    /// Whether no path at all is permitted.
    pub fn is_empty(&self) -> (r: bool)
        ensures
            r == (self@ == Set::<Seq<u8>>::empty()),
    {
        if self.paths.len() == 0 {
            assert(self@ =~= Set::<Seq<u8>>::empty());
            true
        } else {
            assert(self@.contains(self.paths@[0]@));
            false
        }
    }
}

/// The cuts of `p` just before each of its separators at positions `1..k`.
pub open spec fn cuts(p: Seq<u8>, k: int) -> Set<Seq<u8>> {
    Set::new(|a: Seq<u8>| exists|m: int| 0 < m < k && m < p.len() && p[m] == SEP && a == p.subrange(0, m))
}

proof fn lemma_held_push(s: Seq<Vec<u8>>, x: Vec<u8>)
    ensures
        held(s.push(x)) == held(s).insert(x@),
{
    assert forall|a: Seq<u8>| held(s.push(x)).contains(a) implies held(s).insert(x@).contains(a) by {
        let i = choose|i: int| 0 <= i < s.len() + 1 && s.push(x)[i]@ == a;
        if i < s.len() {
            assert(s[i]@ == a);
        }
    }
    assert forall|a: Seq<u8>| held(s).insert(x@).contains(a) implies held(s.push(x)).contains(a) by {
        if a == x@ {
            assert(s.push(x)[s.len() as int]@ == a);
        } else {
            let i = choose|i: int| 0 <= i < s.len() && s[i]@ == a;
            assert(s.push(x)[i]@ == a);
        }
    }
    assert(held(s.push(x)) =~= held(s).insert(x@));
}

/// Pushes the ancestor closure of `p` onto `out`.
fn push_ancestors(out: &mut Vec<Vec<u8>>, p: &[u8])
    ensures
        held(final(out)@) == held(old(out)@).union(ancestors(p@)),
{
    let whole = copy_bytes(p);
    proof {
        lemma_held_push(out@, whole);
    }
    out.push(whole);
    let root = vec![SEP];
    assert(root@ =~= seq![SEP]);
    proof {
        lemma_held_push(out@, root);
    }
    out.push(root);
    let ghost start = held(out@);
    assert(cuts(p@, 1) =~= Set::<Seq<u8>>::empty());
    let mut k: usize = 1;
    while k < p.len()
        invariant
            1 <= k,
            start == held(old(out)@).insert(p@).insert(seq![SEP]),
            held(out@) == start.union(cuts(p@, k as int)),
        decreases p@.len() - k,
    {
        if p[k] == SEP {
            let cut = copy_bytes(p.split_at(k).0);
            assert(cut@ =~= p@.subrange(0, k as int));
            proof {
                lemma_held_push(out@, cut);
            }
            out.push(cut);
            assert(cuts(p@, k + 1) =~= cuts(p@, k as int).insert(cut@));
        } else {
            assert(cuts(p@, k + 1) =~= cuts(p@, k as int));
        }
        k = k + 1;
    }
    assert(cuts(p@, k as int) =~= cuts(p@, p@.len() as int));
    assert(held(out@) =~= held(old(out)@).union(ancestors(p@)));
}

/// `prefix` followed by the UTF-8 bytes of `name`.
fn prefixed(prefix: &[u8], name: &String) -> (r: Vec<u8>)
    ensures
        r@ == prefix@ + name_bytes(*name),
{
    let mut r = copy_bytes(prefix);
    append_bytes(&mut r, name.as_str().as_bytes());
    r
}

proof fn lemma_permitted_step(names: Seq<String>, i: int)
    requires
        0 <= i < names.len(),
    ensures
        permitted_by(names.subrange(0, i + 1)) == permitted_by(names.subrange(0, i)).union(
            ancestors(index_prefix() + name_bytes(names[i])),
        ).union(ancestors(salts_prefix() + name_bytes(names[i]))),
{
    let lo = names.subrange(0, i);
    let hi = names.subrange(0, i + 1);
    let ip = index_prefix() + name_bytes(names[i]);
    let sp = salts_prefix() + name_bytes(names[i]);
    assert forall|a: Seq<u8>| permitted_by(hi).contains(a) implies permitted_by(lo).union(
        ancestors(ip),
    ).union(ancestors(sp)).contains(a) by {
        let j = choose|j: int|
            0 <= j < hi.len() && (is_ancestor(a, index_prefix() + name_bytes(hi[j]))
                || is_ancestor(a, salts_prefix() + name_bytes(hi[j])));
        if j < i {
            assert(lo[j] == hi[j]);
        }
    }
    assert forall|a: Seq<u8>| permitted_by(lo).union(ancestors(ip)).union(ancestors(sp)).contains(a) implies permitted_by(
        hi,
    ).contains(a) by {
        if permitted_by(lo).contains(a) {
            let j = choose|j: int|
                0 <= j < lo.len() && (is_ancestor(a, index_prefix() + name_bytes(lo[j]))
                    || is_ancestor(a, salts_prefix() + name_bytes(lo[j])));
            assert(hi[j] == lo[j]);
        } else {
            assert(hi[i] == names[i]);
        }
    }
    assert(permitted_by(hi) =~= permitted_by(lo).union(ancestors(ip)).union(ancestors(sp)));
}

/// Expands a name filter into the paths that extraction may write.
///
/// No filter gives no set: every entry is then selected. A filter gives,
/// for each name, the ancestor closures of `/index/<name>` and
/// `/salts/<name>`; an empty filter gives the empty set, which selects
/// nothing.
pub fn expand_filter(names: &Option<Vec<String>>) -> (r: Option<PermittedPaths>)
    ensures
        names.is_none() <==> r.is_none(),
        names.is_some() ==> r.unwrap()@ == permitted_by(names.unwrap()@),
{
    match names {
        None => None,
        Some(list) => {
            let index: Vec<u8> = vec![SEP, 105u8, 110u8, 100u8, 101u8, 120u8, SEP];
            let salts: Vec<u8> = vec![SEP, 115u8, 97u8, 108u8, 116u8, 115u8, SEP];
            assert(index@ =~= index_prefix());
            assert(salts@ =~= salts_prefix());
            let mut out: Vec<Vec<u8>> = Vec::new();
            assert(held(out@) =~= permitted_by(list@.subrange(0, 0)));
            let mut i: usize = 0;
            while i < list.len()
                invariant
                    i <= list@.len(),
                    index@ == index_prefix(),
                    salts@ == salts_prefix(),
                    held(out@) == permitted_by(list@.subrange(0, i as int)),
                decreases list@.len() - i,
            {
                let ip = prefixed(index.as_slice(), &list[i]);
                let sp = prefixed(salts.as_slice(), &list[i]);
                push_ancestors(&mut out, ip.as_slice());
                push_ancestors(&mut out, sp.as_slice());
                proof {
                    lemma_permitted_step(list@, i as int);
                }
                i = i + 1;
            }
            assert(list@.subrange(0, list@.len() as int) =~= list@);
            Some(PermittedPaths { paths: out })
        },
    }
}

/// The bytes `/index`.
pub open spec fn index_dir() -> Seq<u8> {
    seq![SEP, 105u8, 110u8, 100u8, 101u8, 120u8]
}

/// The bytes `/salts`.
pub open spec fn salts_dir() -> Seq<u8> {
    seq![SEP, 115u8, 97u8, 108u8, 116u8, 115u8]
}

proof fn lemma_closure_under(prefix: Seq<u8>, dir: Seq<u8>, n: Seq<u8>)
    requires
        prefix.len() == 7,
        prefix == dir.push(SEP),
        prefix[0] == SEP,
        forall|k: int| 0 < k < 6 ==> prefix[k] != SEP,
        forall|k: int| 0 <= k < n.len() ==> n[k] != SEP,
    ensures
        ancestors(prefix + n) == set![prefix + n, seq![SEP], dir],
{
    let p = prefix + n;
    assert forall|a: Seq<u8>| ancestors(p).contains(a) implies set![p, seq![SEP], dir].contains(a) by {
        if a != p && a != seq![SEP] {
            let k = choose|k: int| 0 < k < p.len() && p[k] == SEP && a == p.subrange(0, k);
            if k >= 7 {
                assert(p[k] == n[k - 7]);
            }
            assert(k == 6);
            assert(a =~= dir);
        }
    }
    assert forall|a: Seq<u8>| set![p, seq![SEP], dir].contains(a) implies ancestors(p).contains(a) by {
        if a == dir {
            assert(p.subrange(0, 6) =~= dir);
            assert(p[6] == SEP);
        }
    }
    assert(ancestors(p) =~= set![p, seq![SEP], dir]);
}

/// A single name without separators admits exactly five paths: the root,
/// `/index`, `/index/<name>`, `/salts` and `/salts/<name>`.
pub proof fn lemma_single_name_closure(name: String)
    requires
        forall|k: int| 0 <= k < name_bytes(name).len() ==> name_bytes(name)[k] != SEP,
    ensures
        permitted_by(seq![name]) == set![
            seq![SEP],
            index_dir(),
            index_prefix() + name_bytes(name),
            salts_dir(),
            salts_prefix() + name_bytes(name),
        ],
{
    let n = name_bytes(name);
    assert(index_prefix() =~= index_dir().push(SEP));
    assert(salts_prefix() =~= salts_dir().push(SEP));
    lemma_closure_under(index_prefix(), index_dir(), n);
    lemma_closure_under(salts_prefix(), salts_dir(), n);
    let names = seq![name];
    let expected = set![seq![SEP], index_dir(), index_prefix() + n, salts_dir(), salts_prefix() + n];
    assert forall|a: Seq<u8>| permitted_by(names).contains(a) implies expected.contains(a) by {
        let i = choose|i: int|
            0 <= i < names.len() && (is_ancestor(a, index_prefix() + name_bytes(names[i]))
                || is_ancestor(a, salts_prefix() + name_bytes(names[i])));
        assert(i == 0);
        if is_ancestor(a, index_prefix() + n) {
            assert(ancestors(index_prefix() + n).contains(a));
        } else {
            assert(ancestors(salts_prefix() + n).contains(a));
        }
    }
    assert forall|a: Seq<u8>| expected.contains(a) implies permitted_by(names).contains(a) by {
        assert(names[0] == name);
        if a == salts_dir() || a == salts_prefix() + n {
            assert(ancestors(salts_prefix() + n).contains(a));
        } else {
            assert(ancestors(index_prefix() + n).contains(a));
        }
    }
    assert(permitted_by(names) =~= expected);
}

/// A filter without names admits no path.
pub proof fn lemma_no_names_admit_nothing(names: Seq<String>)
    requires
        names.len() == 0,
    ensures
        permitted_by(names) == Set::<Seq<u8>>::empty(),
{
    assert(permitted_by(names) =~= Set::<Seq<u8>>::empty());
}

} // verus!

//! Byte-level path model.
//!
//! A filesystem path is handled as a sequence of raw bytes: names on disk are
//! not guaranteed to be valid text, so every operation here is defined over
//! bytes. The separator is `/`. No I/O happens in this module; walking the
//! ancestor chain is pure byte manipulation.

use vstd::prelude::*;

verus! {

/// The path separator byte, `/`.
pub const SEP: u8 = 47;

/// True iff `b` is the path separator byte.
pub open spec fn is_sep(b: u8) -> bool {
    b == SEP
}

/// Index of the last separator byte in `s`, if `s` holds one.
pub open spec fn last_sep(s: Seq<u8>) -> Option<int>
    decreases s.len(),
{
    if s.len() == 0 {
        None
    } else if is_sep(s[s.len() - 1]) {
        Some(s.len() - 1)
    } else {
        last_sep(s.drop_last())
    }
}

/// `last_sep` finds a separator, and nothing to its right is a separator.
pub proof fn lemma_last_sep_props(s: Seq<u8>)
    ensures
        match last_sep(s) {
            None => forall|j: int| 0 <= j < s.len() ==> !is_sep(s[j]),
            Some(i) => 0 <= i < s.len() && is_sep(s[i]) && forall|j: int|
                i < j < s.len() ==> !is_sep(s[j]),
        },
    decreases s.len(),
{
    if s.len() == 0 {
    } else if is_sep(s[s.len() - 1]) {
    } else {
        lemma_last_sep_props(s.drop_last());
        assert(forall|j: int| 0 <= j < s.len() - 1 ==> s[j] == s.drop_last()[j]);
    }
}

/// The parent of a path, if it has one.
///
/// The parent is the path cut at its last separator; a path whose only
/// separator is leading keeps that separator (the parent of `/a` is `/`).
/// The root `/` and a path without separators (a single relative
/// component, or the empty path) have no parent.
pub open spec fn parent_of(s: Seq<u8>) -> Option<Seq<u8>> {
    match last_sep(s) {
        None => None,
        Some(i) => if i == 0 {
            if s.len() == 1 {
                None
            } else {
                Some(s.take(1))
            }
        } else {
            Some(s.take(i))
        },
    }
}

/// A parent is strictly shorter than its child.
pub proof fn lemma_parent_shorter(s: Seq<u8>)
    ensures
        parent_of(s) matches Some(t) ==> t.len() < s.len(),
{
    lemma_last_sep_props(s);
}

/// The ancestor chain of a path: the path itself, then its parent, and so
/// on, ending with the path that has no parent.
pub open spec fn chain(p: Seq<u8>) -> Seq<Seq<u8>>
    decreases p.len(),
    via chain_decreases
{
    match parent_of(p) {
        None => seq![p],
        Some(q) => seq![p] + chain(q),
    }
}

#[via_fn]
proof fn chain_decreases(p: Seq<u8>) {
    lemma_parent_shorter(p);
}

/// The ancestor chain starts at the path, steps to the parent at every
/// position, shrinks strictly, and ends at the only element with no parent.
pub proof fn lemma_ancestor_chain(p: Seq<u8>)
    ensures
        chain(p).len() >= 1,
        chain(p)[0] == p,
        parent_of(chain(p).last()) is None,
        forall|i: int| 0 <= i < chain(p).len() - 1 ==> parent_of(chain(p)[i]) == Some(
            chain(p)[i + 1],
        ),
        forall|i: int| 0 <= i < chain(p).len() - 1 ==> (#[trigger] chain(p)[i + 1]).len() < chain(
            p,
        )[i].len(),
    decreases p.len(),
{
    lemma_parent_shorter(p);
    match parent_of(p) {
        None => {},
        Some(q) => {
            lemma_ancestor_chain(q);
            assert(forall|i: int| 1 <= i < chain(p).len() ==> #[trigger] chain(p)[i] == chain(
                q,
            )[i - 1]);
            assert forall|i: int| 0 <= i < chain(p).len() - 1 implies (#[trigger] chain(p)[i
                + 1]).len() < chain(p)[i].len() by {
                if i > 0 {
                    assert(chain(q)[(i - 1) + 1].len() < chain(q)[i - 1].len());
                }
            }
        },
    }
}

/// Joining a relative path onto a directory: a separator is put between the
/// two unless the directory is empty or already ends in one.
pub open spec fn join_of(dir: Seq<u8>, rel: Seq<u8>) -> Seq<u8> {
    if dir.len() == 0 {
        rel
    } else if is_sep(dir.last()) {
        dir + rel
    } else {
        dir + seq![SEP] + rel
    }
}

/// A pattern split at its last separator: the leading directory part, if
/// any, and the final component.
pub open spec fn split_of(p: Seq<u8>) -> (Option<Seq<u8>>, Seq<u8>) {
    match last_sep(p) {
        None => (None, p),
        Some(i) => (Some(p.take(i)), p.skip(i + 1)),
    }
}

/// View of an optional byte vector.
pub open spec fn opt_view(o: Option<Vec<u8>>) -> Option<Seq<u8>> {
    match o {
        None => None,
        Some(v) => Some(v@),
    }
}

/// Index of the last separator byte of `p`, if any.
fn rfind_sep(p: &Vec<u8>) -> (r: Option<usize>)
    ensures
        match r {
            None => last_sep(p@) is None,
            Some(i) => i < p.len() && last_sep(p@) == Some(i as int),
        },
{
    let mut j: usize = p.len();
    assert(p@.take(p.len() as int) =~= p@);
    while j > 0
        invariant
            j <= p.len(),
            last_sep(p@) == last_sep(p@.take(j as int)),
        decreases j,
    {
        if p[j - 1] == SEP {
            assert(p@.take(j as int).last() == p@[j - 1]);
            return Some(j - 1);
        }
        assert(p@.take(j as int).drop_last() =~= p@.take(j as int - 1));
        j = j - 1;
    }
    assert(p@.take(0) =~= Seq::<u8>::empty());
    None
}

/// The bytes of `p` from `start` (inclusive) to `end` (exclusive).
fn copy_range(p: &Vec<u8>, start: usize, end: usize) -> (r: Vec<u8>)
    requires
        start <= end <= p.len(),
    ensures
        r@ == p@.subrange(start as int, end as int),
{
    let mut out: Vec<u8> = Vec::new();
    let mut k: usize = start;
    while k < end
        invariant
            start <= k <= end <= p.len(),
            out@ =~= p@.subrange(start as int, k as int),
        decreases end - k,
    {
        out.push(p[k]);
        k = k + 1;
    }
    assert(out@ =~= p@.subrange(start as int, end as int));
    out
}

/// The parent of `p`, as `parent_of` defines it.
pub fn parent(p: &Vec<u8>) -> (r: Option<Vec<u8>>)
    ensures
        opt_view(r) == parent_of(p@),
{
    match rfind_sep(p) {
        None => None,
        Some(i) => {
            if i == 0 {
                if p.len() == 1 {
                    None
                } else {
                    let out = copy_range(p, 0, 1);
                    assert(out@ =~= p@.take(1));
                    Some(out)
                }
            } else {
                let out = copy_range(p, 0, i);
                assert(out@ =~= p@.take(i as int));
                Some(out)
            }
        },
    }
}

/// `dir` joined with `rel`, as `join_of` defines it.
pub fn join(dir: &Vec<u8>, rel: &Vec<u8>) -> (r: Vec<u8>)
    ensures
        r@ == join_of(dir@, rel@),
{
    let mut out = copy_range(dir, 0, dir.len());
    assert(out@ =~= dir@);
    if dir.len() > 0 && dir[dir.len() - 1] != SEP {
        out.push(SEP);
        assert(out@ =~= dir@ + seq![SEP]);
    }
    let mut k: usize = 0;
    let ghost base = out@;
    while k < rel.len()
        invariant
            k <= rel.len(),
            out@ =~= base + rel@.take(k as int),
        decreases rel.len() - k,
    {
        out.push(rel[k]);
        k = k + 1;
    }
    assert(rel@.take(rel.len() as int) =~= rel@);
    assert(out@ =~= base + rel@);
    if dir.len() == 0 {
        assert(out@ =~= rel@);
    }
    out
}

/// A copy of `v` with the same bytes.
pub fn clone_bytes(v: &Vec<u8>) -> (r: Vec<u8>)
    ensures
        r@ == v@,
{
    let r = v.clone();
    assert(r@ =~= v@);
    r
}

/// The pattern `p` split at its last separator, as `split_of` defines it.
pub fn split_name(p: &Vec<u8>) -> (r: (Option<Vec<u8>>, Vec<u8>))
    ensures
        opt_view(r.0) == split_of(p@).0,
        r.1@ == split_of(p@).1,
{
    match rfind_sep(p) {
        None => {
            let name = copy_range(p, 0, p.len());
            assert(name@ =~= p@);
            (None, name)
        },
        Some(i) => {
            let dir = copy_range(p, 0, i);
            assert(dir@ =~= p@.take(i as int));
            let name = copy_range(p, i + 1, p.len());
            assert(name@ =~= p@.skip(i as int + 1));
            (Some(dir), name)
        },
    }
}

/// The lazy ancestor sequence of a starting path: the path itself first,
/// then each parent in turn, ending at the path with no parent. Pulling an
/// element does no work beyond cutting the current path at its last
/// separator.
pub struct Ancestors {
    pub current: Option<Vec<u8>>,
}

impl Ancestors {
    /// The ancestors still to be yielded, in order.
    pub open spec fn remaining(self) -> Seq<Seq<u8>> {
        match self.current {
            None => Seq::empty(),
            Some(p) => chain(p@),
        }
    }

    /// An ancestor sequence that starts at `start`.
    pub fn new(start: Vec<u8>) -> (a: Ancestors)
        ensures
            a.remaining() == chain(start@),
    {
        Ancestors { current: Some(start) }
    }

    /// The next ancestor: the remaining sequence's head, or `None` once the
    /// path with no parent has been yielded.
    pub fn next(&mut self) -> (r: Option<Vec<u8>>)
        ensures
            r is None <==> old(self).remaining().len() == 0,
            r is None ==> final(self).remaining() == Seq::<Seq<u8>>::empty(),
            r matches Some(v) ==> old(self).remaining().len() > 0 && v@ == old(self).remaining()[0]
                && final(self).remaining() == old(self).remaining().drop_first(),
    {
        let mut cur: Option<Vec<u8>> = None;
        core::mem::swap(&mut cur, &mut self.current);
        match cur {
            None => None,
            Some(p) => {
                self.current = parent(&p);
                proof {
                    lemma_parent_shorter(p@);
                    assert(chain(p@) == seq![p@] + final(self).remaining());
                    assert(chain(p@).drop_first() =~= final(self).remaining());
                }
                Some(p)
            },
        }
    }
}

} // verus!

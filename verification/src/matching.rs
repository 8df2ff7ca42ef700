//! Name matching for the literal and prefix strategies.
//!
//! An entry name is compared against the pattern's final component as raw
//! bytes: exact equality in exact mode, a byte-prefix test in prefix mode.
//! No case folding and no partial matches.

use vstd::prelude::*;

verus! {

/// Whether the entry name `name` matches the target filename `target`:
/// byte equality when `prefix` is false, a byte-prefix test when it is true.
pub open spec fn name_matches(name: Seq<u8>, target: Seq<u8>, prefix: bool) -> bool {
    if prefix {
        target.is_prefix_of(name)
    } else {
        name == target
    }
}

/// Exact mode: a name matches iff its raw bytes equal the target's raw
/// bytes; there are no partial and no case-insensitive matches.
pub proof fn lemma_exact_match_semantics(name: Seq<u8>, target: Seq<u8>)
    ensures
        name_matches(name, target, false) <==> name == target,
{
}

/// Prefix mode: a name matches iff its raw bytes start with the target's
/// raw bytes; an empty target matches every name.
pub proof fn lemma_prefix_match_semantics(name: Seq<u8>, target: Seq<u8>)
    ensures
        name_matches(name, target, true) <==> (target.len() <= name.len() && name.take(
            target.len() as int,
        ) == target),
        target.len() == 0 ==> name_matches(name, target, true),
{
    assert(name.subrange(0, target.len() as int) == name.take(target.len() as int));
    if target.len() <= name.len() && name.take(target.len() as int) == target {
        assert(target =~= name.subrange(0, target.len() as int));
    }
    if target.len() == 0 {
        assert(target =~= name.subrange(0, 0));
    }
}

/// True iff the bytes of `target` are a prefix of the bytes of `name`.
fn starts_with(name: &Vec<u8>, target: &Vec<u8>) -> (r: bool)
    ensures
        r == target@.is_prefix_of(name@),
{
    if target.len() > name.len() {
        return false;
    }
    let mut k: usize = 0;
    while k < target.len()
        invariant
            k <= target.len() <= name.len(),
            forall|j: int| 0 <= j < k ==> name@[j] == target@[j],
        decreases target.len() - k,
    {
        if name[k] != target[k] {
            assert(!(target@ =~= name@.subrange(0, target.len() as int)));
            return false;
        }
        k = k + 1;
    }
    assert(target@ =~= name@.subrange(0, target.len() as int));
    true
}

/// Whether `name` matches `target` under the given mode, as `name_matches`
/// defines it.
pub fn matches_name(name: &Vec<u8>, target: &Vec<u8>, prefix: bool) -> (r: bool)
    ensures
        r == name_matches(name@, target@, prefix),
{
    if prefix {
        starts_with(name, target)
    } else {
        if name.len() != target.len() {
            assert(name@ != target@);
            return false;
        }
        let r = starts_with(name, target);
        proof {
            if target@.is_prefix_of(name@) {
                assert(name@ =~= target@);
            }
        }
        r
    }
}

} // verus!

//! The model shared by both copiers: what a truncating, null-terminated copy
//! into a fixed-capacity buffer leaves in that buffer.
use vstd::prelude::*;

verus! {

/// Number of source units that fit in a buffer of `capacity` slots, one
/// slot being kept for the terminator.
pub open spec fn copy_len(capacity: nat, src_len: nat) -> nat
    recommends
        capacity >= 1,
{
    if src_len < capacity - 1 {
        src_len
    } else {
        (capacity - 1) as nat
    }
}

/// The buffer after a bounded copy of `src` into `dest`: nothing changes in
/// an empty buffer; otherwise the first `copy_len` units of `src`, then
/// `terminator`, then the rest of `dest` as it was.
pub open spec fn bounded_copy<T>(dest: Seq<T>, src: Seq<T>, terminator: T) -> Seq<T> {
    if dest.len() == 0 {
        dest
    } else {
        let k = copy_len(dest.len(), src.len()) as int;
        src.subrange(0, k) + seq![terminator] + dest.subrange(k + 1, dest.len() as int)
    }
}

/// A non-empty buffer keeps its length and holds the terminator at
/// `copy_len`, which is its last slot or an earlier one.
pub proof fn lemma_bounded_copy_terminated<T>(dest: Seq<T>, src: Seq<T>, terminator: T)
    requires
        dest.len() >= 1,
    ensures
        bounded_copy(dest, src, terminator).len() == dest.len(),
        copy_len(dest.len(), src.len()) < dest.len(),
        bounded_copy(dest, src, terminator)[copy_len(dest.len(), src.len()) as int] == terminator,
{
}

/// An empty buffer is left as it is.
pub proof fn lemma_bounded_copy_empty<T>(dest: Seq<T>, src: Seq<T>, terminator: T)
    requires
        dest.len() == 0,
    ensures
        bounded_copy(dest, src, terminator) == dest,
{
}

/// A source shorter than the buffer is copied whole and followed by the
/// terminator; the slots after it keep their contents.
pub proof fn lemma_bounded_copy_fits<T>(dest: Seq<T>, src: Seq<T>, terminator: T)
    requires
        src.len() < dest.len(),
    ensures
        bounded_copy(dest, src, terminator).subrange(0, src.len() as int) == src,
        bounded_copy(dest, src, terminator)[src.len() as int] == terminator,
        bounded_copy(dest, src, terminator).subrange((src.len() + 1) as int, dest.len() as int)
            == dest.subrange((src.len() + 1) as int, dest.len() as int),
{
    let r = bounded_copy(dest, src, terminator);
    assert(r.subrange(0, src.len() as int) =~= src);
    assert(r.subrange((src.len() + 1) as int, dest.len() as int) =~= dest.subrange(
        (src.len() + 1) as int,
        dest.len() as int,
    ));
}

/// A source at least as long as the buffer is cut to the first
/// `dest.len() - 1` units, and the terminator fills the last slot.
pub proof fn lemma_bounded_copy_truncates<T>(dest: Seq<T>, src: Seq<T>, terminator: T)
    requires
        dest.len() >= 1,
        src.len() >= dest.len(),
    ensures
        bounded_copy(dest, src, terminator) == src.subrange(0, dest.len() - 1) + seq![terminator],
{
    assert(bounded_copy(dest, src, terminator) =~= src.subrange(0, dest.len() - 1) + seq![
        terminator,
    ]);
}

/// Copying the same source a second time changes nothing more.
pub proof fn lemma_bounded_copy_idempotent<T>(dest: Seq<T>, src: Seq<T>, terminator: T)
    ensures
        bounded_copy(bounded_copy(dest, src, terminator), src, terminator) == bounded_copy(
            dest,
            src,
            terminator,
        ),
{
    let once = bounded_copy(dest, src, terminator);
    assert(bounded_copy(once, src, terminator) =~= once);
}

} // verus!

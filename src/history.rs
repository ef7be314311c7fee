//! The repetition set: hashes of positions that end a line as a draw.
use vstd::prelude::*;
use nohash::IntSet;

verus! {

#[verifier::external_type_specification]
#[verifier::external_body]
#[verifier::reject_recursive_types(H)]
pub struct ExBuildHasherDefault<H>(std::hash::BuildHasherDefault<H>);

#[verifier::external_type_specification]
#[verifier::external_body]
#[verifier::reject_recursive_types(T)]
pub struct ExNoHashHasher<T>(nohash::NoHashHasher<T>);

/// Relies on HashSet::insert over nohash's identity hasher: the hash joins
/// the set, and the result says whether it was new.
#[verifier::external_body]
pub(crate) fn remember(history: &mut IntSet<u64>, hash: u64) -> (r: bool)
    ensures
        final(history)@ == old(history)@.insert(hash),
        r == !old(history)@.contains(hash),
{
    history.insert(hash)
}

/// Relies on HashSet::remove over nohash's identity hasher: the hash
/// leaves the set.
#[verifier::external_body]
pub(crate) fn forget(history: &mut IntSet<u64>, hash: u64) -> (r: bool)
    ensures
        final(history)@ == old(history)@.remove(hash),
        r == old(history)@.contains(hash),
{
    history.remove(&hash)
}

/// Relies on HashSet::contains over nohash's identity hasher.
#[verifier::external_body]
pub(crate) fn seen(history: &IntSet<u64>, hash: u64) -> (r: bool)
    ensures
        r == history@.contains(hash),
{
    history.contains(&hash)
}

/// Marks `hash` as part of the current line unless it is already in the
/// set; the result says whether it was added, and so must be taken out
/// again by `leave`.
pub fn enter(history: &mut IntSet<u64>, hash: u64) -> (added: bool)
    ensures
        final(history)@ == old(history)@.insert(hash),
        added == !old(history)@.contains(hash),
{
    remember(history, hash)
}

/// Undoes `enter`: the hash leaves the set only if `enter` added it.
pub fn leave(history: &mut IntSet<u64>, hash: u64, added: bool)
    ensures
        added ==> final(history)@ == old(history)@.remove(hash),
        !added ==> final(history)@ == old(history)@,
{
    if added {
        forget(history, hash);
    }
}

/// Entering a hash and leaving it again restores the set exactly.
pub proof fn lemma_enter_leave(s: Set<u64>, hash: u64)
    ensures
        (if s.contains(hash) { s.insert(hash) } else { s.insert(hash).remove(hash) }) == s,
{
    if s.contains(hash) {
        assert(s.insert(hash) =~= s);
    } else {
        assert(s.insert(hash).remove(hash) =~= s);
    }
}

/// Relies on `Default` for HashSet over nohash's identity hasher: a new,
/// empty set.
#[verifier::external_body]
pub(crate) fn empty_set() -> (r: IntSet<u64>)
    ensures
        r@ == Set::<u64>::empty(),
{
    IntSet::default()
}

/// The hash occurs at two different places of the sequence.
pub open spec fn recurs(hashes: Seq<u64>, h: u64) -> bool {
    exists|i: int, j: int| 0 <= i < j < hashes.len() && hashes[i] == h && hashes[j] == h
}

/// The permanent part of the repetition set for a game: the hashes of the
/// positions that occurred more than once among `hashes`, the positions
/// the game went through before each move.
pub fn repeated_positions(hashes: &Vec<u64>) -> (r: IntSet<u64>)
    ensures
        forall|h: u64| r@.contains(h) <==> recurs(hashes@, h),
{
    let mut once = empty_set();
    let mut twice = empty_set();
    let mut k: usize = 0;
    while k < hashes.len()
        invariant
            k <= hashes@.len(),
            forall|h: u64| once@.contains(h) <==> exists|i: int| 0 <= i < k && hashes@[i] == h,
            forall|h: u64| twice@.contains(h) <==> recurs(hashes@.take(k as int), h),
        decreases hashes@.len() - k,
    {
        let h = hashes[k];
        let ghost pre = hashes@.take(k as int);
        let ghost post = hashes@.take(k + 1);
        let fresh = remember(&mut once, h);
        if !fresh {
            remember(&mut twice, h);
        }
        proof {
            assert forall|g: u64| recurs(pre, g) || (g == h && !fresh) implies #[trigger] recurs(
                post,
                g,
            ) by {
                if recurs(pre, g) {
                    let (i, j) = choose|i: int, j: int|
                        0 <= i < j < pre.len() && pre[i] == g && pre[j] == g;
                    assert(post[i] == g && post[j] == g);
                } else if g == h && !fresh {
                    let i = choose|i: int| 0 <= i < k && hashes@[i] == h;
                    assert(post[i] == h && post[k as int] == h);
                }
            }
            assert forall|g: u64| #[trigger] recurs(post, g) implies recurs(pre, g) || (g == h
                && !fresh) by {
                if !recurs(pre, g) {
                    let (i, j) = choose|i: int, j: int|
                        0 <= i < j < post.len() && post[i] == g && post[j] == g;
                    if j < k {
                        assert(pre[i] == g && pre[j] == g);
                    } else {
                        assert(g == h);
                        assert(hashes@[i] == h);
                    }
                }
            }
        }
        k = k + 1;
    }
    proof {
        assert(hashes@.take(hashes@.len() as int) =~= hashes@);
    }
    twice
}

} // verus!

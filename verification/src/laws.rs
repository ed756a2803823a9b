//! Sequence-level laws of the container's operations, stated over the same
//! `Seq` model that the operation contracts use.

use vstd::prelude::*;

verus! {

/// The values returned by `n` successive pops of a container whose view is
/// `s`, in the order they come out: each pop yields the last element and
/// leaves the rest, exactly as `pop`'s contract states.
pub open spec fn popped_values<T>(s: Seq<T>, n: nat) -> Seq<T>
    decreases n,
{
    if n == 0 || s.len() == 0 {
        Seq::empty()
    } else {
        seq![s.last()] + popped_values(s.drop_last(), (n - 1) as nat)
    }
}

/// The view left behind by `n` successive pops of a container whose view
/// is `s`.
pub open spec fn view_after_pops<T>(s: Seq<T>, n: nat) -> Seq<T>
    decreases n,
{
    if n == 0 || s.len() == 0 {
        s
    } else {
        view_after_pops(s.drop_last(), (n - 1) as nat)
    }
}

/// Round-trip law: pushing the elements of `pushed` in order onto a
/// container whose view is `base` gives the view `base + pushed` (by
/// `push`'s contract); popping the same number of times then returns the
/// pushed elements in exact reverse order and restores the view `base`.
/// With an empty `base`, the container ends empty.
pub proof fn lemma_push_pop_round_trip<T>(base: Seq<T>, pushed: Seq<T>)
    ensures
        popped_values(base + pushed, pushed.len()) =~= pushed.reverse(),
        view_after_pops(base + pushed, pushed.len()) =~= base,
    decreases pushed.len(),
{
    if pushed.len() == 0 {
        assert(base + pushed =~= base);
    } else {
        let whole = base + pushed;
        assert(whole.last() == pushed.last());
        assert(whole.drop_last() =~= base + pushed.drop_last());
        lemma_push_pop_round_trip(base, pushed.drop_last());
        assert(pushed.reverse() =~= seq![pushed.last()] + pushed.drop_last().reverse());
    }
}

/// Insert/remove inverse law: removing at the index just inserted at
/// returns the inserted element and restores the original sequence, for
/// every valid index.
pub proof fn lemma_insert_remove_inverse<T>(s: Seq<T>, i: int, x: T)
    requires
        0 <= i <= s.len(),
    ensures
        s.insert(i, x)[i] == x,
        s.insert(i, x).remove(i) =~= s,
{
    assert(s.insert(i, x).remove(i) =~= s);
}

} // verus!

//! The order in which a variant offers its moves: by descending priority,
//! and among moves of one priority the one generated later first.

use vstd::prelude::*;

verus! {

/// The moves of priority `r`, the one generated last first.
pub open spec fn tier<T>(moves: Seq<T>, rank: spec_fn(T) -> int, r: int) -> Seq<T>
    decreases moves.len(),
{
    if moves.len() == 0 {
        Seq::empty()
    } else {
        let rest = tier(moves.drop_first(), rank, r);
        if rank(moves.first()) == r {
            rest.push(moves.first())
        } else {
            rest
        }
    }
}

/// The tiers of priority `top` down to priority `r`, one after the other.
pub open spec fn tiers<T>(moves: Seq<T>, rank: spec_fn(T) -> int, top: int, r: int) -> Seq<T>
    decreases top - r + 1,
{
    if r > top {
        Seq::empty()
    } else {
        tiers(moves, rank, top, r + 1) + tier(moves, rank, r)
    }
}

/// All moves of priority 0 to `top`, highest priority first.
pub open spec fn arranged<T>(moves: Seq<T>, rank: spec_fn(T) -> int, top: int) -> Seq<T> {
    tiers(moves, rank, top, 0)
}

/// A tier holds exactly the moves of its priority.
pub proof fn tier_holds<T>(moves: Seq<T>, rank: spec_fn(T) -> int, r: int, m: T)
    ensures
        tier(moves, rank, r).contains(m) <==> moves.contains(m) && rank(m) == r,
    decreases moves.len(),
{
    if moves.len() > 0 {
        let first = moves.first();
        let rest = moves.drop_first();
        tier_holds(rest, rank, r, m);
        let below = tier(rest, rank, r);
        if moves.contains(m) {
            let i = choose|i: int| 0 <= i < moves.len() && moves[i] == m;
            if i > 0 {
                assert(rest[i - 1] == m);
            }
        }
        if rest.contains(m) {
            let i = choose|i: int| 0 <= i < rest.len() && rest[i] == m;
            assert(moves[i + 1] == m);
        }
        if rank(first) == r {
            assert(below.push(first)[below.len() as int] == first);
            if below.contains(m) {
                let i = choose|i: int| 0 <= i < below.len() && below[i] == m;
                assert(below.push(first)[i] == m);
            }
            if below.push(first).contains(m) {
                let i = choose|i: int| 0 <= i < below.len() + 1 && below.push(first)[i] == m;
                if i < below.len() {
                    assert(below[i] == m);
                }
            }
        }
    }
}

/// Arranging neither adds a move nor drops one whose priority is in range.
pub proof fn tiers_hold<T>(moves: Seq<T>, rank: spec_fn(T) -> int, top: int, r: int, m: T)
    ensures
        tiers(moves, rank, top, r).contains(m) <==> moves.contains(m) && r <= rank(m) <= top,
    decreases top - r + 1,
{
    if r <= top {
        tiers_hold(moves, rank, top, r + 1, m);
        tier_holds(moves, rank, r, m);
        let above = tiers(moves, rank, top, r + 1);
        let here = tier(moves, rank, r);
        if above.contains(m) {
            let i = choose|i: int| 0 <= i < above.len() && above[i] == m;
            assert((above + here)[i] == m);
        }
        if here.contains(m) {
            let i = choose|i: int| 0 <= i < here.len() && here[i] == m;
            assert((above + here)[above.len() + i] == m);
        }
        if (above + here).contains(m) {
            let i = choose|i: int| 0 <= i < (above + here).len() && (above + here)[i] == m;
            if i < above.len() {
                assert(above[i] == m);
            } else {
                assert(here[i - above.len()] == m);
            }
        }
    }
}

/// How many moves have a priority from `r` to `top`.
pub open spec fn in_range<T>(moves: Seq<T>, rank: spec_fn(T) -> int, top: int, r: int) -> nat
    decreases moves.len(),
{
    if moves.len() == 0 {
        0
    } else {
        in_range(moves.drop_first(), rank, top, r) + if r <= rank(moves.first()) <= top {
            1nat
        } else {
            0nat
        }
    }
}

proof fn tier_len<T>(moves: Seq<T>, rank: spec_fn(T) -> int, r: int)
    ensures
        tier(moves, rank, r).len() == in_range(moves, rank, r, r),
    decreases moves.len(),
{
    if moves.len() > 0 {
        tier_len(moves.drop_first(), rank, r);
    }
}

proof fn in_range_splits<T>(moves: Seq<T>, rank: spec_fn(T) -> int, top: int, r: int)
    requires
        r <= top,
    ensures
        in_range(moves, rank, top, r) == in_range(moves, rank, top, r + 1) + in_range(
            moves,
            rank,
            r,
            r,
        ),
    decreases moves.len(),
{
    if moves.len() > 0 {
        in_range_splits(moves.drop_first(), rank, top, r);
    }
}

proof fn in_range_of_none<T>(moves: Seq<T>, rank: spec_fn(T) -> int, top: int, r: int)
    requires
        r > top,
    ensures
        in_range(moves, rank, top, r) == 0,
    decreases moves.len(),
{
    if moves.len() > 0 {
        in_range_of_none(moves.drop_first(), rank, top, r);
    }
}

proof fn in_range_of_all<T>(moves: Seq<T>, rank: spec_fn(T) -> int, top: int, r: int)
    requires
        forall|i: int| 0 <= i < moves.len() ==> r <= #[trigger] rank(moves[i]) <= top,
    ensures
        in_range(moves, rank, top, r) == moves.len(),
    decreases moves.len(),
{
    if moves.len() > 0 {
        let rest = moves.drop_first();
        assert forall|i: int| 0 <= i < rest.len() implies r <= #[trigger] rank(rest[i]) <= top by {
            assert(rest[i] == moves[i + 1]);
        }
        in_range_of_all(rest, rank, top, r);
    }
}

proof fn tiers_len<T>(moves: Seq<T>, rank: spec_fn(T) -> int, top: int, r: int)
    ensures
        tiers(moves, rank, top, r).len() == in_range(moves, rank, top, r),
    decreases top - r + 1,
{
    if r <= top {
        tiers_len(moves, rank, top, r + 1);
        tier_len(moves, rank, r);
        in_range_splits(moves, rank, top, r);
    } else {
        in_range_of_none(moves, rank, top, r);
    }
}

/// Arranging moves whose priorities are all in range keeps their number.
pub proof fn arranged_len<T>(moves: Seq<T>, rank: spec_fn(T) -> int, top: int)
    requires
        forall|i: int| 0 <= i < moves.len() ==> 0 <= #[trigger] rank(moves[i]) <= top,
    ensures
        arranged(moves, rank, top).len() == moves.len(),
{
    tiers_len(moves, rank, top, 0);
    in_range_of_all(moves, rank, top, 0);
}

/// The tier of a list of moves with one more generated at its end.
pub proof fn tier_of_suffix<T>(moves: Seq<T>, rank: spec_fn(T) -> int, r: int, i: int)
    requires
        0 <= i < moves.len(),
    ensures
        tier(moves.skip(i), rank, r) == if rank(moves[i]) == r {
            tier(moves.skip(i + 1), rank, r).push(moves[i])
        } else {
            tier(moves.skip(i + 1), rank, r)
        },
{
    assert(moves.skip(i).drop_first() == moves.skip(i + 1));
}

/// A list with one more element holds what the list held, and that element.
pub proof fn push_holds<T>(list: Seq<T>, last: T, m: T)
    ensures
        list.push(last).contains(m) <==> list.contains(m) || last == m,
{
    let longer = list.push(last);
    assert(longer[list.len() as int] == last);
    if list.contains(m) {
        let i = choose|i: int| 0 <= i < list.len() && list[i] == m;
        assert(longer[i] == m);
    }
    if longer.contains(m) {
        let i = choose|i: int| 0 <= i < longer.len() && longer[i] == m;
        if i < list.len() {
            assert(list[i] == m);
        }
    }
}

/// Two lists one after the other hold what either holds.
pub proof fn add_holds<T>(front: Seq<T>, back: Seq<T>, m: T)
    ensures
        (front + back).contains(m) <==> front.contains(m) || back.contains(m),
{
    let both = front + back;
    if front.contains(m) {
        let i = choose|i: int| 0 <= i < front.len() && front[i] == m;
        assert(both[i] == m);
    }
    if back.contains(m) {
        let i = choose|i: int| 0 <= i < back.len() && back[i] == m;
        assert(both[front.len() + i] == m);
    }
    if both.contains(m) {
        let i = choose|i: int| 0 <= i < both.len() && both[i] == m;
        if i < front.len() {
            assert(front[i] == m);
        } else {
            assert(back[i - front.len()] == m);
        }
    }
}

proof fn tiers_are_ordered<T>(moves: Seq<T>, rank: spec_fn(T) -> int, top: int, r: int)
    ensures
        forall|i: int, j: int|
            0 <= i < j < tiers(moves, rank, top, r).len() ==> rank(tiers(moves, rank, top, r)[i])
                >= rank(tiers(moves, rank, top, r)[j]),
    decreases top - r + 1,
{
    if r <= top {
        tiers_are_ordered(moves, rank, top, r + 1);
        let above = tiers(moves, rank, top, r + 1);
        let here = tier(moves, rank, r);
        let all = above + here;
        assert forall|i: int, j: int| 0 <= i < j < all.len() implies rank(all[i]) >= rank(
            all[j],
        ) by {
            if i >= above.len() {
                assert(here.contains(here[i - above.len()]));
                tier_holds(moves, rank, r, here[i - above.len()]);
            } else {
                assert(above.contains(above[i]));
                tiers_hold(moves, rank, top, r + 1, above[i]);
            }
            if j >= above.len() {
                assert(here.contains(here[j - above.len()]));
                tier_holds(moves, rank, r, here[j - above.len()]);
            }
        }
    }
}

/// Arranged moves come in the order of their priority, highest first.
pub proof fn arranged_is_ordered<T>(moves: Seq<T>, rank: spec_fn(T) -> int, top: int)
    ensures
        forall|i: int, j: int|
            0 <= i < j < arranged(moves, rank, top).len() ==> rank(arranged(moves, rank, top)[i])
                >= rank(arranged(moves, rank, top)[j]),
{
    tiers_are_ordered(moves, rank, top, 0);
}

} // verus!

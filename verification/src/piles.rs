//! The cards of a tableau as a collection, and how moving cards between
//! piles changes it.

use vstd::multiset::Multiset;
use vstd::prelude::*;

verus! {

/// The cards of the first `n` piles, each as often as it lies there.
pub open spec fn units_upto<T>(tableau: Seq<Seq<T>>, n: int) -> Multiset<T>
    decreases n,
{
    if n <= 0 {
        Multiset::empty()
    } else {
        units_upto(tableau, n - 1).add(tableau[n - 1].to_multiset())
    }
}

/// The cards of all piles.
pub open spec fn units<T>(tableau: Seq<Seq<T>>) -> Multiset<T> {
    units_upto(tableau, tableau.len() as int)
}

/// The number of cards in the first `n` piles.
pub open spec fn count_upto<T>(tableau: Seq<Seq<T>>, n: int) -> nat
    decreases n,
{
    if n <= 0 {
        0
    } else {
        count_upto(tableau, n - 1) + tableau[n - 1].len()
    }
}

/// The number of cards in all piles.
pub open spec fn count<T>(tableau: Seq<Seq<T>>) -> nat {
    count_upto(tableau, tableau.len() as int)
}

/// The number of empty piles among the first `n`.
pub open spec fn empties_upto<T>(tableau: Seq<Seq<T>>, n: int) -> nat
    decreases n,
{
    if n <= 0 {
        0
    } else {
        empties_upto(tableau, n - 1) + if tableau[n - 1].len() == 0 {
            1nat
        } else {
            0nat
        }
    }
}

/// The cards of the piles are as many as the piles hold.
pub proof fn units_len<T>(tableau: Seq<Seq<T>>, n: int)
    requires
        n <= tableau.len(),
    ensures
        units_upto(tableau, n).len() == count_upto(tableau, n),
    decreases n,
{
    broadcast use vstd::seq_lib::group_to_multiset_ensures;
    broadcast use vstd::multiset::group_multiset_axioms;

    if n > 0 {
        units_len(tableau, n - 1);
    }
}

/// A pile never holds more cards than the piles up to it together.
pub proof fn pile_within_count<T>(tableau: Seq<Seq<T>>, n: int, i: int)
    requires
        0 <= i < n <= tableau.len(),
    ensures
        tableau[i].len() <= count_upto(tableau, n),
    decreases n,
{
    if i < n - 1 {
        pile_within_count(tableau, n - 1, i);
    }
}

/// No more piles are empty than there are.
pub proof fn empties_within<T>(tableau: Seq<Seq<T>>, n: int)
    requires
        0 <= n,
    ensures
        empties_upto(tableau, n) <= n,
    decreases n,
{
    if n > 0 {
        empties_within(tableau, n - 1);
    }
}

/// Replacing pile `i` exchanges its cards for those of the new pile and
/// leaves every other pile's cards in place.
pub proof fn units_of_update<T>(tableau: Seq<Seq<T>>, i: int, pile: Seq<T>, n: int)
    requires
        0 <= i < tableau.len(),
        0 <= n <= tableau.len(),
    ensures
        n <= i ==> units_upto(tableau.update(i, pile), n) == units_upto(tableau, n),
        i < n ==> units_upto(tableau.update(i, pile), n).add(tableau[i].to_multiset())
            == units_upto(tableau, n).add(pile.to_multiset()),
        n <= i ==> count_upto(tableau.update(i, pile), n) == count_upto(tableau, n),
        i < n ==> count_upto(tableau.update(i, pile), n) + tableau[i].len() == count_upto(
            tableau,
            n,
        ) + pile.len(),
    decreases n,
{
    if n > 0 {
        units_of_update(tableau, i, pile, n - 1);
        let next = tableau.update(i, pile);
        assert(next.len() == tableau.len());
        let before = units_upto(tableau, n - 1);
        let after = units_upto(next, n - 1);
        if n - 1 == i {
            assert(next[n - 1] == pile);
            assert(units_upto(next, n).add(tableau[i].to_multiset()) =~= units_upto(tableau, n).add(
                pile.to_multiset(),
            ));
        } else if i < n - 1 {
            assert(next[n - 1] == tableau[n - 1]);
            assert forall|c: T|
                units_upto(next, n).add(tableau[i].to_multiset()).count(c) == units_upto(
                    tableau,
                    n,
                ).add(pile.to_multiset()).count(c) by {
                assert(after.add(tableau[i].to_multiset()).count(c) == before.add(
                    pile.to_multiset(),
                ).count(c));
            }
            assert(units_upto(next, n).add(tableau[i].to_multiset()) =~= units_upto(tableau, n).add(
                pile.to_multiset(),
            ));
        } else {
            assert(next[n - 1] == tableau[n - 1]);
        }
    }
}

/// Putting a card on pile `i` adds that card to the tableau's cards.
pub proof fn units_after_push<T>(tableau: Seq<Seq<T>>, i: int, card: T)
    requires
        0 <= i < tableau.len(),
    ensures
        units(tableau.update(i, tableau[i].push(card))) == units(tableau).insert(card),
        count(tableau.update(i, tableau[i].push(card))) == count(tableau) + 1,
{
    broadcast use vstd::seq_lib::group_to_multiset_ensures;

    units_of_update(tableau, i, tableau[i].push(card), tableau.len() as int);
    let next = tableau.update(i, tableau[i].push(card));
    assert(next.len() == tableau.len());
    assert forall|c: T| units(next).count(c) == units(tableau).insert(card).count(c) by {
        assert(units(next).add(tableau[i].to_multiset()).count(c) == units(tableau).add(
            tableau[i].push(card).to_multiset(),
        ).count(c));
    }
    assert(units(next) =~= units(tableau).insert(card));
}

/// Taking the top card off pile `i` removes that card from the tableau's
/// cards.
pub proof fn units_after_pop<T>(tableau: Seq<Seq<T>>, i: int)
    requires
        0 <= i < tableau.len(),
        tableau[i].len() > 0,
    ensures
        units(tableau.update(i, tableau[i].drop_last())).insert(tableau[i].last()) == units(
            tableau,
        ),
        count(tableau.update(i, tableau[i].drop_last())) + 1 == count(tableau),
{
    broadcast use vstd::seq_lib::group_to_multiset_ensures;

    let pile = tableau[i];
    units_of_update(tableau, i, pile.drop_last(), tableau.len() as int);
    let next = tableau.update(i, pile.drop_last());
    assert(next.len() == tableau.len());
    assert(pile == pile.drop_last().push(pile.last()));
    assert(pile.to_multiset() =~= pile.drop_last().to_multiset().insert(pile.last()));
    assert forall|c: T| units(next).insert(pile.last()).count(c) == units(tableau).count(c) by {
        assert(units(next).add(pile.to_multiset()).count(c) == units(tableau).add(
            pile.drop_last().to_multiset(),
        ).count(c));
    }
    assert(units(next).insert(pile.last()) =~= units(tableau));
}

/// The cards scanned so far, pile by pile and card by card, are among the
/// cards of the tableau.
pub proof fn scanned_within<T>(tableau: Seq<Seq<T>>, i: int, j: int, n: int)
    requires
        0 <= i < n <= tableau.len(),
        0 <= j <= tableau[i].len(),
    ensures
        forall|c: T|
            units_upto(tableau, i).add(tableau[i].take(j).to_multiset()).count(c) <= (
            #[trigger] units_upto(tableau, n).count(c)),
        count_upto(tableau, i) + j <= count_upto(tableau, n),
    decreases n,
{
    broadcast use vstd::multiset::group_multiset_axioms;

    if n == i + 1 {
        let pile = tableau[i];
        vstd::seq_lib::lemma_multiset_commutative(pile.take(j), pile.skip(j));
        assert(pile.take(j) + pile.skip(j) == pile);
        assert forall|c: T|
            units_upto(tableau, i).add(pile.take(j).to_multiset()).count(c) <= (
            #[trigger] units_upto(tableau, n).count(c)) by {
            assert(pile.to_multiset().count(c) == pile.take(j).to_multiset().count(c)
                + pile.skip(j).to_multiset().count(c));
        }
    } else {
        scanned_within(tableau, i, j, n - 1);
        assert forall|c: T|
            units_upto(tableau, i).add(tableau[i].take(j).to_multiset()).count(c) <= (
            #[trigger] units_upto(tableau, n).count(c)) by {
            assert(units_upto(tableau, i).add(tableau[i].take(j).to_multiset()).count(c)
                <= units_upto(tableau, n - 1).count(c));
        }
    }
}

/// The more piles are counted, the more cards.
pub proof fn count_grows<T>(tableau: Seq<Seq<T>>, i: int, n: int)
    requires
        0 <= i <= n,
    ensures
        count_upto(tableau, i) <= count_upto(tableau, n),
    decreases n - i,
{
    if i < n {
        count_grows(tableau, i, n - 1);
    }
}

/// A card that lies at two places of a tableau is among its cards twice.
pub proof fn twin_counts<T>(tableau: Seq<Seq<T>>, i: int, j: int, k: int, l: int)
    requires
        0 <= i <= k < tableau.len(),
        0 <= j < tableau[i].len(),
        0 <= l < tableau[k].len(),
        i == k ==> j < l,
        tableau[i][j] == tableau[k][l],
    ensures
        units(tableau).count(tableau[i][j]) >= 2,
{
    broadcast use vstd::multiset::group_multiset_axioms;

    let card = tableau[i][j];
    let n = tableau.len() as int;
    let upper = tableau[k];
    scanned_within(tableau, k, l + 1, n);
    scanned_within(tableau, k, l, n);
    upper.take(l).to_multiset_ensures();
    assert(upper.take(l + 1) == upper.take(l).push(card));
    assert(upper.take(l + 1).to_multiset().count(card) == upper.take(l).to_multiset().count(card)
        + 1);
    if i == k {
        assert(upper.take(l)[j] == card);
        assert(upper.take(l).contains(card));
    } else {
        let lower = tableau[i];
        scanned_within(tableau, i, j + 1, k);
        lower.take(j + 1).to_multiset_ensures();
        assert(lower.take(j + 1)[j] == card);
        assert(lower.take(j + 1).contains(card));
        assert(units_upto(tableau, i).add(lower.take(j + 1).to_multiset()).count(card) >= 1);
        assert(units_upto(tableau, k).count(card) >= 1);
    }
    assert(units_upto(tableau, k).add(upper.take(l + 1).to_multiset()).count(card) >= 2);
}

} // verus!

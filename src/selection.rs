use crate::cards::Card;
use crate::game::Game;
use crate::utils::Contains;
use vstd::prelude::*;

verus! {

/// `chosen` names exactly `count` distinct positions below `n`.
pub open spec fn valid_selection(chosen: Seq<usize>, n: int, count: int) -> bool {
    &&& chosen.len() == count
    &&& chosen.no_duplicates()
    &&& forall|k: int| 0 <= k < chosen.len() ==> chosen[k] < n
}

/// The cards of `s` whose positions `chosen` names, in the order of `s`.
pub open spec fn chosen_cards(s: Seq<Card>, chosen: Seq<usize>) -> Seq<Card>
    decreases s.len(),
{
    if s.len() == 0 {
        seq![]
    } else if chosen.contains((s.len() - 1) as usize) {
        chosen_cards(s.drop_last(), chosen).push(s.last())
    } else {
        chosen_cards(s.drop_last(), chosen)
    }
}

/// The cards of `s` whose positions `chosen` does not name, in the order
/// of `s`.
pub open spec fn unchosen_cards(s: Seq<Card>, chosen: Seq<usize>) -> Seq<Card>
    decreases s.len(),
{
    if s.len() == 0 {
        seq![]
    } else if chosen.contains((s.len() - 1) as usize) {
        unchosen_cards(s.drop_last(), chosen)
    } else {
        unchosen_cards(s.drop_last(), chosen).push(s.last())
    }
}

/// How many of the positions below `m` `chosen` names.
pub open spec fn count_below(chosen: Seq<usize>, m: int) -> int
    decreases m,
{
    if m <= 0 {
        0
    } else {
        count_below(chosen, m - 1) + if chosen.contains((m - 1) as usize) {
            1int
        } else {
            0int
        }
    }
}

proof fn lemma_count_drop(chosen: Seq<usize>, m: int)
    requires
        chosen.len() > 0,
        chosen.no_duplicates(),
        0 <= m <= usize::MAX + 1,
    ensures
        count_below(chosen, m) == count_below(chosen.drop_last(), m) + if chosen.last() < m {
            1int
        } else {
            0int
        },
    decreases m,
{
    if m > 0 {
        lemma_count_drop(chosen, m - 1);
        let x = chosen.last();
        let c = chosen.drop_last();
        let y = (m - 1) as usize;
        if chosen.contains(y) && y != x {
            let k = choose|k: int| 0 <= k < chosen.len() && chosen[k] == y;
            assert(c[k] == y);
        }
        if c.contains(y) {
            let k = choose|k: int| 0 <= k < c.len() && c[k] == y;
            assert(chosen[k] == y);
            if y == x {
                assert(chosen[chosen.len() - 1] == y);
            }
        }
        if y == x {
            assert(chosen[chosen.len() - 1] == y);
        }
    }
}

proof fn lemma_count_valid(chosen: Seq<usize>, n: int)
    requires
        valid_selection(chosen, n, chosen.len() as int),
        n <= usize::MAX + 1,
    ensures
        count_below(chosen, n) == chosen.len(),
    decreases chosen.len(),
{
    if chosen.len() == 0 {
        lemma_count_empty(chosen, n);
    } else {
        let c = chosen.drop_last();
        assert forall|k: int| 0 <= k < c.len() implies c[k] < n by {
            assert(c[k] == chosen[k]);
        }
        assert(c.no_duplicates()) by {
            assert forall|i: int, j: int| 0 <= i < c.len() && 0 <= j < c.len() && i != j implies c[i]
                != c[j] by {
                assert(c[i] == chosen[i] && c[j] == chosen[j]);
            }
        }
        lemma_count_valid(c, n);
        if n >= 0 {
            lemma_count_drop(chosen, n);
        }
        assert(chosen.last() == chosen[chosen.len() - 1]);
    }
}

proof fn lemma_count_empty(chosen: Seq<usize>, m: int)
    requires
        chosen.len() == 0,
    ensures
        count_below(chosen, m) == 0,
    decreases m,
{
    if m > 0 {
        lemma_count_empty(chosen, m - 1);
    }
}

proof fn lemma_partition(s: Seq<Card>, chosen: Seq<usize>)
    ensures
        chosen_cards(s, chosen).len() == count_below(chosen, s.len() as int),
        chosen_cards(s, chosen).len() + unchosen_cards(s, chosen).len() == s.len(),
        chosen_cards(s, chosen).to_multiset().add(unchosen_cards(s, chosen).to_multiset())
            =~= s.to_multiset(),
    decreases s.len(),
{
    broadcast use vstd::seq_lib::group_to_multiset_ensures;

    if s.len() > 0 {
        lemma_partition(s.drop_last(), chosen);
        assert(s =~= s.drop_last().push(s.last()));
    }
}

/// Choosing `count` cards from `s` keeps exactly `count` of them and leaves
/// the others, losing and duplicating none.
pub proof fn lemma_selection_partitions(s: Seq<Card>, chosen: Seq<usize>, count: int)
    requires
        valid_selection(chosen, s.len() as int, count),
        s.len() <= usize::MAX,
    ensures
        chosen_cards(s, chosen).len() == count,
        unchosen_cards(s, chosen).len() == s.len() - count,
        chosen_cards(s, chosen).to_multiset().add(unchosen_cards(s, chosen).to_multiset())
            == s.to_multiset(),
{
    lemma_partition(s, chosen);
    lemma_count_valid(chosen, s.len() as int);
}

/// Whether `chosen` names exactly `count` distinct positions below `n`.
pub fn is_valid_selection(chosen: &Vec<usize>, n: usize, count: usize) -> (r: bool)
    ensures
        r == valid_selection(chosen@, n as int, count as int),
{
    if chosen.len() != count {
        return false;
    }
    let mut k: usize = 0;
    while k < chosen.len()
        invariant
            k <= chosen@.len(),
            forall|a: int| 0 <= a < k ==> chosen@[a] < n,
            forall|a: int, b: int| 0 <= a < k && 0 <= b < chosen@.len() && a != b ==> chosen@[a] != chosen@[b],
        decreases chosen@.len() - k,
    {
        if chosen[k] >= n {
            return false;
        }
        let mut l: usize = 0;
        while l < chosen.len()
            invariant
                k < chosen@.len(),
                l <= chosen@.len(),
                forall|b: int| 0 <= b < l && b != k ==> chosen@[k as int] != chosen@[b],
            decreases chosen@.len() - l,
        {
            if l != k && chosen[l] == chosen[k] {
                return false;
            }
            l = l + 1;
        }
        k = k + 1;
    }
    true
}

/// Splits `cards` into the chosen cards and the others, each in the order
/// of `cards`.
pub fn split_chosen(cards: Vec<Card>, chosen: &Vec<usize>) -> (r: (Vec<Card>, Vec<Card>))
    ensures
        r.0@ == chosen_cards(cards@, chosen@),
        r.1@ == unchosen_cards(cards@, chosen@),
{
    let ghost all = cards@;
    let mut rest = cards;
    let mut kept: Vec<Card> = Vec::new();
    let mut left: Vec<Card> = Vec::new();
    let n = rest.len();
    let mut i: usize = 0;
    while i < n
        invariant
            n == all.len(),
            i <= n,
            rest@ == all.skip(i as int),
            kept@ == chosen_cards(all.take(i as int), chosen@),
            left@ == unchosen_cards(all.take(i as int), chosen@),
        decreases n - i,
    {
        let c = rest.remove(0);
        proof {
            assert(all.take(i + 1).drop_last() =~= all.take(i as int));
            assert(c == all[i as int]);
            assert(rest@ =~= all.skip(i + 1));
        }
        if chosen.contains(&i) {
            kept.push(c);
        } else {
            left.push(c);
        }
        i = i + 1;
    }
    proof {
        assert(all.take(n as int) =~= all);
    }
    (kept, left)
}

/// Puts every card of `cards` on the discard pile, in order.
pub fn discard_all(game: &mut Game, cards: Vec<Card>)
    ensures
        final(game).draw_pile@ == old(game).draw_pile@,
        final(game).discard_pile@ == old(game).discard_pile@ + cards@,
{
    let ghost all = cards@;
    let mut rest = cards;
    let n = rest.len();
    let mut i: usize = 0;
    while i < n
        invariant
            n == all.len(),
            i <= n,
            rest@ == all.skip(i as int),
            game.draw_pile@ == old(game).draw_pile@,
            game.discard_pile@ == old(game).discard_pile@ + all.take(i as int),
        decreases n - i,
    {
        let c = rest.remove(0);
        proof {
            assert(c == all[i as int]);
            assert(rest@ =~= all.skip(i + 1));
            assert(all.take(i + 1) =~= all.take(i as int).push(c));
        }
        game.discard(c);
        i = i + 1;
    }
    proof {
        assert(all.take(n as int) =~= all);
    }
}

} // verus!

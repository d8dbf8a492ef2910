use crate::cards::Card;
use crate::utils::Variants;
use vstd::multiset::Multiset;
use vstd::prelude::*;

verus! {

/// The phases a player can act in.
#[derive(Debug, Clone, Copy, PartialEq, Eq, Structural, Hash)]
pub enum Phase {
    Explore,
    Develop,
    Settle,
}

impl Variants for Phase {
    open spec fn all_variants() -> Seq<Phase> {
        seq![Phase::Explore, Phase::Develop, Phase::Settle]
    }

    fn variants() -> (r: Vec<Phase>) {
        vec![Phase::Explore, Phase::Develop, Phase::Settle]
    }
}

impl Phase {
    /// The name of the phase.
    pub fn name(&self) -> (r: &'static str)
        ensures
            r@ == match *self {
                Phase::Explore => "Explore"@,
                Phase::Develop => "Develop"@,
                Phase::Settle => "Settle"@,
            },
    {
        match *self {
            Phase::Explore => "Explore",
            Phase::Develop => "Develop",
            Phase::Settle => "Settle",
        }
    }
}

/// Relies on rand's `SliceRandom::shuffle` with `thread_rng`: it only swaps
/// elements of the slice, so the pile keeps exactly the cards it had.
#[verifier::external_body]
fn shuffle_pile(pile: &mut Vec<Card>)
    ensures
        final(pile)@.to_multiset() == old(pile)@.to_multiset(),
{
    let mut rng = rand::thread_rng();
    rand::seq::SliceRandom::shuffle(pile.as_mut_slice(), &mut rng);
}

/// The shared draw and discard piles.
#[derive(Debug)]
pub struct Game {
    pub draw_pile: Vec<Card>,
    pub discard_pile: Vec<Card>,
}

impl Game {
    /// All the cards in the two piles.
    pub open spec fn cards(&self) -> Multiset<Card> {
        self.draw_pile@.to_multiset().add(self.discard_pile@.to_multiset())
    }

    /// The number of cards in the two piles.
    pub open spec fn spec_card_count(&self) -> int {
        (self.draw_pile@.len() + self.discard_pile@.len()) as int
    }

    /// A game whose draw pile is `draw_pile` shuffled, with an empty
    /// discard pile.
    pub fn new(draw_pile: Vec<Card>) -> (r: Game)
        ensures
            r.draw_pile@.to_multiset() == draw_pile@.to_multiset(),
            r.discard_pile@.len() == 0,
    {
        let mut draw_pile = draw_pile;
        shuffle_pile(&mut draw_pile);
        Game { draw_pile, discard_pile: Vec::new() }
    }

    /// The number of cards left to draw, counting those that a reshuffle of
    /// the discard pile would bring back.
    pub fn card_count(&self) -> (r: usize)
        requires
            self.spec_card_count() <= usize::MAX,
        ensures
            r == self.spec_card_count(),
    {
        self.draw_pile.len() + self.discard_pile.len()
    }

    /// Takes the top card of the draw pile. An empty draw pile is first
    /// refilled with the shuffled discard pile.
    pub fn draw(&mut self) -> (c: Card)
        requires
            old(self).spec_card_count() > 0,
        ensures
            final(self).cards().insert(c) == old(self).cards(),
            final(self).spec_card_count() == old(self).spec_card_count() - 1,
            old(self).draw_pile@.len() > 0 ==> {
                &&& c == old(self).draw_pile@.last()
                &&& final(self).draw_pile@ == old(self).draw_pile@.drop_last()
                &&& final(self).discard_pile@ == old(self).discard_pile@
            },
            old(self).draw_pile@.len() == 0 ==> final(self).discard_pile@.len() == 0,
    {
        broadcast use vstd::seq_lib::group_to_multiset_ensures;

        if self.draw_pile.len() == 0 {
            self.draw_pile.append(&mut self.discard_pile);
            proof {
                assert(self.draw_pile@ =~= old(self).discard_pile@);
            }
            let ghost refilled = self.draw_pile@;
            shuffle_pile(&mut self.draw_pile);
            proof {
                assert(self.draw_pile@.len() == self.draw_pile@.to_multiset().len());
                assert(refilled.len() == refilled.to_multiset().len());
                assert(self.cards() =~= old(self).cards());
            }
        }
        let ghost before = self.draw_pile@;
        let c = self.draw_pile.pop().unwrap();
        proof {
            assert(before =~= self.draw_pile@.push(c));
            assert(self.cards().insert(c) =~= old(self).cards());
        }
        c
    }

    /// Puts a card on the discard pile.
    pub fn discard(&mut self, card: Card)
        ensures
            final(self).draw_pile@ == old(self).draw_pile@,
            final(self).discard_pile@ == old(self).discard_pile@.push(card),
    {
        self.discard_pile.push(card);
    }
}

} // verus!

//! Drawing a card: the choice of one of the events that the card offers and
//! that may be played.

use vstd::prelude::*;
use crate::board::{Board, BoardView};
use crate::event::Event;
use crate::laws::{event_keeps_kings, playable_event_is_safe};
use crate::offers::lemma_candidates_suit;
use crate::piece::Color;
use crate::position::Position;
use crate::random::{generate_cards, shuffle_events};
use crate::seqs::{flat_map_upto, only_if};

verus! {

impl BoardView {
    /// The board with the cards of one side replaced.
    pub open spec fn with_cards(self, color: Color, cards: Seq<usize>) -> BoardView {
        if color == Color::White {
            BoardView { white_cards: cards, ..self }
        } else {
            BoardView { black_cards: cards, ..self }
        }
    }

    /// The card that the side to move draws next: the last of its cards.
    pub open spec fn top_card(self) -> usize {
        self.cards(self.position.active).last()
    }

    /// The board once the side to move has drawn its next card: the card is
    /// on record and gone from the hand, and where it was the last of the
    /// hand, the hand is `fresh`.
    pub open spec fn dealt(self, fresh: Seq<usize>) -> BoardView {
        let hand = self.cards(self.position.active);
        BoardView {
            last_card: Some(hand.last()),
            ..self.with_cards(
                self.position.active,
                if hand.len() > 1 {
                    hand.drop_last()
                } else {
                    fresh
                },
            )
        }
    }

    /// The board once the event chosen for a card, if any, has taken place.
    pub open spec fn played(self, choice: Option<Event>) -> BoardView {
        match choice {
            Some(e) => self.mutated(e),
            None => self,
        }
    }
}

/// Whether `choice` can come of choosing among `cands`: it is one of those
/// that may be played, or none where none of them may.
pub open spec fn may_choose(pos: Position, cands: Seq<Event>, choice: Option<Event>) -> bool {
    match choice {
        Some(e) => pos.playable(cands).contains(e),
        None => pos.playable(cands).len() == 0,
    }
}

/// Whether a hand is five cards, each from 0 to 10.
pub open spec fn fresh_hand(cards: Seq<usize>) -> bool {
    cards.len() == 5 && forall|i: int| 0 <= i < 5 ==> #[trigger] cards[i] <= 10
}

/// The first of the events, if there is any.
pub fn first_event(events: &Vec<Event>) -> (first: Option<Event>)
    ensures
        first == if events@.len() == 0 {
            None
        } else {
            Some(events@[0])
        },
{
    if events.len() == 0 {
        None
    } else {
        Some(events[0])
    }
}

impl Board {
    /// Whether an event may be played: after it the opponent cannot take the
    /// king of the side to move, and the side to move has a legal move.
    pub fn is_valid_event(&self, event: Event) -> (valid: bool)
        requires
            self.pos().accepts(event),
        ensures
            valid == self.pos().event_ok(event),
    {
        let board = self.event_applied(event);
        !board.can_attack_king(board.active.other()) && board.all_possible_moves().len() > 0
    }

    /// The events among `cands` that may be played, in their order.
    pub fn valid_events(&self, cands: &Vec<Event>) -> (valid: Vec<Event>)
        requires
            forall|k: int| 0 <= k < cands@.len() ==> self.pos().accepts(#[trigger] cands@[k]),
        ensures
            valid@ == self.pos().playable(cands@),
    {
        let mut valid: Vec<Event> = Vec::new();
        let mut i: usize = 0;
        while i < cands.len()
            invariant
                i <= cands.len(),
                forall|k: int| 0 <= k < cands@.len() ==> self.pos().accepts(#[trigger] cands@[k]),
                valid@ == flat_map_upto(
                    cands@,
                    only_if(|e: Event| self.pos().event_ok(e)),
                    i as int,
                ),
            decreases cands.len() - i,
        {
            if self.is_valid_event(cands[i]) {
                valid.push(cands[i]);
            }
            i += 1;
        }
        valid
    }

    /// Chooses at random among the events of `cands` that may be played.
    pub fn gen_events(&self, cands: &Vec<Event>) -> (choice: Option<Event>)
        requires
            forall|k: int| 0 <= k < cands@.len() ==> self.pos().accepts(#[trigger] cands@[k]),
        ensures
            may_choose(self.pos(), cands@, choice),
            choice matches Some(e) ==> cands@.contains(e) && self.pos().event_ok(e),
    {
        let mut valid = self.valid_events(cands);
        let ghost sorted = valid@;
        shuffle_events(&mut valid);
        proof {
            vstd::seq_lib::to_multiset_len(sorted);
            vstd::seq_lib::to_multiset_len(valid@);
            if valid@.len() > 0 {
                let e = valid@[0];
                assert(valid@.contains(e));
                vstd::seq_lib::to_multiset_contains(valid@, e);
                vstd::seq_lib::to_multiset_contains(sorted, e);
                assert(sorted.contains(e));
                let k = choose|k: int| 0 <= k < sorted.len() && sorted[k] == e;
                playable_event_is_safe(self.pos(), cands@, k);
            }
        }
        first_event(&valid)
    }

    /// An event for a card: one of those that the card offers and that may
    /// be played, chosen at random; none for card 0.
    pub fn make_event(&self, card: usize) -> (choice: Option<Event>)
        ensures
            may_choose(self.pos(), self.pos().candidates(card), choice),
    {
        if card == 0 {
            None
        } else if card == 1 {
            self.make_b2n()
        } else if card == 2 {
            self.make_n2b()
        } else if card == 3 {
            self.make_r2q()
        } else if card == 4 {
            self.make_q2r()
        } else if card == 5 {
            self.make_p2q()
        } else if card == 6 {
            self.make_q2p()
        } else if card == 7 {
            self.make_swap()
        } else if card == 8 {
            self.make_rotate()
        } else if card == 9 {
            self.make_pawn_run()
        } else {
            self.make_king_move()
        }
    }

    /// A swap of two pieces of the side to move.
    pub fn make_swap(&self) -> (choice: Option<Event>)
        ensures
            may_choose(self.pos(), self.pos().swap_candidates(), choice),
    {
        let cands = self.swap_candidates();
        proof {
            assert forall|k: int| 0 <= k < cands@.len() implies self.pos().accepts(
                #[trigger] cands@[k],
            ) by {
                lemma_candidates_suit(self.pos(), 7, k);
            }
        }
        self.gen_events(&cands)
    }

    /// A knight of the side to move as a bishop.
    pub fn make_n2b(&self) -> (choice: Option<Event>)
        ensures
            may_choose(self.pos(), self.pos().n2b_candidates(), choice),
    {
        let cands = self.n2b_candidates();
        proof {
            assert forall|k: int| 0 <= k < cands@.len() implies self.pos().accepts(
                #[trigger] cands@[k],
            ) by {
                lemma_candidates_suit(self.pos(), 2, k);
            }
        }
        self.gen_events(&cands)
    }

    /// A bishop of the side to move as a knight.
    pub fn make_b2n(&self) -> (choice: Option<Event>)
        ensures
            may_choose(self.pos(), self.pos().b2n_candidates(), choice),
    {
        let cands = self.b2n_candidates();
        proof {
            assert forall|k: int| 0 <= k < cands@.len() implies self.pos().accepts(
                #[trigger] cands@[k],
            ) by {
                lemma_candidates_suit(self.pos(), 1, k);
            }
        }
        self.gen_events(&cands)
    }

    /// Two rooks of the side to move as a queen.
    pub fn make_r2q(&self) -> (choice: Option<Event>)
        ensures
            may_choose(self.pos(), self.pos().r2q_candidates(), choice),
    {
        let cands = self.r2q_candidates();
        proof {
            assert forall|k: int| 0 <= k < cands@.len() implies self.pos().accepts(
                #[trigger] cands@[k],
            ) by {
                lemma_candidates_suit(self.pos(), 3, k);
            }
        }
        self.gen_events(&cands)
    }

    /// A queen of the side to move as two rooks.
    pub fn make_q2r(&self) -> (choice: Option<Event>)
        ensures
            may_choose(self.pos(), self.pos().q2r_candidates(), choice),
    {
        let cands = self.q2r_candidates();
        proof {
            assert forall|k: int| 0 <= k < cands@.len() implies self.pos().accepts(
                #[trigger] cands@[k],
            ) by {
                lemma_candidates_suit(self.pos(), 4, k);
            }
        }
        self.gen_events(&cands)
    }

    /// The run of a pawn of the side to move.
    pub fn make_pawn_run(&self) -> (choice: Option<Event>)
        ensures
            may_choose(self.pos(), self.pos().pawn_run_candidates(), choice),
    {
        let cands = self.pawn_run_candidates();
        proof {
            assert forall|k: int| 0 <= k < cands@.len() implies self.pos().accepts(
                #[trigger] cands@[k],
            ) by {
                lemma_candidates_suit(self.pos(), 9, k);
            }
        }
        self.gen_events(&cands)
    }

    /// Eight pawns of the side to move as a queen.
    pub fn make_p2q(&self) -> (choice: Option<Event>)
        ensures
            may_choose(self.pos(), self.pos().p2q_candidates(), choice),
    {
        let cands = self.p2q_candidates();
        proof {
            assert forall|k: int| 0 <= k < cands@.len() implies self.pos().accepts(
                #[trigger] cands@[k],
            ) by {
                lemma_candidates_suit(self.pos(), 5, k);
            }
        }
        self.gen_events(&cands)
    }

    /// A queen of the side to move as eight pawns.
    pub fn make_q2p(&self) -> (choice: Option<Event>)
        ensures
            may_choose(self.pos(), self.pos().q2p_candidates(), choice),
    {
        let cands = self.q2p_candidates();
        proof {
            assert forall|k: int| 0 <= k < cands@.len() implies self.pos().accepts(
                #[trigger] cands@[k],
            ) by {
                lemma_candidates_suit(self.pos(), 6, k);
            }
        }
        self.gen_events(&cands)
    }

    /// The jump of a piece of the side to move from one edge file to the
    /// other.
    pub fn make_rotate(&self) -> (choice: Option<Event>)
        ensures
            may_choose(self.pos(), self.pos().rotate_candidates(), choice),
    {
        let cands = self.rotate_candidates();
        proof {
            assert forall|k: int| 0 <= k < cands@.len() implies self.pos().accepts(
                #[trigger] cands@[k],
            ) by {
                lemma_candidates_suit(self.pos(), 8, k);
            }
        }
        self.gen_events(&cands)
    }

    /// The slide of the king of the side to move.
    pub fn make_king_move(&self) -> (choice: Option<Event>)
        ensures
            may_choose(self.pos(), self.pos().king_move_candidates(), choice),
    {
        let cands = self.king_move_candidates();
        proof {
            assert forall|k: int| 0 <= k < cands@.len() implies self.pos().accepts(
                #[trigger] cands@[k],
            ) by {
                lemma_candidates_suit(self.pos(), 10, k);
            }
        }
        self.gen_events(&cands)
    }

    /// The card that the side to move draws next.
    pub fn top_card(&self) -> (card: usize)
        requires
            self@.cards(self.active).len() > 0,
        ensures
            card == self@.top_card(),
    {
        if self.active.is_white() {
            self.white_cards[self.white_cards.len() - 1]
        } else {
            self.black_cards[self.black_cards.len() - 1]
        }
    }

    /// Draws the next card of the side to move and lets the chosen event, if
    /// any, take place. Where the card was the last of the hand, `fresh`
    /// becomes the hand.
    pub fn deal(&mut self, fresh: Vec<usize>, choice: Option<Event>)
        requires
            old(self)@.cards(old(self).active).len() > 0,
            choice matches Some(e) ==> old(self).pos().accepts(e),
        ensures
            final(self)@ == old(self)@.dealt(fresh@).played(choice),
    {
        if self.active.is_white() {
            let card = self.white_cards.pop().unwrap();
            self.last_card = Some(card);
            if self.white_cards.len() == 0 {
                self.white_cards = fresh;
            }
        } else {
            let card = self.black_cards.pop().unwrap();
            self.last_card = Some(card);
            if self.black_cards.len() == 0 {
                self.black_cards = fresh;
            }
        }
        assert(self@ == old(self)@.dealt(fresh@));
        if let Some(ev) = choice {
            self.apply_event(ev);
        }
    }

    /// Draws the next card of the side to move. The card is on record and
    /// gone from the hand; where it was the last of the hand, five fresh
    /// cards take its place. One of the events that the card offers and that
    /// may be played takes place, if there is any.
    pub fn draw_card(&mut self)
        requires
            old(self)@.cards(old(self).active).len() > 0,
        ensures
            exists|fresh: Seq<usize>, choice: Option<Event>|
                {
                    &&& fresh_hand(fresh)
                    &&& may_choose(
                        old(self).pos(),
                        old(self).pos().candidates(old(self)@.top_card()),
                        choice,
                    )
                    &&& #[trigger] final(self)@ == old(self)@.dealt(fresh).played(choice)
                },
            final(self).pos() == old(self).pos() || {
                &&& !final(self).pos().attacks_king(final(self).active.opponent())
                &&& final(self).pos().listing().len() > 0
            },
            old(self).pos().sound() ==> final(self).pos().sound(),
    {
        let card = self.top_card();
        let last = if self.active.is_white() {
            self.white_cards.len() == 1
        } else {
            self.black_cards.len() == 1
        };
        let fresh = if last {
            generate_cards(5)
        } else {
            Vec::new()
        };
        let ev = self.make_event(card);
        proof {
            if let Some(e) = ev {
                let cands = self.pos().candidates(card);
                let i = choose|i: int|
                    0 <= i < self.pos().playable(cands).len() && self.pos().playable(cands)[i] == e;
                let k = playable_event_is_safe(self.pos(), cands, i);
                lemma_candidates_suit(self.pos(), card, k);
                if self.pos().sound() {
                    event_keeps_kings(self.pos(), card, k);
                }
            }
        }
        let ghost hand = if last {
            fresh@
        } else {
            Seq::new(5, |i: int| 0usize)
        };
        self.deal(fresh, ev);
        proof {
            assert(self@ == old(self)@.dealt(hand).played(ev));
            assert(fresh_hand(hand));
        }
    }
}

impl Default for Board {
    /// A board in the initial position, each side with five fresh cards.
    fn default() -> (board: Board)
        ensures
            board@.position == Position::initial(),
            board@.position.sound(),
            board@.half_moves == 0,
            board@.last_move is None,
            board@.last_event is None,
            board@.last_card is None,
            fresh_hand(board@.white_cards),
            fresh_hand(board@.black_cards),
    {
        Board::with_decks(generate_cards(5), generate_cards(5))
    }
}

} // verus!

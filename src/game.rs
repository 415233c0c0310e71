use vstd::prelude::*;
use crate::card::{CardColor, is_team, opposite_spec, opposite_color};

verus! {

/// Number of cards on a board: a 5 by 5 grid.
pub const GRID_SIZE: usize = 25;

/// Number of cards in a row of the board.
pub const GRID_SIDE: usize = 5;

/// One card on the board.
pub struct WordCard {
    pub word: String,
    pub color: CardColor,
    pub flipped: bool,
}

/// What a card is, for contracts.
pub struct CardView {
    pub word: Seq<char>,
    pub color: CardColor,
    pub flipped: bool,
}

impl View for WordCard {
    type V = CardView;

    open spec fn view(&self) -> CardView {
        CardView { word: self.word@, color: self.color, flipped: self.flipped }
    }
}

pub open spec fn cards_view(s: Seq<WordCard>) -> Seq<CardView> {
    s.map_values(|c: WordCard| c@)
}

/// The game as a mathematical value.
pub struct GameView {
    pub cards: Seq<CardView>,
    pub current_turn: CardColor,
    pub winner: Option<CardColor>,
    pub total_red: nat,
    pub total_blue: nat,
}

/// How many cards of class `c` the sequence holds.
pub open spec fn count_color(cards: Seq<CardView>, c: CardColor) -> nat
    decreases cards.len(),
{
    if cards.len() == 0 {
        0
    } else {
        count_color(cards.drop_last(), c) + if cards.last().color == c { 1nat } else { 0nat }
    }
}

/// How many revealed cards of class `c` the sequence holds.
pub open spec fn count_flipped(cards: Seq<CardView>, c: CardColor) -> nat
    decreases cards.len(),
{
    if cards.len() == 0 {
        0
    } else {
        count_flipped(cards.drop_last(), c) + if cards.last().flipped && cards.last().color == c {
            1nat
        } else {
            0nat
        }
    }
}

impl GameView {
    /// A board of the fixed size, a team on turn, totals that match the board, and a finished
    /// game only with every card face up.
    pub open spec fn wf(&self) -> bool {
        &&& self.cards.len() == GRID_SIZE
        &&& is_team(self.current_turn)
        &&& self.total_red == count_color(self.cards, CardColor::Red)
        &&& self.total_blue == count_color(self.cards, CardColor::Blue)
        &&& self.winner.is_some() ==> is_team(self.winner.unwrap()) && all_flipped(self.cards)
    }
}

pub open spec fn all_flipped(cards: Seq<CardView>) -> bool {
    forall|i: int| 0 <= i < cards.len() ==> #[trigger] cards[i].flipped
}

pub open spec fn flip_card(c: CardView) -> CardView {
    CardView { word: c.word, color: c.color, flipped: true }
}

pub open spec fn reveal_all(cards: Seq<CardView>) -> Seq<CardView> {
    cards.map_values(|c: CardView| flip_card(c))
}

/// The game closed with winner `w`: every card face up, nothing else changed.
pub open spec fn finish(g: GameView, w: CardColor) -> GameView {
    GameView { cards: reveal_all(g.cards), winner: Some(w), ..g }
}

/// Turning cards face up keeps the number of cards of each class.
pub proof fn lemma_count_color_reveal_all(cards: Seq<CardView>, c: CardColor)
    ensures
        count_color(reveal_all(cards), c) == count_color(cards, c),
    decreases cards.len(),
{
    if cards.len() > 0 {
        assert(reveal_all(cards).drop_last() =~= reveal_all(cards.drop_last()));
        lemma_count_color_reveal_all(cards.drop_last(), c);
    }
}

/// Turning one card face up keeps the number of cards of each class.
pub proof fn lemma_count_color_flip(cards: Seq<CardView>, pos: int, c: CardColor)
    requires
        0 <= pos < cards.len(),
    ensures
        count_color(cards.update(pos, flip_card(cards[pos])), c) == count_color(cards, c),
    decreases cards.len(),
{
    let u = cards.update(pos, flip_card(cards[pos]));
    if pos < cards.len() - 1 {
        assert(u.drop_last() =~= cards.drop_last().update(pos, flip_card(cards[pos])));
        lemma_count_color_flip(cards.drop_last(), pos, c);
    } else {
        assert(u.drop_last() =~= cards.drop_last());
    }
}

/// What a state transition did.
#[derive(Debug, Clone, Copy, PartialEq, Eq, Structural)]
pub enum Outcome {
    /// Nothing: the card was face up already, or the game is over.
    Ignored,
    /// The same team keeps guessing.
    Continue,
    /// The turn passed to the other team.
    EndTurn,
    /// The game has a winner.
    EndGame,
}

/// The effect of revealing the card at `pos`.
pub open spec fn reveal_spec(g: GameView, pos: int) -> (GameView, Outcome) {
    if g.winner.is_some() || g.cards[pos].flipped {
        (g, Outcome::Ignored)
    } else {
        let card = g.cards[pos];
        let g1 = GameView { cards: g.cards.update(pos, flip_card(card)), ..g };
        if card.color == CardColor::Death {
            (finish(g1, opposite_spec(g.current_turn)), Outcome::EndGame)
        } else if count_flipped(g1.cards, CardColor::Red) == g.total_red {
            (finish(g1, CardColor::Red), Outcome::EndGame)
        } else if count_flipped(g1.cards, CardColor::Blue) == g.total_blue {
            (finish(g1, CardColor::Blue), Outcome::EndGame)
        } else if card.color != g.current_turn {
            (GameView { current_turn: opposite_spec(g.current_turn), ..g1 }, Outcome::EndTurn)
        } else {
            (g1, Outcome::Continue)
        }
    }
}

/// The effect of a team giving up the rest of its turn.
pub open spec fn end_turn_spec(g: GameView) -> (GameView, Outcome) {
    if g.winner.is_some() {
        (g, Outcome::Ignored)
    } else {
        (GameView { current_turn: opposite_spec(g.current_turn), ..g }, Outcome::EndTurn)
    }
}

/// Revealing the assassin hands the game to the team not on turn and turns every card face up.
pub proof fn lemma_assassin_loses(g: GameView, pos: int)
    requires
        g.wf(),
        0 <= pos < g.cards.len(),
        g.winner.is_none(),
        !g.cards[pos].flipped,
        g.cards[pos].color == CardColor::Death,
    ensures
        reveal_spec(g, pos).0.winner == Some(opposite_spec(g.current_turn)),
        all_flipped(reveal_spec(g, pos).0.cards),
        reveal_spec(g, pos).0.wf(),
        reveal_spec(g, pos).1 == Outcome::EndGame,
{
    lemma_count_color_flip(g.cards, pos, CardColor::Red);
    lemma_count_color_flip(g.cards, pos, CardColor::Blue);
    lemma_count_color_reveal_all(g.cards.update(pos, flip_card(g.cards[pos])), CardColor::Red);
    lemma_count_color_reveal_all(g.cards.update(pos, flip_card(g.cards[pos])), CardColor::Blue);
}

/// A reveal that does not end the game passes the turn exactly when the card is not of the team
/// on turn; a card of the team on turn never passes it.
pub proof fn lemma_turn_passes_on_miss(g: GameView, pos: int)
    requires
        g.wf(),
        0 <= pos < g.cards.len(),
        g.winner.is_none(),
        !g.cards[pos].flipped,
    ensures
        reveal_spec(g, pos).1 != Outcome::EndGame && g.cards[pos].color != g.current_turn ==> {
            &&& reveal_spec(g, pos).0.current_turn == opposite_spec(g.current_turn)
            &&& reveal_spec(g, pos).0.current_turn != g.current_turn
            &&& reveal_spec(g, pos).1 == Outcome::EndTurn
        },
        g.cards[pos].color == g.current_turn ==> reveal_spec(g, pos).0.current_turn
            == g.current_turn,
{
}

/// Once the flipped cards of a team reach its total, that team wins and the board is laid open,
/// whichever team the last card belonged to; Red is settled before Blue.
pub proof fn lemma_team_complete_wins(g: GameView, pos: int)
    requires
        g.wf(),
        0 <= pos < g.cards.len(),
        g.winner.is_none(),
        !g.cards[pos].flipped,
        g.cards[pos].color != CardColor::Death,
    ensures
        ({
            let after = g.cards.update(pos, flip_card(g.cards[pos]));
            &&& count_flipped(after, CardColor::Red) == g.total_red ==> {
                &&& reveal_spec(g, pos).0.winner == Some(CardColor::Red)
                &&& all_flipped(reveal_spec(g, pos).0.cards)
            }
            &&& count_flipped(after, CardColor::Red) != g.total_red && count_flipped(
                after,
                CardColor::Blue,
            ) == g.total_blue ==> {
                &&& reveal_spec(g, pos).0.winner == Some(CardColor::Blue)
                &&& all_flipped(reveal_spec(g, pos).0.cards)
            }
        }),
{
}

/// A finished game is frozen: neither a reveal nor the end of a turn changes it.
pub proof fn lemma_finished_game_frozen(g: GameView, pos: int)
    requires
        g.wf(),
        0 <= pos < g.cards.len(),
        g.winner.is_some(),
    ensures
        reveal_spec(g, pos) == (g, Outcome::Ignored),
        end_turn_spec(g) == (g, Outcome::Ignored),
{
}

/// The one authoritative game state: the board, the team on turn, and the winner, if any.
pub struct GameState {
    cards: Vec<WordCard>,
    current_turn: CardColor,
    winner: Option<CardColor>,
    total_red: usize,
    total_blue: usize,
}

impl View for GameState {
    type V = GameView;

    closed spec fn view(&self) -> GameView {
        GameView {
            cards: cards_view(self.cards@),
            current_turn: self.current_turn,
            winner: self.winner,
            total_red: self.total_red as nat,
            total_blue: self.total_blue as nat,
        }
    }
}

/// Sets the card at `i` face up and leaves the others as they were.
fn flip_at(cards: &mut Vec<WordCard>, i: usize)
    requires
        i < old(cards)@.len(),
    ensures
        final(cards)@.len() == old(cards)@.len(),
        cards_view(final(cards)@) == cards_view(old(cards)@).update(
            i as int,
            flip_card(old(cards)@[i as int]@),
        ),
{
    let mut card = cards.remove(i);
    card.flipped = true;
    cards.insert(i, card);
    proof {
        assert(cards_view(final(cards)@) =~= cards_view(old(cards)@).update(
            i as int,
            flip_card(old(cards)@[i as int]@),
        ));
    }
}

impl GameState {
    /// Number of cards of class `cc` on `cards`.
    fn count_of(cards: &Vec<WordCard>, cc: CardColor) -> (r: usize)
        ensures
            r == count_color(cards_view(cards@), cc),
    {
        let mut sum: usize = 0;
        let mut i: usize = 0;
        while i < cards.len()
            invariant
                i <= cards@.len(),
                sum <= i,
                sum == count_color(cards_view(cards@).take(i as int), cc),
            decreases cards@.len() - i,
        {
            proof {
                assert(cards_view(cards@).take(i + 1).drop_last() =~= cards_view(cards@).take(
                    i as int,
                ));
            }
            if cards[i].color == cc {
                sum = sum + 1;
            }
            i = i + 1;
        }
        proof {
            assert(cards_view(cards@).take(i as int) =~= cards_view(cards@));
        }
        sum
    }

    /// A game on `cards`, not yet started: Blue on turn, no winner.
    pub fn from_cards(cards: Vec<WordCard>) -> (r: GameState)
        requires
            cards@.len() == GRID_SIZE,
        ensures
            r@.cards == cards_view(cards@),
            r@.current_turn == CardColor::Blue,
            r@.winner.is_none(),
            r@.wf(),
    {
        let total_red = Self::count_of(&cards, CardColor::Red);
        let total_blue = Self::count_of(&cards, CardColor::Blue);
        GameState { cards, current_turn: CardColor::Blue, winner: None, total_red, total_blue }
    }

    /// The team on turn.
    pub fn current_turn(&self) -> (r: CardColor)
        ensures
            r == self@.current_turn,
    {
        self.current_turn
    }

    /// The winner, once the game is over.
    pub fn winner(&self) -> (r: Option<CardColor>)
        ensures
            r == self@.winner,
    {
        self.winner
    }

    /// The cards of the board, row after row.
    pub fn cards(&self) -> (r: &Vec<WordCard>)
        ensures
            cards_view(r@) == self@.cards,
    {
        &self.cards
    }

    /// How many cards of the red team the board holds.
    pub fn total_red(&self) -> (r: usize)
        ensures
            r == self@.total_red,
    {
        self.total_red
    }

    /// How many cards of the blue team the board holds.
    pub fn total_blue(&self) -> (r: usize)
        ensures
            r == self@.total_blue,
    {
        self.total_blue
    }

    /// Number of revealed cards of class `cc`.
    pub fn num_flipped(&self, cc: CardColor) -> (r: usize)
        ensures
            r == count_flipped(self@.cards, cc),
    {
        let mut sum: usize = 0;
        let mut i: usize = 0;
        while i < self.cards.len()
            invariant
                i <= self.cards@.len(),
                sum <= i,
                sum == count_flipped(cards_view(self.cards@).take(i as int), cc),
            decreases self.cards@.len() - i,
        {
            proof {
                assert(cards_view(self.cards@).take(i + 1).drop_last() =~= cards_view(
                    self.cards@,
                ).take(i as int));
            }
            if self.cards[i].flipped && self.cards[i].color == cc {
                sum = sum + 1;
            }
            i = i + 1;
        }
        proof {
            assert(cards_view(self.cards@).take(i as int) =~= cards_view(self.cards@));
        }
        sum
    }

    /// Closes the game: `winner` wins and every card turns face up.
    pub fn end_game(&mut self, winner: CardColor)
        requires
            is_team(winner),
        ensures
            final(self)@ == finish(old(self)@, winner),
            old(self)@.wf() ==> final(self)@.wf(),
    {
        self.winner = Some(winner);
        let mut i: usize = 0;
        while i < self.cards.len()
            invariant
                i <= self.cards@.len(),
                self.cards@.len() == old(self).cards@.len(),
                self.winner == Some(winner),
                self.current_turn == old(self).current_turn,
                self.total_red == old(self).total_red,
                self.total_blue == old(self).total_blue,
                forall|k: int|
                    0 <= k < i ==> #[trigger] cards_view(self.cards@)[k] == flip_card(
                        cards_view(old(self).cards@)[k],
                    ),
                forall|k: int|
                    i <= k < self.cards@.len() ==> #[trigger] cards_view(self.cards@)[k]
                        == cards_view(old(self).cards@)[k],
            decreases self.cards@.len() - i,
        {
            let ghost prev = cards_view(self.cards@);
            flip_at(&mut self.cards, i);
            proof {
                assert(prev[i as int] == cards_view(old(self).cards@)[i as int]);
                assert(cards_view(self.cards@)[i as int] == flip_card(prev[i as int]));
            }
            i = i + 1;
        }
        proof {
            assert(cards_view(self.cards@) =~= reveal_all(cards_view(old(self).cards@)));
            lemma_count_color_reveal_all(cards_view(old(self).cards@), CardColor::Red);
            lemma_count_color_reveal_all(cards_view(old(self).cards@), CardColor::Blue);
        }
    }

    /// Reveals the card at `pos`, then settles the game: the assassin loses the game for the
    /// team on turn, a team with every card face up wins, and a card not of the team on turn
    /// ends its turn. A face-up card, or a finished game, leaves everything as it was.
    pub fn reveal_card(&mut self, pos: usize) -> (r: Outcome)
        requires
            old(self)@.wf(),
            pos < GRID_SIZE,
        ensures
            (final(self)@, r) == reveal_spec(old(self)@, pos as int),
            final(self)@.wf(),
    {
        if self.winner.is_some() || self.cards[pos].flipped {
            return Outcome::Ignored;
        }
        let color = self.cards[pos].color;
        flip_at(&mut self.cards, pos);
        proof {
            lemma_count_color_flip(old(self)@.cards, pos as int, CardColor::Red);
            lemma_count_color_flip(old(self)@.cards, pos as int, CardColor::Blue);
        }
        if color == CardColor::Death {
            let w = opposite_color(&self.current_turn);
            self.end_game(w);
            return Outcome::EndGame;
        }
        if self.num_flipped(CardColor::Red) == self.total_red {
            self.end_game(CardColor::Red);
            return Outcome::EndGame;
        }
        if self.num_flipped(CardColor::Blue) == self.total_blue {
            self.end_game(CardColor::Blue);
            return Outcome::EndGame;
        }
        if color != self.current_turn {
            self.current_turn = opposite_color(&self.current_turn);
            return Outcome::EndTurn;
        }
        Outcome::Continue
    }

    /// Gives the turn to the other team, while the game is on.
    pub fn end_turn(&mut self) -> (r: Outcome)
        requires
            old(self)@.wf(),
        ensures
            (final(self)@, r) == end_turn_spec(old(self)@),
            final(self)@.wf(),
    {
        if self.winner.is_some() {
            return Outcome::Ignored;
        }
        self.current_turn = opposite_color(&self.current_turn);
        Outcome::EndTurn
    }
}

} // verus!

use vstd::prelude::*;
use rand::seq::IteratorRandom;
use crate::card::CardColor;
use crate::count::{
    count_where, lemma_count_members, lemma_count_where_ext, lemma_count_where_split,
};
use crate::game::{CardView, GameState, GameView, WordCard, GRID_SIZE, cards_view, count_color};

verus! {

/// How many cards are drawn as red, blue or assassin.
pub const NON_NEUTRAL_DRAW: usize = 18;

/// How many of those are drawn again as blue or assassin.
pub const BLUE_AND_DEATH_DRAW: usize = 10;

/// How many of those are drawn again as the assassin.
pub const DEATH_DRAW: usize = 1;

/// Relies on rand's `IteratorRandom::choose_multiple`, drawn with `thread_rng`: from an input of
/// at least `amount` items it keeps `amount` of them, each taken from its own position.
#[verifier::external_body]
fn choose_multiple_of(items: Vec<usize>, amount: usize) -> (r: Vec<usize>)
    requires
        amount <= items@.len(),
    ensures
        r@.len() == amount,
        forall|k: int| 0 <= k < r@.len() ==> items@.contains(#[trigger] r@[k]),
        items@.no_duplicates() ==> r@.no_duplicates(),
{
    items.into_iter().choose_multiple(&mut rand::thread_rng(), amount)
}

/// The class of the card at `k`: the assassin draw first, then blue, then red, else neutral.
pub open spec fn dealt_color(k: int, nn: Seq<usize>, bd: Seq<usize>, d: Seq<usize>) -> CardColor {
    if d.contains(k as usize) {
        CardColor::Death
    } else if bd.contains(k as usize) {
        CardColor::Blue
    } else if nn.contains(k as usize) {
        CardColor::Red
    } else {
        CardColor::Neutral
    }
}

/// Three nested draws without replacement over the board's positions, the last of one position.
pub open spec fn valid_draws(nn: Seq<usize>, bd: Seq<usize>, d: Seq<usize>) -> bool {
    &&& nn.no_duplicates()
    &&& bd.no_duplicates()
    &&& d.no_duplicates()
    &&& forall|i: int| 0 <= i < nn.len() ==> (#[trigger] nn[i] as int) < GRID_SIZE
    &&& forall|i: int| 0 <= i < bd.len() ==> nn.contains(#[trigger] bd[i])
    &&& forall|i: int| 0 <= i < d.len() ==> bd.contains(#[trigger] d[i])
    &&& d.len() == 1
}

proof fn lemma_count_where_all(n: nat)
    ensures
        count_where(n, |k: int| true) == n,
    decreases n,
{
    if n > 0 {
        lemma_count_where_all((n - 1) as nat);
    }
}

/// Counting cards of a class is counting the positions that hold one.
pub proof fn lemma_count_color_where(cards: Seq<CardView>, c: CardColor)
    ensures
        count_color(cards, c) == count_where(cards.len(), |k: int| cards[k].color == c),
    decreases cards.len(),
{
    if cards.len() > 0 {
        let s0 = cards.drop_last();
        lemma_count_color_where(s0, c);
        lemma_count_where_ext(
            s0.len(),
            |k: int| s0[k].color == c,
            |k: int| cards[k].color == c,
        );
    }
}

/// Every board dealt from valid draws has one assassin, and the four classes fill the board:
/// red as many as the first draw leaves over the second, blue as many as the second over the third.
pub proof fn lemma_deal_distribution(nn: Seq<usize>, bd: Seq<usize>, d: Seq<usize>)
    requires
        valid_draws(nn, bd, d),
    ensures
        ({
            let n = GRID_SIZE as nat;
            let red = count_where(n, |k: int| dealt_color(k, nn, bd, d) == CardColor::Red);
            let blue = count_where(n, |k: int| dealt_color(k, nn, bd, d) == CardColor::Blue);
            let death = count_where(n, |k: int| dealt_color(k, nn, bd, d) == CardColor::Death);
            let neutral = count_where(n, |k: int| dealt_color(k, nn, bd, d) == CardColor::Neutral);
            &&& death == 1
            &&& red == nn.len() - bd.len()
            &&& blue == bd.len() - 1
            &&& neutral == GRID_SIZE - nn.len()
            &&& red + blue + death + neutral == GRID_SIZE
        }),
{
    let n = GRID_SIZE as nat;
    assert forall|i: int| 0 <= i < bd.len() implies (#[trigger] bd[i] as int) < n by {
        let j = choose|j: int| 0 <= j < nn.len() && nn[j] == bd[i];
        assert(nn[j] < n);
    }
    assert forall|i: int| 0 <= i < d.len() implies (#[trigger] d[i] as int) < n by {
        let j = choose|j: int| 0 <= j < bd.len() && bd[j] == d[i];
        assert(bd[j] < n);
    }
    lemma_count_members(n, nn);
    lemma_count_members(n, bd);
    lemma_count_members(n, d);
    let in_n = |k: int| nn.contains(k as usize);
    let in_b = |k: int| bd.contains(k as usize);
    let in_d = |k: int| d.contains(k as usize);
    let red = |k: int| dealt_color(k, nn, bd, d) == CardColor::Red;
    let blue = |k: int| dealt_color(k, nn, bd, d) == CardColor::Blue;
    let death = |k: int| dealt_color(k, nn, bd, d) == CardColor::Death;
    let neutral = |k: int| dealt_color(k, nn, bd, d) == CardColor::Neutral;
    assert forall|k: int| 0 <= k < n implies (#[trigger] in_d(k) ==> in_b(k)) && (in_b(k) ==> in_n(
        k,
    )) by {
        if in_d(k) {
            let i = choose|i: int| 0 <= i < d.len() && d[i] == k as usize;
            assert(bd.contains(d[i]));
        }
        if in_b(k) {
            let i = choose|i: int| 0 <= i < bd.len() && bd[i] == k as usize;
            assert(nn.contains(bd[i]));
        }
    }
    lemma_count_where_ext(n, death, in_d);
    lemma_count_where_split(n, in_b, blue, death);
    lemma_count_where_split(n, in_n, red, in_b);
    lemma_count_where_split(n, |k: int| true, neutral, in_n);
    lemma_count_where_all(n);
}

/// Whether `x` is among the items of `v`.
fn holds_index(v: &Vec<usize>, x: usize) -> (r: bool)
    ensures
        r == v@.contains(x),
{
    let mut i: usize = 0;
    while i < v.len()
        invariant
            i <= v@.len(),
            forall|j: int| 0 <= j < i ==> v@[j] != x,
        decreases v@.len() - i,
    {
        if v[i] == x {
            return true;
        }
        i = i + 1;
    }
    false
}

/// A new game on the 25 `words`, one per position, with the classes given by the three draws:
/// the assassin draw first, then the blue-and-assassin draw, then the non-neutral draw.
pub fn deal(
    words: &Vec<String>,
    non_neutrals: &Vec<usize>,
    blue_and_death: &Vec<usize>,
    death: &Vec<usize>,
) -> (r: GameState)
    requires
        words@.len() == GRID_SIZE,
    ensures
        r@.wf(),
        r@.winner.is_none(),
        r@.current_turn == CardColor::Blue,
        forall|k: int|
            0 <= k < GRID_SIZE ==> #[trigger] r@.cards[k] == (CardView {
                word: words@[k]@,
                color: dealt_color(k, non_neutrals@, blue_and_death@, death@),
                flipped: false,
            }),
{
    let mut cards: Vec<WordCard> = Vec::new();
    let mut k: usize = 0;
    while k < GRID_SIZE
        invariant
            k <= GRID_SIZE,
            words@.len() == GRID_SIZE,
            cards@.len() == k,
            forall|j: int|
                0 <= j < k ==> #[trigger] cards_view(cards@)[j] == (CardView {
                    word: words@[j]@,
                    color: dealt_color(j, non_neutrals@, blue_and_death@, death@),
                    flipped: false,
                }),
        decreases GRID_SIZE - k,
    {
        let color = if holds_index(death, k) {
            CardColor::Death
        } else if holds_index(blue_and_death, k) {
            CardColor::Blue
        } else if holds_index(non_neutrals, k) {
            CardColor::Red
        } else {
            CardColor::Neutral
        };
        let word = words[k].clone();
        let ghost prev = cards@;
        cards.push(WordCard { word, color, flipped: false });
        proof {
            assert(cards_view(cards@)[k as int] == cards@[k as int]@);
            assert forall|j: int| 0 <= j < k implies #[trigger] cards_view(cards@)[j]
                == cards_view(prev)[j] by {
                assert(cards@[j] == prev[j]);
            }
        }
        k = k + 1;
    }
    GameState::from_cards(cards)
}

/// The positions `0, 1, ..., n - 1`.
fn index_range(n: usize) -> (r: Vec<usize>)
    ensures
        r@.len() == n,
        forall|j: int| 0 <= j < n ==> #[trigger] r@[j] == j as usize,
        r@.no_duplicates(),
{
    let mut r: Vec<usize> = Vec::new();
    let mut i: usize = 0;
    while i < n
        invariant
            i <= n,
            r@.len() == i,
            forall|j: int| 0 <= j < i ==> #[trigger] r@[j] == j as usize,
        decreases n - i,
    {
        r.push(i);
        i = i + 1;
    }
    r
}

/// A copy of the positions in `v`.
fn copy_indices(v: &Vec<usize>) -> (r: Vec<usize>)
    ensures
        r@ == v@,
{
    let mut r: Vec<usize> = Vec::new();
    let mut i: usize = 0;
    while i < v.len()
        invariant
            i <= v@.len(),
            r@ == v@.take(i as int),
        decreases v@.len() - i,
    {
        r.push(v[i]);
        proof {
            assert(r@ =~= v@.take(i + 1));
        }
        i = i + 1;
    }
    proof {
        assert(v@.take(i as int) =~= v@);
    }
    r
}

/// Starts a match: 25 words drawn from `words` at random, one per position, and the classes dealt
/// by three nested random draws, so that the board has 8 red, 9 blue, 7 neutral cards and one
/// assassin. Blue opens. Fewer than 25 words give no game.
pub fn new_game(words: &Vec<String>) -> (r: Option<GameState>)
    ensures
        r.is_some() == (words@.len() >= GRID_SIZE),
        r matches Some(g) ==> {
            &&& g@.wf()
            &&& g@.winner.is_none()
            &&& g@.current_turn == CardColor::Blue
            &&& g@.total_red == 8
            &&& g@.total_blue == 9
            &&& count_color(g@.cards, CardColor::Death) == 1
            &&& count_color(g@.cards, CardColor::Neutral) == 7
            &&& forall|k: int| 0 <= k < GRID_SIZE ==> !(#[trigger] g@.cards[k]).flipped
            &&& forall|k: int|
                0 <= k < GRID_SIZE ==> exists|i: int|
                    0 <= i < words@.len() && words@[i]@ == (#[trigger] g@.cards[k]).word
        },
{
    if words.len() < GRID_SIZE {
        return None;
    }
    let all = index_range(words.len());
    let ghost all_v = all@;
    let chosen = choose_multiple_of(all, GRID_SIZE);
    proof {
        assert forall|j: int| 0 <= j < GRID_SIZE implies (#[trigger] chosen@[j] as int)
            < words@.len() by {
            assert(all_v.contains(chosen@[j]));
        }
    }
    let mut picked: Vec<String> = Vec::new();
    let mut k: usize = 0;
    while k < GRID_SIZE
        invariant
            k <= GRID_SIZE,
            chosen@.len() == GRID_SIZE,
            forall|j: int| 0 <= j < GRID_SIZE ==> (#[trigger] chosen@[j] as int) < words@.len(),
            picked@.len() == k,
            forall|j: int|
                0 <= j < k ==> #[trigger] picked@[j] == words@[chosen@[j] as int],
        decreases GRID_SIZE - k,
    {
        let w = words[chosen[k]].clone();
        picked.push(w);
        k = k + 1;
    }

    let cells = index_range(GRID_SIZE);
    let ghost cells_v = cells@;
    let nn = choose_multiple_of(cells, NON_NEUTRAL_DRAW);
    let bd = choose_multiple_of(copy_indices(&nn), BLUE_AND_DEATH_DRAW);
    let d = choose_multiple_of(copy_indices(&bd), DEATH_DRAW);
    proof {
        assert forall|i: int| 0 <= i < nn@.len() implies (#[trigger] nn@[i] as int) < GRID_SIZE by {
            assert(cells_v.contains(nn@[i]));
        }
        assert(valid_draws(nn@, bd@, d@));
        lemma_deal_distribution(nn@, bd@, d@);
    }
    let g = deal(&picked, &nn, &bd, &d);
    proof {
        let n = GRID_SIZE as nat;
        assert forall|c: CardColor|
            count_color(g@.cards, c) == count_where(
                n,
                |k: int| dealt_color(k, nn@, bd@, d@) == c,
            ) by {
            lemma_count_color_where(g@.cards, c);
            lemma_count_where_ext(
                n,
                |k: int| g@.cards[k].color == c,
                |k: int| dealt_color(k, nn@, bd@, d@) == c,
            );
        }
        assert forall|k: int| 0 <= k < GRID_SIZE implies exists|i: int|
            0 <= i < words@.len() && words@[i]@ == (#[trigger] g@.cards[k]).word by {
            assert(picked@[k] == words@[chosen@[k] as int]);
        }
    }
    Some(g)
}

} // verus!

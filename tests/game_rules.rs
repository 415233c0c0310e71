use codewords::card::{cardcolor_to_vec, opposite_color, role_color, role_of, CardColor, Role};
use codewords::deal::{deal, new_game};
use codewords::game::{GameState, Outcome, GRID_SIZE};

fn words(n: usize) -> Vec<String> {
    (0..n).map(|i| format!("word{}", i)).collect()
}

// Red on 0..8, Blue on 8..17, the assassin on 17, neutral on 18..25.
fn fixed_game() -> GameState {
    let nn: Vec<usize> = (0..18).collect();
    let bd: Vec<usize> = (8..18).collect();
    let d: Vec<usize> = vec![17];
    deal(&words(GRID_SIZE), &nn, &bd, &d)
}

fn count(g: &GameState, c: CardColor) -> usize {
    g.cards().iter().filter(|card| card.color == c).count()
}

#[test]
fn opposite_of_each_team() {
    assert_eq!(opposite_color(&CardColor::Red), CardColor::Blue);
    assert_eq!(opposite_color(&CardColor::Blue), CardColor::Red);
}

#[test]
fn colours_of_each_class() {
    assert_eq!(cardcolor_to_vec(&CardColor::Neutral), [220, 220, 220, 255]);
    assert_eq!(cardcolor_to_vec(&CardColor::Red), [240, 200, 200, 255]);
    assert_eq!(cardcolor_to_vec(&CardColor::Blue), [200, 200, 240, 255]);
    assert_eq!(cardcolor_to_vec(&CardColor::Death), [120, 120, 120, 255]);
}

#[test]
fn roles_follow_connection_order() {
    assert_eq!(role_of(0), Role::Red);
    assert_eq!(role_of(1), Role::Blue);
    assert_eq!(role_of(2), Role::Observer);
    assert_eq!(role_of(usize::MAX), Role::Observer);
    assert_eq!(role_color(Role::Observer), CardColor::Death);
}

#[test]
fn deal_assigns_classes_by_nested_draws() {
    let g = fixed_game();
    assert_eq!(g.cards().len(), 25);
    assert_eq!(g.cards()[0].color, CardColor::Red);
    assert_eq!(g.cards()[8].color, CardColor::Blue);
    assert_eq!(g.cards()[17].color, CardColor::Death);
    assert_eq!(g.cards()[18].color, CardColor::Neutral);
    assert_eq!(g.cards()[3].word, "word3");
    assert_eq!(g.total_red(), 8);
    assert_eq!(g.total_blue(), 9);
    assert_eq!(g.current_turn(), CardColor::Blue);
    assert_eq!(g.winner(), None);
    assert!(g.cards().iter().all(|c| !c.flipped));
}

#[test]
fn board_counts_fill_the_grid() {
    let g = fixed_game();
    let total = count(&g, CardColor::Red)
        + count(&g, CardColor::Blue)
        + count(&g, CardColor::Death)
        + count(&g, CardColor::Neutral);
    assert_eq!(total, 25);
    assert_eq!(count(&g, CardColor::Death), 1);
}

#[test]
fn new_game_draws_default_distribution() {
    let list = words(40);
    for _ in 0..20 {
        let g = new_game(&list).unwrap();
        assert_eq!(count(&g, CardColor::Red), 8);
        assert_eq!(count(&g, CardColor::Blue), 9);
        assert_eq!(count(&g, CardColor::Neutral), 7);
        assert_eq!(count(&g, CardColor::Death), 1);
        assert_eq!(g.total_red(), 8);
        assert_eq!(g.total_blue(), 9);
        assert_eq!(g.current_turn(), CardColor::Blue);
        let mut seen: Vec<String> = g.cards().iter().map(|c| c.word.clone()).collect();
        assert!(seen.iter().all(|w| list.contains(w)));
        seen.sort();
        seen.dedup();
        assert_eq!(seen.len(), 25);
    }
}

#[test]
fn new_game_needs_enough_words() {
    assert!(new_game(&words(24)).is_none());
    assert!(new_game(&words(25)).is_some());
}

#[test]
fn scenario_red_card_then_assassin() {
    let mut g = fixed_game();
    assert_eq!(g.current_turn(), CardColor::Blue);
    assert_eq!(g.reveal_card(0), Outcome::EndTurn);
    assert_eq!(g.current_turn(), CardColor::Red);
    assert_eq!(g.winner(), None);
    assert_eq!(g.reveal_card(17), Outcome::EndGame);
    assert_eq!(g.winner(), Some(CardColor::Blue));
    assert_eq!(g.cards().iter().filter(|c| c.flipped).count(), 25);
}

#[test]
fn scenario_last_red_card_wins() {
    let mut g = fixed_game();
    assert_eq!(g.end_turn(), Outcome::EndTurn);
    assert_eq!(g.current_turn(), CardColor::Red);
    for pos in 0..7 {
        assert_eq!(g.reveal_card(pos), Outcome::Continue);
    }
    assert_eq!(g.num_flipped(CardColor::Red), 7);
    assert_eq!(g.winner(), None);
    assert_eq!(g.reveal_card(7), Outcome::EndGame);
    assert_eq!(g.winner(), Some(CardColor::Red));
    assert!(g.cards().iter().all(|c| c.flipped));
}

#[test]
fn assassin_loses_for_team_on_turn() {
    let mut g = fixed_game();
    assert_eq!(g.reveal_card(17), Outcome::EndGame);
    assert_eq!(g.winner(), Some(CardColor::Red));
    assert_eq!(g.current_turn(), CardColor::Blue);
    assert!(g.cards().iter().all(|c| c.flipped));
}

#[test]
fn own_team_card_keeps_turn_and_miss_passes_it() {
    let mut g = fixed_game();
    assert_eq!(g.reveal_card(8), Outcome::Continue);
    assert_eq!(g.current_turn(), CardColor::Blue);
    assert_eq!(g.reveal_card(20), Outcome::EndTurn);
    assert_eq!(g.current_turn(), CardColor::Red);
    assert!(g.cards()[20].flipped);
}

#[test]
fn completing_blue_on_red_turn_makes_blue_win() {
    let mut g = fixed_game();
    for pos in 8..16 {
        assert_eq!(g.reveal_card(pos), Outcome::Continue);
    }
    assert_eq!(g.end_turn(), Outcome::EndTurn);
    assert_eq!(g.current_turn(), CardColor::Red);
    assert_eq!(g.reveal_card(16), Outcome::EndGame);
    assert_eq!(g.winner(), Some(CardColor::Blue));
    assert!(g.cards().iter().all(|c| c.flipped));
}

#[test]
fn revealing_a_face_up_card_does_nothing() {
    let mut g = fixed_game();
    assert_eq!(g.reveal_card(8), Outcome::Continue);
    assert_eq!(g.reveal_card(8), Outcome::Ignored);
    assert_eq!(g.current_turn(), CardColor::Blue);
    assert_eq!(g.num_flipped(CardColor::Blue), 1);
}

#[test]
fn finished_game_is_frozen() {
    let mut g = fixed_game();
    assert_eq!(g.reveal_card(17), Outcome::EndGame);
    let turn = g.current_turn();
    assert_eq!(g.end_turn(), Outcome::Ignored);
    assert_eq!(g.reveal_card(3), Outcome::Ignored);
    assert_eq!(g.current_turn(), turn);
    assert_eq!(g.winner(), Some(CardColor::Red));
}

#[test]
fn end_game_opens_the_board() {
    let mut g = fixed_game();
    g.end_game(CardColor::Blue);
    assert_eq!(g.winner(), Some(CardColor::Blue));
    assert_eq!(g.num_flipped(CardColor::Neutral), 7);
    assert_eq!(g.num_flipped(CardColor::Death), 1);
}

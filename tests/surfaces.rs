use codewords::card::{CardColor, Role};
use codewords::deal::deal;
use codewords::game::{GameState, GRID_SIZE};
use codewords::layout::{
    generate_layout, layouts_for, Button, Layout, Rect, SurfaceSize, END_TURN_ID, LEFT_PANEL_ID,
    QUIT_ID, RIGHT_PANEL_ID,
};
use codewords::reducer::{decode, reduce_cycle, Action, ControlEvent, CycleEnd, EventKind};

fn fixed_game() -> GameState {
    let list: Vec<String> = (0..GRID_SIZE).map(|i| format!("w{}", i)).collect();
    let nn: Vec<usize> = (0..18).collect();
    let bd: Vec<usize> = (8..18).collect();
    let d: Vec<usize> = vec![17];
    deal(&list, &nn, &bd, &d)
}

fn press(id: u32) -> ControlEvent {
    ControlEvent { element_id: id, kind: EventKind::Press }
}

fn cell_button_ids(l: &Layout) -> Vec<u32> {
    l.buttons.iter().map(|b| b.id).filter(|id| *id < 25).collect()
}

#[test]
fn geometry_of_a_surface() {
    let g = fixed_game();
    let l = generate_layout(&g, Role::Red, 1000, 900);
    assert_eq!(l.panels.len(), 27);
    assert_eq!(l.panels[0].id, LEFT_PANEL_ID);
    assert_eq!(l.panels[0].rect, Rect { x: 0, y: 0, w: 100, h: 900 });
    assert_eq!(l.panels[1].id, RIGHT_PANEL_ID);
    assert_eq!(l.panels[1].rect, Rect { x: 900, y: 0, w: 100, h: 900 });
    assert_eq!(l.panels[0].color, CardColor::Red);
    assert_eq!(l.panels[2].rect, Rect { x: 128, y: 56, w: 134, h: 120 });
    assert_eq!(l.buttons[0], Button { id: END_TURN_ID, rect: Rect { x: 904, y: 804, w: 92, h: 92 } });
    assert_eq!(l.buttons[1], Button { id: 0, rect: Rect { x: 138, y: 66, w: 114, h: 100 } });
    assert_eq!(l.buttons[7], Button { id: 6, rect: Rect { x: 290, y: 232, w: 114, h: 100 } });
    assert_eq!(l.buttons.len(), 26);
}

#[test]
fn only_the_team_off_turn_gets_buttons() {
    let g = fixed_game();
    assert_eq!(g.current_turn(), CardColor::Blue);
    let red = generate_layout(&g, Role::Red, 800, 600);
    let blue = generate_layout(&g, Role::Blue, 800, 600);
    let obs = generate_layout(&g, Role::Observer, 800, 600);
    assert_eq!(cell_button_ids(&red).len(), 25);
    assert!(blue.buttons.is_empty());
    assert!(obs.buttons.is_empty());
    assert_eq!(obs.panels[0].color, CardColor::Death);
    assert_eq!(blue.panels.len(), 27);
}

#[test]
fn face_up_cards_get_no_button() {
    let mut g = fixed_game();
    g.reveal_card(8);
    g.reveal_card(9);
    let red = generate_layout(&g, Role::Red, 800, 600);
    let ids = cell_button_ids(&red);
    assert_eq!(ids.len(), 23);
    assert!(!ids.contains(&8) && !ids.contains(&9));
    assert!(red.panels.iter().any(|p| p.id == 8 && p.revealed && p.color == CardColor::Blue));
}

#[test]
fn finished_game_offers_only_quit() {
    let mut g = fixed_game();
    g.reveal_card(17);
    for role in [Role::Red, Role::Blue, Role::Observer] {
        let l = generate_layout(&g, role, 1000, 900);
        assert_eq!(l.buttons.len(), 1);
        assert_eq!(l.buttons[0], Button { id: QUIT_ID, rect: Rect { x: 904, y: 400, w: 92, h: 100 } });
    }
}

#[test]
fn tiny_surface_does_not_fail() {
    let g = fixed_game();
    let l = generate_layout(&g, Role::Red, 0, 0);
    assert_eq!(l.panels.len(), 27);
    assert_eq!(l.panels[2].rect, Rect { x: -10, y: -10, w: 20, h: 20 });
}

#[test]
fn layouts_follow_connection_order() {
    let g = fixed_game();
    let ls = layouts_for(&g, &vec![SurfaceSize { w: 800, h: 600 }; 3]);
    assert_eq!(ls.len(), 3);
    assert_eq!(cell_button_ids(&ls[0]).len(), 25);
    assert!(ls[1].buttons.is_empty());
    assert!(ls[2].buttons.is_empty());
}

#[test]
fn decode_element_ids() {
    assert_eq!(decode(0), Action::Cell(0));
    assert_eq!(decode(24), Action::Cell(24));
    assert_eq!(decode(25), Action::Unknown);
    assert_eq!(decode(END_TURN_ID), Action::EndTurn);
    assert_eq!(decode(QUIT_ID), Action::Quit);
    assert_eq!(decode(101), Action::Unknown);
}

#[test]
fn scenario_end_turn_then_cell_in_one_cycle() {
    let mut g = fixed_game();
    let rep = reduce_cycle(&mut g, &vec![vec![press(END_TURN_ID), press(3)]]);
    assert_eq!(rep.end, CycleEnd::TurnEnded);
    assert!(rep.changed);
    assert_eq!(g.current_turn(), CardColor::Red);
    assert!(g.cards().iter().all(|c| !c.flipped));
}

#[test]
fn later_surfaces_are_dropped_after_a_turn_change() {
    let mut g = fixed_game();
    let rep = reduce_cycle(&mut g, &vec![vec![press(8), press(20)], vec![press(9)]]);
    assert_eq!(rep.end, CycleEnd::TurnEnded);
    assert!(g.cards()[8].flipped && g.cards()[20].flipped);
    assert!(!g.cards()[9].flipped);
    assert_eq!(g.current_turn(), CardColor::Red);
}

#[test]
fn unknown_and_release_events_are_ignored() {
    let mut g = fixed_game();
    let rel = ControlEvent { element_id: 8, kind: EventKind::Release };
    let rep = reduce_cycle(&mut g, &vec![vec![rel, press(500)], vec![], vec![press(8)]]);
    assert_eq!(rep.end, CycleEnd::Drained);
    assert!(rep.changed);
    assert!(g.cards()[8].flipped);
    assert_eq!(g.current_turn(), CardColor::Blue);
}

#[test]
fn quit_stops_the_cycle() {
    let mut g = fixed_game();
    let rep = reduce_cycle(&mut g, &vec![vec![press(QUIT_ID), press(8)]]);
    assert_eq!(rep.end, CycleEnd::Quit);
    assert!(!rep.changed);
    assert!(!g.cards()[8].flipped);
}

#[test]
fn empty_cycle_changes_nothing() {
    let mut g = fixed_game();
    let rep = reduce_cycle(&mut g, &vec![]);
    assert_eq!(rep.end, CycleEnd::Drained);
    assert!(!rep.changed);
}

#[test]
fn assassin_press_ends_game_in_cycle() {
    let mut g = fixed_game();
    let rep = reduce_cycle(&mut g, &vec![vec![press(17), press(END_TURN_ID)]]);
    assert_eq!(rep.end, CycleEnd::GameEnded);
    assert_eq!(g.winner(), Some(CardColor::Red));
    assert_eq!(g.current_turn(), CardColor::Blue);
}

use vstd::prelude::*;
use crate::game::{GameState, GameView, Outcome, GRID_SIZE, reveal_spec, end_turn_spec};
use crate::layout::{END_TURN_ID, QUIT_ID};

verus! {

/// The kind of an input event from a control surface.
#[derive(Debug, Clone, Copy, PartialEq, Eq, Structural)]
pub enum EventKind {
    Press,
    Release,
}

/// One input event: which element, and what happened to it.
#[derive(Debug, Clone, Copy, PartialEq, Eq, Structural)]
pub struct ControlEvent {
    pub element_id: u32,
    pub kind: EventKind,
}

/// What an element id asks for.
#[derive(Debug, Clone, Copy, PartialEq, Eq, Structural)]
pub enum Action {
    /// Reveal the card at this flat index.
    Cell(usize),
    EndTurn,
    Quit,
    /// No element of any layout: ignored.
    Unknown,
}

/// How a cycle ended.
#[derive(Debug, Clone, Copy, PartialEq, Eq, Structural)]
pub enum CycleEnd {
    /// Every event was read and none ended the cycle.
    Drained,
    TurnEnded,
    GameEnded,
    /// A surface asked to leave the game.
    Quit,
}

/// The result of one cycle: how it ended, and whether the game state changed.
#[derive(Debug, Clone, Copy, PartialEq, Eq, Structural)]
pub struct CycleReport {
    pub end: CycleEnd,
    pub changed: bool,
}

pub open spec fn decode_spec(id: u32) -> Action {
    if (id as int) < GRID_SIZE {
        Action::Cell(id as usize)
    } else if id == END_TURN_ID {
        Action::EndTurn
    } else if id == QUIT_ID {
        Action::Quit
    } else {
        Action::Unknown
    }
}

/// Reads an element id as a board position, one of the reserved ids, or nothing known.
pub fn decode(id: u32) -> (r: Action)
    ensures
        r == decode_spec(id),
{
    if (id as usize) < GRID_SIZE {
        Action::Cell(id as usize)
    } else if id == END_TURN_ID {
        Action::EndTurn
    } else if id == QUIT_ID {
        Action::Quit
    } else {
        Action::Unknown
    }
}

/// The outcome of a state transition as seen by the cycle: where it stops the cycle, and whether
/// it changed the game.
pub open spec fn settle(g: GameView, step: (GameView, Outcome)) -> (GameView, Option<CycleEnd>, bool) {
    match step.1 {
        Outcome::Ignored => (g, None, false),
        Outcome::Continue => (step.0, None, true),
        Outcome::EndTurn => (step.0, Some(CycleEnd::TurnEnded), true),
        Outcome::EndGame => (step.0, Some(CycleEnd::GameEnded), true),
    }
}

/// The effect of one event: the new state, the end of the cycle if it ends it, and whether the
/// state changed.
pub open spec fn event_spec(g: GameView, e: ControlEvent) -> (GameView, Option<CycleEnd>, bool) {
    if e.kind != EventKind::Press {
        (g, None, false)
    } else {
        match decode_spec(e.element_id) {
            Action::Cell(p) => settle(g, reveal_spec(g, p as int)),
            Action::EndTurn => settle(g, end_turn_spec(g)),
            Action::Quit => (g, Some(CycleEnd::Quit), false),
            Action::Unknown => (g, None, false),
        }
    }
}

/// The events of one surface, in order, up to the first that ends the cycle.
pub open spec fn run_events(g: GameView, es: Seq<ControlEvent>) -> (GameView, CycleEnd, bool)
    decreases es.len(),
{
    if es.len() == 0 {
        (g, CycleEnd::Drained, false)
    } else {
        let s = event_spec(g, es[0]);
        match s.1 {
            Some(end) => (s.0, end, s.2),
            None => {
                let rest = run_events(s.0, es.drop_first());
                (rest.0, rest.1, s.2 || rest.2)
            },
        }
    }
}

/// The surfaces, in order, up to the first event that ends the cycle.
pub open spec fn run_surfaces(g: GameView, bs: Seq<Seq<ControlEvent>>) -> (GameView, CycleEnd, bool)
    decreases bs.len(),
{
    if bs.len() == 0 {
        (g, CycleEnd::Drained, false)
    } else {
        let s = run_events(g, bs[0]);
        if s.1 != CycleEnd::Drained {
            s
        } else {
            let rest = run_surfaces(s.0, bs.drop_first());
            (rest.0, rest.1, s.2 || rest.2)
        }
    }
}

pub open spec fn batches_view(b: Seq<Vec<ControlEvent>>) -> Seq<Seq<ControlEvent>> {
    b.map_values(|v: Vec<ControlEvent>| v@)
}

/// Applies one event to the game.
pub fn handle_event(state: &mut GameState, e: ControlEvent) -> (r: (Option<CycleEnd>, bool))
    requires
        old(state)@.wf(),
    ensures
        (final(state)@, r.0, r.1) == event_spec(old(state)@, e),
        final(state)@.wf(),
{
    if e.kind != EventKind::Press {
        return (None, false);
    }
    let outcome = match decode(e.element_id) {
        Action::Cell(p) => state.reveal_card(p),
        Action::EndTurn => state.end_turn(),
        Action::Quit => {
            return (Some(CycleEnd::Quit), false);
        },
        Action::Unknown => {
            return (None, false);
        },
    };
    match outcome {
        Outcome::Ignored => (None, false),
        Outcome::Continue => (None, true),
        Outcome::EndTurn => (Some(CycleEnd::TurnEnded), true),
        Outcome::EndGame => (Some(CycleEnd::GameEnded), true),
    }
}

/// Applies the events of one surface, in order, up to the first that ends the cycle.
pub fn run_batch(state: &mut GameState, events: &Vec<ControlEvent>) -> (r: CycleReport)
    requires
        old(state)@.wf(),
    ensures
        (final(state)@, r.end, r.changed) == run_events(old(state)@, events@),
        final(state)@.wf(),
{
    let mut changed = false;
    let mut j: usize = 0;
    proof {
        assert(events@.skip(0) =~= events@);
    }
    while j < events.len()
        invariant
            j <= events@.len(),
            state@.wf(),
            ({
                let rest = run_events(state@, events@.skip(j as int));
                run_events(old(state)@, events@) == (rest.0, rest.1, changed || rest.2)
            }),
        decreases events@.len() - j,
    {
        let e = events[j];
        proof {
            assert(events@.skip(j as int)[0] == e);
            assert(events@.skip(j as int).drop_first() =~= events@.skip(j + 1));
        }
        let (stop, c) = handle_event(state, e);
        changed = changed || c;
        match stop {
            Some(end) => {
                return CycleReport { end, changed };
            },
            None => {},
        }
        j = j + 1;
    }
    proof {
        assert(events@.skip(j as int) =~= Seq::<ControlEvent>::empty());
    }
    CycleReport { end: CycleEnd::Drained, changed }
}

/// One cycle: the surfaces in registry order, each surface's events in arrival order, up to the
/// first event that ends a turn, ends the game or quits; every event after it is dropped.
pub fn reduce_cycle(state: &mut GameState, batches: &Vec<Vec<ControlEvent>>) -> (r: CycleReport)
    requires
        old(state)@.wf(),
    ensures
        (final(state)@, r.end, r.changed) == run_surfaces(old(state)@, batches_view(batches@)),
        final(state)@.wf(),
{
    let ghost bv = batches_view(batches@);
    let mut changed = false;
    let mut i: usize = 0;
    proof {
        assert(bv.skip(0) =~= bv);
    }
    while i < batches.len()
        invariant
            i <= batches@.len(),
            bv == batches_view(batches@),
            state@.wf(),
            ({
                let rest = run_surfaces(state@, bv.skip(i as int));
                run_surfaces(old(state)@, bv) == (rest.0, rest.1, changed || rest.2)
            }),
        decreases batches@.len() - i,
    {
        proof {
            assert(bv.skip(i as int)[0] == batches@[i as int]@);
            assert(bv.skip(i as int).drop_first() =~= bv.skip(i + 1));
        }
        let rep = run_batch(state, &batches[i]);
        changed = changed || rep.changed;
        if rep.end != CycleEnd::Drained {
            return CycleReport { end: rep.end, changed };
        }
        i = i + 1;
    }
    proof {
        assert(bv.skip(i as int) =~= Seq::<Seq<ControlEvent>>::empty());
    }
    CycleReport { end: CycleEnd::Drained, changed }
}

} // verus!

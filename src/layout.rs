use vstd::prelude::*;
use crate::card::{CardColor, Role, opposite_spec, role_color, role_color_spec, role_of, role_of_spec};
use crate::game::{GameState, GameView, GRID_SIZE, GRID_SIDE, cards_view};

verus! {

/// Element id of the button that ends the current turn.
pub const END_TURN_ID: u32 = 100;

/// Element id of the button that leaves a finished game.
pub const QUIT_ID: u32 = 99;

/// Element id of the left side panel.
pub const LEFT_PANEL_ID: u32 = 101;

/// Element id of the right side panel.
pub const RIGHT_PANEL_ID: u32 = 102;

/// A rectangle on a surface, in pixels; it may reach past the surface's edges.
#[derive(Debug, Clone, Copy, PartialEq, Eq, Structural)]
pub struct Rect {
    pub x: i64,
    pub y: i64,
    pub w: i64,
    pub h: i64,
}

/// A region that shows a colour and takes no input.
#[derive(Debug, Clone, Copy, PartialEq, Eq, Structural)]
pub struct Panel {
    pub id: u32,
    pub rect: Rect,
    pub color: CardColor,
    pub revealed: bool,
}

/// A region that reports presses under its id.
#[derive(Debug, Clone, Copy, PartialEq, Eq, Structural)]
pub struct Button {
    pub id: u32,
    pub rect: Rect,
}

/// What one control surface shows.
pub struct Layout {
    pub panels: Vec<Panel>,
    pub buttons: Vec<Button>,
}

/// The board area takes 80% of the width.
pub open spec fn main_width(w: int) -> int {
    (w * 8) / 10
}

/// Each side panel takes half of the rest.
pub open spec fn side_width(w: int) -> int {
    (w - main_width(w)) / 2
}

pub open spec fn cell_width(w: int) -> int {
    main_width(w) / 7
}

pub open spec fn cell_height(h: int) -> int {
    h / 9
}

/// Horizontal gap: two spare cell widths shared by six gaps.
pub open spec fn x_space(w: int) -> int {
    cell_width(w) / 3
}

/// Vertical gap: four spare cell heights shared by six gaps.
pub open spec fn y_space(h: int) -> int {
    (cell_height(h) * 2) / 3
}

/// Where the button of the card at flat index `k` lies.
pub open spec fn cell_rect(w: int, h: int, k: int) -> Rect {
    let i = k % (GRID_SIDE as int);
    let j = k / (GRID_SIDE as int);
    Rect {
        x: (side_width(w) + x_space(w) + i * (cell_width(w) + x_space(w))) as i64,
        y: (y_space(h) + j * (cell_height(h) + y_space(h))) as i64,
        w: cell_width(w) as i64,
        h: cell_height(h) as i64,
    }
}

/// The panel behind a card: its button's rectangle, grown by 10 pixels on each side.
pub open spec fn cell_panel(g: GameView, w: int, h: int, k: int) -> Panel {
    let r = cell_rect(w, h, k);
    Panel {
        id: k as u32,
        rect: Rect { x: (r.x - 10) as i64, y: (r.y - 10) as i64, w: (r.w + 20) as i64, h: (r.h + 20) as i64 },
        color: g.cards[k].color,
        revealed: g.cards[k].flipped,
    }
}

pub open spec fn side_panels(role: Role, w: int, h: int) -> Seq<Panel> {
    let s = side_width(w);
    let c = role_color_spec(role);
    seq![
        Panel { id: LEFT_PANEL_ID, rect: Rect { x: 0, y: 0, w: s as i64, h: h as i64 }, color: c, revealed: false },
        Panel { id: RIGHT_PANEL_ID, rect: Rect { x: (w - s) as i64, y: 0, w: s as i64, h: h as i64 }, color: c, revealed: false },
    ]
}

pub open spec fn expected_panels(g: GameView, role: Role, w: int, h: int) -> Seq<Panel> {
    side_panels(role, w, h) + Seq::new(GRID_SIZE as nat, |k: int| cell_panel(g, w, h, k))
}

/// The surface may signal guesses: the game is on and its team is the one not on turn.
pub open spec fn holds_authority(g: GameView, role: Role) -> bool {
    g.winner.is_none() && role_color_spec(role) == opposite_spec(g.current_turn)
}

pub open spec fn end_turn_button(w: int, h: int) -> Button {
    let s = side_width(w);
    Button { id: END_TURN_ID, rect: Rect { x: (w - s + 4) as i64, y: (h - s + 4) as i64, w: (s - 8) as i64, h: (s - 8) as i64 } }
}

pub open spec fn quit_button(w: int, h: int) -> Button {
    let s = side_width(w);
    Button { id: QUIT_ID, rect: Rect { x: (w - s + 4) as i64, y: ((h - s) / 2) as i64, w: (s - 8) as i64, h: s as i64 } }
}

pub open spec fn control_buttons(g: GameView, role: Role, w: int, h: int) -> Seq<Button> {
    if g.winner.is_some() {
        seq![quit_button(w, h)]
    } else if holds_authority(g, role) {
        seq![end_turn_button(w, h)]
    } else {
        Seq::empty()
    }
}

/// The buttons over the first `n` cards: one for each face-down card, on a surface with authority.
pub open spec fn cell_buttons(g: GameView, role: Role, w: int, h: int, n: nat) -> Seq<Button>
    decreases n,
{
    if n == 0 {
        Seq::empty()
    } else {
        let k = n - 1;
        cell_buttons(g, role, w, h, (n - 1) as nat) + if holds_authority(g, role) && !g.cards[k].flipped {
            seq![Button { id: k as u32, rect: cell_rect(w, h, k) }]
        } else {
            Seq::empty()
        }
    }
}

pub open spec fn expected_buttons(g: GameView, role: Role, w: int, h: int) -> Seq<Button> {
    control_buttons(g, role, w, h) + cell_buttons(g, role, w, h, GRID_SIZE as nat)
}

proof fn lemma_cell_buttons_sound(g: GameView, role: Role, w: int, h: int, n: nat)
    requires
        n <= GRID_SIZE,
    ensures
        forall|q: int|
            0 <= q < cell_buttons(g, role, w, h, n).len() ==> {
                let b = #[trigger] cell_buttons(g, role, w, h, n)[q];
                &&& (b.id as int) < n
                &&& !g.cards[b.id as int].flipped
                &&& holds_authority(g, role)
            },
    decreases n,
{
    if n > 0 {
        lemma_cell_buttons_sound(g, role, w, h, (n - 1) as nat);
        let prev = cell_buttons(g, role, w, h, (n - 1) as nat);
        let cur = cell_buttons(g, role, w, h, n);
        assert forall|q: int| 0 <= q < cur.len() implies {
            let b = #[trigger] cur[q];
            &&& (b.id as int) < n
            &&& !g.cards[b.id as int].flipped
            &&& holds_authority(g, role)
        } by {
            if q < prev.len() {
                assert(cur[q] == prev[q]);
            }
        }
    }
}

/// No layout offers a button over a face-up card, and only a surface whose team is not on turn,
/// in a game still on, gets buttons over cards.
pub proof fn lemma_buttons_respect_authority(g: GameView, role: Role, w: int, h: int)
    requires
        g.wf(),
    ensures
        forall|q: int|
            0 <= q < expected_buttons(g, role, w, h).len() && (#[trigger] expected_buttons(
                g,
                role,
                w,
                h,
            )[q]).id < GRID_SIZE ==> {
                let b = expected_buttons(g, role, w, h)[q];
                &&& !g.cards[b.id as int].flipped
                &&& g.winner.is_none()
                &&& role_color_spec(role) == opposite_spec(g.current_turn)
            },
{
    lemma_cell_buttons_sound(g, role, w, h, GRID_SIZE as nat);
    let cb = control_buttons(g, role, w, h);
    let all = expected_buttons(g, role, w, h);
    assert forall|q: int| 0 <= q < all.len() && (#[trigger] all[q]).id < GRID_SIZE implies {
        &&& !g.cards[all[q].id as int].flipped
        &&& g.winner.is_none()
        &&& role_color_spec(role) == opposite_spec(g.current_turn)
    } by {
        if q >= cb.len() {
            assert(all[q] == cell_buttons(g, role, w, h, GRID_SIZE as nat)[q - cb.len()]);
        }
    }
}

/// Floor of half of `n`, by divisions of non-negative numbers only.
fn half_floor(n: i64) -> (r: i64)
    requires
        n > i64::MIN,
    ensures
        r == n as int / 2,
{
    if n >= 0 {
        n / 2
    } else {
        let m: i64 = -n;
        let q: i64 = m / 2 + m % 2;
        -q
    }
}

/// The layout of a surface of role `role` and size `w` by `h` in state `g`: two side panels in
/// the role's colour, a panel behind every card, and buttons only where the surface may act.
pub fn generate_layout(g: &GameState, role: Role, w: u32, h: u32) -> (r: Layout)
    requires
        g@.wf(),
    ensures
        r.panels@ == expected_panels(g@, role, w as int, h as int),
        r.buttons@ == expected_buttons(g@, role, w as int, h as int),
{
    let wi: i64 = w as i64;
    let hi: i64 = h as i64;
    let main_w: i64 = (wi * 8) / 10;
    let side: i64 = (wi - main_w) / 2;
    let btn_w: i64 = main_w / 7;
    let btn_h: i64 = hi / 9;
    let xs: i64 = btn_w / 3;
    let ys: i64 = (btn_h * 2) / 3;
    assert(main_w == main_width(w as int));
    assert(0 <= main_w <= wi) by (nonlinear_arith)
        requires main_w == (wi * 8) / 10, 0 <= wi <= u32::MAX;
    assert(0 <= side <= wi);
    assert(0 <= btn_w <= wi && 0 <= xs <= btn_w);
    assert(0 <= btn_h <= hi && 0 <= ys <= btn_h);

    let color = role_color(role);
    let authority = g.winner().is_none() && {
        let t = g.current_turn();
        (t == CardColor::Red && color == CardColor::Blue) || (t == CardColor::Blue && color
            == CardColor::Red)
    };
    assert(authority == holds_authority(g@, role));

    let mut panels: Vec<Panel> = Vec::new();
    panels.push(Panel { id: LEFT_PANEL_ID, rect: Rect { x: 0, y: 0, w: side, h: hi }, color, revealed: false });
    panels.push(Panel { id: RIGHT_PANEL_ID, rect: Rect { x: wi - side, y: 0, w: side, h: hi }, color, revealed: false });
    proof {
        assert(panels@ =~= side_panels(role, w as int, h as int));
    }

    let mut buttons: Vec<Button> = Vec::new();
    if g.winner().is_some() {
        let y = half_floor(hi - side);
        buttons.push(Button { id: QUIT_ID, rect: Rect { x: wi - side + 4, y, w: side - 8, h: side } });
    } else if authority {
        buttons.push(Button { id: END_TURN_ID, rect: Rect { x: wi - side + 4, y: hi - side + 4, w: side - 8, h: side - 8 } });
    }
    proof {
        assert(buttons@ =~= control_buttons(g@, role, w as int, h as int));
    }

    let cards = g.cards();
    let mut k: usize = 0;
    while k < GRID_SIZE
        invariant
            k <= GRID_SIZE,
            g@.wf(),
            cards_view(cards@) == g@.cards,
            authority == holds_authority(g@, role),
            main_w == main_width(w as int),
            side == side_width(w as int),
            btn_w == cell_width(w as int),
            btn_h == cell_height(h as int),
            xs == x_space(w as int),
            ys == y_space(h as int),
            0 <= side <= wi,
            0 <= btn_w <= wi,
            0 <= xs <= btn_w,
            0 <= btn_h <= hi,
            0 <= ys <= btn_h,
            wi == w as int,
            hi == h as int,
            panels@ == side_panels(role, w as int, h as int) + Seq::new(
                k as nat,
                |i: int| cell_panel(g@, w as int, h as int, i),
            ),
            buttons@ == control_buttons(g@, role, w as int, h as int) + cell_buttons(
                g@,
                role,
                w as int,
                h as int,
                k as nat,
            ),
        decreases GRID_SIZE - k,
    {
        let i: i64 = (k % GRID_SIDE) as i64;
        let j: i64 = (k / GRID_SIDE) as i64;
        assert(0 <= i <= 4 && 0 <= j <= 4);
        assert(i * (btn_w + xs) <= 4 * (2 * wi)) by (nonlinear_arith)
            requires 0 <= i <= 4, 0 <= btn_w + xs <= 2 * wi;
        assert(j * (btn_h + ys) <= 4 * (2 * hi)) by (nonlinear_arith)
            requires 0 <= j <= 4, 0 <= btn_h + ys <= 2 * hi;
        assert(i * (btn_w + xs) >= 0) by (nonlinear_arith)
            requires 0 <= i, 0 <= btn_w + xs;
        assert(j * (btn_h + ys) >= 0) by (nonlinear_arith)
            requires 0 <= j, 0 <= btn_h + ys;
        let x: i64 = side + xs + i * (btn_w + xs);
        let y: i64 = ys + j * (btn_h + ys);
        let rect = Rect { x, y, w: btn_w, h: btn_h };
        assert(rect == cell_rect(w as int, h as int, k as int));
        let card = &cards[k];
        panels.push(Panel {
            id: k as u32,
            rect: Rect { x: x - 10, y: y - 10, w: btn_w + 20, h: btn_h + 20 },
            color: card.color,
            revealed: card.flipped,
        });
        if authority && !card.flipped {
            buttons.push(Button { id: k as u32, rect });
        }
        proof {
            assert(cards_view(cards@)[k as int] == cards@[k as int]@);
            assert(panels@ =~= side_panels(role, w as int, h as int) + Seq::new(
                (k + 1) as nat,
                |i: int| cell_panel(g@, w as int, h as int, i),
            ));
            assert(buttons@ =~= control_buttons(g@, role, w as int, h as int) + cell_buttons(
                g@,
                role,
                w as int,
                h as int,
                (k + 1) as nat,
            ));
        }
        k = k + 1;
    }
    Layout { panels, buttons }
}

/// The size of a connected control surface, in pixels.
#[derive(Debug, Clone, Copy, PartialEq, Eq, Structural)]
pub struct SurfaceSize {
    pub w: u32,
    pub h: u32,
}

/// A fresh layout for each connected surface, in connection order: the surface's role follows
/// from its place in the list.
pub fn layouts_for(g: &GameState, surfaces: &Vec<SurfaceSize>) -> (r: Vec<Layout>)
    requires
        g@.wf(),
    ensures
        r@.len() == surfaces@.len(),
        forall|k: int|
            0 <= k < surfaces@.len() ==> {
                let s = surfaces@[k];
                &&& (#[trigger] r@[k]).panels@ == expected_panels(g@, role_of_spec(k as nat), s.w as int, s.h as int)
                &&& r@[k].buttons@ == expected_buttons(g@, role_of_spec(k as nat), s.w as int, s.h as int)
            },
{
    let mut r: Vec<Layout> = Vec::new();
    let mut k: usize = 0;
    while k < surfaces.len()
        invariant
            g@.wf(),
            k <= surfaces@.len(),
            r@.len() == k,
            forall|j: int|
                0 <= j < k ==> {
                    let s = surfaces@[j];
                    &&& (#[trigger] r@[j]).panels@ == expected_panels(g@, role_of_spec(j as nat), s.w as int, s.h as int)
                    &&& r@[j].buttons@ == expected_buttons(g@, role_of_spec(j as nat), s.w as int, s.h as int)
                },
        decreases surfaces@.len() - k,
    {
        let s = surfaces[k];
        let layout = generate_layout(g, role_of(k), s.w, s.h);
        r.push(layout);
        k = k + 1;
    }
    r
}

} // verus!

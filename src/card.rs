use vstd::prelude::*;

verus! {

/// The class of a card: which team owns it, or neither, or the assassin.
#[derive(Debug, Clone, Copy, PartialEq, Eq, Structural)]
pub enum CardColor {
    Neutral,
    Red,
    Blue,
    Death,
}

/// A team colour: one that a turn or a win can carry.
pub open spec fn is_team(c: CardColor) -> bool {
    c == CardColor::Red || c == CardColor::Blue
}

pub open spec fn opposite_spec(c: CardColor) -> CardColor {
    match c {
        CardColor::Red => CardColor::Blue,
        CardColor::Blue => CardColor::Red,
        other => other,
    }
}

/// The other team.
pub fn opposite_color(cc: &CardColor) -> (r: CardColor)
    requires
        is_team(*cc),
    ensures
        r == opposite_spec(*cc),
        is_team(r),
        r != *cc,
{
    match cc {
        CardColor::Red => CardColor::Blue,
        _ => CardColor::Red,
    }
}

pub open spec fn color_rgba_spec(c: CardColor) -> Seq<u8> {
    match c {
        CardColor::Neutral => seq![220u8, 220u8, 220u8, 255u8],
        CardColor::Red => seq![240u8, 200u8, 200u8, 255u8],
        CardColor::Blue => seq![200u8, 200u8, 240u8, 255u8],
        CardColor::Death => seq![120u8, 120u8, 120u8, 255u8],
    }
}

/// The RGBA colour in which a control surface shows a card class.
pub fn cardcolor_to_vec(cc: &CardColor) -> (r: [u8; 4])
    ensures
        r@ == color_rgba_spec(*cc),
{
    let r: [u8; 4] = match cc {
        CardColor::Neutral => [220, 220, 220, 255],
        CardColor::Red => [240, 200, 200, 255],
        CardColor::Blue => [200, 200, 240, 255],
        CardColor::Death => [120, 120, 120, 255],
    };
    proof {
        assert(r@ =~= color_rgba_spec(*cc));
    }
    r
}

/// The identity of a control surface, fixed by the order in which it connected.
#[derive(Debug, Clone, Copy, PartialEq, Eq, Structural)]
pub enum Role {
    Red,
    Blue,
    Observer,
}

pub open spec fn role_of_spec(ordinal: nat) -> Role {
    if ordinal == 0 {
        Role::Red
    } else if ordinal == 1 {
        Role::Blue
    } else {
        Role::Observer
    }
}

/// The first surface plays for Red, the second for Blue, every later one observes.
pub fn role_of(ordinal: usize) -> (r: Role)
    ensures
        r == role_of_spec(ordinal as nat),
{
    if ordinal == 0 {
        Role::Red
    } else if ordinal == 1 {
        Role::Blue
    } else {
        Role::Observer
    }
}

pub open spec fn role_color_spec(role: Role) -> CardColor {
    match role {
        Role::Red => CardColor::Red,
        Role::Blue => CardColor::Blue,
        Role::Observer => CardColor::Death,
    }
}

/// The colour a surface of this role is framed in: its team's, or the assassin's grey.
pub fn role_color(role: Role) -> (r: CardColor)
    ensures
        r == role_color_spec(role),
{
    match role {
        Role::Red => CardColor::Red,
        Role::Blue => CardColor::Blue,
        Role::Observer => CardColor::Death,
    }
}

} // verus!

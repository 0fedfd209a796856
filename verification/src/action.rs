use vstd::prelude::*;

use crate::piece::{Color, Piece, Player, SystemId};
use crate::star_system::copy_pieces;

verus! {

/// The earlier name of a travel's target.
pub type MoveTarget = TravelTarget;

/// Where a travelling ship goes: an existing system, or a new system with these stars.
#[derive(Clone, Debug, PartialEq, Eq)]
pub enum TravelTarget {
    Existing(SystemId),
    New { stars: Vec<Piece> },
}

/// A player's move, or a catastrophe in one system.
#[derive(Clone, Debug, PartialEq, Eq)]
pub enum Action {
    Build { player: Player, system: SystemId, ship: Piece },
    Travel { player: Player, from: SystemId, ship: Piece, target: TravelTarget },
    Trade { player: Player, system: SystemId, from: Piece, to: Piece },
    Sacrifice { player: Player, system: SystemId, ship: Piece },
    Invade { player: Player, system: SystemId, target: Piece },
    Catastrophe { system: SystemId, color: Color },
}

/// The kind of an action.
#[derive(Clone, Copy, Debug, PartialEq, Eq, Hash, Structural)]
pub enum ActionKind {
    Build,
    Travel,
    Trade,
    Sacrifice,
    Invade,
    Catastrophe,
}

/// A travel target with its stars as a sequence.
pub ghost enum TargetView {
    Existing(SystemId),
    New(Seq<Piece>),
}

/// An action with its discovery stars as a sequence.
pub ghost enum ActionView {
    Build { player: Player, system: SystemId, ship: Piece },
    Travel { player: Player, from: SystemId, ship: Piece, target: TargetView },
    Trade { player: Player, system: SystemId, from: Piece, to: Piece },
    Sacrifice { player: Player, system: SystemId, ship: Piece },
    Invade { player: Player, system: SystemId, target: Piece },
    Catastrophe { system: SystemId, color: Color },
}

impl View for TravelTarget {
    type V = TargetView;

    open spec fn view(&self) -> TargetView {
        match self {
            TravelTarget::Existing(id) => TargetView::Existing(*id),
            TravelTarget::New { stars } => TargetView::New(stars@),
        }
    }
}

impl View for Action {
    type V = ActionView;

    open spec fn view(&self) -> ActionView {
        match self {
            Action::Build { player, system, ship } => ActionView::Build {
                player: *player,
                system: *system,
                ship: *ship,
            },
            Action::Travel { player, from, ship, target } => ActionView::Travel {
                player: *player,
                from: *from,
                ship: *ship,
                target: target@,
            },
            Action::Trade { player, system, from, to } => ActionView::Trade {
                player: *player,
                system: *system,
                from: *from,
                to: *to,
            },
            Action::Sacrifice { player, system, ship } => ActionView::Sacrifice {
                player: *player,
                system: *system,
                ship: *ship,
            },
            Action::Invade { player, system, target } => ActionView::Invade {
                player: *player,
                system: *system,
                target: *target,
            },
            Action::Catastrophe { system, color } => ActionView::Catastrophe {
                system: *system,
                color: *color,
            },
        }
    }
}

impl ActionView {
    pub open spec fn kind(self) -> ActionKind {
        match self {
            ActionView::Build { .. } => ActionKind::Build,
            ActionView::Travel { .. } => ActionKind::Travel,
            ActionView::Trade { .. } => ActionKind::Trade,
            ActionView::Sacrifice { .. } => ActionKind::Sacrifice,
            ActionView::Invade { .. } => ActionKind::Invade,
            ActionView::Catastrophe { .. } => ActionKind::Catastrophe,
        }
    }

    /// The acting player; a catastrophe has none.
    pub open spec fn player(self) -> Option<Player> {
        match self {
            ActionView::Build { player, .. } => Some(player),
            ActionView::Travel { player, .. } => Some(player),
            ActionView::Trade { player, .. } => Some(player),
            ActionView::Sacrifice { player, .. } => Some(player),
            ActionView::Invade { player, .. } => Some(player),
            ActionView::Catastrophe { .. } => None,
        }
    }
}

impl TravelTarget {
    /// A copy of the target.
    pub fn duplicate(&self) -> (copy: TravelTarget)
        ensures
            copy@ == self@,
    {
        match self {
            TravelTarget::Existing(id) => TravelTarget::Existing(*id),
            TravelTarget::New { stars } => TravelTarget::New { stars: copy_pieces(stars) },
        }
    }
}

impl Action {
    pub fn kind(&self) -> (kind: ActionKind)
        ensures
            kind == self@.kind(),
    {
        match self {
            Action::Build { .. } => ActionKind::Build,
            Action::Travel { .. } => ActionKind::Travel,
            Action::Trade { .. } => ActionKind::Trade,
            Action::Sacrifice { .. } => ActionKind::Sacrifice,
            Action::Invade { .. } => ActionKind::Invade,
            Action::Catastrophe { .. } => ActionKind::Catastrophe,
        }
    }

    /// The acting player; a catastrophe has none.
    pub fn player(&self) -> (player: Option<Player>)
        ensures
            player == self@.player(),
    {
        match self {
            Action::Build { player, .. } => Some(*player),
            Action::Travel { player, .. } => Some(*player),
            Action::Trade { player, .. } => Some(*player),
            Action::Sacrifice { player, .. } => Some(*player),
            Action::Invade { player, .. } => Some(*player),
            Action::Catastrophe { .. } => None,
        }
    }

    /// A copy of the action.
    pub fn duplicate(&self) -> (copy: Action)
        ensures
            copy@ == self@,
    {
        match self {
            Action::Build { player, system, ship } => Action::Build {
                player: *player,
                system: *system,
                ship: *ship,
            },
            Action::Travel { player, from, ship, target } => Action::Travel {
                player: *player,
                from: *from,
                ship: *ship,
                target: target.duplicate(),
            },
            Action::Trade { player, system, from, to } => Action::Trade {
                player: *player,
                system: *system,
                from: *from,
                to: *to,
            },
            Action::Sacrifice { player, system, ship } => Action::Sacrifice {
                player: *player,
                system: *system,
                ship: *ship,
            },
            Action::Invade { player, system, target } => Action::Invade {
                player: *player,
                system: *system,
                target: *target,
            },
            Action::Catastrophe { system, color } => Action::Catastrophe {
                system: *system,
                color: *color,
            },
        }
    }
}


/// Whether two piece lists hold the same pieces in the same order.
pub fn same_pieces(a: &[Piece], b: &[Piece]) -> (same: bool)
    ensures
        same == (a@ == b@),
{
    if a.len() != b.len() {
        return false;
    }
    let mut i: usize = 0;
    while i < a.len()
        invariant
            a@.len() == b@.len(),
            0 <= i <= a@.len(),
            forall|j: int| 0 <= j < i ==> a@[j] == b@[j],
        decreases a@.len() - i,
    {
        if a[i] != b[i] {
            return false;
        }
        i += 1;
    }
    proof {
        assert(a@ =~= b@);
    }
    true
}

/// Whether two travel targets are the same.
pub fn same_target(a: &TravelTarget, b: &TravelTarget) -> (same: bool)
    ensures
        same == (a@ == b@),
{
    match (a, b) {
        (TravelTarget::Existing(x), TravelTarget::Existing(y)) => *x == *y,
        (TravelTarget::New { stars: x }, TravelTarget::New { stars: y }) => same_pieces(x.as_slice(), y.as_slice()),
        _ => false,
    }
}

/// Whether two actions are the same action.
pub fn same_action(a: &Action, b: &Action) -> (same: bool)
    ensures
        same == (a@ == b@),
{
    match (a, b) {
        (Action::Build { player: p1, system: s1, ship: x1 }, Action::Build { player: p2, system: s2, ship: x2 }) =>
            *p1 == *p2 && *s1 == *s2 && *x1 == *x2,
        (
            Action::Travel { player: p1, from: f1, ship: x1, target: t1 },
            Action::Travel { player: p2, from: f2, ship: x2, target: t2 },
        ) => *p1 == *p2 && *f1 == *f2 && *x1 == *x2 && same_target(t1, t2),
        (Action::Trade { player: p1, system: s1, from: f1, to: t1 }, Action::Trade { player: p2, system: s2, from: f2, to: t2 }) =>
            *p1 == *p2 && *s1 == *s2 && *f1 == *f2 && *t1 == *t2,
        (Action::Sacrifice { player: p1, system: s1, ship: x1 }, Action::Sacrifice { player: p2, system: s2, ship: x2 }) =>
            *p1 == *p2 && *s1 == *s2 && *x1 == *x2,
        (Action::Invade { player: p1, system: s1, target: x1 }, Action::Invade { player: p2, system: s2, target: x2 }) =>
            *p1 == *p2 && *s1 == *s2 && *x1 == *x2,
        (Action::Catastrophe { system: s1, color: c1 }, Action::Catastrophe { system: s2, color: c2 }) =>
            *s1 == *s2 && *c1 == *c2,
        _ => false,
    }
}

} // verus!

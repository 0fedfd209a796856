use vstd::prelude::*;

use crate::action::{Action, ActionView, TargetView, TravelTarget};
use crate::bank::Bank;
use crate::count::{color_count, kind_count};
use crate::game_state::{GameState, StateView};
use crate::piece::{Color, Piece, Player, Size, SystemId};
use crate::star_system::{system_error, StarSystem, StarSystemError, SystemView};

verus! {

/// Why an action is illegal in a state.
#[derive(Clone, Copy, Debug, PartialEq, Eq, Structural)]
pub enum ActionError {
    UnknownSystem { system: SystemId },
    UnownedShip { ship: Piece },
    WrongOwner { player: Player, ship: Piece },
    CannotInvadeOwnShip { player: Player, ship: Piece },
    CannotInvadeLargerShip { player: Player, target: Piece },
    ShipNotPresent { system: SystemId, ship: Piece },
    SameSystem { system: SystemId },
    StarSizeConflict { size: Size },
    PieceUnavailable { piece: Piece },
    BuildSizeUnavailable { requested: Piece, smallest: Piece },
    SizeMismatch { from: Piece, to: Piece },
    MissingActionPower { player: Player, system: SystemId, color: Color },
    InvalidDiscovery { error: StarSystemError },
    NoCatastrophe { system: SystemId, color: Color, count: usize },
}

/// The first error of two checks made in order.
pub open spec fn either(first: Option<ActionError>, second: Option<ActionError>) -> Option<ActionError> {
    if first is Some {
        first
    } else {
        second
    }
}

/// The error when the id names no system.
pub open spec fn unknown_error(s: StateView, system: SystemId) -> Option<ActionError> {
    if s.has_system(system) {
        None
    } else {
        Some(ActionError::UnknownSystem { system })
    }
}

/// The error when a piece is not a ship of the player.
pub open spec fn owner_error(player: Player, ship: Piece) -> Option<ActionError> {
    match ship.owner {
        None => Some(ActionError::UnownedShip { ship }),
        Some(owner) => if owner != player {
            Some(ActionError::WrongOwner { player, ship })
        } else {
            None
        },
    }
}

/// The error when the ship is not in the system.
pub open spec fn present_error(s: StateView, system: SystemId, ship: Piece) -> Option<ActionError> {
    if s.system_at(system).ships.contains(ship) {
        None
    } else {
        Some(ActionError::ShipNotPresent { system, ship })
    }
}

/// Whether a star of the color, or a ship of the color that the player owns, is in the system.
pub open spec fn has_power(system: SystemView, player: Player, color: Color) -> bool {
    ||| exists|i: int|
        0 <= i < system.ships.len() && system.ships[i].owner == Some(player)
            && system.ships[i].color == color
    ||| exists|i: int| 0 <= i < system.stars.len() && system.stars[i].color == color
}

/// The error when the player lacks the color's power in the system, unless that color is waived.
pub open spec fn power_error(
    s: StateView,
    player: Player,
    system: SystemId,
    color: Color,
    waived: Option<Color>,
) -> Option<ActionError> {
    if waived == Some(color) || has_power(s.system_at(system), player, color) {
        None
    } else {
        Some(ActionError::MissingActionPower { player, system, color })
    }
}

/// The error when the bank has no piece of this color and size.
pub open spec fn bank_error(bank: Bank, piece: Piece) -> Option<ActionError> {
    if bank.spec_count(piece.color, piece.size) == 0 {
        Some(ActionError::PieceUnavailable { piece })
    } else {
        None
    }
}

/// The smallest size of the color that the bank still holds.
pub open spec fn smallest_available(bank: Bank, color: Color) -> Option<Size> {
    if bank.spec_count(color, Size::Small) > 0 {
        Some(Size::Small)
    } else if bank.spec_count(color, Size::Medium) > 0 {
        Some(Size::Medium)
    } else if bank.spec_count(color, Size::Large) > 0 {
        Some(Size::Large)
    } else {
        None
    }
}

/// The error when a build skips a smaller available piece of its color.
pub open spec fn build_size_error(bank: Bank, player: Player, ship: Piece) -> Option<ActionError> {
    match smallest_available(bank, ship.color) {
        None => Some(ActionError::PieceUnavailable { piece: ship }),
        Some(size) => if size == ship.size {
            None
        } else {
            Some(
                ActionError::BuildSizeUnavailable {
                    requested: ship,
                    smallest: Piece::make(ship.color, size, Some(player)),
                },
            )
        },
    }
}

/// Whether some piece of `target` has this size.
pub open spec fn has_size(target: Seq<Piece>, size: Size) -> bool {
    exists|j: int| 0 <= j < target.len() && target[j].size == size
}

/// The size of the first source star, from index `i` on, that a target star shares.
pub open spec fn shared_size_from(source: Seq<Piece>, target: Seq<Piece>, i: int) -> Option<Size>
    decreases source.len() - i,
{
    if i < 0 || i >= source.len() {
        None
    } else if has_size(target, source[i].size) {
        Some(source[i].size)
    } else {
        shared_size_from(source, target, i + 1)
    }
}

/// The error when the source and target systems share a star size.
pub open spec fn size_conflict_error(source: Seq<Piece>, target: Seq<Piece>) -> Option<ActionError> {
    match shared_size_from(source, target, 0) {
        Some(size) => Some(ActionError::StarSizeConflict { size }),
        None => None,
    }
}

/// Whether the bank holds fewer pieces of the star's kind than the stars request.
pub open spec fn short_in_bank(bank: Bank, stars: Seq<Piece>, star: Piece) -> bool {
    (bank.spec_count(star.color, star.size) as nat) < kind_count(stars, star.color, star.size)
}

/// The first star, from index `i` on, that the bank cannot supply.
pub open spec fn unavailable_from(bank: Bank, stars: Seq<Piece>, i: int) -> Option<Piece>
    decreases stars.len() - i,
{
    if i < 0 || i >= stars.len() {
        None
    } else if short_in_bank(bank, stars, stars[i]) {
        Some(stars[i])
    } else {
        unavailable_from(bank, stars, i + 1)
    }
}

/// The error of the discovery checks: the new system's shape, then bank supply.
pub open spec fn discovery_error(bank: Bank, stars: Seq<Piece>, ship: Piece) -> Option<ActionError> {
    match system_error(stars, seq![ship]) {
        Some(error) => Some(ActionError::InvalidDiscovery { error }),
        None => match unavailable_from(bank, stars, 0) {
            Some(piece) => Some(ActionError::PieceUnavailable { piece }),
            None => None,
        },
    }
}

/// How many stars and ships of the color the system holds.
pub open spec fn color_total(system: SystemView, color: Color) -> nat {
    color_count(system.stars, color) + color_count(system.ships, color)
}

/// Whether the player has a ship here at least as large as the target.
pub open spec fn can_capture(system: SystemView, player: Player, target: Piece) -> bool {
    exists|i: int|
        0 <= i < system.ships.len() && system.ships[i].owner == Some(player)
            && system.ships[i].size.spec_at_least(target.size)
}

/// The error of the invade target's owner.
pub open spec fn target_owner_error(player: Player, target: Piece) -> Option<ActionError> {
    match target.owner {
        None => Some(ActionError::UnownedShip { ship: target }),
        Some(owner) => if owner == player {
            Some(ActionError::CannotInvadeOwnShip { player, ship: target })
        } else {
            None
        },
    }
}

/// The first rule that the action breaks in the state, checked in the engine's
/// order; the power of the `waived` color is not required.
pub open spec fn action_error(s: StateView, a: ActionView, waived: Option<Color>) -> Option<ActionError> {
    match a {
        ActionView::Build { player, system, ship } => either(
            unknown_error(s, system),
            either(
                owner_error(player, ship),
                either(
                    power_error(s, player, system, Color::Green, waived),
                    either(bank_error(s.bank, ship), build_size_error(s.bank, player, ship)),
                ),
            ),
        ),
        ActionView::Travel { player, from, ship, target } => either(
            unknown_error(s, from),
            either(
                match target {
                    TargetView::Existing(to) => either(
                        unknown_error(s, to),
                        if from == to {
                            Some(ActionError::SameSystem { system: from })
                        } else {
                            None
                        },
                    ),
                    TargetView::New(_) => None,
                },
                either(
                    owner_error(player, ship),
                    either(
                        present_error(s, from, ship),
                        either(
                            power_error(s, player, from, Color::Yellow, waived),
                            match target {
                                TargetView::Existing(to) => size_conflict_error(
                                    s.system_at(from).stars,
                                    s.system_at(to).stars,
                                ),
                                TargetView::New(stars) => either(
                                    discovery_error(s.bank, stars, ship),
                                    size_conflict_error(s.system_at(from).stars, stars),
                                ),
                            },
                        ),
                    ),
                ),
            ),
        ),
        ActionView::Trade { player, system, from, to } => either(
            unknown_error(s, system),
            either(
                owner_error(player, from),
                either(
                    owner_error(player, to),
                    either(
                        present_error(s, system, from),
                        either(
                            power_error(s, player, system, Color::Blue, waived),
                            either(
                                if from.size != to.size {
                                    Some(ActionError::SizeMismatch { from, to })
                                } else {
                                    None
                                },
                                bank_error(s.bank, to),
                            ),
                        ),
                    ),
                ),
            ),
        ),
        ActionView::Sacrifice { player, system, ship } => either(
            unknown_error(s, system),
            either(owner_error(player, ship), present_error(s, system, ship)),
        ),
        ActionView::Invade { player, system, target } => either(
            unknown_error(s, system),
            either(
                target_owner_error(player, target),
                either(
                    present_error(s, system, target),
                    either(
                        power_error(s, player, system, Color::Red, waived),
                        if can_capture(s.system_at(system), player, target) {
                            None
                        } else {
                            Some(ActionError::CannotInvadeLargerShip { player, target })
                        },
                    ),
                ),
            ),
        ),
        ActionView::Catastrophe { system, color } => either(
            unknown_error(s, system),
            if color_total(s.system_at(system), color) >= 4 {
                None
            } else {
                Some(
                    ActionError::NoCatastrophe {
                        system,
                        color,
                        count: color_total(s.system_at(system), color) as usize,
                    },
                )
            },
        ),
    }
}

/// The validation result for an error check.
pub open spec fn as_result(error: Option<ActionError>) -> Result<(), ActionError> {
    match error {
        Some(e) => Err(e),
        None => Ok(()),
    }
}

fn unknown_check(state: &GameState, system: SystemId) -> (error: Option<ActionError>)
    ensures
        error == unknown_error(state@, system),
{
    match state.system(system) {
        Some(_) => None,
        None => Some(ActionError::UnknownSystem { system }),
    }
}

fn owner_check(player: Player, ship: Piece) -> (error: Option<ActionError>)
    ensures
        error == owner_error(player, ship),
{
    match ship.owner {
        None => Some(ActionError::UnownedShip { ship }),
        Some(owner) => if owner != player {
            Some(ActionError::WrongOwner { player, ship })
        } else {
            None
        },
    }
}

/// Whether the pieces contain this exact piece.
pub fn contains_piece(pieces: &[Piece], piece: Piece) -> (found: bool)
    ensures
        found == pieces@.contains(piece),
{
    let mut i: usize = 0;
    while i < pieces.len()
        invariant
            0 <= i <= pieces@.len(),
            forall|j: int| 0 <= j < i ==> pieces@[j] != piece,
        decreases pieces@.len() - i,
    {
        if pieces[i] == piece {
            assert(pieces@[i as int] == piece);
            return true;
        }
        i += 1;
    }
    false
}

fn present_check(state: &GameState, system: SystemId, ship: Piece) -> (error: Option<ActionError>)
    requires
        state@.has_system(system),
    ensures
        error == present_error(state@, system, ship),
{
    let system_ref = state.system(system).unwrap();
    if contains_piece(system_ref.ships(), ship) {
        None
    } else {
        Some(ActionError::ShipNotPresent { system, ship })
    }
}

/// Whether the player has the color's power in the system.
pub fn system_has_power(system: &StarSystem, player: Player, color: Color) -> (b: bool)
    ensures
        b == has_power(system@, player, color),
{
    let ships = system.ships();
    let mut i: usize = 0;
    while i < ships.len()
        invariant
            0 <= i <= ships@.len(),
            ships@ == system@.ships,
            forall|j: int| 0 <= j < i ==> !(ships@[j].owner == Some(player) && ships@[j].color == color),
        decreases ships@.len() - i,
    {
        if ships[i].is_owned_by(player) && ships[i].color == color {
            assert(ships@[i as int].owner == Some(player) && ships@[i as int].color == color);
            return true;
        }
        i += 1;
    }
    let stars = system.stars();
    let mut k: usize = 0;
    while k < stars.len()
        invariant
            0 <= k <= stars@.len(),
            stars@ == system@.stars,
            forall|j: int| 0 <= j < k ==> stars@[j].color != color,
        decreases stars@.len() - k,
    {
        if stars[k].color == color {
            assert(stars@[k as int].color == color);
            return true;
        }
        k += 1;
    }
    false
}

fn power_check(state: &GameState, player: Player, system: SystemId, color: Color, waived: Option<Color>) -> (error: Option<ActionError>)
    requires
        state@.has_system(system),
    ensures
        error == power_error(state@, player, system, color, waived),
{
    if waived == Some(color) {
        return None;
    }
    let system_ref = state.system(system).unwrap();
    if system_has_power(system_ref, player, color) {
        None
    } else {
        Some(ActionError::MissingActionPower { player, system, color })
    }
}

fn bank_check(bank: &Bank, piece: Piece) -> (error: Option<ActionError>)
    ensures
        error == bank_error(*bank, piece),
{
    if bank.count(piece.color, piece.size) == 0 {
        Some(ActionError::PieceUnavailable { piece })
    } else {
        None
    }
}

/// The smallest size of the color that the bank still holds.
pub fn smallest_available_size(bank: &Bank, color: Color) -> (size: Option<Size>)
    ensures
        size == smallest_available(*bank, color),
{
    if bank.count(color, Size::Small) > 0 {
        Some(Size::Small)
    } else if bank.count(color, Size::Medium) > 0 {
        Some(Size::Medium)
    } else if bank.count(color, Size::Large) > 0 {
        Some(Size::Large)
    } else {
        None
    }
}

fn build_size_check(bank: &Bank, player: Player, ship: Piece) -> (error: Option<ActionError>)
    ensures
        error == build_size_error(*bank, player, ship),
{
    match smallest_available_size(bank, ship.color) {
        None => Some(ActionError::PieceUnavailable { piece: ship }),
        Some(size) => if size == ship.size {
            None
        } else {
            Some(
                ActionError::BuildSizeUnavailable {
                    requested: ship,
                    smallest: Piece::owned(ship.color, size, player),
                },
            )
        },
    }
}

fn pieces_have_size(target: &[Piece], size: Size) -> (b: bool)
    ensures
        b == has_size(target@, size),
{
    let mut j: usize = 0;
    while j < target.len()
        invariant
            0 <= j <= target@.len(),
            forall|k: int| 0 <= k < j ==> target@[k].size != size,
        decreases target@.len() - j,
    {
        if target[j].size == size {
            assert(target@[j as int].size == size);
            return true;
        }
        j += 1;
    }
    false
}

/// The size of the first source star that some target star shares.
pub fn shared_star_size(source: &[Piece], target: &[Piece]) -> (size: Option<Size>)
    ensures
        size == shared_size_from(source@, target@, 0),
{
    let mut i: usize = 0;
    while i < source.len()
        invariant
            0 <= i <= source@.len(),
            shared_size_from(source@, target@, 0) == shared_size_from(source@, target@, i as int),
        decreases source@.len() - i,
    {
        if pieces_have_size(target, source[i].size) {
            return Some(source[i].size);
        }
        i += 1;
    }
    None
}

/// How many pieces of the list have this color and size.
pub fn count_kind(pieces: &[Piece], color: Color, size: Size) -> (n: usize)
    ensures
        n == kind_count(pieces@, color, size),
{
    let mut n: usize = 0;
    let mut i: usize = 0;
    while i < pieces.len()
        invariant
            0 <= i <= pieces@.len(),
            n == kind_count(pieces@.take(i as int), color, size),
            n <= i,
        decreases pieces@.len() - i,
    {
        proof {
            assert(pieces@.take(i + 1).drop_last() =~= pieces@.take(i as int));
        }
        if pieces[i].color == color && pieces[i].size == size {
            n += 1;
        }
        i += 1;
    }
    proof {
        assert(pieces@.take(pieces@.len() as int) =~= pieces@);
    }
    n
}

/// How many pieces of the list have this color.
pub fn count_color(pieces: &[Piece], color: Color) -> (n: usize)
    ensures
        n == color_count(pieces@, color),
{
    let mut n: usize = 0;
    let mut i: usize = 0;
    while i < pieces.len()
        invariant
            0 <= i <= pieces@.len(),
            n == color_count(pieces@.take(i as int), color),
            n <= i,
        decreases pieces@.len() - i,
    {
        proof {
            assert(pieces@.take(i + 1).drop_last() =~= pieces@.take(i as int));
        }
        if pieces[i].color == color {
            n += 1;
        }
        i += 1;
    }
    proof {
        assert(pieces@.take(pieces@.len() as int) =~= pieces@);
    }
    n
}

/// The first requested star that the bank cannot supply.
pub fn first_unavailable_star(bank: &Bank, stars: &[Piece]) -> (star: Option<Piece>)
    ensures
        star == unavailable_from(*bank, stars@, 0),
{
    let mut i: usize = 0;
    while i < stars.len()
        invariant
            0 <= i <= stars@.len(),
            unavailable_from(*bank, stars@, 0) == unavailable_from(*bank, stars@, i as int),
        decreases stars@.len() - i,
    {
        let star = stars[i];
        let requested = count_kind(stars, star.color, star.size);
        if (bank.count(star.color, star.size) as usize) < requested {
            return Some(star);
        }
        i += 1;
    }
    None
}

fn size_conflict_check(source: &[Piece], target: &[Piece]) -> (error: Option<ActionError>)
    ensures
        error == size_conflict_error(source@, target@),
{
    match shared_star_size(source, target) {
        Some(size) => Some(ActionError::StarSizeConflict { size }),
        None => None,
    }
}

fn discovery_check(bank: &Bank, stars: &Vec<Piece>, ship: Piece) -> (error: Option<ActionError>)
    ensures
        error == discovery_error(*bank, stars@, ship),
{
    let mut ships: Vec<Piece> = Vec::new();
    ships.push(ship);
    proof {
        assert(ships@ =~= seq![ship]);
    }
    match StarSystem::new(copy_pieces_vec(stars), ships) {
        Err(error) => Some(ActionError::InvalidDiscovery { error }),
        Ok(_) => match first_unavailable_star(bank, stars.as_slice()) {
            Some(piece) => Some(ActionError::PieceUnavailable { piece }),
            None => None,
        },
    }
}

fn copy_pieces_vec(pieces: &Vec<Piece>) -> (copy: Vec<Piece>)
    ensures
        copy@ == pieces@,
{
    crate::star_system::copy_pieces(pieces)
}

/// A count as a `usize`, capped at the largest one.
pub open spec fn capped(n: nat) -> usize {
    if n > usize::MAX {
        usize::MAX
    } else {
        n as usize
    }
}

/// How many stars and ships of the color the system holds (capped at `usize::MAX`).
pub fn catastrophe_count(system: &StarSystem, color: Color) -> (n: usize)
    ensures
        n == capped(color_total(system@, color)),
{
    let stars = count_color(system.stars(), color);
    let ships = count_color(system.ships(), color);
    stars.saturating_add(ships)
}

/// The first rule that the action breaks, with the power of `waived` not required.
pub fn action_check(state: &GameState, action: &Action, waived: Option<Color>) -> (error: Option<ActionError>)
    ensures
        error == action_error(state@, action@, waived),
{
    match action {
        Action::Build { player, system, ship } => {
            let (player, system, ship) = (*player, *system, *ship);
            if let Some(e) = unknown_check(state, system) {
                return Some(e);
            }
            if let Some(e) = owner_check(player, ship) {
                return Some(e);
            }
            if let Some(e) = power_check(state, player, system, Color::Green, waived) {
                return Some(e);
            }
            if let Some(e) = bank_check(state.bank(), ship) {
                return Some(e);
            }
            build_size_check(state.bank(), player, ship)
        },
        Action::Travel { player, from, ship, target } => {
            let (player, from, ship) = (*player, *from, *ship);
            if let Some(e) = unknown_check(state, from) {
                return Some(e);
            }
            if let TravelTarget::Existing(to) = target {
                if let Some(e) = unknown_check(state, *to) {
                    return Some(e);
                }
                if from == *to {
                    return Some(ActionError::SameSystem { system: from });
                }
            }
            if let Some(e) = owner_check(player, ship) {
                return Some(e);
            }
            if let Some(e) = present_check(state, from, ship) {
                return Some(e);
            }
            if let Some(e) = power_check(state, player, from, Color::Yellow, waived) {
                return Some(e);
            }
            let source = state.system(from).unwrap();
            match target {
                TravelTarget::Existing(to) => {
                    let target_system = state.system(*to).unwrap();
                    size_conflict_check(source.stars(), target_system.stars())
                },
                TravelTarget::New { stars } => {
                    if let Some(e) = discovery_check(state.bank(), stars, ship) {
                        return Some(e);
                    }
                    size_conflict_check(source.stars(), stars.as_slice())
                },
            }
        },
        Action::Trade { player, system, from, to } => {
            let (player, system, from, to) = (*player, *system, *from, *to);
            if let Some(e) = unknown_check(state, system) {
                return Some(e);
            }
            if let Some(e) = owner_check(player, from) {
                return Some(e);
            }
            if let Some(e) = owner_check(player, to) {
                return Some(e);
            }
            if let Some(e) = present_check(state, system, from) {
                return Some(e);
            }
            if let Some(e) = power_check(state, player, system, Color::Blue, waived) {
                return Some(e);
            }
            if from.size != to.size {
                return Some(ActionError::SizeMismatch { from, to });
            }
            bank_check(state.bank(), to)
        },
        Action::Sacrifice { player, system, ship } => {
            let (player, system, ship) = (*player, *system, *ship);
            if let Some(e) = unknown_check(state, system) {
                return Some(e);
            }
            if let Some(e) = owner_check(player, ship) {
                return Some(e);
            }
            present_check(state, system, ship)
        },
        Action::Invade { player, system, target } => {
            let (player, system, target) = (*player, *system, *target);
            if let Some(e) = unknown_check(state, system) {
                return Some(e);
            }
            match target.owner {
                None => {
                    return Some(ActionError::UnownedShip { ship: target });
                },
                Some(owner) => {
                    if owner == player {
                        return Some(ActionError::CannotInvadeOwnShip { player, ship: target });
                    }
                },
            }
            if let Some(e) = present_check(state, system, target) {
                return Some(e);
            }
            if let Some(e) = power_check(state, player, system, Color::Red, waived) {
                return Some(e);
            }
            let system_ref = state.system(system).unwrap();
            if system_can_capture(system_ref, player, target) {
                None
            } else {
                Some(ActionError::CannotInvadeLargerShip { player, target })
            }
        },
        Action::Catastrophe { system, color } => {
            let (system, color) = (*system, *color);
            match state.system(system) {
                None => Some(ActionError::UnknownSystem { system }),
                Some(system_ref) => {
                    let count = catastrophe_count(system_ref, color);
                    if count >= 4 {
                        None
                    } else {
                        Some(ActionError::NoCatastrophe { system, color, count })
                    }
                },
            }
        },
    }
}

/// Whether the player has a ship in the system at least as large as the target.
pub fn system_can_capture(system: &StarSystem, player: Player, target: Piece) -> (b: bool)
    ensures
        b == can_capture(system@, player, target),
{
    let ships = system.ships();
    let mut i: usize = 0;
    while i < ships.len()
        invariant
            0 <= i <= ships@.len(),
            ships@ == system@.ships,
            forall|j: int|
                0 <= j < i ==> !(ships@[j].owner == Some(player) && ships@[j].size.spec_at_least(
                    target.size,
                )),
        decreases ships@.len() - i,
    {
        if ships[i].is_owned_by(player) && ships[i].size.at_least(target.size) {
            assert(ships@[i as int].owner == Some(player) && ships@[i as int].size.spec_at_least(target.size));
            return true;
        }
        i += 1;
    }
    false
}

/// Checks the action against the state without changing anything.
pub fn validate_action(state: &GameState, action: &Action) -> (result: Result<(), ActionError>)
    ensures
        result == as_result(action_error(state@, action@, None)),
{
    match action_check(state, action, None) {
        Some(error) => Err(error),
        None => Ok(()),
    }
}

/// Whether some system holds four or more pieces of one color.
pub open spec fn possible_catastrophe(s: StateView) -> bool {
    exists|i: int, color: Color| 0 <= i < s.systems.len() && color_total(s.systems[i], color) >= 4
}

/// Whether a catastrophe could be declared somewhere in the state.
pub fn has_possible_catastrophe(state: &GameState) -> (b: bool)
    ensures
        b == possible_catastrophe(state@),
{
    let systems = state.systems();
    let colors = Color::ALL;
    let mut i: usize = 0;
    while i < systems.len()
        invariant
            0 <= i <= systems@.len(),
            crate::game_state::system_views(systems@) == state@.systems,
            colors@ == seq![Color::Red, Color::Yellow, Color::Green, Color::Blue],
            forall|j: int, c: Color| 0 <= j < i ==> color_total(state@.systems[j], c) < 4,
        decreases systems@.len() - i,
    {
        let mut k: usize = 0;
        while k < 4
            invariant
                0 <= i < systems@.len(),
                0 <= k <= 4,
                crate::game_state::system_views(systems@) == state@.systems,
                colors@ == seq![Color::Red, Color::Yellow, Color::Green, Color::Blue],
                forall|c: Color| c.spec_index() < k ==> color_total(state@.systems[i as int], c) < 4,
            decreases 4 - k,
        {
            let color = colors[k];
            if catastrophe_count(&systems[i], color) >= 4 {
                assert(color_total(state@.systems[i as int], color) >= 4);
                return true;
            }
            k += 1;
        }
        assert forall|c: Color| color_total(state@.systems[i as int], c) < 4 by {
            assert(c.spec_index() < 4);
        }
        i += 1;
    }
    false
}

} // verus!

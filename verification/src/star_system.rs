use vstd::prelude::*;

use crate::count::kind_count;
use crate::piece::{Color, Piece, Player, Size};

verus! {

/// Why a star system could not be built.
#[derive(Clone, Copy, Debug, PartialEq, Eq, Structural)]
pub enum StarSystemError {
    TooManyStars,
    OwnedStar,
    UnownedShip,
}

/// A system: up to two unowned stars and any number of owned ships.
#[derive(Clone, Debug, PartialEq, Eq)]
pub struct StarSystem {
    stars: Vec<Piece>,
    ships: Vec<Piece>,
}

/// The error that building a system from these stars and ships gives, if any.
pub open spec fn system_error(stars: Seq<Piece>, ships: Seq<Piece>) -> Option<StarSystemError> {
    if stars.len() > 2 {
        Some(StarSystemError::TooManyStars)
    } else if exists|i: int| 0 <= i < stars.len() && stars[i].owner is Some {
        Some(StarSystemError::OwnedStar)
    } else if exists|i: int| 0 <= i < ships.len() && ships[i].owner is None {
        Some(StarSystemError::UnownedShip)
    } else {
        None
    }
}

/// What a system holds: its stars and its ships, in order.
pub ghost struct SystemView {
    pub stars: Seq<Piece>,
    pub ships: Seq<Piece>,
}

impl SystemView {
    /// The system's own rules: at most two stars, no owned star, no unowned ship.
    pub open spec fn wf(self) -> bool {
        system_error(self.stars, self.ships) is None
    }

    /// How many stars and ships of this color and size the system holds.
    pub open spec fn kind_total(self, color: Color, size: Size) -> nat {
        kind_count(self.stars, color, size) + kind_count(self.ships, color, size)
    }
}

/// Whether some ship in the sequence belongs to the player.
pub open spec fn has_ship_of(ships: Seq<Piece>, player: Player) -> bool {
    exists|i: int| 0 <= i < ships.len() && ships[i].owner == Some(player)
}

/// A copy of a list of pieces.
pub fn copy_pieces(pieces: &Vec<Piece>) -> (copy: Vec<Piece>)
    ensures
        copy@ == pieces@,
{
    let mut copy: Vec<Piece> = Vec::new();
    let mut i: usize = 0;
    while i < pieces.len()
        invariant
            0 <= i <= pieces@.len(),
            copy@ == pieces@.take(i as int),
        decreases pieces@.len() - i,
    {
        copy.push(pieces[i]);
        proof {
            assert(pieces@.take(i + 1) =~= pieces@.take(i as int).push(pieces@[i as int]));
        }
        i += 1;
    }
    proof {
        assert(pieces@.take(pieces@.len() as int) =~= pieces@);
    }
    copy
}

impl View for StarSystem {
    type V = SystemView;

    closed spec fn view(&self) -> SystemView {
        SystemView { stars: self.stars@, ships: self.ships@ }
    }
}

impl StarSystem {
    pub fn new(stars: Vec<Piece>, ships: Vec<Piece>) -> (result: Result<StarSystem, StarSystemError>)
        ensures
            match system_error(stars@, ships@) {
                Some(error) => result == Err::<StarSystem, StarSystemError>(error),
                None => result matches Ok(system) && system@ == SystemView { stars: stars@, ships: ships@ },
            },
    {
        if stars.len() > 2 {
            return Err(StarSystemError::TooManyStars);
        }
        let mut i: usize = 0;
        while i < stars.len()
            invariant
                0 <= i <= stars.len(),
                stars.len() <= 2,
                forall|j: int| 0 <= j < i ==> stars@[j].owner is None,
            decreases stars.len() - i,
        {
            if stars[i].is_owned() {
                assert(0 <= i < stars@.len() && stars@[i as int].owner is Some);
                return Err(StarSystemError::OwnedStar);
            }
            i += 1;
        }
        let mut k: usize = 0;
        while k < ships.len()
            invariant
                0 <= k <= ships.len(),
                stars.len() <= 2,
                forall|j: int| 0 <= j < stars.len() ==> stars@[j].owner is None,
                forall|j: int| 0 <= j < k ==> ships@[j].owner is Some,
            decreases ships.len() - k,
        {
            if !ships[k].is_owned() {
                assert(0 <= k < ships@.len() && ships@[k as int].owner is None);
                return Err(StarSystemError::UnownedShip);
            }
            k += 1;
        }
        Ok(StarSystem { stars, ships })
    }

    /// A copy of the system.
    pub fn duplicate(&self) -> (copy: StarSystem)
        ensures
            copy@ == self@,
    {
        StarSystem { stars: copy_pieces(&self.stars), ships: copy_pieces(&self.ships) }
    }

    pub fn stars(&self) -> (stars: &[Piece])
        ensures
            stars@ == self@.stars,
    {
        self.stars.as_slice()
    }

    pub fn ships(&self) -> (ships: &[Piece])
        ensures
            ships@ == self@.ships,
    {
        self.ships.as_slice()
    }

    /// Whether the player has a ship here.
    pub fn has_presence(&self, player: Player) -> (b: bool)
        ensures
            b == has_ship_of(self@.ships, player),
    {
        let mut i: usize = 0;
        while i < self.ships.len()
            invariant
                0 <= i <= self.ships@.len(),
                forall|j: int| 0 <= j < i ==> self.ships@[j].owner != Some(player),
            decreases self.ships@.len() - i,
        {
            if self.ships[i].is_owned_by(player) {
                return true;
            }
            i += 1;
        }
        false
    }

    /// The players with a ship here, in `Player::ALL` order.
    pub fn owners_present(&self) -> (owners: Vec<Player>)
        ensures
            owners@ == Seq::<Player>::empty()
                .add(if has_ship_of(self@.ships, Player::One) { seq![Player::One] } else { Seq::empty() })
                .add(if has_ship_of(self@.ships, Player::Two) { seq![Player::Two] } else { Seq::empty() }),
    {
        let mut owners: Vec<Player> = Vec::new();
        if self.has_presence(Player::One) {
            owners.push(Player::One);
        }
        if self.has_presence(Player::Two) {
            owners.push(Player::Two);
        }
        proof {
            assert(owners@ =~= Seq::<Player>::empty()
                .add(if has_ship_of(self@.ships, Player::One) { seq![Player::One] } else { Seq::empty() })
                .add(if has_ship_of(self@.ships, Player::Two) { seq![Player::Two] } else { Seq::empty() }));
        }
        owners
    }
}

} // verus!

use vstd::prelude::*;

use crate::bank::Bank;
use crate::piece::{Color, Player, Size, SystemId};
use crate::star_system::{StarSystem, SystemView};

verus! {

/// Why a game state could not be built.
#[derive(Clone, Copy, Debug, PartialEq, Eq)]
pub enum GameStateError {
    HomeworldOutOfRange { player: Player, homeworld: SystemId },
    DuplicateHomeworld { players: [Player; 2], homeworld: SystemId },
}

/// The board: ordered systems, one homeworld per player, and the bank.
#[derive(Clone, Debug, PartialEq, Eq)]
pub struct GameState {
    systems: Vec<StarSystem>,
    homeworlds: [SystemId; 2],
    bank: Bank,
}

/// What a state holds: its systems, each player's homeworld, and the bank.
pub ghost struct StateView {
    pub systems: Seq<SystemView>,
    pub home_one: SystemId,
    pub home_two: SystemId,
    pub bank: Bank,
}

/// How many stars and ships of this color and size the systems hold together.
pub open spec fn board_count(systems: Seq<SystemView>, color: Color, size: Size) -> nat
    decreases systems.len(),
{
    if systems.len() == 0 {
        0
    } else {
        board_count(systems.drop_last(), color, size) + systems.last().kind_total(color, size)
    }
}

pub proof fn lemma_board_count_push(systems: Seq<SystemView>, system: SystemView, color: Color, size: Size)
    ensures
        board_count(systems.push(system), color, size) == board_count(systems, color, size)
            + system.kind_total(color, size),
{
    assert(systems.push(system).drop_last() =~= systems);
}

pub proof fn lemma_board_count_take_step(systems: Seq<SystemView>, i: int, color: Color, size: Size)
    requires
        0 <= i < systems.len(),
    ensures
        board_count(systems.take(i + 1), color, size) == board_count(systems.take(i), color, size)
            + systems[i].kind_total(color, size),
{
    assert(systems.take(i + 1).drop_last() =~= systems.take(i));
}

pub proof fn lemma_board_count_update(systems: Seq<SystemView>, i: int, system: SystemView, color: Color, size: Size)
    requires
        0 <= i < systems.len(),
    ensures
        board_count(systems.update(i, system), color, size) + systems[i].kind_total(color, size)
            == board_count(systems, color, size) + system.kind_total(color, size),
    decreases systems.len(),
{
    if i == systems.len() - 1 {
        assert(systems.update(i, system).drop_last() =~= systems.drop_last());
    } else {
        lemma_board_count_update(systems.drop_last(), i, system, color, size);
        assert(systems.update(i, system).drop_last() =~= systems.drop_last().update(i, system));
    }
}

pub proof fn lemma_board_count_take_le(systems: Seq<SystemView>, i: int, color: Color, size: Size)
    requires
        0 <= i <= systems.len(),
    ensures
        board_count(systems.take(i), color, size) <= board_count(systems, color, size),
    decreases systems.len() - i,
{
    if i < systems.len() {
        lemma_board_count_take_le(systems, i + 1, color, size);
        lemma_board_count_take_step(systems, i, color, size);
    } else {
        assert(systems.take(i) =~= systems);
    }
}

pub proof fn lemma_board_count_ge_element(systems: Seq<SystemView>, i: int, color: Color, size: Size)
    requires
        0 <= i < systems.len(),
    ensures
        systems[i].kind_total(color, size) <= board_count(systems, color, size),
{
    let empty = SystemView { stars: Seq::empty(), ships: Seq::empty() };
    lemma_board_count_update(systems, i, empty, color, size);
}

/// The error that building a state from these parts gives, if any.
pub open spec fn state_error(len: nat, homeworlds: [SystemId; 2]) -> Option<GameStateError> {
    if homeworlds@[0].0 >= len {
        Some(GameStateError::HomeworldOutOfRange { player: Player::One, homeworld: homeworlds@[0] })
    } else if homeworlds@[1].0 >= len {
        Some(GameStateError::HomeworldOutOfRange { player: Player::Two, homeworld: homeworlds@[1] })
    } else if homeworlds@[0] == homeworlds@[1] {
        Some(
            GameStateError::DuplicateHomeworld {
                players: [Player::One, Player::Two],
                homeworld: homeworlds@[0],
            },
        )
    } else {
        None
    }
}

/// Every system keeps its own rules.
pub open spec fn all_systems_wf(systems: Seq<SystemView>) -> bool {
    forall|i: int| 0 <= i < systems.len() ==> #[trigger] systems[i].wf()
}

/// The views of a list of systems.
pub open spec fn system_views(systems: Seq<StarSystem>) -> Seq<SystemView> {
    systems.map_values(|s: StarSystem| s@)
}

impl StateView {
    /// The player's homeworld.
    pub open spec fn homeworld(self, player: Player) -> SystemId {
        match player {
            Player::One => self.home_one,
            Player::Two => self.home_two,
        }
    }

    /// The system with this id; meaningful when the id is in range.
    pub open spec fn system_at(self, id: SystemId) -> SystemView {
        self.systems[id.0 as int]
    }

    /// Whether the id names a system of the state.
    pub open spec fn has_system(self, id: SystemId) -> bool {
        id.0 < self.systems.len()
    }

    /// Whether the id is one of the two homeworlds.
    pub open spec fn is_homeworld(self, id: SystemId) -> bool {
        id == self.home_one || id == self.home_two
    }

    /// The state's rules: both homeworlds exist and differ, every system is valid.
    pub open spec fn wf(self) -> bool {
        &&& self.has_system(self.home_one)
        &&& self.has_system(self.home_two)
        &&& self.home_one != self.home_two
        &&& all_systems_wf(self.systems)
    }

    /// Pieces of this color and size in the bank and on the board together.
    pub open spec fn piece_total(self, color: Color, size: Size) -> nat {
        self.bank.spec_count(color, size) as nat + board_count(self.systems, color, size)
    }

    /// No color and size has more pieces than a bank count can hold.
    pub open spec fn totals_fit(self) -> bool {
        forall|c: Color, s: Size| #[trigger] self.piece_total(c, s) <= 255
    }

    /// Both states hold the same number of pieces of every color and size.
    pub open spec fn same_totals(self, other: StateView) -> bool {
        forall|c: Color, s: Size| #[trigger] self.piece_total(c, s) == other.piece_total(c, s)
    }
}

impl View for GameState {
    type V = StateView;

    closed spec fn view(&self) -> StateView {
        StateView {
            systems: system_views(self.systems@),
            home_one: self.homeworlds@[0],
            home_two: self.homeworlds@[1],
            bank: self.bank,
        }
    }
}

impl GameState {
    pub fn new(systems: Vec<StarSystem>, homeworlds: [SystemId; 2], bank: Bank) -> (result: Result<
        GameState,
        GameStateError,
    >)
        requires
            all_systems_wf(system_views(systems@)),
        ensures
            match state_error(systems@.len(), homeworlds) {
                Some(error) => result == Err::<GameState, GameStateError>(error),
                None => result matches Ok(state) && {
                    &&& state@ == StateView {
                        systems: system_views(systems@),
                        home_one: homeworlds@[0],
                        home_two: homeworlds@[1],
                        bank,
                    }
                    &&& state@.wf()
                },
            },
    {
        let len = systems.len();
        let one = homeworlds[0];
        let two = homeworlds[1];
        if one.index() >= len {
            return Err(GameStateError::HomeworldOutOfRange { player: Player::One, homeworld: one });
        }
        if two.index() >= len {
            return Err(GameStateError::HomeworldOutOfRange { player: Player::Two, homeworld: two });
        }
        if one.index() == two.index() {
            return Err(
                GameStateError::DuplicateHomeworld { players: [Player::One, Player::Two], homeworld: one },
            );
        }
        Ok(GameState { systems, homeworlds, bank })
    }

    pub fn systems(&self) -> (systems: &[StarSystem])
        ensures
            system_views(systems@) == self@.systems,
    {
        self.systems.as_slice()
    }

    pub fn system(&self, id: SystemId) -> (system: Option<&StarSystem>)
        ensures
            self@.has_system(id) ==> (system matches Some(s) && s@ == self@.system_at(id)),
            !self@.has_system(id) ==> system is None,
    {
        if id.index() < self.systems.len() {
            Some(&self.systems[id.index()])
        } else {
            None
        }
    }

    pub fn homeworld(&self, player: Player) -> (id: SystemId)
        ensures
            id == self@.homeworld(player),
    {
        self.homeworlds[player.index()]
    }

    pub fn bank(&self) -> (bank: &Bank)
        ensures
            *bank == self@.bank,
    {
        &self.bank
    }

    /// A copy of the state.
    pub fn duplicate(&self) -> (copy: GameState)
        ensures
            copy@ == self@,
    {
        let copy = GameState { systems: copy_systems(&self.systems), homeworlds: self.homeworlds, bank: self.bank };
        proof {
            assert(system_views(copy.systems@) =~= system_views(self.systems@));
        }
        copy
    }
}

/// Copies of the state's systems.
pub fn copy_systems_of(state: &GameState) -> (copy: Vec<StarSystem>)
    ensures
        system_views(copy@) == state@.systems,
{
    copy_systems(&state.systems)
}

/// A copy of a list of systems.
pub fn copy_systems(systems: &Vec<StarSystem>) -> (copy: Vec<StarSystem>)
    ensures
        system_views(copy@) =~= system_views(systems@),
{
    let mut copy: Vec<StarSystem> = Vec::new();
    let mut i: usize = 0;
    while i < systems.len()
        invariant
            0 <= i <= systems@.len(),
            system_views(copy@) =~= system_views(systems@.take(i as int)),
        decreases systems@.len() - i,
    {
        copy.push(systems[i].duplicate());
        proof {
            assert(system_views(systems@.take(i + 1)) =~= system_views(systems@.take(i as int)).push(systems@[i as int]@));
        }
        i += 1;
    }
    proof {
        assert(systems@.take(systems@.len() as int) =~= systems@);
    }
    copy
}

} // verus!

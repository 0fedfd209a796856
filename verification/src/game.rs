use vstd::prelude::*;

use crate::action::{Action, ActionView};
use crate::bank::Bank;
use crate::count::{kind_count, lemma_kind_count_concat, lemma_kind_count_push};
use crate::game_state::{board_count, GameState, GameStateError, StateView, system_views};
use crate::piece::{Color, Piece, Player, Size, SystemId};
use crate::star_system::{copy_pieces, has_ship_of, system_error, StarSystem, StarSystemError, SystemView};
use crate::turn::{turn_result_view, TurnError, TurnState, TurnView};

verus! {

/// A game: its turn, and whether it is still being played.
#[derive(Clone, Debug, PartialEq, Eq)]
pub struct Game {
    turn: TurnState,
    status: GameStatus,
}

#[derive(Clone, Copy, Debug, PartialEq, Eq, Structural)]
pub enum GameStatus {
    InProgress,
    Finished(GameOutcome),
}

#[derive(Clone, Copy, Debug, PartialEq, Eq, Structural)]
pub enum GameOutcome {
    Winner(Player),
    Draw,
}

/// Why a game could not start or refused a move.
#[derive(Clone, Copy, Debug, PartialEq, Eq)]
pub enum GameError {
    InvalidHomeworld { player: Player, error: StarSystemError },
    InvalidState(GameStateError),
    PieceUnavailable { piece: Piece },
    WrongHomeworldShipOwner { player: Player, ship: Piece },
    Terminal { outcome: GameOutcome },
    Turn(TurnError),
}

/// A player's homeworld setup: its stars and starting ship.
#[derive(Clone, Debug, PartialEq, Eq)]
pub struct HomeworldSetup {
    stars: Vec<Piece>,
    ship: Piece,
}

/// What a homeworld setup holds.
pub ghost struct SetupView {
    pub stars: Seq<Piece>,
    pub ship: Piece,
}

impl View for HomeworldSetup {
    type V = SetupView;

    closed spec fn view(&self) -> SetupView {
        SetupView { stars: self.stars@, ship: self.ship }
    }
}

impl HomeworldSetup {
    pub fn new(stars: Vec<Piece>, ship: Piece) -> (setup: HomeworldSetup)
        ensures
            setup@ == (SetupView { stars: stars@, ship }),
    {
        HomeworldSetup { stars, ship }
    }
}

/// What a game holds.
pub ghost struct GameView {
    pub turn: TurnView,
    pub status: GameStatus,
}

impl View for Game {
    type V = GameView;

    closed spec fn view(&self) -> GameView {
        GameView { turn: self.turn@, status: self.status }
    }
}

/// The pieces that a setup takes from the bank, in drawing order.
pub open spec fn setup_pieces(setup: SetupView) -> Seq<Piece> {
    setup.stars.push(setup.ship)
}

/// The setup's own error, before any piece is drawn.
pub open spec fn homeworld_error(player: Player, setup: SetupView) -> Option<GameError> {
    if setup.ship.owner != Some(player) {
        Some(GameError::WrongHomeworldShipOwner { player, ship: setup.ship })
    } else {
        match system_error(setup.stars, seq![setup.ship]) {
            Some(error) => Some(GameError::InvalidHomeworld { player, error }),
            None => None,
        }
    }
}

/// The first piece, from index `i` on, that a full bank has run out of once
/// `before` and the pieces up to it have been drawn.
pub open spec fn overdrawn_from(before: Seq<Piece>, pieces: Seq<Piece>, i: int) -> Option<Piece>
    decreases pieces.len() - i,
{
    if i < 0 || i >= pieces.len() {
        None
    } else if kind_count(before + pieces.take(i + 1), pieces[i].color, pieces[i].size) > 3 {
        Some(pieces[i])
    } else {
        overdrawn_from(before, pieces, i + 1)
    }
}

/// The draw error of a setup, given the pieces drawn before it.
pub open spec fn draw_error(before: Seq<Piece>, setup: SetupView) -> Option<GameError> {
    match overdrawn_from(before, setup_pieces(setup), 0) {
        Some(piece) => Some(GameError::PieceUnavailable { piece }),
        None => None,
    }
}

/// The first error of starting a game from these setups, checked in order.
pub open spec fn new_game_error(one: SetupView, two: SetupView) -> Option<GameError> {
    if homeworld_error(Player::One, one) is Some {
        homeworld_error(Player::One, one)
    } else if draw_error(Seq::empty(), one) is Some {
        draw_error(Seq::empty(), one)
    } else if homeworld_error(Player::Two, two) is Some {
        homeworld_error(Player::Two, two)
    } else {
        draw_error(setup_pieces(one), two)
    }
}

/// The homeworld system that a setup builds.
pub open spec fn setup_system(setup: SetupView) -> SystemView {
    SystemView { stars: setup.stars, ships: seq![setup.ship] }
}

/// Whether the player has no ship at their own homeworld.
pub open spec fn has_lost(s: StateView, player: Player) -> bool {
    !s.has_system(s.homeworld(player)) || !has_ship_of(s.system_at(s.homeworld(player)).ships, player)
}

/// The outcome of a state at turn end, if the game is over.
pub open spec fn spec_outcome(s: StateView) -> Option<GameOutcome> {
    match (has_lost(s, Player::One), has_lost(s, Player::Two)) {
        (false, false) => None,
        (true, false) => Some(GameOutcome::Winner(Player::Two)),
        (false, true) => Some(GameOutcome::Winner(Player::One)),
        (true, true) => Some(GameOutcome::Draw),
    }
}

/// The status that a state has at turn end.
pub open spec fn status_of(s: StateView) -> GameStatus {
    match spec_outcome(s) {
        Some(outcome) => GameStatus::Finished(outcome),
        None => GameStatus::InProgress,
    }
}

impl GameView {
    /// The turn keeps its rules.
    pub open spec fn wf(self) -> bool {
        self.turn.wf()
    }
}

/// The view of a game result.
pub open spec fn game_result_view(result: Result<Game, GameError>) -> Result<GameView, GameError> {
    match result {
        Ok(game) => Ok(game@),
        Err(e) => Err(e),
    }
}

/// Draws one piece of the setup; `drawn` is everything drawn before it.
fn draw_setup_piece(bank: &mut Bank, piece: Piece, drawn: Ghost<Seq<Piece>>) -> (result: Result<(), GameError>)
    requires
        forall|c: Color, s: Size| #[trigger] old(bank).spec_count(c, s) as nat + kind_count(drawn@, c, s) == 3,
    ensures
        kind_count(drawn@.push(piece), piece.color, piece.size) > 3 ==> result == Err::<(), GameError>(GameError::PieceUnavailable { piece }),
        kind_count(drawn@.push(piece), piece.color, piece.size) <= 3 ==> {
            &&& result is Ok
            &&& forall|c: Color, s: Size| #[trigger] final(bank).spec_count(c, s) as nat + kind_count(drawn@.push(piece), c, s) == 3
        },
{
    proof {
        assert forall|c: Color, s: Size| #[trigger] kind_count(drawn@.push(piece), c, s) == kind_count(drawn@, c, s) + crate::count::kind_one(piece, c, s) by {
            lemma_kind_count_push(drawn@, piece, c, s);
        }
    }
    match bank.draw(piece.color, piece.size) {
        Ok(_) => Ok(()),
        Err(_) => Err(GameError::PieceUnavailable { piece }),
    }
}

/// Draws the setup's pieces from the bank, in order.
fn draw_setup(bank: &mut Bank, setup: &HomeworldSetup, before: Ghost<Seq<Piece>>) -> (result: Result<(), GameError>)
    requires
        forall|c: Color, s: Size| #[trigger] old(bank).spec_count(c, s) as nat + kind_count(before@, c, s) == 3,
    ensures
        match draw_error(before@, setup@) {
            Some(e) => result == Err::<(), GameError>(e),
            None => {
                &&& result is Ok
                &&& forall|c: Color, s: Size| #[trigger] final(bank).spec_count(c, s) as nat + kind_count(before@ + setup_pieces(setup@), c, s) == 3
            },
        },
{
    let ghost pieces = setup_pieces(setup@);
    let mut i: usize = 0;
    while i < setup.stars.len()
        invariant
            0 <= i <= setup.stars@.len(),
            pieces == setup_pieces(setup@),
            pieces.len() == setup.stars@.len() + 1,
            overdrawn_from(before@, pieces, 0) == overdrawn_from(before@, pieces, i as int),
            forall|c: Color, s: Size| #[trigger] bank.spec_count(c, s) as nat + kind_count(before@ + pieces.take(i as int), c, s) == 3,
        decreases setup.stars@.len() - i,
    {
        let piece = setup.stars[i];
        proof {
            assert(piece == pieces[i as int]);
            assert((before@ + pieces.take(i + 1)) =~= (before@ + pieces.take(i as int)).push(piece));
        }
        draw_setup_piece(bank, piece, Ghost(before@ + pieces.take(i as int)))?;
        i += 1;
    }
    let last = setup.stars.len();
    proof {
        assert(setup.ship == pieces[last as int]);
        assert((before@ + pieces.take(last + 1)) =~= (before@ + pieces.take(last as int)).push(setup.ship));
        assert(pieces.take(last + 1) =~= pieces);
    }
    draw_setup_piece(bank, setup.ship, Ghost(before@ + pieces.take(last as int)))?;
    proof {
        assert(overdrawn_from(before@, pieces, last + 1) is None);
        assert(overdrawn_from(before@, pieces, last as int) is None);
    }
    Ok(())
}

/// The homeworld system of a setup, checked for the player.
fn build_homeworld(player: Player, setup: &HomeworldSetup) -> (result: Result<StarSystem, GameError>)
    ensures
        match homeworld_error(player, setup@) {
            Some(e) => result == Err::<StarSystem, GameError>(e),
            None => result matches Ok(system) && system@ == setup_system(setup@),
        },
{
    if setup.ship.owner != Some(player) {
        return Err(GameError::WrongHomeworldShipOwner { player, ship: setup.ship });
    }
    let mut ships: Vec<Piece> = Vec::new();
    ships.push(setup.ship);
    proof {
        assert(ships@ =~= seq![setup.ship]);
    }
    match StarSystem::new(copy_pieces(&setup.stars), ships) {
        Ok(system) => Ok(system),
        Err(error) => Err(GameError::InvalidHomeworld { player, error }),
    }
}

fn player_has_lost(state: &GameState, player: Player) -> (lost: bool)
    ensures
        lost == has_lost(state@, player),
{
    match state.system(state.homeworld(player)) {
        Some(homeworld) => !homeworld.has_presence(player),
        None => true,
    }
}

fn game_outcome(state: &GameState) -> (outcome: Option<GameOutcome>)
    ensures
        outcome == spec_outcome(state@),
{
    match (player_has_lost(state, Player::One), player_has_lost(state, Player::Two)) {
        (false, false) => None,
        (true, false) => Some(GameOutcome::Winner(Player::Two)),
        (false, true) => Some(GameOutcome::Winner(Player::One)),
        (true, true) => Some(GameOutcome::Draw),
    }
}

impl Game {
    /// Starts a game: each player's homeworld is built from a fresh bank,
    /// Player 1's at system 0 and Player 2's at system 1.
    pub fn new(homeworlds: [HomeworldSetup; 2], starting_player: Player) -> (result: Result<Game, GameError>)
        ensures
            match new_game_error(homeworlds@[0]@, homeworlds@[1]@) {
                Some(e) => result == Err::<Game, GameError>(e),
                None => result matches Ok(game) && {
                    &&& game@.status == GameStatus::InProgress
                    &&& game@.turn.player == starting_player
                    &&& game@.turn.remaining == 1
                    &&& game@.turn.required is None
                    &&& game@.turn.state.systems == seq![setup_system(homeworlds@[0]@), setup_system(homeworlds@[1]@)]
                    &&& game@.turn.state.home_one == SystemId(0)
                    &&& game@.turn.state.home_two == SystemId(1)
                    &&& forall|c: Color, s: Size| #[trigger] game@.turn.state.piece_total(c, s) == 3
                    &&& game@.wf()
                },
            },
    {
        let one = &homeworlds[0];
        let two = &homeworlds[1];
        let mut bank = Bank::new();
        let first = build_homeworld(Player::One, one)?;
        draw_setup(&mut bank, one, Ghost(Seq::empty()))?;
        let second = build_homeworld(Player::Two, two)?;
        draw_setup(&mut bank, two, Ghost(setup_pieces(one@)))?;
        let mut systems: Vec<StarSystem> = Vec::new();
        systems.push(first);
        systems.push(second);
        let ghost views = system_views(systems@);
        proof {
            assert(views =~= seq![setup_system(one@), setup_system(two@)]);
            assert(views[0].wf());
            assert(views[1].wf());
            assert forall|c: Color, s: Size| #[trigger] bank.spec_count(c, s) as nat + board_count(views, c, s) == 3 by {
                assert(Seq::<Piece>::empty() + setup_pieces(one@) =~= setup_pieces(one@));
                lemma_kind_count_concat(setup_pieces(one@), setup_pieces(two@), c, s);
                crate::count::lemma_kind_count_push(one@.stars, one@.ship, c, s);
                crate::count::lemma_kind_count_push(two@.stars, two@.ship, c, s);
                crate::count::lemma_kind_count_push(Seq::empty(), one@.ship, c, s);
                crate::count::lemma_kind_count_push(Seq::empty(), two@.ship, c, s);
                assert(seq![one@.ship] =~= Seq::<Piece>::empty().push(one@.ship));
                assert(seq![two@.ship] =~= Seq::<Piece>::empty().push(two@.ship));
                let first = setup_system(one@);
                let second = setup_system(two@);
                crate::game_state::lemma_board_count_push(Seq::<SystemView>::empty(), first, c, s);
                crate::game_state::lemma_board_count_push(seq![first], second, c, s);
                assert(seq![first] =~= Seq::<SystemView>::empty().push(first));
                assert(views =~= seq![first].push(second));
                assert(board_count(Seq::<SystemView>::empty(), c, s) == 0);
            }
        }
        let state = match GameState::new(systems, [SystemId::new(0), SystemId::new(1)], bank) {
            Ok(state) => state,
            Err(error) => {
                return Err(GameError::InvalidState(error));
            },
        };
        Ok(Game { turn: TurnState::new(state, starting_player), status: GameStatus::InProgress })
    }

    /// The fixed opening used when no setup is given: Player 1 on a small
    /// yellow star with a small green ship, Player 2 on a large blue star
    /// with a medium red ship.
    pub fn default(starting_player: Player) -> (game: Game)
        ensures
            game@.status == GameStatus::InProgress,
            game@.turn.player == starting_player,
            game@.turn.remaining == 1,
            game@.turn.required is None,
            game@.turn.state.systems == seq![
                setup_system(SetupView { stars: seq![Piece::make(Color::Yellow, Size::Small, None)], ship: Piece::make(Color::Green, Size::Small, Some(Player::One)) }),
                setup_system(SetupView { stars: seq![Piece::make(Color::Blue, Size::Large, None)], ship: Piece::make(Color::Red, Size::Medium, Some(Player::Two)) }),
            ],
            game@.turn.state.home_one == SystemId(0),
            game@.turn.state.home_two == SystemId(1),
            forall|c: Color, s: Size| #[trigger] game@.turn.state.piece_total(c, s) == 3,
            game@.wf(),
    {
        let mut one_stars: Vec<Piece> = Vec::new();
        one_stars.push(Piece::new(Color::Yellow, Size::Small));
        let mut two_stars: Vec<Piece> = Vec::new();
        two_stars.push(Piece::new(Color::Blue, Size::Large));
        let one = HomeworldSetup::new(one_stars, Piece::owned(Color::Green, Size::Small, Player::One));
        let two = HomeworldSetup::new(two_stars, Piece::owned(Color::Red, Size::Medium, Player::Two));
        proof {
            let ys = Piece::make(Color::Yellow, Size::Small, None);
            let gs = Piece::make(Color::Green, Size::Small, Some(Player::One));
            let bl = Piece::make(Color::Blue, Size::Large, None);
            let rm = Piece::make(Color::Red, Size::Medium, Some(Player::Two));
            assert(one@.stars =~= seq![ys]);
            assert(two@.stars =~= seq![bl]);
            assert(system_error(seq![ys], seq![gs]) is None);
            assert(system_error(seq![bl], seq![rm]) is None);
            let p1 = setup_pieces(one@);
            let p2 = setup_pieces(two@);
            assert(p1 =~= seq![ys, gs]);
            assert(p2 =~= seq![bl, rm]);
            reveal_with_fuel(kind_count, 5);
            assert(Seq::<Piece>::empty() + p1.take(1) =~= seq![ys]);
            assert(Seq::<Piece>::empty() + p1.take(2) =~= seq![ys, gs]);
            assert(seq![ys, gs].drop_last() =~= seq![ys]);
            assert(seq![ys].drop_last() =~= Seq::<Piece>::empty());
            assert(overdrawn_from(Seq::empty(), p1, 2) is None);
            assert(overdrawn_from(Seq::empty(), p1, 1) is None);
            assert(overdrawn_from(Seq::empty(), p1, 0) is None);
            assert(p1 + p2.take(1) =~= seq![ys, gs, bl]);
            assert(p1 + p2.take(2) =~= seq![ys, gs, bl, rm]);
            assert(seq![ys, gs, bl, rm].drop_last() =~= seq![ys, gs, bl]);
            assert(seq![ys, gs, bl].drop_last() =~= seq![ys, gs]);
            assert(overdrawn_from(p1, p2, 2) is None);
            assert(overdrawn_from(p1, p2, 1) is None);
            assert(overdrawn_from(p1, p2, 0) is None);
        }
        match Game::new([one, two], starting_player) {
            Ok(game) => game,
            Err(_) => vstd::pervasive::unreached(),
        }
    }

    pub fn from_parts(turn: TurnState, status: GameStatus) -> (game: Game)
        ensures
            game@ == (GameView { turn: turn@, status }),
    {
        Game { turn, status }
    }

    pub fn turn(&self) -> (turn: &TurnState)
        ensures
            turn@ == self@.turn,
    {
        &self.turn
    }

    pub fn status(&self) -> (status: GameStatus)
        ensures
            status == self@.status,
    {
        self.status
    }

    /// A copy of the game.
    pub fn duplicate(&self) -> (copy: Game)
        ensures
            copy@ == self@,
    {
        Game { turn: self.turn.duplicate(), status: self.status }
    }

    /// Applies an action to a game in progress.
    pub fn apply_action(&self, action: &Action) -> (result: Result<Game, GameError>)
        requires
            self@.wf(),
        ensures
            match self@.status {
                GameStatus::Finished(outcome) => result == Err::<Game, GameError>(GameError::Terminal { outcome }),
                GameStatus::InProgress => {
                    &&& self@.turn.action_outcome_ok(action@, match result {
                        Ok(game) => Ok(game@.turn),
                        Err(GameError::Turn(e)) => Err(e),
                        Err(_) => Err(TurnError::NoActionBudget),
                    })
                    &&& result matches Err(e) ==> e is Turn
                    &&& result matches Ok(next) ==> next@.status == GameStatus::InProgress && next@.wf()
                },
            },
    {
        if let GameStatus::Finished(outcome) = self.status {
            return Err(GameError::Terminal { outcome });
        }
        match self.turn.apply_action(action) {
            Ok(turn) => Ok(Game { turn, status: self.status }),
            Err(error) => Err(GameError::Turn(error)),
        }
    }

    /// Ends the turn of a game in progress; a player with no ship at their own
    /// homeworld then loses, and if both do the game is a draw.
    pub fn end_turn(&self) -> (result: Result<Game, GameError>)
        ensures
            match self@.status {
                GameStatus::Finished(outcome) => result == Err::<Game, GameError>(GameError::Terminal { outcome }),
                GameStatus::InProgress => if self@.turn.can_end() {
                    result matches Ok(next) && {
                        &&& next@.turn == (TurnView {
                            state: self@.turn.state,
                            player: self@.turn.player.spec_other(),
                            remaining: 1,
                            required: None,
                        })
                        &&& next@.status == status_of(self@.turn.state)
                    }
                } else {
                    result == Err::<Game, GameError>(GameError::Turn(TurnError::ActionsRemaining { remaining: self@.turn.remaining }))
                },
            },
            result matches Ok(next) ==> (self@.wf() ==> next@.wf()),
    {
        if let GameStatus::Finished(outcome) = self.status {
            return Err(GameError::Terminal { outcome });
        }
        let turn = match self.turn.end_turn() {
            Ok(turn) => turn,
            Err(error) => {
                return Err(GameError::Turn(error));
            },
        };
        let status = match game_outcome(turn.state()) {
            Some(outcome) => GameStatus::Finished(outcome),
            None => GameStatus::InProgress,
        };
        Ok(Game { turn, status })
    }
}

} // verus!

use homeworlds::{
    apply_action, has_possible_catastrophe, validate_action, Action, ActionError, ActionKind, Bank,
    Color, Game, GameError, GameOutcome, GameState, GameStateError, GameStatus, HomeworldSetup,
    Piece, Player, Size, StarSystem, StarSystemError, SystemId, TransitionError, TravelTarget,
    TurnError, TurnState,
};

#[test]
fn explicit_setup_creates_initial_game_state() {
        let one_ship = Piece::owned(Color::Green, Size::Small, Player::One);
        let two_ship = Piece::owned(Color::Red, Size::Medium, Player::Two);
        let game = Game::new(
            [
                HomeworldSetup::new(vec![Piece::new(Color::Yellow, Size::Small)], one_ship),
                HomeworldSetup::new(vec![Piece::new(Color::Blue, Size::Large)], two_ship),
            ],
            Player::Two,
        )
        .expect("game initializes");

        let state = game.turn().state();

        assert_eq!(game.status(), GameStatus::InProgress);
        assert_eq!(game.turn().current_player(), Player::Two);
        assert_eq!(state.homeworld(Player::One), SystemId::new(0));
        assert_eq!(state.homeworld(Player::Two), SystemId::new(1));
        assert_eq!(
            state
                .system(SystemId::new(0))
                .expect("system exists")
                .stars(),
            &[Piece::new(Color::Yellow, Size::Small)]
        );
        assert_eq!(
            state
                .system(SystemId::new(0))
                .expect("system exists")
                .ships(),
            &[one_ship]
        );
        assert_eq!(
            state
                .system(SystemId::new(1))
                .expect("system exists")
                .stars(),
            &[Piece::new(Color::Blue, Size::Large)]
        );
        assert_eq!(
            state
                .system(SystemId::new(1))
                .expect("system exists")
                .ships(),
            &[two_ship]
        );
        assert_eq!(
            state.bank().count(Color::Yellow, Size::Small),
            Bank::copies_per_piece() - 1
        );
        assert_eq!(
            state.bank().count(Color::Green, Size::Small),
            Bank::copies_per_piece() - 1
        );
        assert_eq!(
            state.bank().count(Color::Blue, Size::Large),
            Bank::copies_per_piece() - 1
        );
        assert_eq!(
            state.bank().count(Color::Red, Size::Medium),
            Bank::copies_per_piece() - 1
        );
    }

#[test]
fn setup_rejects_a_ship_owned_by_the_wrong_player() {
        let ship = Piece::owned(Color::Green, Size::Small, Player::Two);

        assert_eq!(
            Game::new(
                [
                    HomeworldSetup::new(vec![Piece::new(Color::Yellow, Size::Small)], ship),
                    HomeworldSetup::new(
                        vec![Piece::new(Color::Blue, Size::Large)],
                        Piece::owned(Color::Red, Size::Medium, Player::Two),
                    ),
                ],
                Player::One,
            ),
            Err(GameError::WrongHomeworldShipOwner {
                player: Player::One,
                ship,
            })
        );
    }

#[test]
fn setup_rejects_invalid_homeworld_systems() {
        assert_eq!(
            Game::new(
                [
                    HomeworldSetup::new(
                        vec![Piece::owned(Color::Yellow, Size::Small, Player::One)],
                        Piece::owned(Color::Green, Size::Small, Player::One),
                    ),
                    HomeworldSetup::new(
                        vec![Piece::new(Color::Blue, Size::Large)],
                        Piece::owned(Color::Red, Size::Medium, Player::Two),
                    ),
                ],
                Player::One,
            ),
            Err(GameError::InvalidHomeworld {
                player: Player::One,
                error: StarSystemError::OwnedStar,
            })
        );
    }

#[test]
fn setup_rejects_unavailable_bank_pieces() {
        let repeated = Piece::new(Color::Yellow, Size::Small);

        assert_eq!(
            Game::new(
                [
                    HomeworldSetup::new(
                        vec![repeated, repeated],
                        Piece::owned(Color::Yellow, Size::Small, Player::One),
                    ),
                    HomeworldSetup::new(
                        vec![Piece::new(Color::Blue, Size::Large)],
                        Piece::owned(Color::Yellow, Size::Small, Player::Two),
                    ),
                ],
                Player::One,
            ),
            Err(GameError::PieceUnavailable {
                piece: Piece::owned(Color::Yellow, Size::Small, Player::Two),
            })
        );
    }

#[test]
fn default_game_is_deterministic_and_valid() {
        let game = Game::default(Player::One);

        assert_eq!(game.status(), GameStatus::InProgress);
        assert_eq!(game.turn().current_player(), Player::One);
        assert_eq!(game.turn().state().systems().len(), 2);
        assert_eq!(game.turn().state().homeworld(Player::One), SystemId::new(0));
        assert_eq!(game.turn().state().homeworld(Player::Two), SystemId::new(1));
    }

#[test]
fn applying_an_action_delegates_to_turn_state() {
        let game = Game::default(Player::One);
        let ship = Piece::owned(Color::Green, Size::Small, Player::One);
        let action = build_action(Player::One, ship);

        let next = game.apply_action(&action).expect("action applies");

        assert_eq!(next.status(), GameStatus::InProgress);
        assert_eq!(next.turn().current_player(), Player::One);
        assert_eq!(next.turn().remaining_actions(), 0);
        assert_eq!(
            count_ship(
                next.turn()
                    .state()
                    .system(SystemId::new(0))
                    .expect("system exists"),
                ship,
            ),
            2
        );
    }

#[test]
fn ending_a_turn_without_a_loss_switches_players() {
        let game = Game::default(Player::One);
        let action = build_action(
            Player::One,
            Piece::owned(Color::Green, Size::Small, Player::One),
        );
        let spent = game.apply_action(&action).expect("action applies");

        let next = spent.end_turn().expect("turn ends");

        assert_eq!(next.status(), GameStatus::InProgress);
        assert_eq!(next.turn().current_player(), Player::Two);
        assert_eq!(next.turn().remaining_actions(), 1);
    }

#[test]
fn loss_is_detected_only_when_ending_a_turn() {
        let game = game_with_state(state_with_lost_player_two(), Player::One);
        let action = build_action(
            Player::One,
            Piece::owned(Color::Green, Size::Small, Player::One),
        );

        let spent = game.apply_action(&action).expect("action applies");

        assert_eq!(spent.status(), GameStatus::InProgress);
        assert_eq!(
            spent.end_turn().expect("turn ends").status(),
            GameStatus::Finished(GameOutcome::Winner(Player::One))
        );
    }

#[test]
fn terminal_games_reject_actions_and_turn_ending() {
        let game = game_with_state(state_with_lost_player_two(), Player::One);
        let action = build_action(
            Player::One,
            Piece::owned(Color::Green, Size::Small, Player::One),
        );
        let finished = game
            .apply_action(&action)
            .expect("action applies")
            .end_turn()
            .expect("turn ends");
        let outcome = GameOutcome::Winner(Player::One);

        assert_eq!(
            finished.apply_action(&action),
            Err(GameError::Terminal { outcome })
        );
        assert_eq!(finished.end_turn(), Err(GameError::Terminal { outcome }));
    }

#[test]
fn both_players_lost_at_turn_end_is_a_draw() {
        let game = game_with_state(state_with_both_players_lost(), Player::One);
        let action = build_action_at(
            Player::One,
            SystemId::new(1),
            Piece::owned(Color::Green, Size::Small, Player::One),
        );

        let finished = game
            .apply_action(&action)
            .expect("action applies")
            .end_turn()
            .expect("turn ends");

        assert_eq!(finished.status(), GameStatus::Finished(GameOutcome::Draw));
    }

#[test]
fn unresolved_catastrophes_do_not_block_game_turn_ending() {
        let game = game_with_state(state_with_pending_catastrophe(), Player::One);
        let action = build_action(
            Player::One,
            Piece::owned(Color::Green, Size::Small, Player::One),
        );
        let spent = game.apply_action(&action).expect("action applies");

        let next = spent.end_turn().expect("turn ends");

        assert_eq!(next.status(), GameStatus::InProgress);
        assert_eq!(next.turn().current_player(), Player::Two);
    }

fn game_with_state(state: GameState, current_player: Player) -> Game {
        Game::from_parts(TurnState::new(state, current_player), GameStatus::InProgress)
    }

fn build_action(player: Player, ship: Piece) -> Action {
        build_action_at(player, SystemId::new(0), ship)
    }

fn build_action_at(player: Player, system: SystemId, ship: Piece) -> Action {
        Action::Build {
            player,
            system,
            ship,
        }
    }

fn state_with_lost_player_two() -> GameState {
        GameState::new(
            vec![
                StarSystem::new(
                    vec![Piece::new(Color::Yellow, Size::Small)],
                    vec![Piece::owned(Color::Green, Size::Small, Player::One)],
                )
                .expect("system is valid"),
                StarSystem::new(vec![Piece::new(Color::Blue, Size::Large)], vec![])
                    .expect("system is valid"),
            ],
            [SystemId::new(0), SystemId::new(1)],
            Bank::new(),
        )
        .expect("state is valid")
    }

fn state_with_both_players_lost() -> GameState {
        GameState::new(
            vec![
                StarSystem::new(vec![Piece::new(Color::Yellow, Size::Small)], vec![])
                    .expect("system is valid"),
                StarSystem::new(
                    vec![Piece::new(Color::Blue, Size::Large)],
                    vec![Piece::owned(Color::Green, Size::Small, Player::One)],
                )
                .expect("system is valid"),
            ],
            [SystemId::new(0), SystemId::new(1)],
            Bank::new(),
        )
        .expect("state is valid")
    }

fn state_with_pending_catastrophe() -> GameState {
        GameState::new(
            vec![
                StarSystem::new(
                    vec![
                        Piece::new(Color::Red, Size::Small),
                        Piece::new(Color::Blue, Size::Medium),
                    ],
                    vec![
                        Piece::owned(Color::Red, Size::Small, Player::One),
                        Piece::owned(Color::Red, Size::Medium, Player::One),
                        Piece::owned(Color::Red, Size::Large, Player::Two),
                        Piece::owned(Color::Green, Size::Small, Player::One),
                    ],
                )
                .expect("system is valid"),
                StarSystem::new(
                    vec![Piece::new(Color::Yellow, Size::Large)],
                    vec![Piece::owned(Color::Yellow, Size::Small, Player::Two)],
                )
                .expect("system is valid"),
            ],
            [SystemId::new(0), SystemId::new(1)],
            Bank::new(),
        )
        .expect("state is valid")
    }

fn count_ship(system: &StarSystem, ship: Piece) -> usize {
        system
            .ships()
            .iter()
            .filter(|candidate| **candidate == ship)
            .count()
    }

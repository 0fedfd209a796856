use homeworlds::{
    apply_action, has_possible_catastrophe, validate_action, Action, ActionError, ActionKind, Bank,
    Color, Game, GameError, GameOutcome, GameState, GameStateError, GameStatus, HomeworldSetup,
    Piece, Player, Size, StarSystem, StarSystemError, SystemId, TransitionError, TravelTarget,
    TurnError, TurnState,
};

#[test]
fn turn_state_tracks_the_current_player_and_state() {
        let state = valid_state();

        let turn = TurnState::new(state.clone(), Player::One);

        assert_eq!(turn.current_player(), Player::One);
        assert_eq!(turn.remaining_actions(), 1);
        assert_eq!(turn.state(), &state);
    }

#[test]
fn applying_a_current_player_action_consumes_the_normal_budget() {
        let turn = TurnState::new(valid_state(), Player::One);
        let ship = owned_ship(Player::One, Color::Green, Size::Small);
        let action = build_action(Player::One, ship);

        let next = turn.apply_action(&action).expect("action applies");

        assert_eq!(next.current_player(), Player::One);
        assert_eq!(next.remaining_actions(), 0);
        assert_eq!(
            count_ship(
                next.state()
                    .system(SystemId::new(0))
                    .expect("system exists"),
                ship
            ),
            2
        );
    }

#[test]
fn applying_an_action_for_the_wrong_player_is_rejected() {
        let turn = TurnState::new(valid_state(), Player::One);
        let action = build_action(
            Player::Two,
            owned_ship(Player::Two, Color::Green, Size::Small),
        );

        assert_eq!(
            turn.apply_action(&action),
            Err(TurnError::WrongPlayer {
                expected: Player::One,
                actual: Player::Two,
            })
        );
    }

#[test]
fn applying_a_player_action_without_budget_is_rejected() {
        let turn = TurnState::new(valid_state(), Player::One);
        let first = build_action(
            Player::One,
            owned_ship(Player::One, Color::Green, Size::Small),
        );
        let second = build_action(
            Player::One,
            owned_ship(Player::One, Color::Green, Size::Medium),
        );

        let next = turn.apply_action(&first).expect("first action applies");

        assert_eq!(next.apply_action(&second), Err(TurnError::NoActionBudget));
    }

#[test]
fn end_turn_switches_player_after_budget_is_spent() {
        let turn = TurnState::new(valid_state(), Player::One);
        let action = build_action(
            Player::One,
            owned_ship(Player::One, Color::Green, Size::Small),
        );
        let spent = turn.apply_action(&action).expect("action applies");

        let next = spent.end_turn().expect("turn ends");

        assert_eq!(next.current_player(), Player::Two);
        assert_eq!(next.remaining_actions(), 1);
    }

#[test]
fn end_turn_rejects_turns_with_unspent_budget() {
        let turn = TurnState::new(valid_state(), Player::One);

        assert_eq!(
            turn.end_turn(),
            Err(TurnError::ActionsRemaining { remaining: 1 })
        );
    }

#[test]
fn action_validation_errors_are_preserved() {
        let mut bank = Bank::new();
        for _ in 0..Bank::copies_per_piece() {
            bank.draw(Color::Green, Size::Small).expect("piece exists");
        }
        let turn = TurnState::new(state_with_bank(bank), Player::One);
        let ship = owned_ship(Player::One, Color::Green, Size::Small);
        let action = build_action(Player::One, ship);

        assert_eq!(
            turn.apply_action(&action),
            Err(TurnError::InvalidAction(TransitionError::InvalidAction(
                ActionError::PieceUnavailable { piece: ship }
            )))
        );
    }

#[test]
fn catastrophe_actions_do_not_consume_budget() {
        let turn = TurnState::new(state_with_catastrophe(), Player::One);
        let action = Action::Catastrophe {
            system: SystemId::new(0),
            color: Color::Red,
        };

        let next = turn.apply_action(&action).expect("catastrophe applies");

        assert_eq!(next.current_player(), Player::One);
        assert_eq!(next.remaining_actions(), 1);
        assert!(
            next.state()
                .system(SystemId::new(0))
                .expect("system exists")
                .stars()
                .iter()
                .all(|piece| piece.color() != Color::Red)
        );
        assert!(
            next.state()
                .system(SystemId::new(0))
                .expect("system exists")
                .ships()
                .iter()
                .all(|piece| piece.color() != Color::Red)
        );
    }

#[test]
fn catastrophe_actions_can_apply_after_budget_is_spent() {
        let turn = TurnState::new(state_with_catastrophe(), Player::One);
        let build = build_action(
            Player::One,
            owned_ship(Player::One, Color::Green, Size::Small),
        );
        let catastrophe = Action::Catastrophe {
            system: SystemId::new(0),
            color: Color::Red,
        };
        let spent = turn.apply_action(&build).expect("build applies");

        let next = spent
            .apply_action(&catastrophe)
            .expect("catastrophe applies");

        assert_eq!(next.current_player(), Player::One);
        assert_eq!(next.remaining_actions(), 0);
    }

#[test]
fn end_turn_allows_unresolved_catastrophes() {
        let turn = TurnState::new(state_with_catastrophe(), Player::One);
        let action = build_action(
            Player::One,
            owned_ship(Player::One, Color::Green, Size::Small),
        );
        let spent = turn.apply_action(&action).expect("action applies");

        let next = spent.end_turn().expect("turn ends");

        assert_eq!(next.current_player(), Player::Two);
        assert_eq!(next.remaining_actions(), 1);
    }

#[test]
fn sacrificing_a_small_green_ship_grants_one_build_action() {
        let sacrifice_ship = owned_ship(Player::One, Color::Green, Size::Small);
        let turn = TurnState::new(state_with_green_sacrifice_ship(Size::Small), Player::One);
        let sacrifice = sacrifice_action(Player::One, sacrifice_ship);
        let build = build_action(
            Player::One,
            owned_ship(Player::One, Color::Green, Size::Small),
        );

        let sacrificed = turn.apply_action(&sacrifice).expect("sacrifice applies");
        let built = sacrificed.apply_action(&build).expect("build applies");

        assert_eq!(sacrificed.remaining_actions(), 1);
        assert_eq!(built.remaining_actions(), 0);
    }

#[test]
fn sacrificing_a_medium_blue_ship_grants_two_trade_actions() {
        let sacrifice_ship = owned_ship(Player::One, Color::Blue, Size::Medium);
        let turn = TurnState::new(state_with_blue_sacrifice_fleet(), Player::One);
        let sacrifice = sacrifice_action(Player::One, sacrifice_ship);
        let trade_small = trade_action(
            Player::One,
            owned_ship(Player::One, Color::Blue, Size::Small),
            owned_ship(Player::One, Color::Red, Size::Small),
        );
        let trade_large = trade_action(
            Player::One,
            owned_ship(Player::One, Color::Blue, Size::Large),
            owned_ship(Player::One, Color::Red, Size::Large),
        );

        let sacrificed = turn.apply_action(&sacrifice).expect("sacrifice applies");
        let traded_once = sacrificed
            .apply_action(&trade_small)
            .expect("first trade applies");
        let traded_twice = traded_once
            .apply_action(&trade_large)
            .expect("second trade applies");

        assert_eq!(sacrificed.remaining_actions(), 2);
        assert_eq!(traded_once.remaining_actions(), 1);
        assert_eq!(traded_twice.remaining_actions(), 0);
    }

#[test]
fn sacrificing_a_large_green_ship_grants_three_build_actions() {
        let sacrifice_ship = owned_ship(Player::One, Color::Green, Size::Large);
        let turn = TurnState::new(state_with_green_sacrifice_ship(Size::Large), Player::One);
        let sacrifice = sacrifice_action(Player::One, sacrifice_ship);
        let build = build_action(
            Player::One,
            owned_ship(Player::One, Color::Green, Size::Small),
        );

        let after_sacrifice = turn.apply_action(&sacrifice).expect("sacrifice applies");
        let after_first_build = after_sacrifice
            .apply_action(&build)
            .expect("first build applies");
        let after_second_build = after_first_build
            .apply_action(&build)
            .expect("second build applies");
        let after_third_build = after_second_build
            .apply_action(&build)
            .expect("third build applies");

        assert_eq!(after_sacrifice.remaining_actions(), 3);
        assert_eq!(after_first_build.remaining_actions(), 2);
        assert_eq!(after_second_build.remaining_actions(), 1);
        assert_eq!(after_third_build.remaining_actions(), 0);
    }

#[test]
fn sacrifice_travel_actions_do_not_require_yellow_power_at_source() {
        let sacrifice_ship = owned_ship(Player::One, Color::Yellow, Size::Medium);
        let moving_ship = owned_ship(Player::One, Color::Green, Size::Small);
        let turn = TurnState::new(
            state_for_yellow_sacrifice_without_local_power(),
            Player::One,
        );
        let sacrifice = sacrifice_action(Player::One, sacrifice_ship);
        let travel = Action::Travel {
            player: Player::One,
            from: SystemId::new(0),
            ship: moving_ship,
            target: TravelTarget::Existing(SystemId::new(1)),
        };

        let traveled = turn
            .apply_action(&sacrifice)
            .expect("sacrifice applies")
            .apply_action(&travel)
            .expect("travel applies without local yellow power");

        assert_eq!(traveled.remaining_actions(), 1);
        assert!(
            traveled
                .state()
                .system(SystemId::new(1))
                .expect("target exists")
                .ships()
                .contains(&moving_ship)
        );
    }

#[test]
fn sacrifice_trade_actions_do_not_require_blue_power_at_system() {
        let sacrifice_ship = owned_ship(Player::One, Color::Blue, Size::Medium);
        let from = owned_ship(Player::One, Color::Green, Size::Small);
        let to = owned_ship(Player::One, Color::Red, Size::Small);
        let turn = TurnState::new(state_for_blue_sacrifice_without_local_power(), Player::One);
        let sacrifice = sacrifice_action(Player::One, sacrifice_ship);
        let trade = Action::Trade {
            player: Player::One,
            system: SystemId::new(1),
            from,
            to,
        };

        let traded = turn
            .apply_action(&sacrifice)
            .expect("sacrifice applies")
            .apply_action(&trade)
            .expect("trade applies without local blue power");

        assert_eq!(traded.remaining_actions(), 1);
        assert!(
            traded
                .state()
                .system(SystemId::new(1))
                .expect("trade system exists")
                .ships()
                .contains(&to)
        );
    }

#[test]
fn sacrifice_turns_reject_nonmatching_action_kinds() {
        let sacrifice_ship = owned_ship(Player::One, Color::Green, Size::Small);
        let turn = TurnState::new(state_with_green_sacrifice_ship(Size::Small), Player::One);
        let sacrifice = sacrifice_action(Player::One, sacrifice_ship);
        let trade = trade_action(
            Player::One,
            owned_ship(Player::One, Color::Blue, Size::Small),
            owned_ship(Player::One, Color::Red, Size::Small),
        );
        let sacrificed = turn.apply_action(&sacrifice).expect("sacrifice applies");

        assert_eq!(
            sacrificed.apply_action(&trade),
            Err(TurnError::WrongSacrificeActionKind {
                expected: ActionKind::Build,
                actual: ActionKind::Trade,
            })
        );
    }

#[test]
fn catastrophe_actions_do_not_consume_sacrifice_budget() {
        let sacrifice_ship = owned_ship(Player::One, Color::Green, Size::Small);
        let turn = TurnState::new(state_with_catastrophe_sacrifice(), Player::One);
        let sacrifice = sacrifice_action(Player::One, sacrifice_ship);
        let catastrophe = Action::Catastrophe {
            system: SystemId::new(0),
            color: Color::Red,
        };
        let build = build_action(
            Player::One,
            owned_ship(Player::One, Color::Green, Size::Small),
        );

        let sacrificed = turn.apply_action(&sacrifice).expect("sacrifice applies");
        let after_catastrophe = sacrificed
            .apply_action(&catastrophe)
            .expect("catastrophe applies");
        let built = after_catastrophe
            .apply_action(&build)
            .expect("build applies");

        assert_eq!(after_catastrophe.remaining_actions(), 1);
        assert_eq!(built.remaining_actions(), 0);
    }

#[test]
fn ending_a_sacrifice_turn_resets_the_action_kind_limit() {
        let sacrifice_ship = owned_ship(Player::One, Color::Green, Size::Small);
        let turn = TurnState::new(state_with_green_sacrifice_ship(Size::Small), Player::One);
        let sacrifice = sacrifice_action(Player::One, sacrifice_ship);
        let build = build_action(
            Player::One,
            owned_ship(Player::One, Color::Green, Size::Small),
        );
        let next_player_travel = Action::Travel {
            player: Player::Two,
            from: SystemId::new(1),
            ship: owned_ship(Player::Two, Color::Yellow, Size::Small),
            target: TravelTarget::Existing(SystemId::new(0)),
        };
        let spent = turn
            .apply_action(&sacrifice)
            .expect("sacrifice applies")
            .apply_action(&build)
            .expect("build applies");

        let next_turn = spent.end_turn().expect("turn ends");
        let traveled = next_turn
            .apply_action(&next_player_travel)
            .expect("travel applies");

        assert_eq!(traveled.current_player(), Player::Two);
        assert_eq!(traveled.remaining_actions(), 0);
    }

#[test]
fn ending_a_sacrifice_turn_allows_unspent_granted_actions() {
        let sacrifice_ship = owned_ship(Player::One, Color::Green, Size::Large);
        let turn = TurnState::new(state_with_green_sacrifice_ship(Size::Large), Player::One);
        let sacrifice = sacrifice_action(Player::One, sacrifice_ship);
        let sacrificed = turn.apply_action(&sacrifice).expect("sacrifice applies");

        let next_turn = sacrificed.end_turn().expect("sacrifice turn ends early");

        assert_eq!(next_turn.current_player(), Player::Two);
        assert_eq!(next_turn.remaining_actions(), 1);
        assert_eq!(next_turn.required_action(), None);
    }

fn build_action(player: Player, ship: Piece) -> Action {
        Action::Build {
            player,
            system: SystemId::new(0),
            ship,
        }
    }

fn sacrifice_action(player: Player, ship: Piece) -> Action {
        Action::Sacrifice {
            player,
            system: SystemId::new(0),
            ship,
        }
    }

fn trade_action(player: Player, from: Piece, to: Piece) -> Action {
        Action::Trade {
            player,
            system: SystemId::new(0),
            from,
            to,
        }
    }

fn valid_state() -> GameState {
        state_with_bank(Bank::new())
    }

fn state_with_catastrophe() -> GameState {
        GameState::new(
            vec![
                StarSystem::new(
                    vec![
                        Piece::new(Color::Red, Size::Small),
                        Piece::new(Color::Red, Size::Medium),
                    ],
                    vec![
                        owned_ship(Player::One, Color::Red, Size::Small),
                        owned_ship(Player::Two, Color::Red, Size::Large),
                        owned_ship(Player::One, Color::Green, Size::Small),
                    ],
                )
                .expect("system is valid"),
                StarSystem::new(
                    vec![Piece::new(Color::Green, Size::Medium)],
                    vec![owned_ship(Player::Two, Color::Yellow, Size::Small)],
                )
                .expect("system is valid"),
            ],
            [SystemId::new(0), SystemId::new(1)],
            Bank::new(),
        )
        .expect("state is valid")
    }

fn state_with_green_sacrifice_ship(size: Size) -> GameState {
        GameState::new(
            vec![
                StarSystem::new(
                    vec![Piece::new(Color::Yellow, Size::Small)],
                    vec![
                        owned_ship(Player::One, Color::Green, size),
                        owned_ship(Player::One, Color::Green, Size::Medium),
                    ],
                )
                .expect("system is valid"),
                StarSystem::new(
                    vec![Piece::new(Color::Green, Size::Medium)],
                    vec![owned_ship(Player::Two, Color::Yellow, Size::Small)],
                )
                .expect("system is valid"),
            ],
            [SystemId::new(0), SystemId::new(1)],
            Bank::new(),
        )
        .expect("state is valid")
    }

fn state_with_blue_sacrifice_fleet() -> GameState {
        GameState::new(
            vec![
                StarSystem::new(
                    vec![Piece::new(Color::Yellow, Size::Small)],
                    vec![
                        owned_ship(Player::One, Color::Blue, Size::Small),
                        owned_ship(Player::One, Color::Blue, Size::Medium),
                        owned_ship(Player::One, Color::Blue, Size::Large),
                    ],
                )
                .expect("system is valid"),
                StarSystem::new(
                    vec![Piece::new(Color::Green, Size::Medium)],
                    vec![owned_ship(Player::Two, Color::Yellow, Size::Small)],
                )
                .expect("system is valid"),
            ],
            [SystemId::new(0), SystemId::new(1)],
            Bank::new(),
        )
        .expect("state is valid")
    }

fn state_for_yellow_sacrifice_without_local_power() -> GameState {
        GameState::new(
            vec![
                StarSystem::new(
                    vec![Piece::new(Color::Red, Size::Small)],
                    vec![
                        owned_ship(Player::One, Color::Yellow, Size::Medium),
                        owned_ship(Player::One, Color::Green, Size::Small),
                    ],
                )
                .expect("system is valid"),
                StarSystem::new(
                    vec![Piece::new(Color::Green, Size::Medium)],
                    vec![owned_ship(Player::Two, Color::Red, Size::Small)],
                )
                .expect("system is valid"),
            ],
            [SystemId::new(0), SystemId::new(1)],
            Bank::new(),
        )
        .expect("state is valid")
    }

fn state_for_blue_sacrifice_without_local_power() -> GameState {
        GameState::new(
            vec![
                StarSystem::new(
                    vec![Piece::new(Color::Red, Size::Small)],
                    vec![owned_ship(Player::One, Color::Blue, Size::Medium)],
                )
                .expect("system is valid"),
                StarSystem::new(
                    vec![Piece::new(Color::Yellow, Size::Medium)],
                    vec![owned_ship(Player::One, Color::Green, Size::Small)],
                )
                .expect("system is valid"),
            ],
            [SystemId::new(0), SystemId::new(1)],
            Bank::new(),
        )
        .expect("state is valid")
    }

fn state_with_catastrophe_sacrifice() -> GameState {
        GameState::new(
            vec![
                StarSystem::new(
                    vec![
                        Piece::new(Color::Red, Size::Small),
                        Piece::new(Color::Blue, Size::Medium),
                    ],
                    vec![
                        owned_ship(Player::One, Color::Red, Size::Small),
                        owned_ship(Player::Two, Color::Red, Size::Medium),
                        owned_ship(Player::Two, Color::Red, Size::Large),
                        owned_ship(Player::One, Color::Green, Size::Small),
                        owned_ship(Player::One, Color::Green, Size::Medium),
                    ],
                )
                .expect("system is valid"),
                StarSystem::new(
                    vec![Piece::new(Color::Green, Size::Medium)],
                    vec![owned_ship(Player::Two, Color::Yellow, Size::Small)],
                )
                .expect("system is valid"),
            ],
            [SystemId::new(0), SystemId::new(1)],
            Bank::new(),
        )
        .expect("state is valid")
    }

fn state_with_bank(bank: Bank) -> GameState {
        GameState::new(
            vec![
                StarSystem::new(
                    vec![Piece::new(Color::Yellow, Size::Small)],
                    vec![
                        owned_ship(Player::One, Color::Blue, Size::Small),
                        owned_ship(Player::One, Color::Green, Size::Small),
                        owned_ship(Player::Two, Color::Red, Size::Medium),
                    ],
                )
                .expect("system is valid"),
                StarSystem::new(
                    vec![Piece::new(Color::Green, Size::Medium)],
                    vec![owned_ship(Player::Two, Color::Yellow, Size::Small)],
                )
                .expect("system is valid"),
            ],
            [SystemId::new(0), SystemId::new(1)],
            bank,
        )
        .expect("state is valid")
    }

fn owned_ship(player: Player, color: Color, size: Size) -> Piece {
        Piece::owned(color, size, player)
    }

fn count_ship(system: &StarSystem, ship: Piece) -> usize {
        system
            .ships()
            .iter()
            .filter(|candidate| **candidate == ship)
            .count()
    }

#[test]
fn turn_budget_stays_in_bounds_through_a_sacrifice_turn() {
    let sacrifice_ship = owned_ship(Player::One, Color::Blue, Size::Medium);
    let turn = TurnState::new(state_with_blue_sacrifice_fleet(), Player::One);
    let trade_small = trade_action(
        Player::One,
        owned_ship(Player::One, Color::Blue, Size::Small),
        owned_ship(Player::One, Color::Red, Size::Small),
    );
    let trade_large = trade_action(
        Player::One,
        owned_ship(Player::One, Color::Blue, Size::Large),
        owned_ship(Player::One, Color::Red, Size::Large),
    );
    let sacrificed = turn
        .apply_action(&sacrifice_action(Player::One, sacrifice_ship))
        .expect("sacrifice applies");
    let traded_once = sacrificed.apply_action(&trade_small).expect("first trade applies");
    let traded_twice = traded_once.apply_action(&trade_large).expect("second trade applies");
    let ended = traded_twice.end_turn().expect("turn ends");

    for t in [&turn, &sacrificed, &traded_once, &traded_twice, &ended] {
        assert!(t.remaining_actions() <= 3);
        if t.remaining_actions() == 0 {
            assert_eq!(t.required_action(), None);
        }
        if t.remaining_actions() > 1 {
            assert!(t.required_action().is_some());
        }
    }
    assert_eq!(sacrificed.required_action(), Some(ActionKind::Trade));
    assert_eq!(traded_twice.required_action(), None);
    assert_eq!(ended.remaining_actions(), 1);
    assert_eq!(ended.required_action(), None);
}

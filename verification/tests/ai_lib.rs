use homeworlds::ai::is_immediate_non_win;
use homeworlds::evaluation::{DRAW_SCORE, LOSS_SCORE, WIN_SCORE};
use homeworlds::search::apply_decision;
use homeworlds::{
    best_decision, best_decision_at_depth, evaluate_position, legal_decisions, Action, ActionKind, AiDecision, Bank,
    Color, Evaluation, FirstLegalStrategy, Game, GameOutcome, GameState, GameStatus, HomeworldSetup, Piece, Player,
    PriorityStrategy, ScoredDecision, SearchStrategy, Size, StarSystem, Strategy, SystemId, TravelTarget, TurnState,
};

#[test]
fn terminal_games_have_no_legal_decisions() {
        let game = Game::from_parts(
            Game::default(Player::One).turn().clone(),
            GameStatus::Finished(GameOutcome::Winner(Player::One)),
        );

        assert_eq!(legal_decisions(&game), Vec::new());
    }

#[test]
fn first_legal_strategy_returns_first_generated_decision() {
        let game = Game::default(Player::One);

        assert_eq!(
            FirstLegalStrategy.choose_decision(&game),
            legal_decisions(&game).into_iter().next()
        );
    }

#[test]
fn first_legal_strategy_returns_none_for_terminal_games() {
        let game = Game::from_parts(
            Game::default(Player::One).turn().clone(),
            GameStatus::Finished(GameOutcome::Winner(Player::One)),
        );

        assert_eq!(FirstLegalStrategy.choose_decision(&game), None);
    }

#[test]
fn first_legal_strategy_skips_immediate_loss() {
        let game = last_homeworld_ship_travel_game();

        assert_eq!(
            legal_decisions(&game).into_iter().next(),
            Some(AiDecision::Action(Action::Travel {
                player: Player::One,
                from: SystemId::new(0),
                ship: Piece::owned(Color::Yellow, Size::Small, Player::One),
                target: TravelTarget::Existing(SystemId::new(1)),
            }))
        );
        assert_eq!(
            FirstLegalStrategy.choose_decision(&game),
            Some(AiDecision::Action(Action::Catastrophe {
                system: SystemId::new(1),
                color: Color::Red,
            }))
        );
    }

#[test]
fn strategies_return_none_when_all_decisions_immediately_lose() {
        let game = empty_current_homeworld_game();

        assert_eq!(legal_decisions(&game), vec![AiDecision::EndTurn]);
        assert_eq!(FirstLegalStrategy.choose_decision(&game), None);
        assert_eq!(PriorityStrategy.choose_decision(&game), None);
    }

#[test]
fn strategies_return_none_when_all_decisions_immediately_draw() {
        let game = empty_homeworlds_game();

        assert_eq!(legal_decisions(&game), vec![AiDecision::EndTurn]);
        assert_eq!(FirstLegalStrategy.choose_decision(&game), None);
        assert_eq!(PriorityStrategy.choose_decision(&game), None);
    }

#[test]
fn priority_strategy_prefers_immediate_wins() {
        let game = winning_catastrophe_game();

        assert_eq!(
            PriorityStrategy.choose_decision(&game),
            Some(AiDecision::Action(Action::Catastrophe {
                system: SystemId::new(1),
                color: Color::Red,
            }))
        );
    }

#[test]
fn priority_strategy_prefers_catastrophes_before_paid_actions() {
        let game = catastrophe_and_paid_action_game();

        assert_eq!(
            PriorityStrategy.choose_decision(&game),
            Some(AiDecision::Action(Action::Catastrophe {
                system: SystemId::new(2),
                color: Color::Red,
            }))
        );
    }

#[test]
fn priority_strategy_skips_immediate_loss() {
        let game = losing_catastrophe_or_safe_end_turn_game();

        assert_eq!(PriorityStrategy.choose_decision(&game), Some(AiDecision::EndTurn));
    }

#[test]
fn priority_strategy_prefers_paid_actions_before_absent_turn_end() {
        let game = Game::default(Player::One);

        assert_eq!(
            PriorityStrategy.choose_decision(&game),
            Some(AiDecision::Action(Action::Build {
                player: Player::One,
                system: SystemId::new(0),
                ship: Piece::owned(Color::Red, Size::Small, Player::One),
            }))
        );
    }

#[test]
fn priority_strategy_uses_legal_turn_end_as_fallback() {
        let game = Game::default(Player::One);
        let turn = TurnState::from_parts(game.turn().state().clone(), Player::One, 0, None);
        let game = Game::from_parts(turn, GameStatus::InProgress);

        assert_eq!(PriorityStrategy.choose_decision(&game), Some(AiDecision::EndTurn));
    }

#[test]
fn priority_strategy_returns_none_for_terminal_games() {
        let game = Game::from_parts(
            Game::default(Player::One).turn().clone(),
            GameStatus::Finished(GameOutcome::Winner(Player::One)),
        );

        assert_eq!(PriorityStrategy.choose_decision(&game), None);
    }

#[test]
fn priority_strategy_uses_deterministic_tie_breaking() {
        let game = two_nonwinning_catastrophes_game();

        assert_eq!(
            PriorityStrategy.choose_decision(&game),
            Some(AiDecision::Action(Action::Catastrophe {
                system: SystemId::new(0),
                color: Color::Red,
            }))
        );
    }

#[test]
fn end_turn_is_included_only_when_engine_accepts_it() {
        let game_with_budget = Game::default(Player::One);
        assert!(!legal_decisions(&game_with_budget).contains(&AiDecision::EndTurn));

        let spent_turn = TurnState::from_parts(
            game_with_budget.turn().state().clone(),
            Player::One,
            0,
            None,
        );
        let game_without_budget = Game::from_parts(spent_turn, GameStatus::InProgress);

        assert_eq!(
            legal_decisions(&game_without_budget),
            vec![AiDecision::EndTurn]
        );
    }

#[test]
fn build_decisions_are_legal_and_deterministic() {
        let game = Game::default(Player::One);
        let decisions = legal_decisions(&game);

        assert_all_actions_apply(&game, &decisions);
        let build_kinds = decisions
            .iter()
            .filter_map(|decision| match decision {
                AiDecision::Action(Action::Build { .. }) => Some(ActionKind::Build),
                _ => None,
            })
            .collect::<Vec<_>>();
        assert_eq!(
            build_kinds,
            vec![
                ActionKind::Build,
                ActionKind::Build,
                ActionKind::Build,
                ActionKind::Build
            ]
        );
        assert!(decisions.contains(&AiDecision::Action(Action::Build {
            player: Player::One,
            system: SystemId::new(0),
            ship: Piece::owned(Color::Red, Size::Small, Player::One),
        })));
    }

#[test]
fn build_decisions_respect_required_action_kind() {
        let game = Game::default(Player::One);
        let turn = TurnState::from_parts(
            game.turn().state().clone(),
            Player::One,
            1,
            Some(ActionKind::Travel),
        );
        let game = Game::from_parts(turn, GameStatus::InProgress);

        assert!(
            legal_decisions(&game)
                .iter()
                .all(|decision| !matches!(decision, AiDecision::Action(Action::Build { .. })))
        );
    }

#[test]
fn travel_decisions_include_existing_system_targets() {
        let game = existing_travel_game();
        let decisions = legal_decisions(&game);

        assert_all_actions_apply(&game, &decisions);
        assert!(decisions.contains(&AiDecision::Action(Action::Travel {
            player: Player::One,
            from: SystemId::new(0),
            ship: Piece::owned(Color::Green, Size::Small, Player::One),
            target: TravelTarget::Existing(SystemId::new(1)),
        })));
    }

#[test]
fn travel_decisions_discover_only_one_star_systems() {
        let game = Game::default(Player::One);
        let decisions = legal_decisions(&game);
        let mut found_discovery = false;

        for decision in decisions {
            if let AiDecision::Action(Action::Travel {
                target: TravelTarget::New { stars },
                ..
            }) = decision
            {
                found_discovery = true;
                assert_eq!(stars.len(), 1);
            }
        }

        assert!(found_discovery);
    }



#[test]
fn sacrifice_decisions_include_owned_ships() {
        let game = Game::default(Player::One);
        let decisions = legal_decisions(&game);

        assert_all_actions_apply(&game, &decisions);
        assert!(decisions.contains(&AiDecision::Action(Action::Sacrifice {
            player: Player::One,
            system: SystemId::new(0),
            ship: Piece::owned(Color::Green, Size::Small, Player::One),
        })));
    }

#[test]
fn paid_actions_are_absent_without_budget() {
        let game = Game::default(Player::One);
        let turn = TurnState::from_parts(game.turn().state().clone(), Player::One, 0, None);
        let game = Game::from_parts(turn, GameStatus::InProgress);

        assert_eq!(legal_decisions(&game), vec![AiDecision::EndTurn]);
    }

#[test]
fn paid_actions_respect_sacrifice_action_kind_restrictions() {
        let game = Game::default(Player::One);
        let turn = TurnState::from_parts(
            game.turn().state().clone(),
            Player::One,
            2,
            Some(ActionKind::Build),
        );
        let game = Game::from_parts(turn, GameStatus::InProgress);

        let decisions = legal_decisions(&game);
        assert!(!decisions.is_empty());
        assert!(decisions.contains(&AiDecision::EndTurn));
        assert!(decisions.iter().all(|decision| match decision {
            AiDecision::Action(action) => action.kind() == ActionKind::Build,
            AiDecision::EndTurn => true,
        }));
    }

#[test]
fn catastrophe_decisions_are_generated_at_zero_budget() {
        let game = catastrophe_game(0);

        assert_eq!(
            legal_decisions(&game),
            vec![
                AiDecision::EndTurn,
                AiDecision::Action(Action::Catastrophe {
                    system: SystemId::new(0),
                    color: Color::Red,
                }),
            ]
        );
    }

#[test]
fn invade_decisions_include_opponent_ships() {
        let game = invade_game();
        let decisions = legal_decisions(&game);

        assert_all_actions_apply(&game, &decisions);
        assert!(decisions.contains(&AiDecision::Action(Action::Invade {
            player: Player::One,
            system: SystemId::new(0),
            target: Piece::owned(Color::Green, Size::Small, Player::Two),
        })));
    }

#[test]
fn every_generated_action_applies_for_representative_positions() {
        for game in [
            Game::default(Player::One),
            existing_travel_game(),
            invade_game(),
            catastrophe_game(1),
        ] {
            assert_all_actions_apply(&game, &legal_decisions(&game));
        }
    }

#[test]
fn duplicate_equivalent_decisions_are_removed() {
        let game = duplicate_ship_game();
        let sacrifice = AiDecision::Action(Action::Sacrifice {
            player: Player::One,
            system: SystemId::new(0),
            ship: Piece::owned(Color::Green, Size::Small, Player::One),
        });

        assert_eq!(
            legal_decisions(&game)
                .into_iter()
                .filter(|decision| *decision == sacrifice)
                .count(),
            1
        );
    }



fn assert_all_actions_apply(game: &Game, decisions: &[AiDecision]) {
        for decision in decisions {
            if let AiDecision::Action(action) = decision {
                game.apply_action(action)
                    .expect("generated action should apply");
            }
        }
    }

fn existing_travel_game() -> Game {
        Game::new(
            [
                HomeworldSetup::new(
                    vec![
                        Piece::new(Color::Yellow, Size::Small),
                        Piece::new(Color::Blue, Size::Medium),
                    ],
                    Piece::owned(Color::Green, Size::Small, Player::One),
                ),
                HomeworldSetup::new(
                    vec![
                        Piece::new(Color::Red, Size::Large),
                        Piece::new(Color::Green, Size::Large),
                    ],
                    Piece::owned(Color::Red, Size::Small, Player::Two),
                ),
            ],
            Player::One,
        )
        .expect("game initializes")
    }

fn last_homeworld_ship_travel_game() -> Game {
        

        let state = GameState::new(
            vec![
                StarSystem::new(
                    vec![Piece::new(Color::Yellow, Size::Small)],
                    vec![Piece::owned(Color::Yellow, Size::Small, Player::One)],
                )
                .expect("system is valid"),
                StarSystem::new(
                    vec![
                        Piece::new(Color::Red, Size::Large),
                        Piece::new(Color::Blue, Size::Medium),
                    ],
                    vec![
                        Piece::owned(Color::Red, Size::Small, Player::Two),
                        Piece::owned(Color::Red, Size::Medium, Player::Two),
                        Piece::owned(Color::Red, Size::Large, Player::Two),
                    ],
                )
                .expect("system is valid"),
            ],
            [SystemId::new(0), SystemId::new(1)],
            Bank::new(),
        )
        .expect("state is valid");

        Game::from_parts(TurnState::new(state, Player::One), GameStatus::InProgress)
    }

fn empty_current_homeworld_game() -> Game {
        

        let state = GameState::new(
            vec![
                StarSystem::new(vec![Piece::new(Color::Yellow, Size::Small)], vec![])
                    .expect("system is valid"),
                StarSystem::new(
                    vec![Piece::new(Color::Blue, Size::Medium)],
                    vec![Piece::owned(Color::Blue, Size::Small, Player::Two)],
                )
                .expect("system is valid"),
            ],
            [SystemId::new(0), SystemId::new(1)],
            Bank::new(),
        )
        .expect("state is valid");
        let turn = TurnState::from_parts(state, Player::One, 0, None);

        Game::from_parts(turn, GameStatus::InProgress)
    }

fn empty_homeworlds_game() -> Game {
        

        let state = GameState::new(
            vec![
                StarSystem::new(vec![Piece::new(Color::Yellow, Size::Small)], vec![])
                    .expect("system is valid"),
                StarSystem::new(vec![Piece::new(Color::Blue, Size::Medium)], vec![])
                    .expect("system is valid"),
            ],
            [SystemId::new(0), SystemId::new(1)],
            Bank::new(),
        )
        .expect("state is valid");
        let turn = TurnState::from_parts(state, Player::One, 0, None);

        Game::from_parts(turn, GameStatus::InProgress)
    }

fn losing_catastrophe_or_safe_end_turn_game() -> Game {
        

        let state = GameState::new(
            vec![
                StarSystem::new(
                    vec![
                        Piece::new(Color::Red, Size::Small),
                        Piece::new(Color::Yellow, Size::Medium),
                    ],
                    vec![
                        Piece::owned(Color::Red, Size::Small, Player::One),
                        Piece::owned(Color::Red, Size::Medium, Player::One),
                        Piece::owned(Color::Red, Size::Large, Player::One),
                    ],
                )
                .expect("system is valid"),
                StarSystem::new(
                    vec![Piece::new(Color::Blue, Size::Large)],
                    vec![Piece::owned(Color::Blue, Size::Small, Player::Two)],
                )
                .expect("system is valid"),
            ],
            [SystemId::new(0), SystemId::new(1)],
            Bank::new(),
        )
        .expect("state is valid");
        let turn = TurnState::from_parts(state, Player::One, 0, None);

        Game::from_parts(turn, GameStatus::InProgress)
    }

fn invade_game() -> Game {
        

        let state = GameState::new(
            vec![
                StarSystem::new(
                    vec![Piece::new(Color::Red, Size::Small)],
                    vec![
                        Piece::owned(Color::Red, Size::Large, Player::One),
                        Piece::owned(Color::Green, Size::Small, Player::Two),
                    ],
                )
                .expect("system is valid"),
                StarSystem::new(
                    vec![
                        Piece::new(Color::Blue, Size::Medium),
                        Piece::new(Color::Yellow, Size::Large),
                    ],
                    vec![Piece::owned(Color::Blue, Size::Small, Player::Two)],
                )
                .expect("system is valid"),
            ],
            [SystemId::new(0), SystemId::new(1)],
            Bank::new(),
        )
        .expect("state is valid");

        Game::from_parts(TurnState::new(state, Player::One), GameStatus::InProgress)
    }

fn catastrophe_game(remaining_actions: usize) -> Game {
        

        let state = GameState::new(
            vec![
                StarSystem::new(
                    vec![
                        Piece::new(Color::Red, Size::Small),
                        Piece::new(Color::Red, Size::Medium),
                    ],
                    vec![
                        Piece::owned(Color::Red, Size::Large, Player::One),
                        Piece::owned(Color::Red, Size::Small, Player::Two),
                    ],
                )
                .expect("system is valid"),
                StarSystem::new(
                    vec![
                        Piece::new(Color::Blue, Size::Small),
                        Piece::new(Color::Yellow, Size::Medium),
                    ],
                    vec![Piece::owned(Color::Blue, Size::Small, Player::Two)],
                )
                .expect("system is valid"),
            ],
            [SystemId::new(0), SystemId::new(1)],
            Bank::new(),
        )
        .expect("state is valid");
        let turn = TurnState::from_parts(state, Player::One, remaining_actions, None);

        Game::from_parts(turn, GameStatus::InProgress)
    }

fn winning_catastrophe_game() -> Game {
        

        let state = GameState::new(
            vec![
                StarSystem::new(
                    vec![
                        Piece::new(Color::Red, Size::Small),
                        Piece::new(Color::Blue, Size::Medium),
                    ],
                    vec![
                        Piece::owned(Color::Green, Size::Small, Player::One),
                        Piece::owned(Color::Red, Size::Medium, Player::One),
                        Piece::owned(Color::Red, Size::Large, Player::One),
                        Piece::owned(Color::Red, Size::Small, Player::Two),
                    ],
                )
                .expect("system is valid"),
                StarSystem::new(
                    vec![
                        Piece::new(Color::Red, Size::Small),
                        Piece::new(Color::Yellow, Size::Large),
                    ],
                    vec![
                        Piece::owned(Color::Red, Size::Small, Player::Two),
                        Piece::owned(Color::Red, Size::Medium, Player::Two),
                        Piece::owned(Color::Red, Size::Large, Player::Two),
                    ],
                )
                .expect("system is valid"),
            ],
            [SystemId::new(0), SystemId::new(1)],
            Bank::new(),
        )
        .expect("state is valid");
        let turn = TurnState::from_parts(state, Player::One, 0, None);

        Game::from_parts(turn, GameStatus::InProgress)
    }

fn catastrophe_and_paid_action_game() -> Game {
        

        let state = GameState::new(
            vec![
                StarSystem::new(
                    vec![
                        Piece::new(Color::Green, Size::Small),
                        Piece::new(Color::Yellow, Size::Medium),
                    ],
                    vec![Piece::owned(Color::Green, Size::Small, Player::One)],
                )
                .expect("system is valid"),
                StarSystem::new(
                    vec![
                        Piece::new(Color::Red, Size::Small),
                        Piece::new(Color::Blue, Size::Large),
                    ],
                    vec![Piece::owned(Color::Red, Size::Medium, Player::Two)],
                )
                .expect("system is valid"),
                StarSystem::new(
                    vec![Piece::new(Color::Red, Size::Small)],
                    vec![
                        Piece::owned(Color::Red, Size::Small, Player::One),
                        Piece::owned(Color::Red, Size::Medium, Player::Two),
                        Piece::owned(Color::Red, Size::Large, Player::Two),
                    ],
                )
                .expect("system is valid"),
            ],
            [SystemId::new(0), SystemId::new(1)],
            Bank::new(),
        )
        .expect("state is valid");

        Game::from_parts(TurnState::new(state, Player::One), GameStatus::InProgress)
    }

fn two_nonwinning_catastrophes_game() -> Game {
        

        let state = GameState::new(
            vec![
                StarSystem::new(
                    vec![
                        Piece::new(Color::Red, Size::Small),
                        Piece::new(Color::Blue, Size::Medium),
                    ],
                    vec![
                        Piece::owned(Color::Green, Size::Small, Player::One),
                        Piece::owned(Color::Red, Size::Small, Player::One),
                        Piece::owned(Color::Red, Size::Medium, Player::One),
                        Piece::owned(Color::Red, Size::Large, Player::Two),
                    ],
                )
                .expect("system is valid"),
                StarSystem::new(
                    vec![
                        Piece::new(Color::Yellow, Size::Small),
                        Piece::new(Color::Green, Size::Large),
                    ],
                    vec![
                        Piece::owned(Color::Blue, Size::Small, Player::Two),
                        Piece::owned(Color::Yellow, Size::Small, Player::Two),
                        Piece::owned(Color::Yellow, Size::Medium, Player::Two),
                        Piece::owned(Color::Yellow, Size::Large, Player::One),
                    ],
                )
                .expect("system is valid"),
            ],
            [SystemId::new(0), SystemId::new(1)],
            Bank::new(),
        )
        .expect("state is valid");
        let turn = TurnState::from_parts(state, Player::One, 0, None);

        Game::from_parts(turn, GameStatus::InProgress)
    }

fn duplicate_ship_game() -> Game {
        

        let state = GameState::new(
            vec![
                StarSystem::new(
                    vec![Piece::new(Color::Green, Size::Small)],
                    vec![
                        Piece::owned(Color::Green, Size::Small, Player::One),
                        Piece::owned(Color::Green, Size::Small, Player::One),
                    ],
                )
                .expect("system is valid"),
                StarSystem::new(
                    vec![
                        Piece::new(Color::Blue, Size::Medium),
                        Piece::new(Color::Yellow, Size::Large),
                    ],
                    vec![Piece::owned(Color::Blue, Size::Small, Player::Two)],
                )
                .expect("system is valid"),
            ],
            [SystemId::new(0), SystemId::new(1)],
            Bank::new(),
        )
        .expect("state is valid");

        Game::from_parts(TurnState::new(state, Player::One), GameStatus::InProgress)
    }

#[test]
fn every_legal_decision_reads_back_from_its_command_text() {
    let game = Game::default(Player::One);
    let player = game.turn().current_player();
    let decisions = legal_decisions(&game);
    assert!(!decisions.is_empty());
    for decision in decisions {
        let text = homeworlds::session::ai_decision_command(&decision);
        let parsed = homeworlds::parse_command(text.as_str(), player).expect("command reads");
        match decision {
            AiDecision::EndTurn => assert_eq!(parsed, homeworlds::ParsedCommand::End),
            AiDecision::Action(action) => assert_eq!(parsed, homeworlds::ParsedCommand::Action(action)),
        }
    }
}

#[test]
fn trade_decisions_with_blue_power_include_same_size_other_color_bank_ships() {
    let game = existing_travel_game();
    let decisions = legal_decisions(&game);

    assert_all_actions_apply(&game, &decisions);
    assert!(decisions.contains(&AiDecision::Action(Action::Trade {
        player: Player::One,
        system: SystemId::new(0),
        from: Piece::owned(Color::Green, Size::Small, Player::One),
        to: Piece::owned(Color::Red, Size::Small, Player::One),
    })));
    for decision in decisions {
        if let AiDecision::Action(Action::Trade { from, to, .. }) = decision {
            assert_eq!(from.size(), to.size());
            assert_ne!(from.color(), to.color());
        }
    }
}

#[test]
fn action_family_order_is_deterministic_on_a_board_with_every_paid_power() {
    let decisions = legal_decisions(&existing_travel_game());
    let mut families = Vec::new();
    for family in decisions.iter().filter_map(|decision| match decision {
        AiDecision::Action(action) => Some(action.kind()),
        AiDecision::EndTurn => None,
    }) {
        if families.last() != Some(&family) {
            families.push(family);
        }
    }

    assert_eq!(
        families,
        vec![ActionKind::Build, ActionKind::Travel, ActionKind::Trade, ActionKind::Sacrifice]
    );
}

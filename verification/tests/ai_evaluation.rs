use homeworlds::ai::is_immediate_non_win;
use homeworlds::evaluation::{DRAW_SCORE, LOSS_SCORE, WIN_SCORE};
use homeworlds::search::apply_decision;
use homeworlds::{
    best_decision, best_decision_at_depth, evaluate_position, legal_decisions, Action, ActionKind, AiDecision, Bank,
    Color, Evaluation, FirstLegalStrategy, Game, GameOutcome, GameState, GameStatus, HomeworldSetup, Piece, Player,
    PriorityStrategy, ScoredDecision, SearchStrategy, Size, StarSystem, Strategy, SystemId, TravelTarget, TurnState,
};

#[test]
fn terminal_statuses_have_decisive_scores() {
        let turn = Game::default(Player::One).turn().clone();
        let win = Game::from_parts(
            turn.clone(),
            GameStatus::Finished(GameOutcome::Winner(Player::One)),
        );
        let loss = Game::from_parts(
            turn.clone(),
            GameStatus::Finished(GameOutcome::Winner(Player::Two)),
        );
        let draw = Game::from_parts(turn, GameStatus::Finished(GameOutcome::Draw));
        let non_terminal = evaluate_position(&Game::default(Player::One), Player::One);

        assert_eq!(
            evaluate_position(&win, Player::One),
            Evaluation {
                total: WIN_SCORE,
                ..Evaluation::default()
            }
        );
        assert_eq!(
            evaluate_position(&loss, Player::One),
            Evaluation {
                total: LOSS_SCORE,
                ..Evaluation::default()
            }
        );
        assert_eq!(
            evaluate_position(&draw, Player::One),
            Evaluation {
                total: DRAW_SCORE,
                ..Evaluation::default()
            }
        );
        assert!(evaluate_position(&win, Player::One).total > non_terminal.total);
        assert!(evaluate_position(&loss, Player::One).total < non_terminal.total);
        assert!(evaluate_position(&draw, Player::One).total < non_terminal.total);
    }

#[test]
fn homeworld_safety_rewards_presence_and_defenders() {
        assert_eq!(
            evaluate_position(&defended_homeworld_game(), Player::One).homeworld_safety,
            170
        );
        assert_eq!(
            evaluate_position(&empty_homeworld_game(), Player::One).homeworld_safety,
            -400
        );
        assert_eq!(
            evaluate_position(&overpopulated_homeworld_game(), Player::One).homeworld_safety,
            -80
        );
    }

#[test]
fn material_scores_ship_count_and_size_against_the_opponent() {
        assert_eq!(
            evaluate_position(&material_game(), Player::One).material,
            25
        );
        assert_eq!(
            evaluate_position(&material_game(), Player::Two).material,
            -25
        );
    }

#[test]
fn color_access_scores_available_action_colors() {
        assert_eq!(
            evaluate_position(&color_access_game(), Player::One).color_access,
            12
        );
        assert_eq!(
            evaluate_position(&color_access_game(), Player::Two).color_access,
            -12
        );
    }

#[test]
fn pressure_scores_direct_invasion_threats() {
        assert_eq!(
            evaluate_position(&invasion_pressure_game(), Player::One).pressure,
            85
        );
        assert_eq!(
            evaluate_position(&invasion_pressure_game(), Player::Two).pressure,
            -85
        );
    }

#[test]
fn bank_component_tracks_useful_available_pieces() {
        assert_eq!(
            evaluate_position(&bank_access_game(Bank::new()), Player::One).bank,
            36
        );

        let empty_bank =
            Bank::from_counts([[0; Size::COUNT]; Color::COUNT]).expect("counts are valid");
        assert_eq!(
            evaluate_position(&bank_access_game(empty_bank), Player::One).bank,
            0
        );
    }

#[test]
fn evaluation_is_deterministic() {
        let game = defended_homeworld_game();

        assert_eq!(
            evaluate_position(&game, Player::One),
            evaluate_position(&game, Player::One)
        );
    }

fn defended_homeworld_game() -> Game {
        game_from_systems(
            vec![
                StarSystem::new(
                    vec![Piece::new(Color::Yellow, Size::Small)],
                    vec![
                        Piece::owned(Color::Green, Size::Small, Player::One),
                        Piece::owned(Color::Blue, Size::Medium, Player::One),
                    ],
                )
                .expect("system is valid"),
                opponent_homeworld(),
            ],
            Bank::new(),
        )
    }

fn empty_homeworld_game() -> Game {
        game_from_systems(
            vec![
                StarSystem::new(vec![Piece::new(Color::Yellow, Size::Small)], vec![])
                    .expect("system is valid"),
                opponent_homeworld(),
            ],
            Bank::new(),
        )
    }

fn overpopulated_homeworld_game() -> Game {
        game_from_systems(
            vec![
                StarSystem::new(
                    vec![Piece::new(Color::Red, Size::Small)],
                    vec![
                        Piece::owned(Color::Red, Size::Small, Player::One),
                        Piece::owned(Color::Red, Size::Medium, Player::One),
                        Piece::owned(Color::Red, Size::Large, Player::One),
                    ],
                )
                .expect("system is valid"),
                opponent_homeworld(),
            ],
            Bank::new(),
        )
    }

fn material_game() -> Game {
        game_from_systems(
            vec![
                StarSystem::new(
                    vec![Piece::new(Color::Yellow, Size::Small)],
                    vec![
                        Piece::owned(Color::Green, Size::Small, Player::One),
                        Piece::owned(Color::Blue, Size::Large, Player::One),
                    ],
                )
                .expect("system is valid"),
                StarSystem::new(
                    vec![Piece::new(Color::Blue, Size::Medium)],
                    vec![Piece::owned(Color::Red, Size::Small, Player::Two)],
                )
                .expect("system is valid"),
            ],
            Bank::new(),
        )
    }

fn color_access_game() -> Game {
        game_from_systems(
            vec![
                StarSystem::new(
                    vec![Piece::new(Color::Red, Size::Small)],
                    vec![Piece::owned(Color::Blue, Size::Medium, Player::One)],
                )
                .expect("system is valid"),
                StarSystem::new(
                    vec![Piece::new(Color::Green, Size::Large)],
                    vec![Piece::owned(Color::Green, Size::Small, Player::Two)],
                )
                .expect("system is valid"),
            ],
            Bank::new(),
        )
    }

fn invasion_pressure_game() -> Game {
        game_from_systems(
            vec![
                StarSystem::new(
                    vec![Piece::new(Color::Yellow, Size::Small)],
                    vec![Piece::owned(Color::Green, Size::Small, Player::One)],
                )
                .expect("system is valid"),
                StarSystem::new(
                    vec![Piece::new(Color::Red, Size::Large)],
                    vec![
                        Piece::owned(Color::Blue, Size::Large, Player::One),
                        Piece::owned(Color::Green, Size::Medium, Player::Two),
                    ],
                )
                .expect("system is valid"),
            ],
            Bank::new(),
        )
    }

fn bank_access_game(bank: Bank) -> Game {
        game_from_systems(
            vec![
                StarSystem::new(
                    vec![Piece::new(Color::Green, Size::Small)],
                    vec![Piece::owned(Color::Red, Size::Small, Player::One)],
                )
                .expect("system is valid"),
                StarSystem::new(vec![Piece::new(Color::Blue, Size::Medium)], vec![])
                    .expect("system is valid"),
            ],
            bank,
        )
    }

fn opponent_homeworld() -> StarSystem {
        StarSystem::new(
            vec![Piece::new(Color::Blue, Size::Medium)],
            vec![Piece::owned(Color::Red, Size::Small, Player::Two)],
        )
        .expect("system is valid")
    }

fn game_from_systems(systems: Vec<StarSystem>, bank: Bank) -> Game {
        let state = GameState::new(systems, [SystemId::new(0), SystemId::new(1)], bank)
            .expect("state is valid");

        Game::from_parts(TurnState::new(state, Player::One), GameStatus::InProgress)
    }

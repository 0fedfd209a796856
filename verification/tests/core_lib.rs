use homeworlds::{Bank, BankError, Color, GameState, GameStateError, Piece, Player, Size, StarSystem, StarSystemError, SystemId};

#[test]
fn lib_colors_are_the_four_homeworlds_colors() {
        assert_eq!(
            Color::ALL,
            [Color::Red, Color::Yellow, Color::Green, Color::Blue]
        );
    }

#[test]
fn lib_sizes_are_the_three_piece_sizes() {
        assert_eq!(Size::ALL, [Size::Small, Size::Medium, Size::Large]);
    }

#[test]
fn lib_players_are_the_two_supported_seats() {
        assert_eq!(Player::ALL, [Player::One, Player::Two]);
    }

#[test]
fn lib_system_id_preserves_its_index() {
        let id = SystemId::new(3);

        assert_eq!(id.index(), 3);
    }

#[test]
fn lib_piece_can_be_constructed_without_an_owner() {
        let piece = Piece::new(Color::Blue, Size::Large);

        assert_eq!(piece.color(), Color::Blue);
        assert_eq!(piece.size(), Size::Large);
        assert_eq!(piece.owner(), None);
        assert!(!piece.is_owned());
    }

#[test]
fn lib_piece_can_be_constructed_with_a_player_owner() {
        let piece = Piece::owned(Color::Green, Size::Small, Player::Two);

        assert_eq!(piece.color(), Color::Green);
        assert_eq!(piece.size(), Size::Small);
        assert_eq!(piece.owner(), Some(Player::Two));
        assert!(piece.is_owned());
        assert!(piece.is_owned_by(Player::Two));
        assert!(!piece.is_owned_by(Player::One));
    }

#[test]
fn lib_piece_owner_can_be_changed_without_changing_identity() {
        let piece = Piece::new(Color::Red, Size::Medium).with_owner(Player::One);

        assert_eq!(piece.color(), Color::Red);
        assert_eq!(piece.size(), Size::Medium);
        assert_eq!(piece.owner(), Some(Player::One));
    }

#[test]
fn lib_bank_starts_with_player_count_plus_one_copies_of_every_piece() {
        let bank = Bank::new();

        assert_eq!(Bank::copies_per_piece(), 3);

        for color in Color::ALL {
            for size in Size::ALL {
                assert_eq!(bank.count(color, size), Bank::copies_per_piece());
            }
        }
    }

#[test]
fn lib_drawing_a_piece_returns_it_unowned_and_reduces_its_count() {
        let mut bank = Bank::new();

        let piece = bank.draw(Color::Yellow, Size::Small).expect("piece exists");

        assert_eq!(piece, Piece::new(Color::Yellow, Size::Small));
        assert_eq!(
            bank.count(Color::Yellow, Size::Small),
            Bank::copies_per_piece() - 1
        );
    }

#[test]
fn lib_drawing_more_than_available_returns_an_error() {
        let mut bank = Bank::new();

        for _ in 0..Bank::copies_per_piece() {
            bank.draw(Color::Red, Size::Large).expect("piece exists");
        }

        assert_eq!(
            bank.draw(Color::Red, Size::Large),
            Err(BankError::PieceUnavailable)
        );
        assert_eq!(bank.count(Color::Red, Size::Large), 0);
    }

#[test]
fn lib_returning_an_unowned_piece_increases_its_count() {
        let mut bank = Bank::new();
        let piece = bank.draw(Color::Green, Size::Medium).expect("piece exists");

        bank.return_piece(piece).expect("unowned piece can return");

        assert_eq!(
            bank.count(Color::Green, Size::Medium),
            Bank::copies_per_piece()
        );
    }

#[test]
fn lib_returning_an_owned_piece_is_rejected_without_changing_counts() {
        let mut bank = Bank::new();
        let piece = Piece::owned(Color::Blue, Size::Large, Player::One);

        assert_eq!(bank.return_piece(piece), Err(BankError::OwnedPiece));
        assert_eq!(
            bank.count(Color::Blue, Size::Large),
            Bank::copies_per_piece()
        );
    }

#[test]
fn lib_star_system_can_be_constructed_with_one_star_and_one_ship() {
        let star = Piece::new(Color::Yellow, Size::Medium);
        let ship = Piece::owned(Color::Blue, Size::Small, Player::One);

        let system = StarSystem::new(vec![star], vec![ship]).expect("system is valid");

        assert_eq!(system.stars(), &[star]);
        assert_eq!(system.ships(), &[ship]);
    }

#[test]
fn lib_star_system_can_be_constructed_with_two_stars() {
        let stars = vec![
            Piece::new(Color::Yellow, Size::Medium),
            Piece::new(Color::Blue, Size::Large),
        ];
        let ships = vec![Piece::owned(Color::Green, Size::Small, Player::One)];

        let system = StarSystem::new(stars.clone(), ships).expect("system is valid");

        assert_eq!(system.stars(), stars.as_slice());
    }

#[test]
fn lib_star_system_can_be_constructed_with_zero_stars() {
        let ships = vec![Piece::owned(Color::Green, Size::Small, Player::One)];
        let system = StarSystem::new(vec![], ships).expect("system is valid");

        assert!(system.stars().is_empty());
    }

#[test]
fn lib_star_system_rejects_more_than_two_stars() {
        let stars = vec![
            Piece::new(Color::Yellow, Size::Small),
            Piece::new(Color::Blue, Size::Medium),
            Piece::new(Color::Red, Size::Large),
        ];
        let ships = vec![Piece::owned(Color::Green, Size::Small, Player::One)];

        assert_eq!(
            StarSystem::new(stars, ships),
            Err(StarSystemError::TooManyStars)
        );
    }

#[test]
fn lib_star_system_rejects_owned_stars() {
        let stars = vec![Piece::owned(Color::Yellow, Size::Small, Player::One)];
        let ships = vec![Piece::owned(Color::Green, Size::Small, Player::One)];

        assert_eq!(
            StarSystem::new(stars, ships),
            Err(StarSystemError::OwnedStar)
        );
    }

#[test]
fn lib_star_system_rejects_unowned_ships() {
        let stars = vec![Piece::new(Color::Yellow, Size::Small)];
        let ships = vec![Piece::new(Color::Green, Size::Small)];

        assert_eq!(
            StarSystem::new(stars, ships),
            Err(StarSystemError::UnownedShip)
        );
    }

#[test]
fn lib_star_system_detects_player_presence() {
        let stars = vec![Piece::new(Color::Yellow, Size::Small)];
        let ships = vec![Piece::owned(Color::Green, Size::Small, Player::One)];
        let system = StarSystem::new(stars, ships).expect("system is valid");

        assert!(system.has_presence(Player::One));
        assert!(!system.has_presence(Player::Two));
    }

#[test]
fn lib_star_system_reports_both_players_when_both_have_ships() {
        let stars = vec![Piece::new(Color::Yellow, Size::Small)];
        let ships = vec![
            Piece::owned(Color::Green, Size::Small, Player::Two),
            Piece::owned(Color::Blue, Size::Large, Player::One),
        ];
        let system = StarSystem::new(stars, ships).expect("system is valid");

        assert_eq!(system.owners_present(), vec![Player::One, Player::Two]);
    }

#[test]
fn lib_star_system_reports_each_player_once() {
        let stars = vec![Piece::new(Color::Yellow, Size::Small)];
        let ships = vec![
            Piece::owned(Color::Green, Size::Small, Player::One),
            Piece::owned(Color::Blue, Size::Large, Player::One),
        ];
        let system = StarSystem::new(stars, ships).expect("system is valid");

        assert_eq!(system.owners_present(), vec![Player::One]);
    }

#[test]
fn lib_game_state_new_stores_systems_homeworlds_and_bank() {
        let systems = vec![
            valid_system(Player::One, Color::Yellow, Color::Green),
            valid_system(Player::Two, Color::Blue, Color::Red),
        ];
        let mut bank = Bank::new();
        bank.draw(Color::Red, Size::Small).expect("piece exists");

        let state = GameState::new(systems.clone(), [SystemId::new(0), SystemId::new(1)], bank)
            .expect("state is valid");

        assert_eq!(state.systems(), systems.as_slice());
        assert_eq!(state.homeworld(Player::One), SystemId::new(0));
        assert_eq!(state.homeworld(Player::Two), SystemId::new(1));
        assert_eq!(
            state.bank().count(Color::Red, Size::Small),
            Bank::copies_per_piece() - 1
        );
    }

#[test]
fn lib_game_state_system_returns_a_system_by_id() {
        let systems = vec![
            valid_system(Player::One, Color::Yellow, Color::Green),
            valid_system(Player::Two, Color::Blue, Color::Red),
        ];
        let state = GameState::new(
            systems.clone(),
            [SystemId::new(0), SystemId::new(1)],
            Bank::new(),
        )
        .expect("state is valid");

        assert_eq!(state.system(SystemId::new(1)), Some(&systems[1]));
    }

#[test]
fn lib_game_state_system_returns_none_for_external_ids() {
        let state = valid_game_state();

        assert_eq!(state.system(SystemId::new(2)), None);
    }

#[test]
fn lib_game_state_rejects_player_one_homeworld_outside_systems() {
        let systems = vec![valid_system(Player::One, Color::Yellow, Color::Green)];

        assert_eq!(
            GameState::new(systems, [SystemId::new(1), SystemId::new(0)], Bank::new(),),
            Err(GameStateError::HomeworldOutOfRange {
                player: Player::One,
                homeworld: SystemId::new(1),
            })
        );
    }

#[test]
fn lib_game_state_rejects_player_two_homeworld_outside_systems() {
        let systems = vec![valid_system(Player::One, Color::Yellow, Color::Green)];

        assert_eq!(
            GameState::new(systems, [SystemId::new(0), SystemId::new(1)], Bank::new(),),
            Err(GameStateError::HomeworldOutOfRange {
                player: Player::Two,
                homeworld: SystemId::new(1),
            })
        );
    }

#[test]
fn lib_game_state_rejects_duplicate_homeworlds() {
        let systems = vec![
            valid_system(Player::One, Color::Yellow, Color::Green),
            valid_system(Player::Two, Color::Blue, Color::Red),
        ];

        assert_eq!(
            GameState::new(systems, [SystemId::new(0), SystemId::new(0)], Bank::new(),),
            Err(GameStateError::DuplicateHomeworld {
                players: [Player::One, Player::Two],
                homeworld: SystemId::new(0),
            })
        );
    }

#[test]
fn lib_game_state_allows_a_homeworld_without_player_presence() {
        let systems = vec![
            valid_system(Player::Two, Color::Yellow, Color::Green),
            valid_system(Player::One, Color::Blue, Color::Red),
        ];

        let state = GameState::new(systems, [SystemId::new(0), SystemId::new(1)], Bank::new())
            .expect("state is valid");

        assert!(
            !state
                .system(state.homeworld(Player::One))
                .expect("homeworld exists")
                .has_presence(Player::One)
        );
    }

#[test]
fn lib_game_state_allows_a_homeworld_with_zero_stars() {
        let systems = vec![
            StarSystem::new(
                vec![],
                vec![Piece::owned(Color::Green, Size::Small, Player::One)],
            )
            .expect("system is valid"),
            valid_system(Player::Two, Color::Blue, Color::Red),
        ];

        let state = GameState::new(systems, [SystemId::new(0), SystemId::new(1)], Bank::new())
            .expect("state is valid");

        assert!(
            state
                .system(state.homeworld(Player::One))
                .expect("homeworld exists")
                .stars()
                .is_empty()
        );
    }

#[test]
fn lib_game_state_accessors_do_not_consume_the_state() {
        let state = valid_game_state();

        assert_eq!(state.systems().len(), 2);
        assert_eq!(
            state.bank().count(Color::Yellow, Size::Small),
            Bank::copies_per_piece()
        );
        assert_eq!(state.systems().len(), 2);
    }

fn valid_system(player: Player, star_color: Color, ship_color: Color) -> StarSystem {
        StarSystem::new(
            vec![Piece::new(star_color, Size::Small)],
            vec![Piece::owned(ship_color, Size::Small, player)],
        )
        .expect("system is valid")
    }

fn valid_game_state() -> GameState {
        GameState::new(
            vec![
                valid_system(Player::One, Color::Yellow, Color::Green),
                valid_system(Player::Two, Color::Blue, Color::Red),
            ],
            [SystemId::new(0), SystemId::new(1)],
            Bank::new(),
        )
        .expect("state is valid")
    }

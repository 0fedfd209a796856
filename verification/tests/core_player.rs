use homeworlds::{Bank, BankError, Color, GameState, GameStateError, Piece, Player, Size, StarSystem, StarSystemError, SystemId};

#[test]
fn player_players_are_the_two_supported_seats() {
        assert_eq!(Player::ALL, [Player::One, Player::Two]);
    }

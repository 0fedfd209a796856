use homeworlds::{Bank, BankError, Color, GameState, GameStateError, Piece, Player, Size, StarSystem, StarSystemError, SystemId};

#[test]
fn size_sizes_are_the_three_piece_sizes() {
        assert_eq!(Size::ALL, [Size::Small, Size::Medium, Size::Large]);
    }

#[test]
fn sizes_are_ordered_by_ship_strength() {
        assert!(Size::Small < Size::Medium);
        assert!(Size::Medium < Size::Large);
        assert!(Size::Large >= Size::Small);
    }

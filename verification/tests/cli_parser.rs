use homeworlds::{
    parse_command, parse_input, parse_setup, Action, Color, HomeworldSetup, ParsedCommand, ParsedInput, Piece, Player,
    Size, SystemId, TravelTarget,
};

#[test]
fn parses_general_commands_and_short_aliases() {
        assert_eq!(parse_command("help", Player::One), Ok(ParsedCommand::Help));
        assert_eq!(parse_command("h", Player::One), Ok(ParsedCommand::Help));
        assert_eq!(parse_command("show", Player::One), Ok(ParsedCommand::Show));
        assert_eq!(parse_command("s", Player::One), Ok(ParsedCommand::Show));
        assert_eq!(parse_command("end", Player::One), Ok(ParsedCommand::End));
        assert_eq!(parse_command("e", Player::One), Ok(ParsedCommand::End));
        assert_eq!(parse_command("quit", Player::One), Ok(ParsedCommand::Quit));
        assert_eq!(parse_command("q", Player::One), Ok(ParsedCommand::Quit));
    }

#[test]
fn parses_trailing_semicolon_as_show_shortcut() {
        assert_eq!(
            parse_input("b 0 gs;", Player::One),
            Ok(ParsedInput {
                command: ParsedCommand::Action(Action::Build {
                    player: Player::One,
                    system: SystemId::new(0),
                    ship: Piece::owned(Color::Green, Size::Small, Player::One),
                }),
                show_after: true,
            })
        );
        assert_eq!(
            parse_input("show;", Player::One),
            Ok(ParsedInput {
                command: ParsedCommand::Show,
                show_after: true,
            })
        );
        assert_eq!(
            parse_input("show", Player::One),
            Ok(ParsedInput {
                command: ParsedCommand::Show,
                show_after: false,
            })
        );
        assert_eq!(
            parse_input("t 0 ys x 1;", Player::One),
            Ok(ParsedInput {
                command: ParsedCommand::Action(Action::Travel {
                    player: Player::One,
                    from: SystemId::new(0),
                    ship: Piece::owned(Color::Yellow, Size::Small, Player::One),
                    target: TravelTarget::Existing(SystemId::new(1)),
                }),
                show_after: true,
            })
        );
    }

#[test]
fn rejects_semicolons_that_do_not_finish_the_command() {
        assert!(parse_input("show; show", Player::One).is_err());
        assert!(parse_input("show;;", Player::One).is_err());
    }

#[test]
fn parses_build_with_verbose_and_compact_pieces() {
        assert_eq!(
            parse_command("build 0 green small", Player::One),
            Ok(ParsedCommand::Action(Action::Build {
                player: Player::One,
                system: SystemId::new(0),
                ship: Piece::owned(Color::Green, Size::Small, Player::One),
            }))
        );
        assert_eq!(
            parse_command("b 0 gs", Player::Two),
            Ok(ParsedCommand::Action(Action::Build {
                player: Player::Two,
                system: SystemId::new(0),
                ship: Piece::owned(Color::Green, Size::Small, Player::Two),
            }))
        );
    }

#[test]
fn parses_travel_with_existing_and_new_targets() {
        assert_eq!(
            parse_command("travel 0 yellow small existing 1", Player::One),
            Ok(ParsedCommand::Action(Action::Travel {
                player: Player::One,
                from: SystemId::new(0),
                ship: Piece::owned(Color::Yellow, Size::Small, Player::One),
                target: TravelTarget::Existing(SystemId::new(1)),
            }))
        );
        assert_eq!(
            parse_command("t 0 ys x 1", Player::One),
            Ok(ParsedCommand::Action(Action::Travel {
                player: Player::One,
                from: SystemId::new(0),
                ship: Piece::owned(Color::Yellow, Size::Small, Player::One),
                target: TravelTarget::Existing(SystemId::new(1)),
            }))
        );
        assert_eq!(
            parse_command("t 0 ys n rm bl", Player::Two),
            Ok(ParsedCommand::Action(Action::Travel {
                player: Player::Two,
                from: SystemId::new(0),
                ship: Piece::owned(Color::Yellow, Size::Small, Player::Two),
                target: TravelTarget::New {
                    stars: vec![
                        Piece::new(Color::Red, Size::Medium),
                        Piece::new(Color::Blue, Size::Large),
                    ],
                },
            }))
        );
    }

#[test]
fn parses_trade_with_exchange_alias() {
        assert_eq!(
            parse_command("x 0 bs rs", Player::One),
            Ok(ParsedCommand::Action(Action::Trade {
                player: Player::One,
                system: SystemId::new(0),
                from: Piece::owned(Color::Blue, Size::Small, Player::One),
                to: Piece::owned(Color::Red, Size::Small, Player::One),
            }))
        );
    }

#[test]
fn parses_s_as_show_or_sacrifice_by_context() {
        assert_eq!(parse_command("s", Player::One), Ok(ParsedCommand::Show));
        assert_eq!(
            parse_command("s 0 gm", Player::One),
            Ok(ParsedCommand::Action(Action::Sacrifice {
                player: Player::One,
                system: SystemId::new(0),
                ship: Piece::owned(Color::Green, Size::Medium, Player::One),
            }))
        );
    }

#[test]
fn parses_invade_with_opponent_owned_target() {
        assert_eq!(
            parse_command("i 1 gs", Player::One),
            Ok(ParsedCommand::Action(Action::Invade {
                player: Player::One,
                system: SystemId::new(1),
                target: Piece::owned(Color::Green, Size::Small, Player::Two),
            }))
        );
    }

#[test]
fn parses_catastrophe_with_short_color() {
        assert_eq!(
            parse_command("c 1 r", Player::One),
            Ok(ParsedCommand::Action(Action::Catastrophe {
                system: SystemId::new(1),
                color: Color::Red,
            }))
        );
    }

#[test]
fn parses_setup_lines() {
        assert_eq!(
            parse_setup("ys bl", "gm", Player::One),
            Ok(HomeworldSetup::new(
                vec![
                    Piece::new(Color::Yellow, Size::Small),
                    Piece::new(Color::Blue, Size::Large),
                ],
                Piece::owned(Color::Green, Size::Medium, Player::One),
            ))
        );
    }

#[test]
fn rejects_invalid_commands() {
        assert!(parse_command("", Player::One).is_err());
        assert!(parse_command("b 0", Player::One).is_err());
        assert!(parse_command("t 0 ys maybe 1", Player::One).is_err());
        assert!(parse_command("catastrophe 0 purple", Player::One).is_err());
        assert!(parse_setup("ys bl rm", "gm", Player::One).is_err());
    }

#[test]
fn setup_needs_exactly_two_stars_and_one_ship() {
    assert_eq!(
        parse_setup("ys", "gm", Player::One).map_err(|error| error.message().to_owned()),
        Err("homeworld setup needs exactly two stars".to_owned())
    );
    assert_eq!(
        parse_setup("ys bl", "gm rs", Player::Two).map_err(|error| error.message().to_owned()),
        Err("homeworld setup needs exactly one ship".to_owned())
    );
}

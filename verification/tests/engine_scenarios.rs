use homeworlds::{
    apply_action, Action, ActionKind, Bank, Color, Game, GameError, GameOutcome, GameState, GameStatus,
    HomeworldSetup, Piece, Player, Size, StarSystem, SystemId, TravelTarget, TurnError, TurnState,
};


const P1_HOME: SystemId = SystemId(0);
const P2_HOME: SystemId = SystemId(1);

fn piece(color: Color, size: Size) -> Piece {
    Piece::new(color, size)
}

fn ship(player: Player, color: Color, size: Size) -> Piece {
    Piece::owned(color, size, player)
}

fn setup(stars: Vec<Piece>, ship: Piece) -> HomeworldSetup {
    HomeworldSetup::new(stars, ship)
}

fn system(stars: Vec<Piece>, ships: Vec<Piece>) -> StarSystem {
    StarSystem::new(stars, ships).expect("system is valid")
}

fn state(systems: Vec<StarSystem>, homeworlds: [SystemId; 2]) -> GameState {
    GameState::new(systems, homeworlds, Bank::new()).expect("state is valid")
}

fn simple_game(starting_player: Player) -> Game {
    Game::new(
        [
            setup(
                vec![
                    piece(Color::Red, Size::Medium),
                    piece(Color::Red, Size::Medium),
                ],
                ship(Player::One, Color::Green, Size::Small),
            ),
            setup(
                vec![
                    piece(Color::Blue, Size::Large),
                    piece(Color::Blue, Size::Large),
                ],
                ship(Player::Two, Color::Green, Size::Small),
            ),
        ],
        starting_player,
    )
    .expect("game initializes")
}

fn build(player: Player, system: SystemId, color: Color, size: Size) -> Action {
    Action::Build {
        player,
        system,
        ship: ship(player, color, size),
    }
}

fn travel_existing(player: Player, from: SystemId, ship: Piece, to: SystemId) -> Action {
    Action::Travel {
        player,
        from,
        ship,
        target: TravelTarget::Existing(to),
    }
}

#[allow(dead_code)]
fn travel_new(player: Player, from: SystemId, ship: Piece, stars: Vec<Piece>) -> Action {
    Action::Travel {
        player,
        from,
        ship,
        target: TravelTarget::New { stars },
    }
}

fn trade(player: Player, system: SystemId, from: Piece, to: Piece) -> Action {
    Action::Trade {
        player,
        system,
        from,
        to,
    }
}

fn invade(player: Player, system: SystemId, target: Piece) -> Action {
    Action::Invade {
        player,
        system,
        target,
    }
}

fn sacrifice(player: Player, system: SystemId, ship: Piece) -> Action {
    Action::Sacrifice {
        player,
        system,
        ship,
    }
}

fn catastrophe(system: SystemId, color: Color) -> Action {
    Action::Catastrophe { system, color }
}

fn count_ship(state: &GameState, system_id: SystemId, ship: Piece) -> usize {
    state
        .system(system_id)
        .expect("system exists")
        .ships()
        .iter()
        .filter(|candidate| **candidate == ship)
        .count()
}

fn apply_and_end(game: &Game, action: &Action) -> Game {
    game.apply_action(action)
        .expect("action applies")
        .end_turn()
        .expect("turn ends")
}


#[test]
fn catastrophe_purges_starless_homeworld_and_returns_remaining_ships() {
    let remaining_ship = ship(Player::One, Color::Blue, Size::Small);
    let state = state(
        vec![
            system(
                vec![
                    piece(Color::Red, Size::Small),
                    piece(Color::Red, Size::Medium),
                ],
                vec![
                    ship(Player::One, Color::Red, Size::Small),
                    ship(Player::Two, Color::Red, Size::Large),
                    remaining_ship,
                ],
            ),
            system(
                vec![piece(Color::Blue, Size::Large)],
                vec![ship(Player::Two, Color::Green, Size::Small)],
            ),
        ],
        [P1_HOME, P2_HOME],
    );

    let next = apply_action(&state, &catastrophe(P1_HOME, Color::Red)).expect("action applies");
    let homeworld = next.system(P1_HOME).expect("homeworld remains");

    assert_eq!(next.systems().len(), 2);
    assert!(homeworld.stars().is_empty());
    assert!(homeworld.ships().is_empty());
    assert_eq!(
        next.bank().count(Color::Blue, Size::Small),
        Bank::copies_per_piece() + 1
    );
    assert_eq!(
        next.bank().count(Color::Red, Size::Small),
        Bank::copies_per_piece() + 2
    );
    assert_eq!(
        next.bank().count(Color::Red, Size::Medium),
        Bank::copies_per_piece() + 1
    );
    assert_eq!(
        next.bank().count(Color::Red, Size::Large),
        Bank::copies_per_piece() + 1
    );
}

#[test]
fn catastrophe_prunes_starless_non_homeworlds_and_remaps_homeworld_ids() {
    let state = state(
        vec![
            system(
                vec![piece(Color::Yellow, Size::Small)],
                vec![ship(Player::One, Color::Green, Size::Small)],
            ),
            system(
                vec![
                    piece(Color::Red, Size::Small),
                    piece(Color::Red, Size::Medium),
                ],
                vec![
                    ship(Player::One, Color::Red, Size::Small),
                    ship(Player::Two, Color::Red, Size::Large),
                    ship(Player::One, Color::Blue, Size::Small),
                ],
            ),
            system(
                vec![piece(Color::Blue, Size::Large)],
                vec![ship(Player::Two, Color::Green, Size::Small)],
            ),
        ],
        [SystemId::new(0), SystemId::new(2)],
    );

    let next =
        apply_action(&state, &catastrophe(SystemId::new(1), Color::Red)).expect("action applies");

    assert_eq!(next.systems().len(), 2);
    assert_eq!(next.homeworld(Player::One), SystemId::new(0));
    assert_eq!(next.homeworld(Player::Two), SystemId::new(1));
    assert_eq!(
        next.bank().count(Color::Blue, Size::Small),
        Bank::copies_per_piece() + 1
    );
}

#[test]
fn sacrifice_turn_rejects_wrong_action_kind_but_still_allows_free_catastrophe() {
    let turn = TurnState::new(state_with_blue_sacrifice_and_catastrophe(), Player::One);

    let after_sacrifice = turn
        .apply_action(&sacrifice(
            Player::One,
            P1_HOME,
            ship(Player::One, Color::Blue, Size::Medium),
        ))
        .expect("sacrifice applies");

    assert_eq!(after_sacrifice.remaining_actions(), 2);
    assert_eq!(
        after_sacrifice.apply_action(&build(Player::One, P1_HOME, Color::Green, Size::Small,)),
        Err(TurnError::WrongSacrificeActionKind {
            expected: ActionKind::Trade,
            actual: ActionKind::Build,
        })
    );

    let after_catastrophe = after_sacrifice
        .apply_action(&catastrophe(P1_HOME, Color::Red))
        .expect("catastrophe applies");

    assert_eq!(after_catastrophe.remaining_actions(), 2);

    let after_trade = after_catastrophe
        .apply_action(&trade(
            Player::One,
            P1_HOME,
            ship(Player::One, Color::Blue, Size::Small),
            ship(Player::One, Color::Green, Size::Small),
        ))
        .expect("trade applies");

    assert_eq!(after_trade.remaining_actions(), 1);
}

fn state_with_blue_sacrifice_and_catastrophe() -> GameState {
    state(
        vec![
            system(
                vec![
                    piece(Color::Red, Size::Small),
                    piece(Color::Green, Size::Medium),
                ],
                vec![
                    ship(Player::One, Color::Blue, Size::Medium),
                    ship(Player::One, Color::Blue, Size::Small),
                    ship(Player::One, Color::Red, Size::Small),
                    ship(Player::Two, Color::Red, Size::Medium),
                    ship(Player::Two, Color::Red, Size::Large),
                ],
            ),
            system(
                vec![piece(Color::Blue, Size::Large)],
                vec![ship(Player::Two, Color::Green, Size::Small)],
            ),
        ],
        [P1_HOME, P2_HOME],
    )
}


#[test]
fn normal_paid_action_consumes_budget_and_end_turn_switches_player() {
    let game = simple_game(Player::One);
    let built_ship = ship(Player::One, Color::Green, Size::Small);

    let after_action = game
        .apply_action(&build(Player::One, P1_HOME, Color::Green, Size::Small))
        .expect("build applies");

    assert_eq!(after_action.status(), GameStatus::InProgress);
    assert_eq!(after_action.turn().current_player(), Player::One);
    assert_eq!(after_action.turn().remaining_actions(), 0);
    assert_eq!(
        count_ship(after_action.turn().state(), P1_HOME, built_ship),
        2
    );

    let after_turn = after_action.end_turn().expect("turn ends");

    assert_eq!(after_turn.status(), GameStatus::InProgress);
    assert_eq!(after_turn.turn().current_player(), Player::Two);
    assert_eq!(after_turn.turn().remaining_actions(), 1);
}

#[test]
fn player_cannot_act_out_of_turn() {
    let game = simple_game(Player::One);

    assert_eq!(
        game.apply_action(&build(Player::Two, P2_HOME, Color::Green, Size::Small,)),
        Err(GameError::Turn(TurnError::WrongPlayer {
            expected: Player::One,
            actual: Player::Two,
        }))
    );
}

#[test]
fn catastrophe_costs_zero_actions_and_does_not_block_turn_end() {
    let turn = TurnState::new(state_with_red_catastrophe(), Player::One);

    let after_catastrophe = turn
        .apply_action(&catastrophe(P1_HOME, Color::Red))
        .expect("catastrophe applies");

    assert_eq!(after_catastrophe.current_player(), Player::One);
    assert_eq!(after_catastrophe.remaining_actions(), 1);
    assert_eq!(
        count_ship(
            after_catastrophe.state(),
            P1_HOME,
            ship(Player::One, Color::Green, Size::Small),
        ),
        1
    );

    let after_action = after_catastrophe
        .apply_action(&build(Player::One, P1_HOME, Color::Green, Size::Small))
        .expect("build applies");
    let after_turn = after_action.end_turn().expect("turn ends");

    assert_eq!(after_turn.current_player(), Player::Two);
    assert_eq!(after_turn.remaining_actions(), 1);
}

#[test]
fn sacrifice_turn_grants_size_based_same_color_actions_then_resets() {
    let turn = TurnState::new(state_with_green_sacrifice_fleet(), Player::One);

    let after_sacrifice = turn
        .apply_action(&sacrifice(
            Player::One,
            P1_HOME,
            ship(Player::One, Color::Green, Size::Medium),
        ))
        .expect("sacrifice applies");

    assert_eq!(after_sacrifice.remaining_actions(), 2);

    let after_first_build = after_sacrifice
        .apply_action(&build(Player::One, P1_HOME, Color::Yellow, Size::Small))
        .expect("first build applies");
    let after_second_build = after_first_build
        .apply_action(&build(Player::One, P1_HOME, Color::Blue, Size::Small))
        .expect("second build applies");

    assert_eq!(after_second_build.remaining_actions(), 0);

    let next_turn = after_second_build.end_turn().expect("turn ends");

    assert_eq!(next_turn.current_player(), Player::Two);
    assert_eq!(next_turn.remaining_actions(), 1);

    let after_player_two_build = next_turn
        .apply_action(&build(Player::Two, P2_HOME, Color::Green, Size::Small))
        .expect("next player's unrestricted action applies");

    assert_eq!(after_player_two_build.remaining_actions(), 0);
}

fn state_with_red_catastrophe() -> GameState {
    state(
        vec![
            system(
                vec![
                    piece(Color::Red, Size::Small),
                    piece(Color::Blue, Size::Medium),
                ],
                vec![
                    ship(Player::One, Color::Green, Size::Small),
                    ship(Player::One, Color::Red, Size::Small),
                    ship(Player::Two, Color::Red, Size::Medium),
                    ship(Player::Two, Color::Red, Size::Large),
                ],
            ),
            system(
                vec![piece(Color::Yellow, Size::Large)],
                vec![ship(Player::Two, Color::Green, Size::Small)],
            ),
        ],
        [P1_HOME, P2_HOME],
    )
}

fn state_with_green_sacrifice_fleet() -> GameState {
    state(
        vec![
            system(
                vec![piece(Color::Yellow, Size::Small)],
                vec![
                    ship(Player::One, Color::Green, Size::Medium),
                    ship(Player::One, Color::Green, Size::Small),
                ],
            ),
            system(
                vec![piece(Color::Blue, Size::Large)],
                vec![ship(Player::Two, Color::Green, Size::Small)],
            ),
        ],
        [SystemId::new(0), SystemId::new(1)],
    )
}


#[test]
fn sample_game_uses_build_travel_trade_and_invade() {
    let mut game = simple_game(Player::One);

    game = apply_and_end(
        &game,
        &build(Player::One, P1_HOME, Color::Yellow, Size::Small),
    );
    game = apply_and_end(&game, &build(Player::Two, P2_HOME, Color::Red, Size::Small));
    game = apply_and_end(
        &game,
        &build(Player::One, P1_HOME, Color::Blue, Size::Small),
    );
    game = apply_and_end(
        &game,
        &build(Player::Two, P2_HOME, Color::Yellow, Size::Small),
    );

    game = apply_and_end(
        &game,
        &trade(
            Player::One,
            P1_HOME,
            ship(Player::One, Color::Blue, Size::Small),
            ship(Player::One, Color::Red, Size::Small),
        ),
    );
    game = apply_and_end(
        &game,
        &build(Player::Two, P2_HOME, Color::Blue, Size::Small),
    );

    let traveler = ship(Player::One, Color::Yellow, Size::Small);
    game = apply_and_end(
        &game,
        &travel_existing(Player::One, P1_HOME, traveler, P2_HOME),
    );

    assert_eq!(count_ship(game.turn().state(), P1_HOME, traveler), 0);
    assert_eq!(count_ship(game.turn().state(), P2_HOME, traveler), 1);

    let after_invade = game
        .apply_action(&invade(Player::Two, P2_HOME, traveler))
        .expect("invade applies");

    assert_eq!(after_invade.status(), GameStatus::InProgress);
    assert_eq!(
        count_ship(
            after_invade.turn().state(),
            P2_HOME,
            ship(Player::Two, Color::Yellow, Size::Small),
        ),
        2
    );
    assert_eq!(
        count_ship(after_invade.turn().state(), P2_HOME, traveler),
        0
    );
}

#[test]
fn short_game_ends_when_a_catastrophe_purges_a_homeworld() {
    let finished = game_won_by_player_one();

    assert_eq!(
        finished.status(),
        GameStatus::Finished(GameOutcome::Winner(Player::One))
    );
}

#[test]
fn terminal_sample_game_rejects_more_actions_and_turn_ending() {
    let finished = game_won_by_player_one();
    let outcome = GameOutcome::Winner(Player::One);

    assert_eq!(
        finished.apply_action(&build(Player::Two, P2_HOME, Color::Green, Size::Small,)),
        Err(GameError::Terminal { outcome })
    );
    assert_eq!(finished.end_turn(), Err(GameError::Terminal { outcome }));
}

fn game_won_by_player_one() -> Game {
    let mut game = catastrophe_win_game();

    game = apply_and_end(
        &game,
        &build(Player::One, P1_HOME, Color::Yellow, Size::Small),
    );
    game = apply_and_end(&game, &build(Player::Two, P2_HOME, Color::Red, Size::Small));
    game = apply_and_end(
        &game,
        &build(Player::One, P1_HOME, Color::Blue, Size::Small),
    );
    game = apply_and_end(&game, &build(Player::Two, P2_HOME, Color::Red, Size::Small));

    game.apply_action(&catastrophe(P2_HOME, Color::Red))
        .expect("catastrophe applies")
        .apply_action(&build(Player::One, P1_HOME, Color::Green, Size::Small))
        .expect("build applies")
        .end_turn()
        .expect("turn ends")
}

fn catastrophe_win_game() -> Game {
    Game::new(
        [
            setup(
                vec![piece(Color::Yellow, Size::Large)],
                ship(Player::One, Color::Green, Size::Small),
            ),
            setup(
                vec![
                    piece(Color::Red, Size::Small),
                    piece(Color::Red, Size::Medium),
                ],
                ship(Player::Two, Color::Green, Size::Small),
            ),
        ],
        Player::One,
    )
    .expect("game initializes")
}

use vstd::prelude::*;

use crate::bank::Bank;
use crate::count::kind_count;
use crate::game::{Game, GameOutcome, GameStatus, GameView};
use crate::game_state::{board_count, GameState, StateView};
use crate::piece::{Color, Piece, Player, Size, SystemId};
use crate::star_system::{has_ship_of, StarSystem, SystemView};
use crate::validation::{can_capture, color_total, count_color, has_power, system_can_capture, system_has_power};

verus! {

/// The score of a game won by the evaluated player.
pub const WIN_SCORE: i32 = 1_000_000;

/// The score of a game lost by the evaluated player.
pub const LOSS_SCORE: i32 = -1_000_000;

/// The score of a drawn game.
pub const DRAW_SCORE: i32 = -500_000;

/// A position's score for one player, with the parts it sums.
#[derive(Clone, Copy, Debug, Default, PartialEq, Eq)]
pub struct Evaluation {
    pub total: i32,
    pub homeworld_safety: i32,
    pub material: i32,
    pub color_access: i32,
    pub pressure: i32,
    pub bank: i32,
}

/// How many pieces of the sequence there are, counted kind by kind.
pub open spec fn kinds_sum(pieces: Seq<Piece>) -> nat {
    kind_count(pieces, Color::Red, Size::Small) + kind_count(pieces, Color::Red, Size::Medium)
        + kind_count(pieces, Color::Red, Size::Large) + kind_count(pieces, Color::Yellow, Size::Small)
        + kind_count(pieces, Color::Yellow, Size::Medium) + kind_count(pieces, Color::Yellow, Size::Large)
        + kind_count(pieces, Color::Green, Size::Small) + kind_count(pieces, Color::Green, Size::Medium)
        + kind_count(pieces, Color::Green, Size::Large) + kind_count(pieces, Color::Blue, Size::Small)
        + kind_count(pieces, Color::Blue, Size::Medium) + kind_count(pieces, Color::Blue, Size::Large)
}

/// How many pieces of the board there are, counted kind by kind.
pub open spec fn board_kinds_sum(systems: Seq<SystemView>) -> nat {
    board_count(systems, Color::Red, Size::Small) + board_count(systems, Color::Red, Size::Medium)
        + board_count(systems, Color::Red, Size::Large) + board_count(systems, Color::Yellow, Size::Small)
        + board_count(systems, Color::Yellow, Size::Medium) + board_count(systems, Color::Yellow, Size::Large)
        + board_count(systems, Color::Green, Size::Small) + board_count(systems, Color::Green, Size::Medium)
        + board_count(systems, Color::Green, Size::Large) + board_count(systems, Color::Blue, Size::Small)
        + board_count(systems, Color::Blue, Size::Medium) + board_count(systems, Color::Blue, Size::Large)
}

/// How many ships the systems hold together.
pub open spec fn fleet_size(systems: Seq<SystemView>) -> nat
    decreases systems.len(),
{
    if systems.len() == 0 {
        0
    } else {
        fleet_size(systems.drop_last()) + systems.last().ships.len()
    }
}

proof fn lemma_len_is_kinds_sum(pieces: Seq<Piece>)
    ensures
        pieces.len() == kinds_sum(pieces),
    decreases pieces.len(),
{
    if pieces.len() > 0 {
        lemma_len_is_kinds_sum(pieces.drop_last());
    }
}

proof fn lemma_fleet_within_board(systems: Seq<SystemView>)
    ensures
        fleet_size(systems) <= board_kinds_sum(systems),
    decreases systems.len(),
{
    if systems.len() > 0 {
        lemma_fleet_within_board(systems.drop_last());
        lemma_len_is_kinds_sum(systems.last().ships);
    }
}

proof fn lemma_fleet_take_step(systems: Seq<SystemView>, i: int)
    requires
        0 <= i < systems.len(),
    ensures
        fleet_size(systems.take(i + 1)) == fleet_size(systems.take(i)) + systems[i].ships.len(),
{
    assert(systems.take(i + 1).drop_last() =~= systems.take(i));
}

proof fn lemma_fleet_take_le(systems: Seq<SystemView>, i: int)
    requires
        0 <= i <= systems.len(),
    ensures
        fleet_size(systems.take(i)) <= fleet_size(systems),
    decreases systems.len() - i,
{
    if i < systems.len() {
        lemma_fleet_take_le(systems, i + 1);
        lemma_fleet_take_step(systems, i);
    } else {
        assert(systems.take(i) =~= systems);
    }
}

proof fn lemma_fleet_element(systems: Seq<SystemView>, i: int)
    requires
        0 <= i < systems.len(),
    ensures
        systems[i].ships.len() <= fleet_size(systems),
{
    lemma_fleet_take_step(systems, i);
    lemma_fleet_take_le(systems, i + 1);
}

/// A state whose piece totals fit bank counts has at most 3060 ships.
proof fn lemma_fleet_bound(s: StateView)
    requires
        s.totals_fit(),
    ensures
        fleet_size(s.systems) <= 3060,
{
    lemma_fleet_within_board(s.systems);
    assert(s.piece_total(Color::Red, Size::Small) <= 255);
    assert(s.piece_total(Color::Red, Size::Medium) <= 255);
    assert(s.piece_total(Color::Red, Size::Large) <= 255);
    assert(s.piece_total(Color::Yellow, Size::Small) <= 255);
    assert(s.piece_total(Color::Yellow, Size::Medium) <= 255);
    assert(s.piece_total(Color::Yellow, Size::Large) <= 255);
    assert(s.piece_total(Color::Green, Size::Small) <= 255);
    assert(s.piece_total(Color::Green, Size::Medium) <= 255);
    assert(s.piece_total(Color::Green, Size::Large) <= 255);
    assert(s.piece_total(Color::Blue, Size::Small) <= 255);
    assert(s.piece_total(Color::Blue, Size::Medium) <= 255);
    assert(s.piece_total(Color::Blue, Size::Large) <= 255);
}

/// The weight of a ship size: small 1, medium 2, large 3.
pub open spec fn spec_size_value(size: Size) -> int {
    match size {
        Size::Small => 1,
        Size::Medium => 2,
        Size::Large => 3,
    }
}

fn size_value(size: Size) -> (v: i32)
    ensures
        v == spec_size_value(size),
{
    match size {
        Size::Small => 1,
        Size::Medium => 2,
        Size::Large => 3,
    }
}

/// What one ship at the evaluated player's homeworld adds to its safety: a
/// defender adds, an attacker subtracts more.
pub open spec fn ship_safety(ship: Piece, player: Player) -> int {
    if ship.owner == Some(player) {
        20 + 10 * spec_size_value(ship.size)
    } else if ship.owner == Some(player.spec_other()) {
        -(60 + 20 * spec_size_value(ship.size))
    } else {
        0
    }
}

/// The safety that the ships at the homeworld add together.
pub open spec fn ships_safety(ships: Seq<Piece>, player: Player) -> int
    decreases ships.len(),
{
    if ships.len() == 0 {
        0
    } else {
        ships_safety(ships.drop_last(), player) + ship_safety(ships.last(), player)
    }
}

/// The penalty for holding this many pieces of one color at the homeworld,
/// which a catastrophe of that color threatens.
pub open spec fn crowding_penalty(n: nat) -> int {
    if n <= 2 {
        0
    } else if n == 3 {
        -60
    } else {
        -300
    }
}

/// The safety of the player's homeworld: whether the player still has a ship
/// there, the defenders and attackers there, and crowding of any one color.
pub open spec fn homeworld_safety(s: StateView, player: Player) -> int {
    if !s.has_system(s.homeworld(player)) {
        -500
    } else {
        let home = s.system_at(s.homeworld(player));
        (if has_ship_of(home.ships, player) { 100int } else { -400int }) + ships_safety(home.ships, player)
            + crowding_penalty(color_total(home, Color::Red)) + crowding_penalty(color_total(home, Color::Yellow))
            + crowding_penalty(color_total(home, Color::Green)) + crowding_penalty(color_total(home, Color::Blue))
    }
}

fn crowding(system: &StarSystem, color: Color) -> (penalty: i32)
    ensures
        penalty == crowding_penalty(color_total(system@, color)),
{
    let n = count_color(system.stars(), color);
    let m = count_color(system.ships(), color);
    if n <= 2 && m <= 2 - n {
        0
    } else if n <= 3 && m == 3 - n {
        -60
    } else {
        -300
    }
}

fn homeworld_safety_score(state: &GameState, player: Player) -> (score: i32)
    requires
        state@.totals_fit(),
    ensures
        score == homeworld_safety(state@, player),
        -370_000 <= score <= 370_000,
{
    let homeworld = match state.system(state.homeworld(player)) {
        Some(system) => system,
        None => {
            return -500;
        },
    };
    let ghost s = state@;
    proof {
        lemma_fleet_bound(s);
        lemma_fleet_element(s.systems, s.homeworld(player).0 as int);
    }
    let mut score: i32 = if homeworld.has_presence(player) {
        100
    } else {
        -400
    };
    let ghost base = score as int;
    let ships = homeworld.ships();
    let mut j: usize = 0;
    while j < ships.len()
        invariant
            ships@ == homeworld@.ships,
            ships@.len() <= 3060,
            0 <= j <= ships@.len(),
            -400 <= base <= 100,
            score == base + ships_safety(ships@.take(j as int), player),
            base - 120 * j <= score <= base + 120 * j,
        decreases ships@.len() - j,
    {
        let ship = ships[j];
        proof {
            assert(ships@.take(j + 1).drop_last() =~= ships@.take(j as int));
        }
        if ship.is_owned_by(player) {
            score = score + 20 + 10 * size_value(ship.size());
        } else if ship.is_owned_by(player.other()) {
            score = score - (60 + 20 * size_value(ship.size()));
        }
        j += 1;
    }
    proof {
        assert(ships@.take(ships@.len() as int) =~= ships@);
    }
    score = score + crowding(homeworld, Color::Red);
    score = score + crowding(homeworld, Color::Yellow);
    score = score + crowding(homeworld, Color::Green);
    score = score + crowding(homeworld, Color::Blue);
    score
}

/// What one ship is worth to the player: its own ships count for, the
/// opponent's against, larger ones more.
pub open spec fn ship_material(ship: Piece, player: Player) -> int {
    if ship.owner == Some(player) {
        10 + 5 * spec_size_value(ship.size)
    } else if ship.owner == Some(player.spec_other()) {
        -(10 + 5 * spec_size_value(ship.size))
    } else {
        0
    }
}

/// The material of a list of ships.
pub open spec fn ships_material(ships: Seq<Piece>, player: Player) -> int
    decreases ships.len(),
{
    if ships.len() == 0 {
        0
    } else {
        ships_material(ships.drop_last(), player) + ship_material(ships.last(), player)
    }
}

/// The material of every ship on the board.
pub open spec fn board_material(systems: Seq<SystemView>, player: Player) -> int
    decreases systems.len(),
{
    if systems.len() == 0 {
        0
    } else {
        board_material(systems.drop_last(), player) + ships_material(systems.last().ships, player)
    }
}

fn material_score(state: &GameState, player: Player) -> (score: i32)
    requires
        state@.totals_fit(),
    ensures
        score == board_material(state@.systems, player),
        -76_500 <= score <= 76_500,
{
    let ghost s = state@;
    proof {
        lemma_fleet_bound(s);
    }
    let systems = state.systems();
    let mut score: i32 = 0;
    let mut i: usize = 0;
    while i < systems.len()
        invariant
            crate::game_state::system_views(systems@) == s.systems,
            fleet_size(s.systems) <= 3060,
            0 <= i <= s.systems.len(),
            score == board_material(s.systems.take(i as int), player),
            -25 * fleet_size(s.systems.take(i as int)) <= score <= 25 * fleet_size(s.systems.take(i as int)),
        decreases s.systems.len() - i,
    {
        let ships = systems[i].ships();
        proof {
            assert(ships@ == s.systems[i as int].ships);
            lemma_fleet_take_step(s.systems, i as int);
            lemma_fleet_take_le(s.systems, i + 1);
            assert(s.systems.take(i + 1).drop_last() =~= s.systems.take(i as int));
        }
        let ghost before = score as int;
        let ghost seen = fleet_size(s.systems.take(i as int));
        let mut j: usize = 0;
        while j < ships.len()
            invariant
                ships@ == s.systems[i as int].ships,
                seen + ships@.len() <= 3060,
                -25 * seen <= before <= 25 * seen,
                0 <= j <= ships@.len(),
                score == before + ships_material(ships@.take(j as int), player),
                before - 25 * j <= score <= before + 25 * j,
            decreases ships@.len() - j,
        {
            let ship = ships[j];
            proof {
                assert(ships@.take(j + 1).drop_last() =~= ships@.take(j as int));
            }
            if ship.is_owned_by(player) {
                score = score + (10 + 5 * size_value(ship.size()));
            } else if ship.is_owned_by(player.other()) {
                score = score - (10 + 5 * size_value(ship.size()));
            }
            j += 1;
        }
        proof {
            assert(ships@.take(ships@.len() as int) =~= ships@);
        }
        i += 1;
    }
    proof {
        assert(s.systems.take(s.systems.len() as int) =~= s.systems);
    }
    score
}

/// One if the player has the color's power in the system, else zero.
pub open spec fn power_one(system: SystemView, player: Player, color: Color) -> int {
    if has_power(system, player, color) {
        1
    } else {
        0
    }
}

/// How many colors' actions the player can take in the system.
pub open spec fn power_count(system: SystemView, player: Player) -> int {
    power_one(system, player, Color::Red) + power_one(system, player, Color::Yellow) + power_one(system, player, Color::Green)
        + power_one(system, player, Color::Blue)
}

/// Twelve points per action color in every system where the player has a ship.
pub open spec fn access_from(systems: Seq<SystemView>, player: Player) -> int
    decreases systems.len(),
{
    if systems.len() == 0 {
        0
    } else {
        access_from(systems.drop_last(), player) + if has_ship_of(systems.last().ships, player) {
            12 * power_count(systems.last(), player)
        } else {
            0
        }
    }
}

/// The player's reach in action colors against the opponent's.
pub open spec fn color_access(s: StateView, player: Player) -> int {
    access_from(s.systems, player) - access_from(s.systems, player.spec_other())
}

fn system_action_color_count(system: &StarSystem, player: Player) -> (n: i32)
    ensures
        n == power_count(system@, player),
        0 <= n <= 4,
{
    let mut n: i32 = 0;
    if system_has_power(system, player, Color::Red) {
        n += 1;
    }
    if system_has_power(system, player, Color::Yellow) {
        n += 1;
    }
    if system_has_power(system, player, Color::Green) {
        n += 1;
    }
    if system_has_power(system, player, Color::Blue) {
        n += 1;
    }
    n
}

fn player_color_access_score(state: &GameState, player: Player) -> (score: i32)
    requires
        state@.totals_fit(),
    ensures
        score == access_from(state@.systems, player),
        0 <= score <= 146_880,
{
    let ghost s = state@;
    proof {
        lemma_fleet_bound(s);
    }
    let systems = state.systems();
    let mut score: i32 = 0;
    let mut i: usize = 0;
    while i < systems.len()
        invariant
            crate::game_state::system_views(systems@) == s.systems,
            fleet_size(s.systems) <= 3060,
            0 <= i <= s.systems.len(),
            score == access_from(s.systems.take(i as int), player),
            0 <= score <= 48 * fleet_size(s.systems.take(i as int)),
        decreases s.systems.len() - i,
    {
        let system = &systems[i];
        proof {
            assert(system@ == s.systems[i as int]);
            lemma_fleet_take_step(s.systems, i as int);
            lemma_fleet_take_le(s.systems, i + 1);
            assert(s.systems.take(i + 1).drop_last() =~= s.systems.take(i as int));
        }
        if system.has_presence(player) {
            score = score + system_action_color_count(system, player) * 12;
        }
        i += 1;
    }
    proof {
        assert(s.systems.take(s.systems.len() as int) =~= s.systems);
    }
    score
}

fn color_access_score(state: &GameState, player: Player) -> (score: i32)
    requires
        state@.totals_fit(),
    ensures
        score == color_access(state@, player),
        -146_880 <= score <= 146_880,
{
    player_color_access_score(state, player) - player_color_access_score(state, player.other())
}

/// What one defender's ship adds to the attacker's threat: a ship that an
/// attacker's ship at least as large could capture, more at the defender's homeworld.
pub open spec fn ship_threat(system: SystemView, at_home: bool, attacker: Player, defender: Player, ship: Piece) -> int {
    if ship.owner == Some(defender) && can_capture(system, attacker, ship) {
        25 + 10 * spec_size_value(ship.size) + if at_home { 40int } else { 0int }
    } else {
        0
    }
}

/// The threat against a list of ships of the system.
pub open spec fn ships_threat(ships: Seq<Piece>, system: SystemView, at_home: bool, attacker: Player, defender: Player) -> int
    decreases ships.len(),
{
    if ships.len() == 0 {
        0
    } else {
        ships_threat(ships.drop_last(), system, at_home, attacker, defender)
            + ship_threat(system, at_home, attacker, defender, ships.last())
    }
}

/// The attacker's invasion threat over the systems where it has red's power;
/// `home` is the defender's homeworld.
pub open spec fn threat_from(systems: Seq<SystemView>, home: SystemId, attacker: Player, defender: Player) -> int
    decreases systems.len(),
{
    if systems.len() == 0 {
        0
    } else {
        let last = systems.last();
        threat_from(systems.drop_last(), home, attacker, defender) + if has_power(last, attacker, Color::Red) {
            ships_threat(last.ships, last, SystemId((systems.len() - 1) as usize) == home, attacker, defender)
        } else {
            0
        }
    }
}

/// The player's invasion threats against the opponent's, opponent's against the player's.
pub open spec fn pressure(s: StateView, player: Player) -> int {
    threat_from(s.systems, s.homeworld(player.spec_other()), player, player.spec_other())
        - threat_from(s.systems, s.homeworld(player), player.spec_other(), player)
}

fn invasion_threat_score(state: &GameState, attacker: Player, defender: Player) -> (score: i32)
    requires
        state@.totals_fit(),
    ensures
        score == threat_from(state@.systems, state@.homeworld(defender), attacker, defender),
        0 <= score <= 290_700,
{
    let ghost s = state@;
    proof {
        lemma_fleet_bound(s);
    }
    let home = state.homeworld(defender);
    let systems = state.systems();
    let mut score: i32 = 0;
    let mut i: usize = 0;
    while i < systems.len()
        invariant
            crate::game_state::system_views(systems@) == s.systems,
            home == s.homeworld(defender),
            fleet_size(s.systems) <= 3060,
            0 <= i <= s.systems.len(),
            score == threat_from(s.systems.take(i as int), home, attacker, defender),
            0 <= score <= 95 * fleet_size(s.systems.take(i as int)),
        decreases s.systems.len() - i,
    {
        let system = &systems[i];
        proof {
            assert(system@ == s.systems[i as int]);
            lemma_fleet_take_step(s.systems, i as int);
            lemma_fleet_take_le(s.systems, i + 1);
            assert(s.systems.take(i + 1).drop_last() =~= s.systems.take(i as int));
            assert(s.systems.take(i + 1).last() == s.systems[i as int]);
        }
        if system_has_power(system, attacker, Color::Red) {
            let at_home = SystemId::new(i) == home;
            let ships = system.ships();
            let ghost before = score as int;
            let ghost seen = fleet_size(s.systems.take(i as int));
            let mut j: usize = 0;
            while j < ships.len()
                invariant
                    ships@ == system@.ships,
                    seen + ships@.len() <= 3060,
                    0 <= before <= 95 * seen,
                    0 <= j <= ships@.len(),
                    score == before + ships_threat(ships@.take(j as int), system@, at_home, attacker, defender),
                    before <= score <= before + 95 * j,
                decreases ships@.len() - j,
            {
                let target = ships[j];
                proof {
                    assert(ships@.take(j + 1).drop_last() =~= ships@.take(j as int));
                }
                if target.is_owned_by(defender) && system_can_capture(system, attacker, target) {
                    score = score + 25 + 10 * size_value(target.size());
                    if at_home {
                        score = score + 40;
                    }
                }
                j += 1;
            }
            proof {
                assert(ships@.take(ships@.len() as int) =~= ships@);
            }
        }
        i += 1;
    }
    proof {
        assert(s.systems.take(s.systems.len() as int) =~= s.systems);
    }
    score
}

fn pressure_score(state: &GameState, player: Player) -> (score: i32)
    requires
        state@.totals_fit(),
    ensures
        score == pressure(state@, player),
        -290_700 <= score <= 290_700,
{
    invasion_threat_score(state, player, player.other()) - invasion_threat_score(state, player.other(), player)
}

/// How many pieces the bank holds in all.
pub open spec fn bank_total(bank: Bank) -> int {
    bank.spec_count(Color::Red, Size::Small) + bank.spec_count(Color::Red, Size::Medium)
        + bank.spec_count(Color::Red, Size::Large) + bank.spec_count(Color::Yellow, Size::Small)
        + bank.spec_count(Color::Yellow, Size::Medium) + bank.spec_count(Color::Yellow, Size::Large)
        + bank.spec_count(Color::Green, Size::Small) + bank.spec_count(Color::Green, Size::Medium)
        + bank.spec_count(Color::Green, Size::Large) + bank.spec_count(Color::Blue, Size::Small)
        + bank.spec_count(Color::Blue, Size::Medium) + bank.spec_count(Color::Blue, Size::Large)
}

/// Whether the player has the color's power in some system where it has a ship.
pub open spec fn has_global_power(s: StateView, player: Player, color: Color) -> bool {
    exists|i: int|
        0 <= i < s.systems.len() && has_ship_of(s.systems[i].ships, player) && #[trigger] has_power(
            s.systems[i],
            player,
            color,
        )
}

/// The bank's count of the color at the ship's size, unless it is the ship's own color.
pub open spec fn other_color_count(bank: Bank, ship: Piece, color: Color) -> int {
    if color != ship.color {
        bank.spec_count(color, ship.size) as int
    } else {
        0
    }
}

/// How many bank pieces the ship could be traded for.
pub open spec fn trade_room(bank: Bank, ship: Piece) -> int {
    other_color_count(bank, ship, Color::Red) + other_color_count(bank, ship, Color::Yellow)
        + other_color_count(bank, ship, Color::Green) + other_color_count(bank, ship, Color::Blue)
}

/// The trade room of the player's ships in a list.
pub open spec fn ships_trade_room(ships: Seq<Piece>, bank: Bank, player: Player) -> int
    decreases ships.len(),
{
    if ships.len() == 0 {
        0
    } else {
        ships_trade_room(ships.drop_last(), bank, player) + if ships.last().owner == Some(player) {
            trade_room(bank, ships.last())
        } else {
            0
        }
    }
}

/// The trade room of the player's ships on the board.
pub open spec fn board_trade_room(systems: Seq<SystemView>, bank: Bank, player: Player) -> int
    decreases systems.len(),
{
    if systems.len() == 0 {
        0
    } else {
        board_trade_room(systems.drop_last(), bank, player) + ships_trade_room(systems.last().ships, bank, player)
    }
}

/// What the bank offers the player: every bank piece if it can build
/// (green), every bank piece if it can discover (yellow), and each possible
/// trade of its ships if it can trade (blue).
pub open spec fn player_bank_value(s: StateView, player: Player) -> int {
    (if has_global_power(s, player, Color::Green) { bank_total(s.bank) } else { 0 })
        + (if has_global_power(s, player, Color::Yellow) { bank_total(s.bank) } else { 0 })
        + (if has_global_power(s, player, Color::Blue) { board_trade_room(s.systems, s.bank, player) } else { 0 })
}

/// What the bank offers the player against what it offers the opponent.
pub open spec fn bank_value(s: StateView, player: Player) -> int {
    player_bank_value(s, player) - player_bank_value(s, player.spec_other())
}

fn total_bank_pieces(bank: &Bank) -> (n: i32)
    ensures
        n == bank_total(*bank),
        0 <= n <= 3060,
{
    let red = bank.count(Color::Red, Size::Small) as i32 + bank.count(Color::Red, Size::Medium) as i32
        + bank.count(Color::Red, Size::Large) as i32;
    let yellow = bank.count(Color::Yellow, Size::Small) as i32 + bank.count(Color::Yellow, Size::Medium) as i32
        + bank.count(Color::Yellow, Size::Large) as i32;
    let green = bank.count(Color::Green, Size::Small) as i32 + bank.count(Color::Green, Size::Medium) as i32
        + bank.count(Color::Green, Size::Large) as i32;
    let blue = bank.count(Color::Blue, Size::Small) as i32 + bank.count(Color::Blue, Size::Medium) as i32
        + bank.count(Color::Blue, Size::Large) as i32;
    red + yellow + green + blue
}

fn has_global_action_color(state: &GameState, player: Player, color: Color) -> (b: bool)
    ensures
        b == has_global_power(state@, player, color),
{
    let ghost s = state@;
    let systems = state.systems();
    let mut i: usize = 0;
    while i < systems.len()
        invariant
            s == state@,
            crate::game_state::system_views(systems@) == s.systems,
            0 <= i <= s.systems.len(),
            forall|k: int| 0 <= k < i ==> !(has_ship_of(s.systems[k].ships, player) && #[trigger] has_power(s.systems[k], player, color)),
        decreases s.systems.len() - i,
    {
        proof {
            assert(systems@[i as int]@ == s.systems[i as int]);
        }
        if systems[i].has_presence(player) && system_has_power(&systems[i], player, color) {
            proof {
                assert(has_ship_of(s.systems[i as int].ships, player));
                assert(has_power(s.systems[i as int], player, color));
                assert(0 <= i < s.systems.len() && has_ship_of(s.systems[i as int].ships, player) && has_power(s.systems[i as int], player, color));
            }
            return true;
        }
        i += 1;
    }
    false
}

fn ship_trade_room(bank: &Bank, ship: Piece) -> (n: i32)
    ensures
        n == trade_room(*bank, ship),
        0 <= n <= 1020,
{
    let mut n: i32 = 0;
    if ship.color() != Color::Red {
        n = n + bank.count(Color::Red, ship.size()) as i32;
    }
    if ship.color() != Color::Yellow {
        n = n + bank.count(Color::Yellow, ship.size()) as i32;
    }
    if ship.color() != Color::Green {
        n = n + bank.count(Color::Green, ship.size()) as i32;
    }
    if ship.color() != Color::Blue {
        n = n + bank.count(Color::Blue, ship.size()) as i32;
    }
    n
}

fn player_bank_score(state: &GameState, player: Player) -> (score: i32)
    requires
        state@.totals_fit(),
    ensures
        score == player_bank_value(state@, player),
        0 <= score <= 3_127_320,
{
    let ghost s = state@;
    proof {
        lemma_fleet_bound(s);
    }
    let bank = state.bank();
    let mut score: i32 = 0;
    if has_global_action_color(state, player, Color::Green) {
        score = score + total_bank_pieces(bank);
    }
    if has_global_action_color(state, player, Color::Yellow) {
        score = score + total_bank_pieces(bank);
    }
    if has_global_action_color(state, player, Color::Blue) {
        let systems = state.systems();
        let ghost base = score as int;
        let mut i: usize = 0;
        while i < systems.len()
            invariant
                crate::game_state::system_views(systems@) == s.systems,
                *bank == s.bank,
                fleet_size(s.systems) <= 3060,
                0 <= base <= 6120,
                0 <= i <= s.systems.len(),
                score == base + board_trade_room(s.systems.take(i as int), s.bank, player),
                base <= score <= base + 1020 * fleet_size(s.systems.take(i as int)),
            decreases s.systems.len() - i,
        {
            let ships = systems[i].ships();
            proof {
                assert(ships@ == s.systems[i as int].ships);
                lemma_fleet_take_step(s.systems, i as int);
                lemma_fleet_take_le(s.systems, i + 1);
                assert(s.systems.take(i + 1).drop_last() =~= s.systems.take(i as int));
            }
            let ghost before = score as int;
            let ghost seen = fleet_size(s.systems.take(i as int));
            let mut j: usize = 0;
            while j < ships.len()
                invariant
                    ships@ == s.systems[i as int].ships,
                    *bank == s.bank,
                    seen + ships@.len() <= 3060,
                    0 <= base <= 6120,
                    base <= before <= base + 1020 * seen,
                    0 <= j <= ships@.len(),
                    score == before + ships_trade_room(ships@.take(j as int), s.bank, player),
                    before <= score <= before + 1020 * j,
                decreases ships@.len() - j,
            {
                let ship = ships[j];
                proof {
                    assert(ships@.take(j + 1).drop_last() =~= ships@.take(j as int));
                }
                if ship.is_owned_by(player) {
                    score = score + ship_trade_room(bank, ship);
                }
                j += 1;
            }
            proof {
                assert(ships@.take(ships@.len() as int) =~= ships@);
            }
            i += 1;
        }
        proof {
            assert(s.systems.take(s.systems.len() as int) =~= s.systems);
        }
    }
    score
}

fn bank_score(state: &GameState, player: Player) -> (score: i32)
    requires
        state@.totals_fit(),
    ensures
        score == bank_value(state@, player),
        -3_127_320 <= score <= 3_127_320,
{
    player_bank_score(state, player) - player_bank_score(state, player.other())
}

/// The evaluation of a game over: a win, a loss or a draw for the player,
/// with no parts.
pub open spec fn terminal_evaluation(outcome: GameOutcome, player: Player) -> Evaluation {
    let total = match outcome {
        GameOutcome::Winner(winner) => if winner == player { WIN_SCORE } else { LOSS_SCORE },
        GameOutcome::Draw => DRAW_SCORE,
    };
    Evaluation { total, homeworld_safety: 0, material: 0, color_access: 0, pressure: 0, bank: 0 }
}

/// The evaluation of a position for the player: for a game in progress each
/// part and their sum, for a game over its decisive score.
pub open spec fn evaluation_of(g: GameView, player: Player, e: Evaluation) -> bool {
    match g.status {
        GameStatus::Finished(outcome) => e == terminal_evaluation(outcome, player),
        GameStatus::InProgress => {
            let s = g.turn.state;
            &&& e.homeworld_safety == homeworld_safety(s, player)
            &&& e.material == board_material(s.systems, player)
            &&& e.color_access == color_access(s, player)
            &&& e.pressure == pressure(s, player)
            &&& e.bank == bank_value(s, player)
            &&& e.total == e.homeworld_safety + e.material + e.color_access + e.pressure + e.bank
        },
    }
}

fn evaluate_non_terminal(game: &Game, player: Player) -> (evaluation: Evaluation)
    requires
        game@.wf(),
        game@.status == GameStatus::InProgress,
    ensures
        evaluation_of(game@, player, evaluation),
        -4_100_000 <= evaluation.total <= 4_100_000,
{
    let state = game.turn().state();
    let homeworld_safety = homeworld_safety_score(state, player);
    let material = material_score(state, player);
    let color_access = color_access_score(state, player);
    let pressure = pressure_score(state, player);
    let bank = bank_score(state, player);
    Evaluation {
        total: homeworld_safety + material + color_access + pressure + bank,
        homeworld_safety,
        material,
        color_access,
        pressure,
        bank,
    }
}

/// Scores the game for the player.
pub fn evaluate_position(game: &Game, player: Player) -> (evaluation: Evaluation)
    requires
        game@.wf(),
    ensures
        evaluation_of(game@, player, evaluation),
        -4_100_000 <= evaluation.total <= 4_100_000,
{
    match game.status() {
        GameStatus::Finished(GameOutcome::Winner(winner)) => {
            let total = if winner == player {
                WIN_SCORE
            } else {
                LOSS_SCORE
            };
            Evaluation { total, homeworld_safety: 0, material: 0, color_access: 0, pressure: 0, bank: 0 }
        },
        GameStatus::Finished(GameOutcome::Draw) => Evaluation {
            total: DRAW_SCORE,
            homeworld_safety: 0,
            material: 0,
            color_access: 0,
            pressure: 0,
            bank: 0,
        },
        GameStatus::InProgress => evaluate_non_terminal(game, player),
    }
}

} // verus!

use vstd::prelude::*;

use crate::action::ActionKind;
use crate::bank::BankError;
use crate::game::{GameError, GameOutcome};
use crate::game_state::GameStateError;
use crate::piece::{Color, Piece, Player, Size, SystemId};
use crate::render::{decimal_text, push_decimal};
use crate::star_system::StarSystemError;
use crate::text::push_text;
use crate::transition::TransitionError;
use crate::turn::TurnError;
use crate::validation::ActionError;

verus! {

// The texts below spell values the way their derived `Debug` formats do,
// so that messages read the same wherever they are printed.

pub open spec fn player_debug(p: Player) -> Seq<char> {
    match p {
        Player::One => "One"@,
        Player::Two => "Two"@,
    }
}

pub fn push_player_debug(out: &mut Vec<char>, p: Player)
    ensures
        final(out)@ == old(out)@ + player_debug(p),
{
    match p {
        Player::One => push_text(out, "One"),
        Player::Two => push_text(out, "Two"),
    }
}

pub open spec fn color_debug(c: Color) -> Seq<char> {
    match c {
        Color::Red => "Red"@,
        Color::Yellow => "Yellow"@,
        Color::Green => "Green"@,
        Color::Blue => "Blue"@,
    }
}

pub fn push_color_debug(out: &mut Vec<char>, c: Color)
    ensures
        final(out)@ == old(out)@ + color_debug(c),
{
    match c {
        Color::Red => push_text(out, "Red"),
        Color::Yellow => push_text(out, "Yellow"),
        Color::Green => push_text(out, "Green"),
        Color::Blue => push_text(out, "Blue"),
    }
}

pub open spec fn size_debug(s: Size) -> Seq<char> {
    match s {
        Size::Small => "Small"@,
        Size::Medium => "Medium"@,
        Size::Large => "Large"@,
    }
}

pub fn push_size_debug(out: &mut Vec<char>, s: Size)
    ensures
        final(out)@ == old(out)@ + size_debug(s),
{
    match s {
        Size::Small => push_text(out, "Small"),
        Size::Medium => push_text(out, "Medium"),
        Size::Large => push_text(out, "Large"),
    }
}

pub open spec fn kind_debug(k: ActionKind) -> Seq<char> {
    match k {
        ActionKind::Build => "Build"@,
        ActionKind::Travel => "Travel"@,
        ActionKind::Trade => "Trade"@,
        ActionKind::Sacrifice => "Sacrifice"@,
        ActionKind::Invade => "Invade"@,
        ActionKind::Catastrophe => "Catastrophe"@,
    }
}

pub fn push_kind_debug(out: &mut Vec<char>, k: ActionKind)
    ensures
        final(out)@ == old(out)@ + kind_debug(k),
{
    match k {
        ActionKind::Build => push_text(out, "Build"),
        ActionKind::Travel => push_text(out, "Travel"),
        ActionKind::Trade => push_text(out, "Trade"),
        ActionKind::Sacrifice => push_text(out, "Sacrifice"),
        ActionKind::Invade => push_text(out, "Invade"),
        ActionKind::Catastrophe => push_text(out, "Catastrophe"),
    }
}

pub open spec fn usize_debug(n: usize) -> Seq<char> {
    decimal_text(n as nat)
}

pub fn push_usize_debug(out: &mut Vec<char>, n: usize)
    ensures
        final(out)@ == old(out)@ + usize_debug(n),
{
    push_decimal(out, n);
}

pub open spec fn u8_debug(n: u8) -> Seq<char> {
    decimal_text(n as nat)
}

pub fn push_u8_debug(out: &mut Vec<char>, n: u8)
    ensures
        final(out)@ == old(out)@ + u8_debug(n),
{
    push_decimal(out, n as usize);
}

pub open spec fn system_id_debug(id: SystemId) -> Seq<char> {
    "SystemId("@ + decimal_text(id.0 as nat) + ")"@
}

pub fn push_system_id_debug(out: &mut Vec<char>, id: SystemId)
    ensures
        final(out)@ == old(out)@ + system_id_debug(id),
{
    let ghost start = out@;
    push_text(out, "SystemId(");
    push_decimal(out, id.index());
    push_text(out, ")");
    proof {
        assert(out@ =~= start + system_id_debug(id));
    }
}

pub open spec fn owner_debug(owner: Option<Player>) -> Seq<char> {
    match owner {
        Some(p) => "Some("@ + player_debug(p) + ")"@,
        None => "None"@,
    }
}

pub open spec fn piece_debug(piece: Piece) -> Seq<char> {
    "Piece { color: "@ + color_debug(piece.color) + ", size: "@ + size_debug(piece.size) + ", owner: "@ + owner_debug(
        piece.owner,
    ) + " }"@
}

pub fn push_piece_debug(out: &mut Vec<char>, piece: Piece)
    ensures
        final(out)@ == old(out)@ + piece_debug(piece),
{
    let ghost start = out@;
    push_text(out, "Piece { color: ");
    push_color_debug(out, piece.color());
    push_text(out, ", size: ");
    push_size_debug(out, piece.size());
    push_text(out, ", owner: ");
    match piece.owner() {
        Some(p) => {
            push_text(out, "Some(");
            push_player_debug(out, p);
            push_text(out, ")");
        },
        None => push_text(out, "None"),
    }
    push_text(out, " }");
    proof {
        assert(out@ =~= start + piece_debug(piece));
    }
}

pub open spec fn players_debug(players: [Player; 2]) -> Seq<char> {
    "["@ + player_debug(players@[0]) + ", "@ + player_debug(players@[1]) + "]"@
}

pub fn push_players_debug(out: &mut Vec<char>, players: [Player; 2])
    ensures
        final(out)@ == old(out)@ + players_debug(players),
{
    let ghost start = out@;
    push_text(out, "[");
    push_player_debug(out, players[0]);
    push_text(out, ", ");
    push_player_debug(out, players[1]);
    push_text(out, "]");
    proof {
        assert(out@ =~= start + players_debug(players));
    }
}

pub open spec fn outcome_debug_winner(x0: Player) -> Seq<char> {
    "Winner("@ + player_debug(x0) + ")"@
}

pub open spec fn outcome_debug(e: GameOutcome) -> Seq<char>
{
    match e {
        GameOutcome::Winner(x0) => outcome_debug_winner(x0),
        GameOutcome::Draw => "Draw"@,
    }
}

fn push_outcome_debug_winner(out: &mut Vec<char>, x0: Player)
    ensures
        final(out)@ == old(out)@ + outcome_debug_winner(x0),
{
    let ghost start = out@;
    push_text(out, "Winner(");
    push_player_debug(out, x0);
    push_text(out, ")");
    proof { assert(out@ =~= start + outcome_debug_winner(x0)); }
}

pub fn push_outcome_debug(out: &mut Vec<char>, e: GameOutcome)
    ensures
        final(out)@ == old(out)@ + outcome_debug(e),
{
    match e {
        GameOutcome::Winner(x0) => push_outcome_debug_winner(out, x0),
        GameOutcome::Draw => push_text(out, "Draw"),
    }
}

pub open spec fn star_system_error_debug(e: StarSystemError) -> Seq<char>
{
    match e {
        StarSystemError::TooManyStars => "TooManyStars"@,
        StarSystemError::OwnedStar => "OwnedStar"@,
        StarSystemError::UnownedShip => "UnownedShip"@,
    }
}

pub fn push_star_system_error_debug(out: &mut Vec<char>, e: StarSystemError)
    ensures
        final(out)@ == old(out)@ + star_system_error_debug(e),
{
    match e {
        StarSystemError::TooManyStars => push_text(out, "TooManyStars"),
        StarSystemError::OwnedStar => push_text(out, "OwnedStar"),
        StarSystemError::UnownedShip => push_text(out, "UnownedShip"),
    }
}

pub open spec fn game_state_error_debug_homeworldoutofrange(player: Player, homeworld: SystemId) -> Seq<char> {
    "HomeworldOutOfRange { "@ + "player: "@ + player_debug(player) + ", homeworld: "@ + system_id_debug(homeworld) + " }"@
}

pub open spec fn game_state_error_debug_duplicatehomeworld(players: [Player; 2], homeworld: SystemId) -> Seq<char> {
    "DuplicateHomeworld { "@ + "players: "@ + players_debug(players) + ", homeworld: "@ + system_id_debug(homeworld) + " }"@
}

pub open spec fn game_state_error_debug(e: GameStateError) -> Seq<char>
{
    match e {
        GameStateError::HomeworldOutOfRange { player, homeworld } => game_state_error_debug_homeworldoutofrange(player, homeworld),
        GameStateError::DuplicateHomeworld { players, homeworld } => game_state_error_debug_duplicatehomeworld(players, homeworld),
    }
}

fn push_game_state_error_debug_homeworldoutofrange(out: &mut Vec<char>, player: Player, homeworld: SystemId)
    ensures
        final(out)@ == old(out)@ + game_state_error_debug_homeworldoutofrange(player, homeworld),
{
    let ghost start = out@;
    push_text(out, "HomeworldOutOfRange { ");
    push_text(out, "player: ");
    push_player_debug(out, player);
    push_text(out, ", homeworld: ");
    push_system_id_debug(out, homeworld);
    push_text(out, " }");
    proof { assert(out@ =~= start + game_state_error_debug_homeworldoutofrange(player, homeworld)); }
}

fn push_game_state_error_debug_duplicatehomeworld(out: &mut Vec<char>, players: [Player; 2], homeworld: SystemId)
    ensures
        final(out)@ == old(out)@ + game_state_error_debug_duplicatehomeworld(players, homeworld),
{
    let ghost start = out@;
    push_text(out, "DuplicateHomeworld { ");
    push_text(out, "players: ");
    push_players_debug(out, players);
    push_text(out, ", homeworld: ");
    push_system_id_debug(out, homeworld);
    push_text(out, " }");
    proof { assert(out@ =~= start + game_state_error_debug_duplicatehomeworld(players, homeworld)); }
}

pub fn push_game_state_error_debug(out: &mut Vec<char>, e: GameStateError)
    ensures
        final(out)@ == old(out)@ + game_state_error_debug(e),
{
    match e {
        GameStateError::HomeworldOutOfRange { player, homeworld } => push_game_state_error_debug_homeworldoutofrange(out, player, homeworld),
        GameStateError::DuplicateHomeworld { players, homeworld } => push_game_state_error_debug_duplicatehomeworld(out, players, homeworld),
    }
}

pub open spec fn bank_error_debug_toomanypieces(color: Color, size: Size, count: u8, max: u8) -> Seq<char> {
    "TooManyPieces { "@ + "color: "@ + color_debug(color) + ", size: "@ + size_debug(size) + ", count: "@ + u8_debug(count) + ", max: "@ + u8_debug(max) + " }"@
}

pub open spec fn bank_error_debug(e: BankError) -> Seq<char>
{
    match e {
        BankError::PieceUnavailable => "PieceUnavailable"@,
        BankError::OwnedPiece => "OwnedPiece"@,
        BankError::TooManyPieces { color, size, count, max } => bank_error_debug_toomanypieces(color, size, count, max),
    }
}

fn push_bank_error_debug_toomanypieces(out: &mut Vec<char>, color: Color, size: Size, count: u8, max: u8)
    ensures
        final(out)@ == old(out)@ + bank_error_debug_toomanypieces(color, size, count, max),
{
    let ghost start = out@;
    push_text(out, "TooManyPieces { ");
    push_text(out, "color: ");
    push_color_debug(out, color);
    push_text(out, ", size: ");
    push_size_debug(out, size);
    push_text(out, ", count: ");
    push_u8_debug(out, count);
    push_text(out, ", max: ");
    push_u8_debug(out, max);
    push_text(out, " }");
    proof { assert(out@ =~= start + bank_error_debug_toomanypieces(color, size, count, max)); }
}

pub fn push_bank_error_debug(out: &mut Vec<char>, e: BankError)
    ensures
        final(out)@ == old(out)@ + bank_error_debug(e),
{
    match e {
        BankError::PieceUnavailable => push_text(out, "PieceUnavailable"),
        BankError::OwnedPiece => push_text(out, "OwnedPiece"),
        BankError::TooManyPieces { color, size, count, max } => push_bank_error_debug_toomanypieces(out, color, size, count, max),
    }
}

pub open spec fn action_error_debug_unknownsystem(system: SystemId) -> Seq<char> {
    "UnknownSystem { "@ + "system: "@ + system_id_debug(system) + " }"@
}

pub open spec fn action_error_debug_unownedship(ship: Piece) -> Seq<char> {
    "UnownedShip { "@ + "ship: "@ + piece_debug(ship) + " }"@
}

pub open spec fn action_error_debug_wrongowner(player: Player, ship: Piece) -> Seq<char> {
    "WrongOwner { "@ + "player: "@ + player_debug(player) + ", ship: "@ + piece_debug(ship) + " }"@
}

pub open spec fn action_error_debug_cannotinvadeownship(player: Player, ship: Piece) -> Seq<char> {
    "CannotInvadeOwnShip { "@ + "player: "@ + player_debug(player) + ", ship: "@ + piece_debug(ship) + " }"@
}

pub open spec fn action_error_debug_cannotinvadelargership(player: Player, target: Piece) -> Seq<char> {
    "CannotInvadeLargerShip { "@ + "player: "@ + player_debug(player) + ", target: "@ + piece_debug(target) + " }"@
}

pub open spec fn action_error_debug_shipnotpresent(system: SystemId, ship: Piece) -> Seq<char> {
    "ShipNotPresent { "@ + "system: "@ + system_id_debug(system) + ", ship: "@ + piece_debug(ship) + " }"@
}

pub open spec fn action_error_debug_samesystem(system: SystemId) -> Seq<char> {
    "SameSystem { "@ + "system: "@ + system_id_debug(system) + " }"@
}

pub open spec fn action_error_debug_starsizeconflict(size: Size) -> Seq<char> {
    "StarSizeConflict { "@ + "size: "@ + size_debug(size) + " }"@
}

pub open spec fn action_error_debug_pieceunavailable(piece: Piece) -> Seq<char> {
    "PieceUnavailable { "@ + "piece: "@ + piece_debug(piece) + " }"@
}

pub open spec fn action_error_debug_buildsizeunavailable(requested: Piece, smallest: Piece) -> Seq<char> {
    "BuildSizeUnavailable { "@ + "requested: "@ + piece_debug(requested) + ", smallest: "@ + piece_debug(smallest) + " }"@
}

pub open spec fn action_error_debug_sizemismatch(from: Piece, to: Piece) -> Seq<char> {
    "SizeMismatch { "@ + "from: "@ + piece_debug(from) + ", to: "@ + piece_debug(to) + " }"@
}

pub open spec fn action_error_debug_missingactionpower(player: Player, system: SystemId, color: Color) -> Seq<char> {
    "MissingActionPower { "@ + "player: "@ + player_debug(player) + ", system: "@ + system_id_debug(system) + ", color: "@ + color_debug(color) + " }"@
}

pub open spec fn action_error_debug_invaliddiscovery(error: StarSystemError) -> Seq<char> {
    "InvalidDiscovery { "@ + "error: "@ + star_system_error_debug(error) + " }"@
}

pub open spec fn action_error_debug_nocatastrophe(system: SystemId, color: Color, count: usize) -> Seq<char> {
    "NoCatastrophe { "@ + "system: "@ + system_id_debug(system) + ", color: "@ + color_debug(color) + ", count: "@ + usize_debug(count) + " }"@
}

pub open spec fn action_error_debug(e: ActionError) -> Seq<char>
{
    match e {
        ActionError::UnknownSystem { system } => action_error_debug_unknownsystem(system),
        ActionError::UnownedShip { ship } => action_error_debug_unownedship(ship),
        ActionError::WrongOwner { player, ship } => action_error_debug_wrongowner(player, ship),
        ActionError::CannotInvadeOwnShip { player, ship } => action_error_debug_cannotinvadeownship(player, ship),
        ActionError::CannotInvadeLargerShip { player, target } => action_error_debug_cannotinvadelargership(player, target),
        ActionError::ShipNotPresent { system, ship } => action_error_debug_shipnotpresent(system, ship),
        ActionError::SameSystem { system } => action_error_debug_samesystem(system),
        ActionError::StarSizeConflict { size } => action_error_debug_starsizeconflict(size),
        ActionError::PieceUnavailable { piece } => action_error_debug_pieceunavailable(piece),
        ActionError::BuildSizeUnavailable { requested, smallest } => action_error_debug_buildsizeunavailable(requested, smallest),
        ActionError::SizeMismatch { from, to } => action_error_debug_sizemismatch(from, to),
        ActionError::MissingActionPower { player, system, color } => action_error_debug_missingactionpower(player, system, color),
        ActionError::InvalidDiscovery { error } => action_error_debug_invaliddiscovery(error),
        ActionError::NoCatastrophe { system, color, count } => action_error_debug_nocatastrophe(system, color, count),
    }
}

fn push_action_error_debug_unknownsystem(out: &mut Vec<char>, system: SystemId)
    ensures
        final(out)@ == old(out)@ + action_error_debug_unknownsystem(system),
{
    let ghost start = out@;
    push_text(out, "UnknownSystem { ");
    push_text(out, "system: ");
    push_system_id_debug(out, system);
    push_text(out, " }");
    proof { assert(out@ =~= start + action_error_debug_unknownsystem(system)); }
}

fn push_action_error_debug_unownedship(out: &mut Vec<char>, ship: Piece)
    ensures
        final(out)@ == old(out)@ + action_error_debug_unownedship(ship),
{
    let ghost start = out@;
    push_text(out, "UnownedShip { ");
    push_text(out, "ship: ");
    push_piece_debug(out, ship);
    push_text(out, " }");
    proof { assert(out@ =~= start + action_error_debug_unownedship(ship)); }
}

fn push_action_error_debug_wrongowner(out: &mut Vec<char>, player: Player, ship: Piece)
    ensures
        final(out)@ == old(out)@ + action_error_debug_wrongowner(player, ship),
{
    let ghost start = out@;
    push_text(out, "WrongOwner { ");
    push_text(out, "player: ");
    push_player_debug(out, player);
    push_text(out, ", ship: ");
    push_piece_debug(out, ship);
    push_text(out, " }");
    proof { assert(out@ =~= start + action_error_debug_wrongowner(player, ship)); }
}

fn push_action_error_debug_cannotinvadeownship(out: &mut Vec<char>, player: Player, ship: Piece)
    ensures
        final(out)@ == old(out)@ + action_error_debug_cannotinvadeownship(player, ship),
{
    let ghost start = out@;
    push_text(out, "CannotInvadeOwnShip { ");
    push_text(out, "player: ");
    push_player_debug(out, player);
    push_text(out, ", ship: ");
    push_piece_debug(out, ship);
    push_text(out, " }");
    proof { assert(out@ =~= start + action_error_debug_cannotinvadeownship(player, ship)); }
}

fn push_action_error_debug_cannotinvadelargership(out: &mut Vec<char>, player: Player, target: Piece)
    ensures
        final(out)@ == old(out)@ + action_error_debug_cannotinvadelargership(player, target),
{
    let ghost start = out@;
    push_text(out, "CannotInvadeLargerShip { ");
    push_text(out, "player: ");
    push_player_debug(out, player);
    push_text(out, ", target: ");
    push_piece_debug(out, target);
    push_text(out, " }");
    proof { assert(out@ =~= start + action_error_debug_cannotinvadelargership(player, target)); }
}

fn push_action_error_debug_shipnotpresent(out: &mut Vec<char>, system: SystemId, ship: Piece)
    ensures
        final(out)@ == old(out)@ + action_error_debug_shipnotpresent(system, ship),
{
    let ghost start = out@;
    push_text(out, "ShipNotPresent { ");
    push_text(out, "system: ");
    push_system_id_debug(out, system);
    push_text(out, ", ship: ");
    push_piece_debug(out, ship);
    push_text(out, " }");
    proof { assert(out@ =~= start + action_error_debug_shipnotpresent(system, ship)); }
}

fn push_action_error_debug_samesystem(out: &mut Vec<char>, system: SystemId)
    ensures
        final(out)@ == old(out)@ + action_error_debug_samesystem(system),
{
    let ghost start = out@;
    push_text(out, "SameSystem { ");
    push_text(out, "system: ");
    push_system_id_debug(out, system);
    push_text(out, " }");
    proof { assert(out@ =~= start + action_error_debug_samesystem(system)); }
}

fn push_action_error_debug_starsizeconflict(out: &mut Vec<char>, size: Size)
    ensures
        final(out)@ == old(out)@ + action_error_debug_starsizeconflict(size),
{
    let ghost start = out@;
    push_text(out, "StarSizeConflict { ");
    push_text(out, "size: ");
    push_size_debug(out, size);
    push_text(out, " }");
    proof { assert(out@ =~= start + action_error_debug_starsizeconflict(size)); }
}

fn push_action_error_debug_pieceunavailable(out: &mut Vec<char>, piece: Piece)
    ensures
        final(out)@ == old(out)@ + action_error_debug_pieceunavailable(piece),
{
    let ghost start = out@;
    push_text(out, "PieceUnavailable { ");
    push_text(out, "piece: ");
    push_piece_debug(out, piece);
    push_text(out, " }");
    proof { assert(out@ =~= start + action_error_debug_pieceunavailable(piece)); }
}

fn push_action_error_debug_buildsizeunavailable(out: &mut Vec<char>, requested: Piece, smallest: Piece)
    ensures
        final(out)@ == old(out)@ + action_error_debug_buildsizeunavailable(requested, smallest),
{
    let ghost start = out@;
    push_text(out, "BuildSizeUnavailable { ");
    push_text(out, "requested: ");
    push_piece_debug(out, requested);
    push_text(out, ", smallest: ");
    push_piece_debug(out, smallest);
    push_text(out, " }");
    proof { assert(out@ =~= start + action_error_debug_buildsizeunavailable(requested, smallest)); }
}

fn push_action_error_debug_sizemismatch(out: &mut Vec<char>, from: Piece, to: Piece)
    ensures
        final(out)@ == old(out)@ + action_error_debug_sizemismatch(from, to),
{
    let ghost start = out@;
    push_text(out, "SizeMismatch { ");
    push_text(out, "from: ");
    push_piece_debug(out, from);
    push_text(out, ", to: ");
    push_piece_debug(out, to);
    push_text(out, " }");
    proof { assert(out@ =~= start + action_error_debug_sizemismatch(from, to)); }
}

fn push_action_error_debug_missingactionpower(out: &mut Vec<char>, player: Player, system: SystemId, color: Color)
    ensures
        final(out)@ == old(out)@ + action_error_debug_missingactionpower(player, system, color),
{
    let ghost start = out@;
    push_text(out, "MissingActionPower { ");
    push_text(out, "player: ");
    push_player_debug(out, player);
    push_text(out, ", system: ");
    push_system_id_debug(out, system);
    push_text(out, ", color: ");
    push_color_debug(out, color);
    push_text(out, " }");
    proof { assert(out@ =~= start + action_error_debug_missingactionpower(player, system, color)); }
}

fn push_action_error_debug_invaliddiscovery(out: &mut Vec<char>, error: StarSystemError)
    ensures
        final(out)@ == old(out)@ + action_error_debug_invaliddiscovery(error),
{
    let ghost start = out@;
    push_text(out, "InvalidDiscovery { ");
    push_text(out, "error: ");
    push_star_system_error_debug(out, error);
    push_text(out, " }");
    proof { assert(out@ =~= start + action_error_debug_invaliddiscovery(error)); }
}

fn push_action_error_debug_nocatastrophe(out: &mut Vec<char>, system: SystemId, color: Color, count: usize)
    ensures
        final(out)@ == old(out)@ + action_error_debug_nocatastrophe(system, color, count),
{
    let ghost start = out@;
    push_text(out, "NoCatastrophe { ");
    push_text(out, "system: ");
    push_system_id_debug(out, system);
    push_text(out, ", color: ");
    push_color_debug(out, color);
    push_text(out, ", count: ");
    push_usize_debug(out, count);
    push_text(out, " }");
    proof { assert(out@ =~= start + action_error_debug_nocatastrophe(system, color, count)); }
}

pub fn push_action_error_debug(out: &mut Vec<char>, e: ActionError)
    ensures
        final(out)@ == old(out)@ + action_error_debug(e),
{
    match e {
        ActionError::UnknownSystem { system } => push_action_error_debug_unknownsystem(out, system),
        ActionError::UnownedShip { ship } => push_action_error_debug_unownedship(out, ship),
        ActionError::WrongOwner { player, ship } => push_action_error_debug_wrongowner(out, player, ship),
        ActionError::CannotInvadeOwnShip { player, ship } => push_action_error_debug_cannotinvadeownship(out, player, ship),
        ActionError::CannotInvadeLargerShip { player, target } => push_action_error_debug_cannotinvadelargership(out, player, target),
        ActionError::ShipNotPresent { system, ship } => push_action_error_debug_shipnotpresent(out, system, ship),
        ActionError::SameSystem { system } => push_action_error_debug_samesystem(out, system),
        ActionError::StarSizeConflict { size } => push_action_error_debug_starsizeconflict(out, size),
        ActionError::PieceUnavailable { piece } => push_action_error_debug_pieceunavailable(out, piece),
        ActionError::BuildSizeUnavailable { requested, smallest } => push_action_error_debug_buildsizeunavailable(out, requested, smallest),
        ActionError::SizeMismatch { from, to } => push_action_error_debug_sizemismatch(out, from, to),
        ActionError::MissingActionPower { player, system, color } => push_action_error_debug_missingactionpower(out, player, system, color),
        ActionError::InvalidDiscovery { error } => push_action_error_debug_invaliddiscovery(out, error),
        ActionError::NoCatastrophe { system, color, count } => push_action_error_debug_nocatastrophe(out, system, color, count),
    }
}

pub open spec fn transition_error_debug_invalidaction(x0: ActionError) -> Seq<char> {
    "InvalidAction("@ + action_error_debug(x0) + ")"@
}

pub open spec fn transition_error_debug_invalidstate(x0: GameStateError) -> Seq<char> {
    "InvalidState("@ + game_state_error_debug(x0) + ")"@
}

pub open spec fn transition_error_debug_invalidsystem(x0: StarSystemError) -> Seq<char> {
    "InvalidSystem("@ + star_system_error_debug(x0) + ")"@
}

pub open spec fn transition_error_debug(e: TransitionError) -> Seq<char>
{
    match e {
        TransitionError::InvalidAction(x0) => transition_error_debug_invalidaction(x0),
        TransitionError::InvalidState(x0) => transition_error_debug_invalidstate(x0),
        TransitionError::InvalidSystem(x0) => transition_error_debug_invalidsystem(x0),
    }
}

fn push_transition_error_debug_invalidaction(out: &mut Vec<char>, x0: ActionError)
    ensures
        final(out)@ == old(out)@ + transition_error_debug_invalidaction(x0),
{
    let ghost start = out@;
    push_text(out, "InvalidAction(");
    push_action_error_debug(out, x0);
    push_text(out, ")");
    proof { assert(out@ =~= start + transition_error_debug_invalidaction(x0)); }
}

fn push_transition_error_debug_invalidstate(out: &mut Vec<char>, x0: GameStateError)
    ensures
        final(out)@ == old(out)@ + transition_error_debug_invalidstate(x0),
{
    let ghost start = out@;
    push_text(out, "InvalidState(");
    push_game_state_error_debug(out, x0);
    push_text(out, ")");
    proof { assert(out@ =~= start + transition_error_debug_invalidstate(x0)); }
}

fn push_transition_error_debug_invalidsystem(out: &mut Vec<char>, x0: StarSystemError)
    ensures
        final(out)@ == old(out)@ + transition_error_debug_invalidsystem(x0),
{
    let ghost start = out@;
    push_text(out, "InvalidSystem(");
    push_star_system_error_debug(out, x0);
    push_text(out, ")");
    proof { assert(out@ =~= start + transition_error_debug_invalidsystem(x0)); }
}

pub fn push_transition_error_debug(out: &mut Vec<char>, e: TransitionError)
    ensures
        final(out)@ == old(out)@ + transition_error_debug(e),
{
    match e {
        TransitionError::InvalidAction(x0) => push_transition_error_debug_invalidaction(out, x0),
        TransitionError::InvalidState(x0) => push_transition_error_debug_invalidstate(out, x0),
        TransitionError::InvalidSystem(x0) => push_transition_error_debug_invalidsystem(out, x0),
    }
}

pub open spec fn turn_error_debug_invalidaction(x0: TransitionError) -> Seq<char> {
    "InvalidAction("@ + transition_error_debug(x0) + ")"@
}

pub open spec fn turn_error_debug_wrongplayer(expected: Player, actual: Player) -> Seq<char> {
    "WrongPlayer { "@ + "expected: "@ + player_debug(expected) + ", actual: "@ + player_debug(actual) + " }"@
}

pub open spec fn turn_error_debug_actionsremaining(remaining: usize) -> Seq<char> {
    "ActionsRemaining { "@ + "remaining: "@ + usize_debug(remaining) + " }"@
}

pub open spec fn turn_error_debug_wrongsacrificeactionkind(expected: ActionKind, actual: ActionKind) -> Seq<char> {
    "WrongSacrificeActionKind { "@ + "expected: "@ + kind_debug(expected) + ", actual: "@ + kind_debug(actual) + " }"@
}

pub open spec fn turn_error_debug(e: TurnError) -> Seq<char>
{
    match e {
        TurnError::InvalidAction(x0) => turn_error_debug_invalidaction(x0),
        TurnError::WrongPlayer { expected, actual } => turn_error_debug_wrongplayer(expected, actual),
        TurnError::NoActionBudget => "NoActionBudget"@,
        TurnError::ActionsRemaining { remaining } => turn_error_debug_actionsremaining(remaining),
        TurnError::WrongSacrificeActionKind { expected, actual } => turn_error_debug_wrongsacrificeactionkind(expected, actual),
    }
}

fn push_turn_error_debug_invalidaction(out: &mut Vec<char>, x0: TransitionError)
    ensures
        final(out)@ == old(out)@ + turn_error_debug_invalidaction(x0),
{
    let ghost start = out@;
    push_text(out, "InvalidAction(");
    push_transition_error_debug(out, x0);
    push_text(out, ")");
    proof { assert(out@ =~= start + turn_error_debug_invalidaction(x0)); }
}

fn push_turn_error_debug_wrongplayer(out: &mut Vec<char>, expected: Player, actual: Player)
    ensures
        final(out)@ == old(out)@ + turn_error_debug_wrongplayer(expected, actual),
{
    let ghost start = out@;
    push_text(out, "WrongPlayer { ");
    push_text(out, "expected: ");
    push_player_debug(out, expected);
    push_text(out, ", actual: ");
    push_player_debug(out, actual);
    push_text(out, " }");
    proof { assert(out@ =~= start + turn_error_debug_wrongplayer(expected, actual)); }
}

fn push_turn_error_debug_actionsremaining(out: &mut Vec<char>, remaining: usize)
    ensures
        final(out)@ == old(out)@ + turn_error_debug_actionsremaining(remaining),
{
    let ghost start = out@;
    push_text(out, "ActionsRemaining { ");
    push_text(out, "remaining: ");
    push_usize_debug(out, remaining);
    push_text(out, " }");
    proof { assert(out@ =~= start + turn_error_debug_actionsremaining(remaining)); }
}

fn push_turn_error_debug_wrongsacrificeactionkind(out: &mut Vec<char>, expected: ActionKind, actual: ActionKind)
    ensures
        final(out)@ == old(out)@ + turn_error_debug_wrongsacrificeactionkind(expected, actual),
{
    let ghost start = out@;
    push_text(out, "WrongSacrificeActionKind { ");
    push_text(out, "expected: ");
    push_kind_debug(out, expected);
    push_text(out, ", actual: ");
    push_kind_debug(out, actual);
    push_text(out, " }");
    proof { assert(out@ =~= start + turn_error_debug_wrongsacrificeactionkind(expected, actual)); }
}

pub fn push_turn_error_debug(out: &mut Vec<char>, e: TurnError)
    ensures
        final(out)@ == old(out)@ + turn_error_debug(e),
{
    match e {
        TurnError::InvalidAction(x0) => push_turn_error_debug_invalidaction(out, x0),
        TurnError::WrongPlayer { expected, actual } => push_turn_error_debug_wrongplayer(out, expected, actual),
        TurnError::NoActionBudget => push_text(out, "NoActionBudget"),
        TurnError::ActionsRemaining { remaining } => push_turn_error_debug_actionsremaining(out, remaining),
        TurnError::WrongSacrificeActionKind { expected, actual } => push_turn_error_debug_wrongsacrificeactionkind(out, expected, actual),
    }
}

pub open spec fn game_error_debug_invalidhomeworld(player: Player, error: StarSystemError) -> Seq<char> {
    "InvalidHomeworld { "@ + "player: "@ + player_debug(player) + ", error: "@ + star_system_error_debug(error) + " }"@
}

pub open spec fn game_error_debug_invalidstate(x0: GameStateError) -> Seq<char> {
    "InvalidState("@ + game_state_error_debug(x0) + ")"@
}

pub open spec fn game_error_debug_pieceunavailable(piece: Piece) -> Seq<char> {
    "PieceUnavailable { "@ + "piece: "@ + piece_debug(piece) + " }"@
}

pub open spec fn game_error_debug_wronghomeworldshipowner(player: Player, ship: Piece) -> Seq<char> {
    "WrongHomeworldShipOwner { "@ + "player: "@ + player_debug(player) + ", ship: "@ + piece_debug(ship) + " }"@
}

pub open spec fn game_error_debug_terminal(outcome: GameOutcome) -> Seq<char> {
    "Terminal { "@ + "outcome: "@ + outcome_debug(outcome) + " }"@
}

pub open spec fn game_error_debug_turn(x0: TurnError) -> Seq<char> {
    "Turn("@ + turn_error_debug(x0) + ")"@
}

pub open spec fn game_error_debug(e: GameError) -> Seq<char>
{
    match e {
        GameError::InvalidHomeworld { player, error } => game_error_debug_invalidhomeworld(player, error),
        GameError::InvalidState(x0) => game_error_debug_invalidstate(x0),
        GameError::PieceUnavailable { piece } => game_error_debug_pieceunavailable(piece),
        GameError::WrongHomeworldShipOwner { player, ship } => game_error_debug_wronghomeworldshipowner(player, ship),
        GameError::Terminal { outcome } => game_error_debug_terminal(outcome),
        GameError::Turn(x0) => game_error_debug_turn(x0),
    }
}

fn push_game_error_debug_invalidhomeworld(out: &mut Vec<char>, player: Player, error: StarSystemError)
    ensures
        final(out)@ == old(out)@ + game_error_debug_invalidhomeworld(player, error),
{
    let ghost start = out@;
    push_text(out, "InvalidHomeworld { ");
    push_text(out, "player: ");
    push_player_debug(out, player);
    push_text(out, ", error: ");
    push_star_system_error_debug(out, error);
    push_text(out, " }");
    proof { assert(out@ =~= start + game_error_debug_invalidhomeworld(player, error)); }
}

fn push_game_error_debug_invalidstate(out: &mut Vec<char>, x0: GameStateError)
    ensures
        final(out)@ == old(out)@ + game_error_debug_invalidstate(x0),
{
    let ghost start = out@;
    push_text(out, "InvalidState(");
    push_game_state_error_debug(out, x0);
    push_text(out, ")");
    proof { assert(out@ =~= start + game_error_debug_invalidstate(x0)); }
}

fn push_game_error_debug_pieceunavailable(out: &mut Vec<char>, piece: Piece)
    ensures
        final(out)@ == old(out)@ + game_error_debug_pieceunavailable(piece),
{
    let ghost start = out@;
    push_text(out, "PieceUnavailable { ");
    push_text(out, "piece: ");
    push_piece_debug(out, piece);
    push_text(out, " }");
    proof { assert(out@ =~= start + game_error_debug_pieceunavailable(piece)); }
}

fn push_game_error_debug_wronghomeworldshipowner(out: &mut Vec<char>, player: Player, ship: Piece)
    ensures
        final(out)@ == old(out)@ + game_error_debug_wronghomeworldshipowner(player, ship),
{
    let ghost start = out@;
    push_text(out, "WrongHomeworldShipOwner { ");
    push_text(out, "player: ");
    push_player_debug(out, player);
    push_text(out, ", ship: ");
    push_piece_debug(out, ship);
    push_text(out, " }");
    proof { assert(out@ =~= start + game_error_debug_wronghomeworldshipowner(player, ship)); }
}

fn push_game_error_debug_terminal(out: &mut Vec<char>, outcome: GameOutcome)
    ensures
        final(out)@ == old(out)@ + game_error_debug_terminal(outcome),
{
    let ghost start = out@;
    push_text(out, "Terminal { ");
    push_text(out, "outcome: ");
    push_outcome_debug(out, outcome);
    push_text(out, " }");
    proof { assert(out@ =~= start + game_error_debug_terminal(outcome)); }
}

fn push_game_error_debug_turn(out: &mut Vec<char>, x0: TurnError)
    ensures
        final(out)@ == old(out)@ + game_error_debug_turn(x0),
{
    let ghost start = out@;
    push_text(out, "Turn(");
    push_turn_error_debug(out, x0);
    push_text(out, ")");
    proof { assert(out@ =~= start + game_error_debug_turn(x0)); }
}

pub fn push_game_error_debug(out: &mut Vec<char>, e: GameError)
    ensures
        final(out)@ == old(out)@ + game_error_debug(e),
{
    match e {
        GameError::InvalidHomeworld { player, error } => push_game_error_debug_invalidhomeworld(out, player, error),
        GameError::InvalidState(x0) => push_game_error_debug_invalidstate(out, x0),
        GameError::PieceUnavailable { piece } => push_game_error_debug_pieceunavailable(out, piece),
        GameError::WrongHomeworldShipOwner { player, ship } => push_game_error_debug_wronghomeworldshipowner(out, player, ship),
        GameError::Terminal { outcome } => push_game_error_debug_terminal(out, outcome),
        GameError::Turn(x0) => push_game_error_debug_turn(out, x0),
    }
}


} // verus!

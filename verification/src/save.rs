use vstd::prelude::*;

use crate::action::ActionKind;
use crate::bank::{Bank, BankError};
use crate::count::kind_count;
use crate::debug_text::{push_bank_error_debug, push_game_state_error_debug, push_star_system_error_debug};
use crate::game::{Game, GameOutcome, GameStatus, GameView};
use crate::game_state::{board_count, system_views, GameState, GameStateError};
use crate::parser::compact_piece;
use crate::piece::{Color, Piece, Player, Size, SystemId};
use crate::render::push_decimal;
use crate::star_system::{StarSystem, StarSystemError, SystemView};
use crate::text::{char_ascii_lower, is_word, lowercase, push_chars, push_text, string_from_chars, text_chars};
use crate::turn::{TurnState, TurnView};
use crate::validation::count_kind;

verus! {

/// The save format version that this library writes and reads.
pub const SAVE_VERSION: u8 = 1;

/// Text kept with a save: the typed history and commands to replay.
#[derive(Clone, Debug, Default, PartialEq, Eq)]
pub struct SaveExtras {
    pub history: Vec<String>,
    pub commands: Vec<String>,
}

/// A loaded game with the text kept beside it.
#[derive(Clone, Debug, PartialEq, Eq)]
pub struct SavedGame {
    pub game: Game,
    pub history: Vec<String>,
    pub commands: Vec<String>,
}

/// Why a save could not be read or written.
#[derive(Clone, Debug, PartialEq, Eq)]
pub enum SaveError {
    Io { message: String },
    Yaml { message: String },
    UnsupportedVersion { version: u8 },
    InvalidPlayers { players: Vec<String> },
    InvalidPlayerId { value: String },
    InvalidPiece { value: String },
    InvalidShip { value: String },
    InvalidStatus { value: String },
    InvalidActionKind { value: String },
    MissingHomeworld { player: Player },
    InvalidSystem { index: usize, error: StarSystemError },
    InvalidState(GameStateError),
    InvalidBank(BankError),
    BankMismatch { color: Color, size: Size, bank: u8, board: usize, expected_total: u8 },
    InvalidTurn { message: String },
}

/// The counts of one color in a save, by size.
#[derive(Clone, Copy, Debug, PartialEq, Eq)]
pub struct SaveCounts {
    pub small: u8,
    pub medium: u8,
    pub large: u8,
}

/// The bank of a save, by color.
#[derive(Clone, Copy, Debug, PartialEq, Eq)]
pub struct SaveBank {
    pub red: SaveCounts,
    pub yellow: SaveCounts,
    pub green: SaveCounts,
    pub blue: SaveCounts,
}

/// A system of a save: star codes such as `ys`, ship codes such as `p1:gs`.
#[derive(Clone, Debug, PartialEq, Eq)]
pub struct SaveSystem {
    pub stars: Vec<String>,
    pub ships: Vec<String>,
}

/// The turn of a save.
#[derive(Clone, Debug, PartialEq, Eq)]
pub struct SaveTurn {
    pub current_player: String,
    pub remaining_actions: usize,
    pub required_action: Option<String>,
}

/// The status of a save: `in_progress`, `draw`, or a winner.
#[derive(Clone, Debug, PartialEq, Eq)]
pub enum SaveStatus {
    Name(String),
    Winner { winner: String },
}

/// The whole content of a save file.
#[derive(Clone, Debug, PartialEq, Eq)]
pub struct SaveFile {
    pub version: u8,
    pub players: Vec<String>,
    pub turn: SaveTurn,
    pub status: SaveStatus,
    /// The homeworld map, player key to system index: a map, so each key
    /// comes once (see `keys_distinct`); where a key came twice, reading
    /// takes its first entry.
    pub homeworlds: Vec<(String, usize)>,
    pub bank: SaveBank,
    pub systems: Vec<SaveSystem>,
    pub history: Vec<String>,
    pub commands: Vec<String>,
}

/// The player that a save id names, ignoring ASCII case: `p1` or `p2`.
pub open spec fn player_of_id(value: Seq<char>) -> Option<Player> {
    if lowercase(value) == "p1"@ {
        Some(Player::One)
    } else if lowercase(value) == "p2"@ {
        Some(Player::Two)
    } else {
        None
    }
}

/// The id that a save gives a player.
pub open spec fn player_id_text(player: Player) -> Seq<char> {
    match player {
        Player::One => "p1"@,
        Player::Two => "p2"@,
    }
}

/// The required action kind that a save names, ignoring ASCII case; only
/// the kinds a sacrifice can grant.
pub open spec fn kind_of_name(value: Seq<char>) -> Option<ActionKind> {
    if lowercase(value) == "build"@ {
        Some(ActionKind::Build)
    } else if lowercase(value) == "travel"@ {
        Some(ActionKind::Travel)
    } else if lowercase(value) == "trade"@ {
        Some(ActionKind::Trade)
    } else if lowercase(value) == "invade"@ {
        Some(ActionKind::Invade)
    } else {
        None
    }
}

/// The color and size that a piece code names, ignoring ASCII case.
pub open spec fn piece_of_code(value: Seq<char>) -> Option<(Color, Size)> {
    compact_piece(lowercase(value))
}

fn lowered(value: &str) -> (chars: Vec<char>)
    ensures
        chars@ == lowercase(value@),
{
    let source = text_chars(value);
    let mut chars: Vec<char> = Vec::new();
    let mut i: usize = 0;
    while i < source.len()
        invariant
            source@ == value@,
            0 <= i <= source@.len(),
            chars@ == lowercase(source@.take(i as int)),
        decreases source@.len() - i,
    {
        chars.push(char_ascii_lower(source[i]));
        proof {
            assert(lowercase(source@.take(i + 1)) =~= lowercase(source@.take(i as int)).push(
                crate::text::ascii_lower(source@[i as int]),
            ));
        }
        i += 1;
    }
    proof {
        assert(source@.take(source@.len() as int) =~= source@);
    }
    chars
}

fn owned_text(value: &str) -> (text: String)
    ensures
        text@ == value@,
{
    let chars = text_chars(value);
    string_from_chars(chars.as_slice())
}

/// Reads a player id.
pub fn parse_player_id(value: &str) -> (result: Result<Player, SaveError>)
    ensures
        match player_of_id(value@) {
            Some(player) => result == Ok::<Player, SaveError>(player),
            None => result matches Err(SaveError::InvalidPlayerId { value: v }) && v@ == value@,
        },
{
    let lower = lowered(value);
    if is_word(lower.as_slice(), "p1") {
        Ok(Player::One)
    } else if is_word(lower.as_slice(), "p2") {
        Ok(Player::Two)
    } else {
        Err(SaveError::InvalidPlayerId { value: owned_text(value) })
    }
}

/// Reads a required action kind.
pub fn parse_required_action_kind(value: &str) -> (result: Result<ActionKind, SaveError>)
    ensures
        match kind_of_name(value@) {
            Some(kind) => result == Ok::<ActionKind, SaveError>(kind),
            None => result matches Err(SaveError::InvalidActionKind { value: v }) && v@ == value@,
        },
{
    let lower = lowered(value);
    if is_word(lower.as_slice(), "build") {
        Ok(ActionKind::Build)
    } else if is_word(lower.as_slice(), "travel") {
        Ok(ActionKind::Travel)
    } else if is_word(lower.as_slice(), "trade") {
        Ok(ActionKind::Trade)
    } else if is_word(lower.as_slice(), "invade") {
        Ok(ActionKind::Invade)
    } else {
        Err(SaveError::InvalidActionKind { value: owned_text(value) })
    }
}

/// Reads a piece code such as `gs`.
pub fn parse_piece(value: &str) -> (result: Result<(Color, Size), SaveError>)
    ensures
        match piece_of_code(value@) {
            Some(piece) => result == Ok::<(Color, Size), SaveError>(piece),
            None => result matches Err(SaveError::InvalidPiece { value: v }) && v@ == value@,
        },
{
    let lower = lowered(value);
    if lower.len() == 2 {
        let color = match lower[0] {
            'r' => Some(Color::Red),
            'y' => Some(Color::Yellow),
            'g' => Some(Color::Green),
            'b' => Some(Color::Blue),
            _ => None,
        };
        let size = match lower[1] {
            's' => Some(Size::Small),
            'm' => Some(Size::Medium),
            'l' => Some(Size::Large),
            _ => None,
        };
        if let (Some(color), Some(size)) = (color, size) {
            return Ok((color, size));
        }
    }
    Err(SaveError::InvalidPiece { value: owned_text(value) })
}

/// The position of the first `:` in a text.
pub open spec fn colon_from(s: Seq<char>, i: int) -> Option<int>
    decreases s.len() - i,
{
    if i < 0 || i >= s.len() {
        None
    } else if s[i] == ':' {
        Some(i)
    } else {
        colon_from(s, i + 1)
    }
}

/// What a ship code such as `p1:gs` reads as: its owner id must name a
/// player, then its piece must be a piece code.
pub open spec fn ship_of_code(value: Seq<char>) -> Result<Piece, Option<Seq<char>>> {
    match colon_from(value, 0) {
        None => Err(None),
        Some(k) => match player_of_id(value.take(k)) {
            None => Err(Some(value.take(k))),
            Some(player) => match piece_of_code(value.skip(k + 1)) {
                None => Err(None),
                Some((color, size)) => Ok(Piece::make(color, size, Some(player))),
            },
        },
    }
}

/// Reads a ship code; a bad owner id is reported as such, any other fault
/// as a bad ship.
pub fn parse_ship(value: &str) -> (result: Result<Piece, SaveError>)
    ensures
        match ship_of_code(value@) {
            Ok(ship) => result == Ok::<Piece, SaveError>(ship),
            Err(Some(id)) => result matches Err(SaveError::InvalidPlayerId { value: v }) && v@ == id,
            Err(None) => result matches Err(SaveError::InvalidShip { value: v }) && v@ == value@,
        },
{
    let chars = text_chars(value);
    let mut k: usize = 0;
    while k < chars.len() && chars[k] != ':'
        invariant
            chars@ == value@,
            0 <= k <= chars@.len(),
            colon_from(value@, 0) == colon_from(value@, k as int),
        decreases chars@.len() - k,
    {
        k += 1;
    }
    if k >= chars.len() {
        return Err(SaveError::InvalidShip { value: owned_text(value) });
    }
    let mut head: Vec<char> = Vec::new();
    let mut tail: Vec<char> = Vec::new();
    let mut i: usize = 0;
    while i < chars.len()
        invariant
            chars@ == value@,
            k < chars@.len(),
            0 <= i <= chars@.len(),
            head@ == value@.take(if i < k { i as int } else { k as int }),
            tail@ == if i <= k + 1 { Seq::<char>::empty() } else { value@.subrange(k + 1, i as int) },
        decreases chars@.len() - i,
    {
        if i < k {
            head.push(chars[i]);
            proof {
                assert(value@.take(i + 1) =~= value@.take(i as int).push(value@[i as int]));
            }
        } else if i > k {
            tail.push(chars[i]);
            proof {
                if i == k + 1 {
                    assert(value@.subrange(k + 1, i + 1) =~= seq![value@[i as int]]);
                } else {
                    assert(value@.subrange(k + 1, i + 1) =~= value@.subrange(k + 1, i as int).push(value@[i as int]));
                }
            }
        }
        i += 1;
    }
    proof {
        assert(value@.skip(k + 1) =~= tail@);
    }
    let head_text = string_from_chars(head.as_slice());
    let tail_text = string_from_chars(tail.as_slice());
    let player = parse_player_id(head_text.as_str())?;
    match parse_piece(tail_text.as_str()) {
        Ok((color, size)) => Ok(Piece::owned(color, size, player)),
        Err(_) => Err(SaveError::InvalidShip { value: owned_text(value) }),
    }
}

/// The checks of a saved turn, in order.
pub open spec fn turn_parts_error(remaining: usize, required: Option<ActionKind>) -> Option<Seq<char>> {
    if remaining > 3 {
        Some("remaining actions cannot exceed 3"@)
    } else if remaining == 0 && required is Some {
        Some("required action must be null when no actions remain"@)
    } else if remaining > 1 && required is None {
        Some("multi-action turns require a required action"@)
    } else {
        None
    }
}

/// Checks a saved turn's budget against its required kind.
pub fn validate_turn_parts(remaining_actions: usize, required_action: Option<ActionKind>) -> (result: Result<(), SaveError>)
    ensures
        match turn_parts_error(remaining_actions, required_action) {
            None => result is Ok,
            Some(m) => result matches Err(SaveError::InvalidTurn { message }) && message@ == m,
        },
{
    if remaining_actions > 3 {
        return Err(SaveError::InvalidTurn { message: owned_text("remaining actions cannot exceed 3") });
    }
    if remaining_actions == 0 && required_action.is_some() {
        return Err(SaveError::InvalidTurn { message: owned_text("required action must be null when no actions remain") });
    }
    if remaining_actions > 1 && required_action.is_none() {
        return Err(SaveError::InvalidTurn { message: owned_text("multi-action turns require a required action") });
    }
    Ok(())
}

/// Whether the bank and the board together hold the full number of copies
/// of this color and size.
pub open spec fn kind_balanced(systems: Seq<SystemView>, bank: Bank, color: Color, size: Size) -> bool {
    bank.spec_count(color, size) as nat + board_count(systems, color, size) == 3
}

/// The number of pieces of the color and size on the board.
fn board_kind_count(systems: &[StarSystem], color: Color, size: Size) -> (n: usize)
    ensures
        n as nat == board_count(system_views(systems@), color, size) || n == usize::MAX,
        board_count(system_views(systems@), color, size) < usize::MAX ==> n as nat == board_count(system_views(systems@), color, size),
{
    let ghost views = system_views(systems@);
    let mut n: usize = 0;
    let mut i: usize = 0;
    while i < systems.len()
        invariant
            views == system_views(systems@),
            0 <= i <= systems@.len(),
            n as nat == board_count(views.take(i as int), color, size) || (n == usize::MAX && board_count(views.take(i as int), color, size) >= usize::MAX),
        decreases systems@.len() - i,
    {
        proof {
            crate::game_state::lemma_board_count_take_step(views, i as int, color, size);
            assert(systems@[i as int]@ == views[i as int]);
        }
        let stars = count_kind(systems[i].stars(), color, size);
        let ships = count_kind(systems[i].ships(), color, size);
        n = if n == usize::MAX {
            usize::MAX
        } else {
            n.saturating_add(stars).saturating_add(ships)
        };
        i += 1;
    }
    proof {
        assert(views.take(systems@.len() as int) =~= views);
        if board_count(views, color, size) < usize::MAX {
            assert(n as nat == board_count(views, color, size));
        }
    }
    n
}

/// Checks that the bank and the board together hold exactly three pieces of
/// A count, or the largest `usize` when it does not fit.
pub open spec fn capped_count(n: nat) -> usize {
    if n < usize::MAX {
        n as usize
    } else {
        usize::MAX
    }
}

/// Whether the kind is the first, colors then sizes in order, whose saved
/// bank count and board count do not make three.
pub open spec fn first_unbalanced(systems: Seq<SystemView>, bank: SaveBank, color: Color, size: Size) -> bool {
    &&& bank.spec_count(color, size) as nat + board_count(systems, color, size) != 3
    &&& forall|c: Color, s: Size| crate::bank::kind_rank(c, s) < crate::bank::kind_rank(color, size)
        ==> bank.spec_count(c, s) as nat + #[trigger] board_count(systems, c, s) == 3
}

/// What is wrong with a saved bank beside its board: the first kind whose
/// bank and board counts do not make three.
pub open spec fn balance_fault(systems: Seq<SystemView>, bank: SaveBank) -> Option<LoadFault> {
    if exists|c: Color, s: Size| #[trigger] first_unbalanced(systems, bank, c, s) {
        let (c, s) = choose|c: Color, s: Size| #[trigger] first_unbalanced(systems, bank, c, s);
        Some(
            LoadFault::BankMismatch {
                color: c,
                size: s,
                bank: bank.spec_count(c, s),
                board: capped_count(board_count(systems, c, s)),
                expected_total: 3,
            },
        )
    } else {
        None
    }
}

/// The first unbalanced kind is only one.
pub proof fn lemma_first_unbalanced_unique(
    systems: Seq<SystemView>,
    bank: SaveBank,
    c1: Color,
    s1: Size,
    c2: Color,
    s2: Size,
)
    requires
        first_unbalanced(systems, bank, c1, s1),
        first_unbalanced(systems, bank, c2, s2),
    ensures
        c1 == c2,
        s1 == s2,
{
    if crate::bank::kind_rank(c1, s1) < crate::bank::kind_rank(c2, s2) {
        assert(bank.spec_count(c1, s1) as nat + board_count(systems, c1, s1) == 3);
    } else if crate::bank::kind_rank(c2, s2) < crate::bank::kind_rank(c1, s1) {
        assert(bank.spec_count(c2, s2) as nat + board_count(systems, c2, s2) == 3);
    } else {
        lemma_kind_rank_distinct(c1, s1, c2, s2);
    }
}

/// every color and size; the first color and size that do not is reported.
pub fn verify_bank(systems: &[StarSystem], bank: &Bank) -> (result: Result<(), SaveError>)
    ensures
        result is Ok <==> forall|c: Color, s: Size| #[trigger] kind_balanced(system_views(systems@), *bank, c, s),
        result matches Err(SaveError::BankMismatch { color, size, bank: b, board, expected_total }) ==> {
            &&& !kind_balanced(system_views(systems@), *bank, color, size)
            &&& b == bank.spec_count(color, size)
            &&& expected_total == 3
            &&& board == capped_count(board_count(system_views(systems@), color, size))
            &&& forall|c: Color, s: Size| crate::bank::kind_rank(c, s) < crate::bank::kind_rank(color, size) ==> #[trigger] kind_balanced(system_views(systems@), *bank, c, s)
        },
        result is Err ==> result matches Err(SaveError::BankMismatch { .. }),
{
    let ghost views = system_views(systems@);
    let mut ci: usize = 0;
    while ci < 4
        invariant
            views == system_views(systems@),
            0 <= ci <= 4,
            forall|c: Color, s: Size| c.spec_index() < ci ==> #[trigger] kind_balanced(views, *bank, c, s),
        decreases 4 - ci,
    {
        let color = if ci == 0 {
            Color::Red
        } else if ci == 1 {
            Color::Yellow
        } else if ci == 2 {
            Color::Green
        } else {
            Color::Blue
        };
        let mut si: usize = 0;
        while si < 3
            invariant
                views == system_views(systems@),
                0 <= ci < 4,
                color.spec_index() == ci,
                0 <= si <= 3,
                forall|c: Color, s: Size| (c.spec_index() < ci || (c == color && s.spec_index() < si)) ==> #[trigger] kind_balanced(views, *bank, c, s),
            decreases 3 - si,
        {
            let size = if si == 0 {
                Size::Small
            } else if si == 1 {
                Size::Medium
            } else {
                Size::Large
            };
            let board = board_kind_count(systems, color, size);
            let count = bank.count(color, size);
            if board > 3 || count as usize + board != 3 {
                proof {
                    assert(!kind_balanced(views, *bank, color, size));
                }
                return Err(SaveError::BankMismatch { color, size, bank: count, board, expected_total: 3 });
            }
            si += 1;
        }
        ci += 1;
    }
    Ok(())
}

/// Whether the save's player list is exactly `p1` and `p2`, in any order
/// and ASCII case.
pub open spec fn players_valid(ids: Seq<Seq<char>>) -> bool {
    &&& forall|i: int| 0 <= i < ids.len() ==> #[trigger] player_of_id(ids[i]) is Some
    &&& ids.len() == 2
    &&& exists|i: int| 0 <= i < ids.len() && #[trigger] player_of_id(ids[i]) == Some(Player::One)
    &&& exists|i: int| 0 <= i < ids.len() && #[trigger] player_of_id(ids[i]) == Some(Player::Two)
}

/// The texts of a list of strings.
pub open spec fn string_views(strings: Seq<String>) -> Seq<Seq<char>> {
    strings.map_values(|s: String| s@)
}

/// Why a save does not read as a game, texts taken as characters.
pub ghost enum LoadFault {
    Io { message: Seq<char> },
    Yaml { message: Seq<char> },
    UnsupportedVersion { version: u8 },
    InvalidPlayers { players: Seq<Seq<char>> },
    InvalidPlayerId { value: Seq<char> },
    InvalidPiece { value: Seq<char> },
    InvalidShip { value: Seq<char> },
    InvalidStatus { value: Seq<char> },
    InvalidActionKind { value: Seq<char> },
    MissingHomeworld { player: Player },
    InvalidSystem { index: usize, error: StarSystemError },
    InvalidState(GameStateError),
    InvalidBank(BankError),
    BankMismatch { color: Color, size: Size, bank: u8, board: usize, expected_total: u8 },
    InvalidTurn { message: Seq<char> },
}

/// The fault that an error reports.
pub open spec fn fault_of(error: SaveError) -> LoadFault {
    match error {
        SaveError::Io { message } => LoadFault::Io { message: message@ },
        SaveError::Yaml { message } => LoadFault::Yaml { message: message@ },
        SaveError::UnsupportedVersion { version } => LoadFault::UnsupportedVersion { version },
        SaveError::InvalidPlayers { players } => LoadFault::InvalidPlayers { players: string_views(players@) },
        SaveError::InvalidPlayerId { value } => LoadFault::InvalidPlayerId { value: value@ },
        SaveError::InvalidPiece { value } => LoadFault::InvalidPiece { value: value@ },
        SaveError::InvalidShip { value } => LoadFault::InvalidShip { value: value@ },
        SaveError::InvalidStatus { value } => LoadFault::InvalidStatus { value: value@ },
        SaveError::InvalidActionKind { value } => LoadFault::InvalidActionKind { value: value@ },
        SaveError::MissingHomeworld { player } => LoadFault::MissingHomeworld { player },
        SaveError::InvalidSystem { index, error } => LoadFault::InvalidSystem { index, error },
        SaveError::InvalidState(e) => LoadFault::InvalidState(e),
        SaveError::InvalidBank(e) => LoadFault::InvalidBank(e),
        SaveError::BankMismatch { color, size, bank, board, expected_total } => LoadFault::BankMismatch {
            color,
            size,
            bank,
            board,
            expected_total,
        },
        SaveError::InvalidTurn { message } => LoadFault::InvalidTurn { message: message@ },
    }
}

/// Whether the result is the fault, or success when there is none.
pub open spec fn reports(result: Result<(), SaveError>, fault: Option<LoadFault>) -> bool {
    match fault {
        None => result is Ok,
        Some(f) => result matches Err(e) && fault_of(e) == f,
    }
}

/// The first id from `i` on that names no player.
pub open spec fn first_bad_id(ids: Seq<Seq<char>>, i: int) -> Option<int>
    decreases ids.len() - i,
{
    if i < 0 || i >= ids.len() {
        None
    } else if player_of_id(ids[i]) is None {
        Some(i)
    } else {
        first_bad_id(ids, i + 1)
    }
}

/// What is wrong with a player list: the first id that names no player, or
/// a list that is not the two players.
pub open spec fn players_fault(ids: Seq<Seq<char>>) -> Option<LoadFault> {
    match first_bad_id(ids, 0) {
        Some(k) => Some(LoadFault::InvalidPlayerId { value: ids[k] }),
        None => if players_valid(ids) {
            None
        } else {
            Some(LoadFault::InvalidPlayers { players: ids })
        },
    }
}

/// Checks the player list; an id that names no player is reported first.
pub fn validate_players(players: &Vec<String>) -> (result: Result<(), SaveError>)
    ensures
        result is Ok <==> players_valid(string_views(players@)),
        reports(result, players_fault(string_views(players@))),
{
    let ghost ids = string_views(players@);
    let mut has_one = false;
    let mut has_two = false;
    let mut i: usize = 0;
    while i < players.len()
        invariant
            ids == string_views(players@),
            0 <= i <= players@.len(),
            forall|k: int| 0 <= k < i ==> #[trigger] player_of_id(ids[k]) is Some,
            first_bad_id(ids, 0) == first_bad_id(ids, i as int),
            has_one <==> exists|k: int| 0 <= k < i && #[trigger] player_of_id(ids[k]) == Some(Player::One),
            has_two <==> exists|k: int| 0 <= k < i && #[trigger] player_of_id(ids[k]) == Some(Player::Two),
        decreases players@.len() - i,
    {
        assert(players@[i as int]@ == ids[i as int]);
        match parse_player_id(players[i].as_str()) {
            Ok(Player::One) => {
                has_one = true;
            },
            Ok(Player::Two) => {
                has_two = true;
            },
            Err(error) => {
                return Err(error);
            },
        }
        i += 1;
    }
    if players.len() != 2 || !has_one || !has_two {
        return Err(SaveError::InvalidPlayers { players: copy_strings(players) });
    }
    Ok(())
}

/// The homeworld that the save's map gives the player: the first entry whose
/// key is the player's id.
pub open spec fn homeworld_entry(entries: Seq<(Seq<char>, usize)>, player: Player, i: int) -> Option<usize>
    decreases entries.len() - i,
{
    if i < 0 || i >= entries.len() {
        None
    } else if entries[i].0 == player_id_text(player) {
        Some(entries[i].1)
    } else {
        homeworld_entry(entries, player, i + 1)
    }
}

/// The views of the homeworld entries.
pub open spec fn entry_views(entries: Seq<(String, usize)>) -> Seq<(Seq<char>, usize)> {
    entries.map_values(|e: (String, usize)| (e.0@, e.1))
}

/// The player's homeworld from the save's map.
pub fn homeworld(homeworlds: &Vec<(String, usize)>, player: Player) -> (result: Result<SystemId, SaveError>)
    ensures
        match homeworld_entry(entry_views(homeworlds@), player, 0) {
            Some(index) => result == Ok::<SystemId, SaveError>(SystemId(index)),
            None => result == Err::<SystemId, SaveError>(SaveError::MissingHomeworld { player }),
        },
{
    let ghost entries = entry_views(homeworlds@);
    let key = match player {
        Player::One => "p1",
        Player::Two => "p2",
    };
    let mut i: usize = 0;
    while i < homeworlds.len()
        invariant
            entries == entry_views(homeworlds@),
            key@ == player_id_text(player),
            0 <= i <= homeworlds@.len(),
            homeworld_entry(entries, player, 0) == homeworld_entry(entries, player, i as int),
        decreases homeworlds@.len() - i,
    {
        let entry = &homeworlds[i];
        assert(entries[i as int] == (entry.0@, entry.1));
        let name = text_chars(entry.0.as_str());
        if is_word(name.as_slice(), key) {
            return Ok(SystemId::new(entry.1));
        }
        i += 1;
    }
    Err(SaveError::MissingHomeworld { player })
}

/// The unowned stars that a system's codes name.
pub open spec fn decoded_stars(codes: Seq<String>) -> Seq<Piece> {
    Seq::new(
        codes.len(),
        |i: int| Piece::make(piece_of_code(codes[i]@).unwrap().0, piece_of_code(codes[i]@).unwrap().1, None),
    )
}

/// The ship that a code names, when it names one.
pub open spec fn decoded_ship(code: Seq<char>) -> Piece {
    match ship_of_code(code) {
        Ok(ship) => ship,
        Err(_) => Piece::make(Color::Red, Size::Small, None),
    }
}

/// The ships that a system's codes name.
pub open spec fn decoded_ships(codes: Seq<String>) -> Seq<Piece> {
    Seq::new(codes.len(), |i: int| decoded_ship(codes[i]@))
}

/// The system that a saved system describes.
pub open spec fn decoded_system(system: SaveSystem) -> SystemView {
    SystemView { stars: decoded_stars(system.stars@), ships: decoded_ships(system.ships@) }
}

/// Whether a saved system reads back: every code names a piece, and the
/// pieces make a valid system.
pub open spec fn system_reads(system: SaveSystem) -> bool {
    &&& forall|i: int| 0 <= i < system.stars@.len() ==> piece_of_code(#[trigger] system.stars@[i]@) is Some
    &&& forall|i: int| 0 <= i < system.ships@.len() ==> ship_of_code(#[trigger] system.ships@[i]@) is Ok
    &&& crate::star_system::system_error(decoded_stars(system.stars@), decoded_ships(system.ships@)) is None
}

/// The systems that a save describes.
pub open spec fn decoded_systems(systems: Seq<SaveSystem>) -> Seq<SystemView> {
    systems.map_values(|system: SaveSystem| decoded_system(system))
}

/// The status that a save names, if it names one.
pub open spec fn status_of_save(status: SaveStatus) -> Option<GameStatus> {
    match status {
        SaveStatus::Name(name) => if name@ == "in_progress"@ {
            Some(GameStatus::InProgress)
        } else if name@ == "draw"@ {
            Some(GameStatus::Finished(GameOutcome::Draw))
        } else {
            None
        },
        SaveStatus::Winner { winner } => match player_of_id(winner@) {
            Some(p) => Some(GameStatus::Finished(GameOutcome::Winner(p))),
            None => None,
        },
    }
}

/// The required kind that a saved turn names: none, a kind, or, when the
/// name is not a kind, nothing at all.
pub open spec fn required_of_save(turn: SaveTurn) -> Option<Option<ActionKind>> {
    match turn.required_action {
        None => Some(None),
        Some(name) => match kind_of_name(name@) {
            Some(kind) => Some(Some(kind)),
            None => None,
        },
    }
}

/// Whether a saved turn reads back: a player id, a known required kind,
/// and a budget that fits it.
pub open spec fn turn_reads(turn: SaveTurn) -> bool {
    &&& player_of_id(turn.current_player@) is Some
    &&& required_of_save(turn) is Some
    &&& turn_parts_error(turn.remaining_actions, required_of_save(turn).unwrap()) is None
}

/// Whether a save reads back as a game: the version, the two player ids,
/// every homeworld key an id, every system readable, every bank count at
/// most three and every color and size three in all, both homeworlds named
/// and distinct systems of the board, and a readable turn and status.
pub open spec fn save_reads(f: SaveFile) -> bool {
    let entries = entry_views(f.homeworlds@);
    let one = homeworld_entry(entries, Player::One, 0);
    let two = homeworld_entry(entries, Player::Two, 0);
    &&& f.version == SAVE_VERSION
    &&& players_valid(string_views(f.players@))
    &&& forall|k: int| 0 <= k < f.homeworlds@.len() ==> player_of_id(#[trigger] f.homeworlds@[k].0@) is Some
    &&& forall|i: int| 0 <= i < f.systems@.len() ==> system_reads(#[trigger] f.systems@[i])
    &&& forall|c: Color, z: Size| #[trigger] f.bank.spec_count(c, z) <= 3
    &&& forall|c: Color, z: Size|
        f.bank.spec_count(c, z) as nat + #[trigger] board_count(decoded_systems(f.systems@), c, z) == 3
    &&& one is Some
    &&& two is Some
    &&& one.unwrap() < f.systems@.len()
    &&& two.unwrap() < f.systems@.len()
    &&& one.unwrap() != two.unwrap()
    &&& turn_reads(f.turn)
    &&& status_of_save(f.status) is Some
}

/// The first star code from `i` on that names no piece.
pub open spec fn first_bad_star(codes: Seq<String>, i: int) -> Option<int>
    decreases codes.len() - i,
{
    if i < 0 || i >= codes.len() {
        None
    } else if piece_of_code(codes[i]@) is None {
        Some(i)
    } else {
        first_bad_star(codes, i + 1)
    }
}

/// The first ship code from `i` on that does not read as a ship.
pub open spec fn first_bad_ship(codes: Seq<String>, i: int) -> Option<int>
    decreases codes.len() - i,
{
    if i < 0 || i >= codes.len() {
        None
    } else if ship_of_code(codes[i]@) is Err {
        Some(i)
    } else {
        first_bad_ship(codes, i + 1)
    }
}

/// What is wrong with a saved system: the first star code that names no
/// piece, else the first ship code that does not read (its owner id, or the
/// whole code), else the system rule that the pieces break.
pub open spec fn system_fault(system: SaveSystem, index: usize) -> Option<LoadFault> {
    match first_bad_star(system.stars@, 0) {
        Some(k) => Some(LoadFault::InvalidPiece { value: system.stars@[k]@ }),
        None => match first_bad_ship(system.ships@, 0) {
            Some(k) => match ship_of_code(system.ships@[k]@) {
                Err(Some(id)) => Some(LoadFault::InvalidPlayerId { value: id }),
                _ => Some(LoadFault::InvalidShip { value: system.ships@[k]@ }),
            },
            None => match crate::star_system::system_error(decoded_stars(system.stars@), decoded_ships(system.ships@)) {
                Some(e) => Some(LoadFault::InvalidSystem { index, error: e }),
                None => None,
            },
        },
    }
}

impl SaveSystem {
    /// The system that the save describes; `index` names it in errors.
    pub fn to_system(&self, index: usize) -> (result: Result<StarSystem, SaveError>)
        ensures
            result is Ok <==> system_reads(*self),
            result is Ok <==> system_fault(*self, index) is None,
            result matches Err(e) ==> system_fault(*self, index) == Some(fault_of(e)),
            result matches Ok(system) ==> system@ == decoded_system(*self),
            result matches Ok(system) ==> system@.wf() && system@.stars.len() == self.stars@.len()
                && system@.ships.len() == self.ships@.len()
                && (forall|i: int| 0 <= i < self.stars@.len() ==> Some((system@.stars[i].color, system@.stars[i].size)) == piece_of_code(#[trigger] self.stars@[i]@) && system@.stars[i].owner is None)
                && (forall|i: int| 0 <= i < self.ships@.len() ==> ship_of_code(#[trigger] self.ships@[i]@) == Ok::<Piece, Option<Seq<char>>>(system@.ships[i])),
    {
        let mut stars: Vec<Piece> = Vec::new();
        let mut i: usize = 0;
        while i < self.stars.len()
            invariant
                0 <= i <= self.stars@.len(),
                stars@.len() == i,
                forall|k: int| 0 <= k < i ==> Some((stars@[k].color, stars@[k].size)) == piece_of_code(#[trigger] self.stars@[k]@) && stars@[k].owner is None,
                forall|k: int| 0 <= k < i ==> piece_of_code(#[trigger] self.stars@[k]@) is Some,
                stars@ =~= decoded_stars(self.stars@).take(i as int),
                first_bad_star(self.stars@, 0) == first_bad_star(self.stars@, i as int),
            decreases self.stars@.len() - i,
        {
            let (color, size) = parse_piece(self.stars[i].as_str())?;
            stars.push(Piece::new(color, size));
            i += 1;
        }
        assert(decoded_stars(self.stars@).take(self.stars@.len() as int) =~= decoded_stars(self.stars@));
        let mut ships: Vec<Piece> = Vec::new();
        let mut j: usize = 0;
        while j < self.ships.len()
            invariant
                0 <= j <= self.ships@.len(),
                ships@.len() == j,
                forall|k: int| 0 <= k < j ==> ship_of_code(#[trigger] self.ships@[k]@) == Ok::<Piece, Option<Seq<char>>>(ships@[k]),
                forall|k: int| 0 <= k < self.stars@.len() ==> piece_of_code(#[trigger] self.stars@[k]@) is Some,
                stars@ == decoded_stars(self.stars@),
                ships@ =~= decoded_ships(self.ships@).take(j as int),
                first_bad_star(self.stars@, 0) is None,
                first_bad_ship(self.ships@, 0) == first_bad_ship(self.ships@, j as int),
            decreases self.ships@.len() - j,
        {
            let ship = parse_ship(self.ships[j].as_str())?;
            ships.push(ship);
            j += 1;
        }
        assert(decoded_ships(self.ships@).take(self.ships@.len() as int) =~= decoded_ships(self.ships@));
        assert(first_bad_ship(self.ships@, 0) is None);
        match StarSystem::new(stars, ships) {
            Ok(system) => Ok(system),
            Err(error) => Err(SaveError::InvalidSystem { index, error }),
        }
    }
}

impl SaveCounts {
    /// The count of one size.
    pub fn count(self, size: Size) -> (n: u8)
        ensures
            n == match size {
                Size::Small => self.small,
                Size::Medium => self.medium,
                Size::Large => self.large,
            },
    {
        match size {
            Size::Small => self.small,
            Size::Medium => self.medium,
            Size::Large => self.large,
        }
    }

    fn from_bank(bank: &Bank, color: Color) -> (counts: SaveCounts)
        ensures
            counts.small == bank.spec_count(color, Size::Small),
            counts.medium == bank.spec_count(color, Size::Medium),
            counts.large == bank.spec_count(color, Size::Large),
    {
        SaveCounts {
            small: bank.count(color, Size::Small),
            medium: bank.count(color, Size::Medium),
            large: bank.count(color, Size::Large),
        }
    }
}

/// Distinct kinds have distinct ranks.
pub proof fn lemma_kind_rank_distinct(c1: Color, s1: Size, c2: Color, s2: Size)
    requires
        crate::bank::kind_rank(c1, s1) == crate::bank::kind_rank(c2, s2),
    ensures
        c1 == c2,
        s1 == s2,
{
}

/// Whether the kind is the first, colors then sizes in order, whose saved
/// count is above three.
pub open spec fn first_excess(bank: SaveBank, color: Color, size: Size) -> bool {
    &&& bank.spec_count(color, size) > 3
    &&& forall|c: Color, s: Size| crate::bank::kind_rank(c, s) < crate::bank::kind_rank(color, size) ==> #[trigger] bank.spec_count(c, s) <= 3
}

/// What is wrong with a saved bank: its first count above three.
pub open spec fn bank_fault(bank: SaveBank) -> Option<LoadFault> {
    if exists|c: Color, s: Size| #[trigger] first_excess(bank, c, s) {
        let (c, s) = choose|c: Color, s: Size| #[trigger] first_excess(bank, c, s);
        Some(LoadFault::InvalidBank(BankError::TooManyPieces { color: c, size: s, count: bank.spec_count(c, s), max: 3 }))
    } else {
        None
    }
}

/// The first kind above three is only one.
pub proof fn lemma_first_excess_unique(bank: SaveBank, c1: Color, s1: Size, c2: Color, s2: Size)
    requires
        first_excess(bank, c1, s1),
        first_excess(bank, c2, s2),
    ensures
        c1 == c2,
        s1 == s2,
{
    if crate::bank::kind_rank(c1, s1) < crate::bank::kind_rank(c2, s2) {
        assert(bank.spec_count(c1, s1) <= 3);
    } else if crate::bank::kind_rank(c2, s2) < crate::bank::kind_rank(c1, s1) {
        assert(bank.spec_count(c2, s2) <= 3);
    } else {
        lemma_kind_rank_distinct(c1, s1, c2, s2);
    }
}

impl SaveBank {
    /// The count that the save gives a color and size.
    pub open spec fn spec_count(self, color: Color, size: Size) -> u8 {
        let counts = match color {
            Color::Red => self.red,
            Color::Yellow => self.yellow,
            Color::Green => self.green,
            Color::Blue => self.blue,
        };
        match size {
            Size::Small => counts.small,
            Size::Medium => counts.medium,
            Size::Large => counts.large,
        }
    }

    pub fn count(&self, color: Color, size: Size) -> (n: u8)
        ensures
            n == self.spec_count(color, size),
    {
        let counts = match color {
            Color::Red => self.red,
            Color::Yellow => self.yellow,
            Color::Green => self.green,
            Color::Blue => self.blue,
        };
        counts.count(size)
    }

    /// The bank of the save; a count above three is refused.
    pub fn to_bank(&self) -> (result: Result<Bank, SaveError>)
        ensures
            result matches Ok(bank) ==> forall|c: Color, s: Size| #[trigger] bank.spec_count(c, s) == self.spec_count(c, s),
            result is Ok <==> forall|c: Color, s: Size| #[trigger] self.spec_count(c, s) <= 3,
            result is Err ==> result matches Err(SaveError::InvalidBank(_)),
            result matches Err(e) ==> bank_fault(*self) == Some(fault_of(e)),
            result is Ok ==> bank_fault(*self) is None,
    {
        let counts: [[u8; 3]; 4] = [
            [self.red.small, self.red.medium, self.red.large],
            [self.yellow.small, self.yellow.medium, self.yellow.large],
            [self.green.small, self.green.medium, self.green.large],
            [self.blue.small, self.blue.medium, self.blue.large],
        ];
        proof {
            assert forall|c: Color, s: Size| #[trigger] crate::bank::table_count(counts, c, s) == self.spec_count(c, s) by {}
        }
        match Bank::from_counts(counts) {
            Ok(bank) => {
                proof {
                    assert forall|c: Color, z: Size| #[trigger] self.spec_count(c, z) <= 3 by {
                        assert(crate::bank::table_count(counts, c, z) == self.spec_count(c, z));
                    }
                    assert forall|c: Color, z: Size| !#[trigger] first_excess(*self, c, z) by {
                        assert(self.spec_count(c, z) <= 3);
                    }
                }
                Ok(bank)
            },
            Err(error) => {
                proof {
                    let (c, z) = choose|c: Color, z: Size|
                        crate::bank::table_excess(counts, c, z) && error == BankError::TooManyPieces {
                            color: c,
                            size: z,
                            count: crate::bank::table_count(counts, c, z),
                            max: crate::bank::spec_copies_per_piece(),
                        };
                    assert(crate::bank::table_count(counts, c, z) == self.spec_count(c, z));
                    assert(!(self.spec_count(c, z) <= 3));
                    assert forall|c2: Color, z2: Size| crate::bank::kind_rank(c2, z2) < crate::bank::kind_rank(c, z) implies #[trigger] self.spec_count(c2, z2) <= 3 by {
                        assert(crate::bank::table_count(counts, c2, z2) == self.spec_count(c2, z2));
                    }
                    assert(first_excess(*self, c, z));
                    let (c3, z3) = choose|c3: Color, z3: Size| #[trigger] first_excess(*self, c3, z3);
                    lemma_first_excess_unique(*self, c, z, c3, z3);
                }
                Err(SaveError::InvalidBank(error))
            },
        }
    }

    fn from_bank(bank: &Bank) -> (save: SaveBank)
        ensures
            forall|c: Color, s: Size| #[trigger] save.spec_count(c, s) == bank.spec_count(c, s),
    {
        SaveBank {
            red: SaveCounts::from_bank(bank, Color::Red),
            yellow: SaveCounts::from_bank(bank, Color::Yellow),
            green: SaveCounts::from_bank(bank, Color::Green),
            blue: SaveCounts::from_bank(bank, Color::Blue),
        }
    }
}

impl SaveStatus {
    /// The status that the save names: `in_progress`, `draw`, or a winner id.
    pub fn to_status(&self) -> (result: Result<GameStatus, SaveError>)
        ensures
            match self {
                SaveStatus::Name(name) => if name@ == "in_progress"@ {
                    result == Ok::<GameStatus, SaveError>(GameStatus::InProgress)
                } else if name@ == "draw"@ {
                    result == Ok::<GameStatus, SaveError>(GameStatus::Finished(GameOutcome::Draw))
                } else {
                    result matches Err(SaveError::InvalidStatus { value }) && value@ == name@
                },
                SaveStatus::Winner { winner } => match player_of_id(winner@) {
                    Some(p) => result == Ok::<GameStatus, SaveError>(GameStatus::Finished(GameOutcome::Winner(p))),
                    None => result matches Err(SaveError::InvalidPlayerId { value }) && value@ == winner@,
                },
            },
    {
        match self {
            SaveStatus::Name(name) => {
                let chars = text_chars(name.as_str());
                if is_word(chars.as_slice(), "in_progress") {
                    Ok(GameStatus::InProgress)
                } else if is_word(chars.as_slice(), "draw") {
                    Ok(GameStatus::Finished(GameOutcome::Draw))
                } else {
                    Err(SaveError::InvalidStatus { value: owned_text(name.as_str()) })
                }
            },
            SaveStatus::Winner { winner } => {
                let player = parse_player_id(winner.as_str())?;
                Ok(GameStatus::Finished(GameOutcome::Winner(player)))
            },
        }
    }

    /// How a save writes a status.
    pub fn from_status(status: GameStatus) -> (save: SaveStatus)
        ensures
            match status {
                GameStatus::InProgress => save matches SaveStatus::Name(n) && n@ == "in_progress"@,
                GameStatus::Finished(GameOutcome::Draw) => save matches SaveStatus::Name(n) && n@ == "draw"@,
                GameStatus::Finished(GameOutcome::Winner(p)) => save matches SaveStatus::Winner { winner } && winner@ == player_id_text(p),
            },
    {
        match status {
            GameStatus::InProgress => SaveStatus::Name(owned_text("in_progress")),
            GameStatus::Finished(GameOutcome::Draw) => SaveStatus::Name(owned_text("draw")),
            GameStatus::Finished(GameOutcome::Winner(player)) => SaveStatus::Winner { winner: owned_text(player_id(player)) },
        }
    }
}

/// The id that a save gives a player.
pub fn player_id(player: Player) -> (id: &'static str)
    ensures
        id@ == player_id_text(player),
{
    match player {
        Player::One => "p1",
        Player::Two => "p2",
    }
}

/// The name that a save gives a required action kind.
pub open spec fn kind_name_text(kind: ActionKind) -> Seq<char> {
    match kind {
        ActionKind::Build => "build"@,
        ActionKind::Travel => "travel"@,
        ActionKind::Trade => "trade"@,
        ActionKind::Invade => "invade"@,
        ActionKind::Sacrifice => "sacrifice"@,
        ActionKind::Catastrophe => "catastrophe"@,
    }
}

pub fn action_kind_name(kind: ActionKind) -> (name: &'static str)
    ensures
        name@ == kind_name_text(kind),
{
    match kind {
        ActionKind::Build => "build",
        ActionKind::Travel => "travel",
        ActionKind::Trade => "trade",
        ActionKind::Invade => "invade",
        ActionKind::Sacrifice => "sacrifice",
        ActionKind::Catastrophe => "catastrophe",
    }
}

/// What is wrong with a saved turn: an id that names no player, a required
/// kind that names no kind a sacrifice grants, or a budget that does not fit
/// the required kind.
pub open spec fn turn_fault(turn: SaveTurn) -> Option<LoadFault> {
    if player_of_id(turn.current_player@) is None {
        Some(LoadFault::InvalidPlayerId { value: turn.current_player@ })
    } else if required_of_save(turn) is None {
        Some(LoadFault::InvalidActionKind { value: turn.required_action->0@ })
    } else {
        match turn_parts_error(turn.remaining_actions, required_of_save(turn)->0) {
            Some(message) => Some(LoadFault::InvalidTurn { message }),
            None => None,
        }
    }
}

impl SaveTurn {
    /// The turn that the save describes over the loaded board.
    pub fn to_turn(&self, state: GameState) -> (result: Result<TurnState, SaveError>)
        ensures
            result matches Ok(turn) ==> {
                &&& player_of_id(self.current_player@) == Some(turn@.player)
                &&& turn@.state == state@
                &&& turn@.remaining == self.remaining_actions
                &&& match self.required_action {
                    None => turn@.required is None,
                    Some(name) => kind_of_name(name@) == turn@.required && turn@.required is Some,
                }
                &&& turn_parts_error(turn@.remaining, turn@.required) is None
            },
            (player_of_id(self.current_player@) is Some
                && (self.required_action matches Some(name) ==> kind_of_name(name@) is Some)
                && turn_parts_error(self.remaining_actions, match self.required_action {
                    Some(name) => kind_of_name(name@),
                    None => None,
                }) is None) ==> result is Ok,
            result is Ok <==> turn_fault(*self) is None,
            result matches Err(e) ==> turn_fault(*self) == Some(fault_of(e)),
    {
        let current_player = parse_player_id(self.current_player.as_str())?;
        let required_action = match &self.required_action {
            Some(name) => Some(parse_required_action_kind(name.as_str())?),
            None => None,
        };
        validate_turn_parts(self.remaining_actions, required_action)?;
        Ok(TurnState::from_parts(state, current_player, self.remaining_actions, required_action))
    }

    /// How a save writes a turn.
    pub fn from_turn(turn: &TurnState) -> (save: SaveTurn)
        ensures
            save.current_player@ == player_id_text(turn@.player),
            save.remaining_actions == turn@.remaining,
            match turn@.required {
                None => save.required_action is None,
                Some(kind) => save.required_action matches Some(name) && name@ == kind_name_text(kind),
            },
    {
        SaveTurn {
            current_player: owned_text(player_id(turn.current_player())),
            remaining_actions: turn.remaining_actions(),
            required_action: match turn.required_action() {
                Some(kind) => Some(owned_text(action_kind_name(kind))),
                None => None,
            },
        }
    }
}

/// The code of a piece: color then size, such as `gs`.
pub open spec fn piece_code_text(piece: Piece) -> Seq<char> {
    crate::render::color_short(piece.color) + crate::render::size_short(piece.size)
}

/// The code of a ship: its owner's id, a colon, then its piece code.
pub open spec fn ship_code_text(piece: Piece) -> Seq<char> {
    match piece.owner {
        Some(p) => player_id_text(p) + ":"@ + piece_code_text(piece),
        None => piece_code_text(piece),
    }
}

fn push_piece_code(out: &mut Vec<char>, piece: Piece)
    ensures
        final(out)@ == old(out)@ + piece_code_text(piece),
{
    let ghost start = out@;
    match piece.color() {
        Color::Red => push_text(out, "r"),
        Color::Yellow => push_text(out, "y"),
        Color::Green => push_text(out, "g"),
        Color::Blue => push_text(out, "b"),
    }
    match piece.size() {
        Size::Small => push_text(out, "s"),
        Size::Medium => push_text(out, "m"),
        Size::Large => push_text(out, "l"),
    }
    proof {
        assert(out@ =~= start + piece_code_text(piece));
    }
}

/// The code of a piece.
pub fn piece_code(piece: Piece) -> (code: String)
    ensures
        code@ == piece_code_text(piece),
{
    let mut out: Vec<char> = Vec::new();
    push_piece_code(&mut out, piece);
    string_from_chars(out.as_slice())
}

/// The code of a ship.
pub fn ship_code(ship: Piece) -> (code: String)
    ensures
        code@ == ship_code_text(ship),
{
    let mut out: Vec<char> = Vec::new();
    if let Some(player) = ship.owner() {
        push_text(&mut out, player_id(player));
        push_text(&mut out, ":");
    }
    push_piece_code(&mut out, ship);
    proof {
        assert(out@ =~= ship_code_text(ship));
    }
    string_from_chars(out.as_slice())
}

impl SaveSystem {
    /// How a save writes a system.
    pub fn from_system(system: &StarSystem) -> (save: SaveSystem)
        ensures
            string_views(save.stars@) == system@.stars.map_values(|p: Piece| piece_code_text(p)),
            string_views(save.ships@) == system@.ships.map_values(|p: Piece| ship_code_text(p)),
    {
        let stars = system.stars();
        let ships = system.ships();
        let mut star_codes: Vec<String> = Vec::new();
        let mut i: usize = 0;
        while i < stars.len()
            invariant
                stars@ == system@.stars,
                0 <= i <= stars@.len(),
                string_views(star_codes@) == stars@.take(i as int).map_values(|p: Piece| piece_code_text(p)),
            decreases stars@.len() - i,
        {
            let code = piece_code(stars[i]);
            let ghost before = star_codes@;
            star_codes.push(code);
            proof {
                assert(star_codes@ == before.push(code));
                assert(string_views(star_codes@) =~= string_views(before).push(code@));
                assert(stars@.take(i + 1) =~= stars@.take(i as int).push(stars@[i as int]));
                assert(stars@.take(i + 1).map_values(|p: Piece| piece_code_text(p)) =~= stars@.take(i as int).map_values(|p: Piece| piece_code_text(p)).push(piece_code_text(stars@[i as int])));
            }
            i += 1;
        }
        let mut ship_codes: Vec<String> = Vec::new();
        let mut j: usize = 0;
        while j < ships.len()
            invariant
                ships@ == system@.ships,
                0 <= j <= ships@.len(),
                string_views(ship_codes@) == ships@.take(j as int).map_values(|p: Piece| ship_code_text(p)),
            decreases ships@.len() - j,
        {
            let code = ship_code(ships[j]);
            let ghost before = ship_codes@;
            ship_codes.push(code);
            proof {
                assert(ship_codes@ == before.push(code));
                assert(string_views(ship_codes@) =~= string_views(before).push(code@));
                assert(ships@.take(j + 1) =~= ships@.take(j as int).push(ships@[j as int]));
                assert(ships@.take(j + 1).map_values(|p: Piece| ship_code_text(p)) =~= ships@.take(j as int).map_values(|p: Piece| ship_code_text(p)).push(ship_code_text(ships@[j as int])));
            }
            j += 1;
        }
        proof {
            assert(stars@.take(stars@.len() as int) =~= stars@);
            assert(ships@.take(ships@.len() as int) =~= ships@);
        }
        SaveSystem { stars: star_codes, ships: ship_codes }
    }
}

/// A copy of a list of strings.
pub fn copy_strings(strings: &Vec<String>) -> (copy: Vec<String>)
    ensures
        string_views(copy@) == string_views(strings@),
{
    let mut copy: Vec<String> = Vec::new();
    let mut i: usize = 0;
    while i < strings.len()
        invariant
            0 <= i <= strings@.len(),
            string_views(copy@) == string_views(strings@.take(i as int)),
        decreases strings@.len() - i,
    {
        let item = strings[i].clone();
        let ghost before = copy@;
        copy.push(item);
        proof {
            assert(copy@ == before.push(item));
            assert(item@ == strings@[i as int]@);
            assert(string_views(copy@) =~= string_views(before).push(item@));
            assert(strings@.take(i + 1) =~= strings@.take(i as int).push(strings@[i as int]));
            assert(string_views(strings@.take(i + 1)) =~= string_views(strings@.take(i as int)).push(strings@[i as int]@));
        }
        i += 1;
    }
    proof {
        assert(strings@.take(strings@.len() as int) =~= strings@);
    }
    copy
}

/// What is wrong with a saved status: a name that is no status, or a
/// winner id that names no player.
pub open spec fn status_fault(status: SaveStatus) -> Option<LoadFault> {
    match status {
        SaveStatus::Name(name) => if status_of_save(status) is Some {
            None
        } else {
            Some(LoadFault::InvalidStatus { value: name@ })
        },
        SaveStatus::Winner { winner } => if player_of_id(winner@) is Some {
            None
        } else {
            Some(LoadFault::InvalidPlayerId { value: winner@ })
        },
    }
}

/// The keys of the homeworld entries.
pub open spec fn entry_keys(entries: Seq<(Seq<char>, usize)>) -> Seq<Seq<char>> {
    entries.map_values(|e: (Seq<char>, usize)| e.0)
}

/// Whether no key comes twice.
pub open spec fn keys_distinct(keys: Seq<Seq<char>>) -> bool {
    forall|i: int, j: int| 0 <= i < j < keys.len() ==> keys[i] != keys[j]
}

/// The first saved system from `i` on that does not read.
pub open spec fn first_bad_system(systems: Seq<SaveSystem>, i: int) -> Option<int>
    decreases systems.len() - i,
{
    if i < 0 || i >= systems.len() {
        None
    } else if !system_reads(systems[i]) {
        Some(i)
    } else {
        first_bad_system(systems, i + 1)
    }
}

/// Why the save does not read as a game, checked in order: the version,
/// the player list, the homeworld keys, each system, the bank counts, their
/// balance with the board, both homeworlds, the state's homeworld rules,
/// the turn and the status; `None` when it reads.
pub open spec fn load_fault(f: SaveFile) -> Option<LoadFault> {
    let entries = entry_views(f.homeworlds@);
    let keys = entry_keys(entries);
    let one = homeworld_entry(entries, Player::One, 0);
    let two = homeworld_entry(entries, Player::Two, 0);
    if f.version != SAVE_VERSION {
        Some(LoadFault::UnsupportedVersion { version: f.version })
    } else if players_fault(string_views(f.players@)) is Some {
        players_fault(string_views(f.players@))
    } else if first_bad_id(keys, 0) is Some {
        Some(LoadFault::InvalidPlayerId { value: keys[first_bad_id(keys, 0)->0] })
    } else if first_bad_system(f.systems@, 0) is Some {
        let i = first_bad_system(f.systems@, 0)->0;
        system_fault(f.systems@[i], i as usize)
    } else if bank_fault(f.bank) is Some {
        bank_fault(f.bank)
    } else if balance_fault(decoded_systems(f.systems@), f.bank) is Some {
        balance_fault(decoded_systems(f.systems@), f.bank)
    } else if one is None {
        Some(LoadFault::MissingHomeworld { player: Player::One })
    } else if two is None {
        Some(LoadFault::MissingHomeworld { player: Player::Two })
    } else if crate::game_state::state_error(f.systems@.len(), [SystemId(one->0), SystemId(two->0)]) is Some {
        Some(LoadFault::InvalidState(crate::game_state::state_error(f.systems@.len(), [SystemId(one->0), SystemId(two->0)])->0))
    } else if turn_fault(f.turn) is Some {
        turn_fault(f.turn)
    } else {
        status_fault(f.status)
    }
}

/// Whether the save is what writing the game gives, extras aside: version
/// one, both players, the turn, the status, the homeworld map, the bank
/// counts and each system's star and ship codes.
pub open spec fn writes_game(f: SaveFile, g: GameView) -> bool {
    &&& f.version == SAVE_VERSION
    &&& string_views(f.players@) == seq!["p1"@, "p2"@]
    &&& f.turn.current_player@ == player_id_text(g.turn.player)
    &&& f.turn.remaining_actions == g.turn.remaining
    &&& match g.turn.required {
        None => f.turn.required_action is None,
        Some(kind) => f.turn.required_action matches Some(name) && name@ == kind_name_text(kind),
    }
    &&& status_of_save(f.status) == Some(g.status)
    &&& entry_views(f.homeworlds@) == seq![("p1"@, g.turn.state.home_one.0), ("p2"@, g.turn.state.home_two.0)]
    &&& forall|c: Color, s: Size| #[trigger] f.bank.spec_count(c, s) == g.turn.state.bank.spec_count(c, s)
    &&& f.systems@.len() == g.turn.state.systems.len()
    &&& forall|i: int| 0 <= i < f.systems@.len() ==> string_views(#[trigger] f.systems@[i].stars@)
        == g.turn.state.systems[i].stars.map_values(|p: Piece| piece_code_text(p))
    &&& forall|i: int| 0 <= i < f.systems@.len() ==> string_views(#[trigger] f.systems@[i].ships@)
        == g.turn.state.systems[i].ships.map_values(|p: Piece| ship_code_text(p))
}

/// Whether the game is what reading the save gives: the decoded systems,
/// the status and required kind that the save names, its bank counts, the
/// homeworlds of its map, its current player and its budget.
pub open spec fn reads_as(f: SaveFile, g: GameView) -> bool {
    &&& g.turn.state.systems == decoded_systems(f.systems@)
    &&& Some(g.status) == status_of_save(f.status)
    &&& Some(g.turn.required) == required_of_save(f.turn)
    &&& forall|c: Color, s: Size| #[trigger] g.turn.state.bank.spec_count(c, s) == f.bank.spec_count(c, s)
    &&& homeworld_entry(entry_views(f.homeworlds@), Player::One, 0) == Some(g.turn.state.home_one.0)
    &&& homeworld_entry(entry_views(f.homeworlds@), Player::Two, 0) == Some(g.turn.state.home_two.0)
    &&& player_of_id(f.turn.current_player@) == Some(g.turn.player)
    &&& g.turn.remaining == f.turn.remaining_actions
}

impl SaveFile {
    /// How a save writes a game, with the text kept beside it.
    pub fn from_game_with_extras(game: &Game, extras: &SaveExtras) -> (file: SaveFile)
        ensures
            file.version == SAVE_VERSION,
            string_views(file.players@) == seq!["p1"@, "p2"@],
            file.turn.current_player@ == player_id_text(game@.turn.player),
            file.turn.remaining_actions == game@.turn.remaining,
            entry_views(file.homeworlds@) == seq![("p1"@, game@.turn.state.home_one.0), ("p2"@, game@.turn.state.home_two.0)],
            keys_distinct(entry_keys(entry_views(file.homeworlds@))),
            forall|c: Color, s: Size| #[trigger] file.bank.spec_count(c, s) == game@.turn.state.bank.spec_count(c, s),
            file.systems@.len() == game@.turn.state.systems.len(),
            forall|i: int| 0 <= i < file.systems@.len() ==> string_views(#[trigger] file.systems@[i].stars@) == game@.turn.state.systems[i].stars.map_values(|p: Piece| piece_code_text(p)),
            forall|i: int| 0 <= i < file.systems@.len() ==> string_views(#[trigger] file.systems@[i].ships@) == game@.turn.state.systems[i].ships.map_values(|p: Piece| ship_code_text(p)),
            string_views(file.history@) == string_views(extras.history@),
            string_views(file.commands@) == string_views(extras.commands@),
            writes_game(file, game@),
    {
        let state = game.turn().state();
        let mut players: Vec<String> = Vec::new();
        players.push(owned_text("p1"));
        players.push(owned_text("p2"));
        let mut homeworlds: Vec<(String, usize)> = Vec::new();
        homeworlds.push((owned_text("p1"), state.homeworld(Player::One).index()));
        homeworlds.push((owned_text("p2"), state.homeworld(Player::Two).index()));
        let source = state.systems();
        let mut systems: Vec<SaveSystem> = Vec::new();
        let mut i: usize = 0;
        while i < source.len()
            invariant
                system_views(source@) == game@.turn.state.systems,
                0 <= i <= source@.len(),
                systems@.len() == i,
                forall|k: int| 0 <= k < i ==> string_views(#[trigger] systems@[k].stars@) == game@.turn.state.systems[k].stars.map_values(|p: Piece| piece_code_text(p)),
                forall|k: int| 0 <= k < i ==> string_views(#[trigger] systems@[k].ships@) == game@.turn.state.systems[k].ships.map_values(|p: Piece| ship_code_text(p)),
            decreases source@.len() - i,
        {
            assert(source@[i as int]@ == game@.turn.state.systems[i as int]);
            systems.push(SaveSystem::from_system(&source[i]));
            i += 1;
        }
        proof {
            assert(string_views(players@) =~= seq!["p1"@, "p2"@]);
            assert(entry_views(homeworlds@) =~= seq![("p1"@, game@.turn.state.home_one.0), ("p2"@, game@.turn.state.home_two.0)]);
            reveal_strlit("p1");
            reveal_strlit("p2");
            assert(entry_keys(entry_views(homeworlds@)) =~= seq!["p1"@, "p2"@]);
            assert("p1"@[1] != "p2"@[1]);
        }
        let status = SaveStatus::from_status(game.status());
        proof {
            lemma_status_reads_back(game@.status, status);
        }
        SaveFile {
            version: SAVE_VERSION,
            players,
            turn: SaveTurn::from_turn(game.turn()),
            status,
            homeworlds,
            bank: SaveBank::from_bank(state.bank()),
            systems,
            history: copy_strings(&extras.history),
            commands: copy_strings(&extras.commands),
        }
    }

    /// How a save writes a game on its own.
    pub fn from_game(game: &Game) -> (file: SaveFile)
        ensures
            file.version == SAVE_VERSION,
            file.history@.len() == 0,
            file.commands@.len() == 0,
            writes_game(file, game@),
    {
        let extras = SaveExtras { history: Vec::new(), commands: Vec::new() };
        let file = SaveFile::from_game_with_extras(game, &extras);
        proof {
            assert(string_views(file.history@).len() == 0);
            assert(string_views(file.commands@).len() == 0);
        }
        file
    }

    /// The game that the save describes, after checking, in order, the
    /// version, the player list, the homeworld keys, each system, the bank
    /// counts and their balance with the board, the homeworlds, the turn and
    /// the status.
    pub fn into_game(&self) -> (result: Result<Game, SaveError>)
        ensures
            result is Ok <==> save_reads(*self),
            result matches Ok(game) ==> reads_as(*self, game@),
            result matches Ok(game) ==> {
                &&& game@.turn.state.systems == decoded_systems(self.systems@)
                &&& Some(game@.status) == status_of_save(self.status)
                &&& Some(game@.turn.required) == required_of_save(self.turn)
            },
            result matches Ok(game) ==> {
                &&& self.version == SAVE_VERSION
                &&& players_valid(string_views(self.players@))
                &&& game@.wf()
                &&& forall|c: Color, s: Size| #[trigger] game@.turn.state.piece_total(c, s) == 3
                &&& forall|c: Color, s: Size| #[trigger] game@.turn.state.bank.spec_count(c, s) == self.bank.spec_count(c, s)
                &&& game@.turn.state.systems.len() == self.systems@.len()
                &&& homeworld_entry(entry_views(self.homeworlds@), Player::One, 0) == Some(game@.turn.state.home_one.0)
                &&& homeworld_entry(entry_views(self.homeworlds@), Player::Two, 0) == Some(game@.turn.state.home_two.0)
                &&& player_of_id(self.turn.current_player@) == Some(game@.turn.player)
                &&& game@.turn.remaining == self.turn.remaining_actions
            },
            self.version != SAVE_VERSION ==> result == Err::<Game, SaveError>(SaveError::UnsupportedVersion { version: self.version }),
            match load_fault(*self) {
                None => result is Ok,
                Some(fault) => result matches Err(e) && fault_of(e) == fault,
            },
    {
        if self.version != SAVE_VERSION {
            return Err(SaveError::UnsupportedVersion { version: self.version });
        }
        validate_players(&self.players)?;
        let ghost keys = entry_keys(entry_views(self.homeworlds@));
        let mut k: usize = 0;
        while k < self.homeworlds.len()
            invariant
                self.version == SAVE_VERSION,
                players_fault(string_views(self.players@)) is None,
                keys == entry_keys(entry_views(self.homeworlds@)),
                0 <= k <= self.homeworlds@.len(),
                forall|m: int| 0 <= m < k ==> player_of_id(#[trigger] self.homeworlds@[m].0@) is Some,
                first_bad_id(keys, 0) == first_bad_id(keys, k as int),
            decreases self.homeworlds@.len() - k,
        {
            assert(keys[k as int] == self.homeworlds@[k as int].0@);
            parse_player_id(self.homeworlds[k].0.as_str())?;
            k += 1;
        }
        let mut systems: Vec<StarSystem> = Vec::new();
        let mut i: usize = 0;
        while i < self.systems.len()
            invariant
                self.version == SAVE_VERSION,
                0 <= i <= self.systems@.len(),
                systems@.len() == i,
                crate::game_state::all_systems_wf(system_views(systems@)),
                forall|m: int| 0 <= m < i ==> system_reads(#[trigger] self.systems@[m]),
                system_views(systems@) =~= decoded_systems(self.systems@).take(i as int),
                players_fault(string_views(self.players@)) is None,
                keys == entry_keys(entry_views(self.homeworlds@)),
                first_bad_id(keys, 0) is None,
                first_bad_system(self.systems@, 0) == first_bad_system(self.systems@, i as int),
            decreases self.systems@.len() - i,
        {
            let system = self.systems[i].to_system(i)?;
            let ghost before = systems@;
            systems.push(system);
            proof {
                assert(system_views(systems@) =~= system_views(before).push(system@));
            }
            i += 1;
        }
        proof {
            assert(decoded_systems(self.systems@).take(self.systems@.len() as int) =~= decoded_systems(self.systems@));
        }
        let bank = self.bank.to_bank()?;
        let ghost views = system_views(systems@);
        proof {
            assert(views == decoded_systems(self.systems@));
        }
        match verify_bank(systems.as_slice(), &bank) {
            Ok(()) => {
                proof {
                    assert forall|c: Color, z: Size| !#[trigger] first_unbalanced(views, self.bank, c, z) by {
                        assert(kind_balanced(views, bank, c, z));
                    }
                }
            },
            Err(e) => {
                proof {
                    if let SaveError::BankMismatch { color, size, bank: b, board, expected_total } = e {
                        assert forall|c: Color, z: Size| crate::bank::kind_rank(c, z) < crate::bank::kind_rank(color, size)
                            implies self.bank.spec_count(c, z) as nat + #[trigger] board_count(views, c, z) == 3 by {
                            assert(kind_balanced(views, bank, c, z));
                        }
                        assert(first_unbalanced(views, self.bank, color, size));
                        let (c3, z3) = choose|c3: Color, z3: Size| #[trigger] first_unbalanced(views, self.bank, c3, z3);
                        lemma_first_unbalanced_unique(views, self.bank, color, size, c3, z3);
                    }
                }
                return Err(e);
            },
        }
        proof {
            assert forall|c: Color, z: Size|
                self.bank.spec_count(c, z) as nat + #[trigger] board_count(decoded_systems(self.systems@), c, z) == 3 by {
                assert(kind_balanced(views, bank, c, z));
            }
        }
        let one = homeworld(&self.homeworlds, Player::One)?;
        let two = homeworld(&self.homeworlds, Player::Two)?;
        let homes = [one, two];
        assert(homes@[0] == one && homes@[1] == two);
        let state = match GameState::new(systems, homes, bank) {
            Ok(state) => state,
            Err(error) => {
                return Err(SaveError::InvalidState(error));
            },
        };
        proof {
            assert forall|c: Color, s: Size| #[trigger] state@.piece_total(c, s) == 3 by {
                assert(kind_balanced(views, bank, c, s));
            }
        }
        let turn = self.turn.to_turn(state)?;
        let status = self.status.to_status()?;
        Ok(Game::from_parts(turn, status))
    }

    /// The game that the save describes, with the text kept beside it.
    pub fn into_saved_game(&self) -> (result: Result<SavedGame, SaveError>)
        ensures
            result matches Ok(saved) ==> {
                &&& saved.game@.wf()
                &&& string_views(saved.history@) == string_views(self.history@)
                &&& string_views(saved.commands@) == string_views(self.commands@)
            },
            result is Ok <==> save_reads(*self),
            result matches Ok(saved) ==> reads_as(*self, saved.game@),
            match load_fault(*self) {
                None => result is Ok,
                Some(fault) => result matches Err(e) && fault_of(e) == fault,
            },
            self.version != SAVE_VERSION ==> result is Err,
    {
        let game = self.into_game()?;
        Ok(SavedGame { game, history: copy_strings(&self.history), commands: copy_strings(&self.commands) })
    }
}

/// A character as a quoted string shows it: quotes, backslashes and the
/// common control characters escaped.
pub open spec fn escaped_char(c: char) -> Seq<char> {
    if c == '"' {
        seq!['\\', '"']
    } else if c == '\\' {
        seq!['\\', '\\']
    } else if c == '\n' {
        seq!['\\', 'n']
    } else if c == '\r' {
        seq!['\\', 'r']
    } else if c == '\t' {
        seq!['\\', 't']
    } else {
        seq![c]
    }
}

/// A text between double quotes, escaped.
pub open spec fn quoted_text(s: Seq<char>) -> Seq<char> {
    seq!['"'] + escaped_body(s) + seq!['"']
}

pub open spec fn escaped_body(s: Seq<char>) -> Seq<char>
    decreases s.len(),
{
    if s.len() == 0 {
        Seq::empty()
    } else {
        escaped_body(s.drop_last()) + escaped_char(s.last())
    }
}

/// A list of texts as `["a", "b"]`.
pub open spec fn strings_text(strings: Seq<Seq<char>>) -> Seq<char> {
    seq!['['] + strings_joined(strings) + seq![']']
}

pub open spec fn strings_joined(strings: Seq<Seq<char>>) -> Seq<char>
    decreases strings.len(),
{
    if strings.len() == 0 {
        Seq::empty()
    } else if strings.len() == 1 {
        quoted_text(strings[0])
    } else {
        strings_joined(strings.drop_last()) + ", "@ + quoted_text(strings.last())
    }
}

fn push_quoted(out: &mut Vec<char>, text: &str)
    ensures
        final(out)@ == old(out)@ + quoted_text(text@),
{
    let chars = text_chars(text);
    let ghost start = out@;
    out.push('"');
    let mut i: usize = 0;
    while i < chars.len()
        invariant
            chars@ == text@,
            0 <= i <= chars@.len(),
            out@ == start + seq!['"'] + escaped_body(chars@.take(i as int)),
        decreases chars@.len() - i,
    {
        let c = chars[i];
        let ghost before = out@;
        if c == '"' {
            out.push('\\');
            out.push('"');
        } else if c == '\\' {
            out.push('\\');
            out.push('\\');
        } else if c == '\n' {
            out.push('\\');
            out.push('n');
        } else if c == '\r' {
            out.push('\\');
            out.push('r');
        } else if c == '\t' {
            out.push('\\');
            out.push('t');
        } else {
            out.push(c);
        }
        proof {
            assert(out@ =~= before + escaped_char(c));
            assert(chars@.take(i + 1).drop_last() =~= chars@.take(i as int));
        }
        i += 1;
    }
    out.push('"');
    proof {
        assert(chars@.take(chars@.len() as int) =~= chars@);
        assert(out@ =~= start + quoted_text(text@));
    }
}

fn push_strings(out: &mut Vec<char>, strings: &Vec<String>)
    ensures
        final(out)@ == old(out)@ + strings_text(string_views(strings@)),
{
    let ghost views = string_views(strings@);
    let ghost start = out@;
    out.push('[');
    let mut i: usize = 0;
    while i < strings.len()
        invariant
            views == string_views(strings@),
            0 <= i <= strings@.len(),
            out@ == start + seq!['['] + strings_joined(views.take(i as int)),
        decreases strings@.len() - i,
    {
        let ghost before = out@;
        if i > 0 {
            push_text(out, ", ");
        }
        push_quoted(out, strings[i].as_str());
        proof {
            let t = views.take(i + 1);
            assert(t.drop_last() =~= views.take(i as int));
            assert(t.last() == strings@[i as int]@);
            if i == 0 {
                assert(t.len() == 1);
                assert(out@ =~= start + seq!['['] + strings_joined(t));
            } else {
                assert(out@ =~= start + seq!['['] + strings_joined(t));
            }
        }
        i += 1;
    }
    out.push(']');
    proof {
        assert(views.take(strings@.len() as int) =~= views);
        assert(out@ =~= start + strings_text(views));
    }
}

/// The name of a color in messages.
pub open spec fn color_name_text(color: Color) -> Seq<char> {
    crate::render::color_label(color)
}

/// The name of a size in messages.
pub open spec fn size_name_text(size: Size) -> Seq<char> {
    match size {
        Size::Small => "small"@,
        Size::Medium => "medium"@,
        Size::Large => "large"@,
    }
}

/// The message of a save error.
pub open spec fn save_error_text(e: SaveError) -> Seq<char> {
    match e {
        SaveError::Io { message } => "I/O error: "@ + message@,
        SaveError::Yaml { message } => "YAML error: "@ + message@,
        SaveError::UnsupportedVersion { version } => "unsupported save version "@ + crate::render::decimal_text(version as nat),
        SaveError::InvalidPlayers { players } => "v1 saves must list exactly p1 and p2, got "@ + strings_text(string_views(players@)),
        SaveError::InvalidPlayerId { value } => "invalid player id `"@ + value@ + "`"@,
        SaveError::InvalidPiece { value } => "invalid piece `"@ + value@ + "`"@,
        SaveError::InvalidShip { value } => "invalid ship `"@ + value@ + "`"@,
        SaveError::InvalidStatus { value } => "invalid status `"@ + value@ + "`"@,
        SaveError::InvalidActionKind { value } => "invalid required action `"@ + value@ + "`"@,
        SaveError::MissingHomeworld { player } => "missing homeworld for "@ + player_id_text(player),
        SaveError::InvalidSystem { index, error } => "invalid system "@ + crate::render::decimal_text(index as nat) + ": "@
            + crate::debug_text::star_system_error_debug(error),
        SaveError::InvalidState(error) => "invalid game state: "@ + crate::debug_text::game_state_error_debug(error),
        SaveError::InvalidBank(error) => "invalid bank: "@ + crate::debug_text::bank_error_debug(error),
        SaveError::BankMismatch { color, size, bank, board, expected_total } => "bank mismatch for "@ + color_name_text(color)
            + " "@ + size_name_text(size) + ": bank "@ + crate::render::decimal_text(bank as nat) + " + board "@
            + crate::render::decimal_text(board as nat) + " != "@ + crate::render::decimal_text(expected_total as nat),
        SaveError::InvalidTurn { message } => "invalid turn: "@ + message@,
    }
}

impl SaveError {
    /// The message of the error.
    pub fn message(&self) -> (text: String)
        ensures
            text@ == save_error_text(*self),
    {
        let mut out: Vec<char> = Vec::new();
        match self {
            SaveError::Io { message } => {
                push_text(&mut out, "I/O error: ");
                push_text(&mut out, message.as_str());
            },
            SaveError::Yaml { message } => {
                push_text(&mut out, "YAML error: ");
                push_text(&mut out, message.as_str());
            },
            SaveError::UnsupportedVersion { version } => {
                push_text(&mut out, "unsupported save version ");
                push_decimal(&mut out, *version as usize);
            },
            SaveError::InvalidPlayers { players } => {
                push_text(&mut out, "v1 saves must list exactly p1 and p2, got ");
                push_strings(&mut out, players);
            },
            SaveError::InvalidPlayerId { value } => {
                push_text(&mut out, "invalid player id `");
                push_text(&mut out, value.as_str());
                push_text(&mut out, "`");
            },
            SaveError::InvalidPiece { value } => {
                push_text(&mut out, "invalid piece `");
                push_text(&mut out, value.as_str());
                push_text(&mut out, "`");
            },
            SaveError::InvalidShip { value } => {
                push_text(&mut out, "invalid ship `");
                push_text(&mut out, value.as_str());
                push_text(&mut out, "`");
            },
            SaveError::InvalidStatus { value } => {
                push_text(&mut out, "invalid status `");
                push_text(&mut out, value.as_str());
                push_text(&mut out, "`");
            },
            SaveError::InvalidActionKind { value } => {
                push_text(&mut out, "invalid required action `");
                push_text(&mut out, value.as_str());
                push_text(&mut out, "`");
            },
            SaveError::MissingHomeworld { player } => {
                push_text(&mut out, "missing homeworld for ");
                push_text(&mut out, player_id(*player));
            },
            SaveError::InvalidSystem { index, error } => {
                push_text(&mut out, "invalid system ");
                push_decimal(&mut out, *index);
                push_text(&mut out, ": ");
                push_star_system_error_debug(&mut out, *error);
            },
            SaveError::InvalidState(error) => {
                push_text(&mut out, "invalid game state: ");
                push_game_state_error_debug(&mut out, *error);
            },
            SaveError::InvalidBank(error) => {
                push_text(&mut out, "invalid bank: ");
                push_bank_error_debug(&mut out, *error);
            },
            SaveError::BankMismatch { color, size, bank, board, expected_total } => {
                push_text(&mut out, "bank mismatch for ");
                push_text(&mut out, color_name(*color));
                push_text(&mut out, " ");
                push_text(&mut out, size_name(*size));
                push_text(&mut out, ": bank ");
                push_decimal(&mut out, *bank as usize);
                push_text(&mut out, " + board ");
                push_decimal(&mut out, *board);
                push_text(&mut out, " != ");
                push_decimal(&mut out, *expected_total as usize);
            },
            SaveError::InvalidTurn { message } => {
                push_text(&mut out, "invalid turn: ");
                push_text(&mut out, message.as_str());
            },
        }
        proof {
            assert(out@ =~= save_error_text(*self));
        }
        string_from_chars(out.as_slice())
    }
}

fn color_name(color: Color) -> (name: &'static str)
    ensures
        name@ == color_name_text(color),
{
    match color {
        Color::Red => "red",
        Color::Yellow => "yellow",
        Color::Green => "green",
        Color::Blue => "blue",
    }
}

fn size_name(size: Size) -> (name: &'static str)
    ensures
        name@ == size_name_text(size),
{
    match size {
        Size::Small => "small",
        Size::Medium => "medium",
        Size::Large => "large",
    }
}

/// A player's id reads back as the player.
pub proof fn lemma_player_id_reads_back(player: Player)
    ensures
        player_of_id(player_id_text(player)) == Some(player),
{
    reveal_strlit("p1");
    reveal_strlit("p2");
    assert(lowercase("p1"@) =~= "p1"@);
    assert(lowercase("p2"@) =~= "p2"@);
    assert("p2"@[1] != "p1"@[1]);
}

/// A piece code reads back as the piece's color and size.
pub proof fn lemma_piece_code_reads_back(piece: Piece)
    ensures
        piece_of_code(piece_code_text(piece)) == Some((piece.color, piece.size)),
{
    let code = piece_code_text(piece);
    reveal_strlit("r");
    reveal_strlit("y");
    reveal_strlit("g");
    reveal_strlit("b");
    reveal_strlit("s");
    reveal_strlit("m");
    reveal_strlit("l");
    assert(code.len() == 2);
    assert(code[0] == crate::render::color_short(piece.color)[0]);
    assert(code[1] == crate::render::size_short(piece.size)[0]);
    assert(lowercase(code) =~= code);
}

/// The code of an owned ship reads back as the ship.
pub proof fn lemma_ship_code_reads_back(piece: Piece)
    requires
        piece.owner is Some,
    ensures
        ship_of_code(ship_code_text(piece)) == Ok::<Piece, Option<Seq<char>>>(piece),
{
    let owner = piece.owner->0;
    let id = player_id_text(owner);
    let code = piece_code_text(piece);
    let text = id + ":"@ + code;
    reveal_strlit("p1");
    reveal_strlit("p2");
    reveal_strlit(":");
    lemma_piece_code_reads_back(piece);
    lemma_player_id_reads_back(owner);
    assert(id.len() == 2);
    assert(text[0] != ':' && text[1] != ':' && text[2] == ':');
    assert(colon_from(text, 2) == Some(2int));
    assert(colon_from(text, 1) == Some(2int));
    assert(colon_from(text, 0) == Some(2int));
    assert(text.take(2) =~= id);
    assert(text.skip(3) =~= code);
}

/// The name of a kind that a sacrifice grants reads back as the kind.
pub proof fn lemma_kind_name_reads_back(kind: ActionKind)
    requires
        kind != ActionKind::Sacrifice,
        kind != ActionKind::Catastrophe,
    ensures
        kind_of_name(kind_name_text(kind)) == Some(kind),
{
    reveal_strlit("build");
    reveal_strlit("travel");
    reveal_strlit("trade");
    reveal_strlit("invade");
    assert(lowercase("build"@) =~= "build"@);
    assert(lowercase("travel"@) =~= "travel"@);
    assert(lowercase("trade"@) =~= "trade"@);
    assert(lowercase("invade"@) =~= "invade"@);
    assert("trade"@[0] != "build"@[0]);
    assert("travel"@.len() != "build"@.len());
    assert("travel"@.len() != "trade"@.len());
    assert("invade"@.len() != "build"@.len());
    assert("invade"@[0] != "travel"@[0]);
    assert("invade"@.len() != "trade"@.len());
}

/// A status as a save writes it reads back as the status.
pub proof fn lemma_status_reads_back(status: GameStatus, save: SaveStatus)
    requires
        match status {
            GameStatus::InProgress => save matches SaveStatus::Name(n) && n@ == "in_progress"@,
            GameStatus::Finished(GameOutcome::Draw) => save matches SaveStatus::Name(n) && n@ == "draw"@,
            GameStatus::Finished(GameOutcome::Winner(p)) => save matches SaveStatus::Winner { winner } && winner@
                == player_id_text(p),
        },
    ensures
        status_of_save(save) == Some(status),
{
    reveal_strlit("in_progress");
    reveal_strlit("draw");
    assert("draw"@.len() != "in_progress"@.len());
    if let GameStatus::Finished(GameOutcome::Winner(p)) = status {
        lemma_player_id_reads_back(p);
    }
}

} // verus!

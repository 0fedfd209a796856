use vstd::prelude::*;

use crate::game::{Game, GameOutcome, GameStatus, GameView};
use crate::game_state::{GameState, StateView};
use crate::piece::{Color, Piece, Player, Size, SystemId};
use crate::star_system::SystemView;
use crate::text::{push_chars, push_text, string_from_chars};

verus! {

/// The digit character of a number below ten.
pub open spec fn digit_char(d: nat) -> char {
    (('0' as u32) + d) as char
}

/// The decimal digits of a number.
pub open spec fn decimal_text(n: nat) -> Seq<char>
    decreases n,
{
    if n < 10 {
        seq![digit_char(n)]
    } else {
        decimal_text(n / 10) + seq![digit_char(n % 10)]
    }
}

/// Appends the decimal digits of a number.
pub fn push_decimal(out: &mut Vec<char>, n: usize)
    ensures
        final(out)@ == old(out)@ + decimal_text(n as nat),
    decreases n,
{
    if n >= 10 {
        push_decimal(out, n / 10);
    }
    let d = (n % 10) as u32;
    let c = ('0' as u32 + d) as u8 as char;
    proof {
        assert(c == digit_char((n % 10) as nat));
    }
    out.push(c);
    proof {
        if n >= 10 {
            assert(decimal_text(n as nat) == decimal_text((n / 10) as nat) + seq![digit_char((n % 10) as nat)]);
        }
    }
}

pub open spec fn player_label(player: Player) -> Seq<char> {
    match player {
        Player::One => "Player 1"@,
        Player::Two => "Player 2"@,
    }
}

pub fn push_player_label(out: &mut Vec<char>, player: Player)
    ensures
        final(out)@ == old(out)@ + player_label(player),
{
    match player {
        Player::One => push_text(out, "Player 1"),
        Player::Two => push_text(out, "Player 2"),
    }
}

pub open spec fn player_short(player: Player) -> Seq<char> {
    match player {
        Player::One => "P1"@,
        Player::Two => "P2"@,
    }
}

pub open spec fn color_label(color: Color) -> Seq<char> {
    match color {
        Color::Red => "red"@,
        Color::Yellow => "yellow"@,
        Color::Green => "green"@,
        Color::Blue => "blue"@,
    }
}

pub fn push_color_label(out: &mut Vec<char>, color: Color)
    ensures
        final(out)@ == old(out)@ + color_label(color),
{
    match color {
        Color::Red => push_text(out, "red"),
        Color::Yellow => push_text(out, "yellow"),
        Color::Green => push_text(out, "green"),
        Color::Blue => push_text(out, "blue"),
    }
}

pub open spec fn color_short(color: Color) -> Seq<char> {
    match color {
        Color::Red => "r"@,
        Color::Yellow => "y"@,
        Color::Green => "g"@,
        Color::Blue => "b"@,
    }
}

pub open spec fn size_short(size: Size) -> Seq<char> {
    match size {
        Size::Small => "s"@,
        Size::Medium => "m"@,
        Size::Large => "l"@,
    }
}

/// A piece in two letters, color then size, after its owner's short name
/// when owners are shown and it has one.
pub open spec fn piece_text(piece: Piece, show_owner: bool) -> Seq<char> {
    let identity = color_short(piece.color) + size_short(piece.size);
    if show_owner && piece.owner is Some {
        player_short(piece.owner->0) + " "@ + identity
    } else {
        identity
    }
}

fn push_piece(out: &mut Vec<char>, piece: Piece, show_owner: bool)
    ensures
        final(out)@ == old(out)@ + piece_text(piece, show_owner),
{
    let ghost start = out@;
    if show_owner {
        match piece.owner() {
            Some(Player::One) => {
                push_text(out, "P1");
                push_text(out, " ");
            },
            Some(Player::Two) => {
                push_text(out, "P2");
                push_text(out, " ");
            },
            None => {},
        }
    }
    let ghost mid = out@;
    match piece.color() {
        Color::Red => push_text(out, "r"),
        Color::Yellow => push_text(out, "y"),
        Color::Green => push_text(out, "g"),
        Color::Blue => push_text(out, "b"),
    }
    match piece.size() {
        Size::Small => push_text(out, "s"),
        Size::Medium => push_text(out, "m"),
        Size::Large => push_text(out, "l"),
    }
    proof {
        let identity = color_short(piece.color) + size_short(piece.size);
        assert(out@ =~= mid + identity);
        if show_owner && piece.owner is Some {
            assert(mid =~= start + player_short(piece.owner->0) + " "@);
            assert(out@ =~= start + (player_short(piece.owner->0) + " "@ + identity));
        } else {
            assert(mid == start);
        }
    }
}

/// The pieces joined by commas.
pub open spec fn pieces_joined(pieces: Seq<Piece>, show_owner: bool) -> Seq<char>
    decreases pieces.len(),
{
    if pieces.len() <= 1 {
        if pieces.len() == 0 {
            Seq::empty()
        } else {
            piece_text(pieces[0], show_owner)
        }
    } else {
        pieces_joined(pieces.drop_last(), show_owner) + ", "@ + piece_text(pieces.last(), show_owner)
    }
}

/// A list of pieces, or `none`.
pub open spec fn piece_list_text(pieces: Seq<Piece>, show_owner: bool) -> Seq<char> {
    if pieces.len() == 0 {
        "none"@
    } else {
        pieces_joined(pieces, show_owner)
    }
}

fn push_piece_list(out: &mut Vec<char>, pieces: &[Piece], show_owner: bool)
    ensures
        final(out)@ == old(out)@ + piece_list_text(pieces@, show_owner),
{
    if pieces.len() == 0 {
        push_text(out, "none");
        return;
    }
    let ghost start = out@;
    push_piece(out, pieces[0], show_owner);
    proof {
        assert(pieces@.take(1).drop_last() =~= Seq::<Piece>::empty());
        assert(pieces_joined(pieces@.take(1), show_owner) == piece_text(pieces@[0], show_owner));
    }
    let mut i: usize = 1;
    while i < pieces.len()
        invariant
            1 <= i <= pieces@.len(),
            out@ == start + pieces_joined(pieces@.take(i as int), show_owner),
        decreases pieces@.len() - i,
    {
        push_text(out, ", ");
        push_piece(out, pieces[i], show_owner);
        proof {
            let t = pieces@.take(i + 1);
            assert(t.drop_last() =~= pieces@.take(i as int));
            assert(t.last() == pieces@[i as int]);
            assert(out@ =~= start + pieces_joined(t, show_owner));
        }
        i += 1;
    }
    proof {
        assert(pieces@.take(pieces@.len() as int) =~= pieces@);
    }
}

/// The status line's words.
pub open spec fn status_text(status: GameStatus) -> Seq<char> {
    match status {
        GameStatus::InProgress => "in progress"@,
        GameStatus::Finished(GameOutcome::Winner(player)) => "finished, winner "@ + player_label(player),
        GameStatus::Finished(GameOutcome::Draw) => "finished, draw"@,
    }
}

pub fn push_status(out: &mut Vec<char>, status: GameStatus)
    ensures
        final(out)@ == old(out)@ + status_text(status),
{
    match status {
        GameStatus::InProgress => push_text(out, "in progress"),
        GameStatus::Finished(GameOutcome::Winner(player)) => {
            push_text(out, "finished, winner ");
            push_player_label(out, player);
            proof {
                assert(out@ =~= old(out)@ + status_text(status));
            }
        },
        GameStatus::Finished(GameOutcome::Draw) => push_text(out, "finished, draw"),
    }
}

/// What a system is called: the homeworlds it is, or `system`.
pub open spec fn system_label(s: StateView, id: SystemId) -> Seq<char> {
    let one = s.homeworld(Player::One) == id;
    let two = s.homeworld(Player::Two) == id;
    if one && two {
        "homeworld "@ + player_label(Player::One) + ", "@ + "homeworld "@ + player_label(Player::Two)
    } else if one {
        "homeworld "@ + player_label(Player::One)
    } else if two {
        "homeworld "@ + player_label(Player::Two)
    } else {
        "system"@
    }
}

pub fn push_system_label(out: &mut Vec<char>, state: &GameState, id: SystemId)
    ensures
        final(out)@ == old(out)@ + system_label(state@, id),
{
    let one = state.homeworld(Player::One) == id;
    let two = state.homeworld(Player::Two) == id;
    let ghost start = out@;
    if one {
        push_text(out, "homeworld ");
        push_player_label(out, Player::One);
    }
    if one && two {
        push_text(out, ", ");
    }
    if two {
        push_text(out, "homeworld ");
        push_player_label(out, Player::Two);
    }
    if !one && !two {
        push_text(out, "system");
    }
    proof {
        assert(out@ =~= start + system_label(state@, id));
    }
}

/// The lines of one system: its index and name, its stars, its ships.
pub open spec fn system_text(s: StateView, i: int) -> Seq<char> {
    let system = s.systems[i];
    "["@ + decimal_text(i as nat) + "] "@ + system_label(s, SystemId(i as usize)) + "\n"@ + "  Stars: "@ + piece_list_text(
        system.stars,
        false,
    ) + "\n"@ + "  Ships: "@ + piece_list_text(system.ships, true) + "\n"@
}

/// The lines of the first `n` systems.
pub open spec fn systems_text(s: StateView, n: int) -> Seq<char>
    decreases n,
{
    if n <= 0 {
        Seq::empty()
    } else {
        systems_text(s, n - 1) + system_text(s, n - 1)
    }
}

/// The bank's line for a color: the count of each size.
pub open spec fn bank_line(s: StateView, color: Color) -> Seq<char> {
    "  "@ + color_label(color) + ": "@ + "small="@ + decimal_text(s.bank.spec_count(color, Size::Small) as nat) + " "@
        + "medium="@ + decimal_text(s.bank.spec_count(color, Size::Medium) as nat) + " "@ + "large="@ + decimal_text(
        s.bank.spec_count(color, Size::Large) as nat,
    ) + "\n"@
}

/// The full text of a game: status, current player, remaining actions, each
/// system, and the bank.
pub open spec fn game_text(g: GameView) -> Seq<char> {
    let s = g.turn.state;
    "Status: "@ + status_text(g.status) + "\n"@ + "Current player: "@ + player_label(g.turn.player) + "\n"@
        + "Remaining actions: "@ + decimal_text(g.turn.remaining as nat) + "\n"@ + "Systems:\n"@ + systems_text(
        s,
        s.systems.len() as int,
    ) + "Bank:\n"@ + bank_line(s, Color::Red) + bank_line(s, Color::Yellow) + bank_line(s, Color::Green) + bank_line(
        s,
        Color::Blue,
    )
}

fn push_bank_line(out: &mut Vec<char>, state: &GameState, color: Color)
    ensures
        final(out)@ == old(out)@ + bank_line(state@, color),
{
    let ghost start = out@;
    let bank = state.bank();
    push_text(out, "  ");
    push_color_label(out, color);
    push_text(out, ": ");
    push_text(out, "small=");
    push_decimal(out, bank.count(color, Size::Small) as usize);
    push_text(out, " ");
    push_text(out, "medium=");
    push_decimal(out, bank.count(color, Size::Medium) as usize);
    push_text(out, " ");
    push_text(out, "large=");
    push_decimal(out, bank.count(color, Size::Large) as usize);
    push_text(out, "\n");
    proof {
        assert(out@ =~= start + bank_line(state@, color));
    }
}

/// The full text of a game.
pub fn render_game(game: &Game) -> (text: String)
    ensures
        text@ == game_text(game@),
{
    let mut out: Vec<char> = Vec::new();
    push_text(&mut out, "Status: ");
    push_status(&mut out, game.status());
    push_text(&mut out, "\n");
    push_text(&mut out, "Current player: ");
    push_player_label(&mut out, game.turn().current_player());
    push_text(&mut out, "\n");
    push_text(&mut out, "Remaining actions: ");
    push_decimal(&mut out, game.turn().remaining_actions());
    push_text(&mut out, "\n");
    push_text(&mut out, "Systems:\n");
    let ghost head = out@;
    let state = game.turn().state();
    let ghost s = state@;
    let systems = state.systems();
    let mut i: usize = 0;
    while i < systems.len()
        invariant
            s == state@,
            crate::game_state::system_views(systems@) == s.systems,
            0 <= i <= s.systems.len(),
            out@ == head + systems_text(s, i as int),
        decreases s.systems.len() - i,
    {
        let system = &systems[i];
        assert(system@ == s.systems[i as int]);
        let ghost before = out@;
        push_text(&mut out, "[");
        push_decimal(&mut out, i);
        push_text(&mut out, "] ");
        push_system_label(&mut out, state, SystemId::new(i));
        push_text(&mut out, "\n");
        push_text(&mut out, "  Stars: ");
        push_piece_list(&mut out, system.stars(), false);
        push_text(&mut out, "\n");
        push_text(&mut out, "  Ships: ");
        push_piece_list(&mut out, system.ships(), true);
        push_text(&mut out, "\n");
        proof {
            assert(out@ =~= before + system_text(s, i as int));
            assert(systems_text(s, i + 1) == systems_text(s, i as int) + system_text(s, i as int));
        }
        i += 1;
    }
    let ghost mid = out@;
    push_text(&mut out, "Bank:\n");
    push_bank_line(&mut out, state, Color::Red);
    push_bank_line(&mut out, state, Color::Yellow);
    push_bank_line(&mut out, state, Color::Green);
    push_bank_line(&mut out, state, Color::Blue);
    proof {
        assert(out@ =~= game_text(game@));
    }
    string_from_chars(out.as_slice())
}

/// The short summary after a command: whose turn and how many actions
/// remain, or the final status.
pub open spec fn turn_summary_text(g: GameView) -> Seq<char> {
    match g.status {
        GameStatus::InProgress => "Current player: "@ + player_label(g.turn.player) + "\n"@ + "Remaining actions: "@
            + decimal_text(g.turn.remaining as nat) + "\n"@,
        GameStatus::Finished(_) => "Status: "@ + status_text(g.status) + "\n"@,
    }
}

pub fn render_turn_summary(game: &Game) -> (text: String)
    ensures
        text@ == turn_summary_text(game@),
{
    let mut out: Vec<char> = Vec::new();
    match game.status() {
        GameStatus::InProgress => {
            push_text(&mut out, "Current player: ");
            push_player_label(&mut out, game.turn().current_player());
            push_text(&mut out, "\n");
            push_text(&mut out, "Remaining actions: ");
            push_decimal(&mut out, game.turn().remaining_actions());
            push_text(&mut out, "\n");
        },
        GameStatus::Finished(outcome) => {
            push_text(&mut out, "Status: ");
            push_status(&mut out, GameStatus::Finished(outcome));
            push_text(&mut out, "\n");
        },
    }
    proof {
        assert(out@ =~= turn_summary_text(game@));
    }
    string_from_chars(out.as_slice())
}

/// The help text listing the commands.
pub fn render_help() -> (help: &'static str)
    ensures
        help@ == help_text(),
{
    "Commands:
  show | s
  help | h
  end | e
  quit | q
  build | b <system> <piece>
  travel | t <from> <piece> existing | x <to>
  travel | t <from> <piece> new | n <star> [<star>]
  trade | tr | x <system> <from-piece> <to-piece>
  sacrifice | sac | s <system> <piece>
  invade | i <system> <your-piece> <target-piece>
  catastrophe | c <system> <color>

Pieces use color then size, for example gs, red large, or yellow small.
"
}

/// The help text.
pub open spec fn help_text() -> Seq<char> {
    "Commands:
  show | s
  help | h
  end | e
  quit | q
  build | b <system> <piece>
  travel | t <from> <piece> existing | x <to>
  travel | t <from> <piece> new | n <star> [<star>]
  trade | tr | x <system> <from-piece> <to-piece>
  sacrifice | sac | s <system> <piece>
  invade | i <system> <your-piece> <target-piece>
  catastrophe | c <system> <color>

Pieces use color then size, for example gs, red large, or yellow small.
"@
}

} // verus!

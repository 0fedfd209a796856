use vstd::prelude::*;

use crate::debug_text::{outcome_debug, player_debug, push_outcome_debug, push_player_debug};
use crate::game::{Game, GameStatus, GameView};
use crate::game_state::StateView;
use crate::piece::{Color, Piece, Player, Size, SystemId};
use crate::render::{
    color_label, color_short, decimal_text, player_label, player_short, push_color_label, push_decimal,
    push_player_label, push_status, push_system_label, size_short, status_text, system_label,
};
use crate::session::push_compact;
use crate::text::{push_text, string_from_chars};

verus! {

// What the terminal screen shows of a game, as lines of colored text.

/// A run of text, drawn in a piece color or in the default style.
pub struct Segment {
    pub text: String,
    pub color: Option<Color>,
}

/// What a segment shows.
pub open spec fn segment_view(segment: Segment) -> (Seq<char>, Option<Color>) {
    (segment.text@, segment.color)
}

/// What a line of segments shows.
pub open spec fn line_view(line: Seq<Segment>) -> Seq<(Seq<char>, Option<Color>)> {
    line.map_values(|s: Segment| segment_view(s))
}

/// What lines of segments show.
pub open spec fn lines_view(lines: Seq<Vec<Segment>>) -> Seq<Seq<(Seq<char>, Option<Color>)>> {
    lines.map_values(|l: Vec<Segment>| line_view(l@))
}

/// A segment in the default style.
pub open spec fn plain(text: Seq<char>) -> (Seq<char>, Option<Color>) {
    (text, None)
}

/// The segments of a piece: its owner's short name when asked and owned,
/// then its compact name in its own color.
pub open spec fn piece_segments_of(piece: Piece, show_owner: bool) -> Seq<(Seq<char>, Option<Color>)> {
    let owner = if show_owner && piece.owner is Some {
        seq![plain(player_short(piece.owner.unwrap())), plain(" "@)]
    } else {
        Seq::empty()
    };
    owner + seq![(color_short(piece.color) + size_short(piece.size), Some(piece.color))]
}

/// The segments of the first `n` pieces, separated by commas.
pub open spec fn pieces_segments(pieces: Seq<Piece>, show_owner: bool, n: int) -> Seq<(Seq<char>, Option<Color>)>
    decreases n,
{
    if n <= 0 {
        Seq::empty()
    } else {
        let before = pieces_segments(pieces, show_owner, n - 1);
        let separator = if n > 1 {
            seq![plain(", "@)]
        } else {
            Seq::empty()
        };
        before + separator + piece_segments_of(pieces[n - 1], show_owner)
    }
}

/// A labelled list of pieces, or `none`.
pub open spec fn piece_list_of(prefix: Seq<char>, pieces: Seq<Piece>, show_owner: bool) -> Seq<(Seq<char>, Option<Color>)> {
    if pieces.len() == 0 {
        seq![plain(prefix), plain("none"@)]
    } else {
        seq![plain(prefix)] + pieces_segments(pieces, show_owner, pieces.len() as int)
    }
}

/// The three lines of system `i`: its index and name, its stars, its ships.
pub open spec fn system_lines_of(s: StateView, i: int) -> Seq<Seq<(Seq<char>, Option<Color>)>> {
    seq![
        seq![plain("["@ + decimal_text(i as nat) + "] "@ + system_label(s, SystemId(i as usize)))],
        piece_list_of("  Stars: "@, s.systems[i].stars, false),
        piece_list_of("  Ships: "@, s.systems[i].ships, true),
    ]
}

/// The lines of the first `n` systems.
pub open spec fn systems_lines_of(s: StateView, n: int) -> Seq<Seq<(Seq<char>, Option<Color>)>>
    decreases n,
{
    if n <= 0 {
        Seq::empty()
    } else {
        systems_lines_of(s, n - 1) + system_lines_of(s, n - 1)
    }
}

/// The board panel: status, current player, remaining actions, then each
/// system.
pub open spec fn board_lines_of(g: GameView) -> Seq<Seq<(Seq<char>, Option<Color>)>> {
    seq![
        seq![plain("Status: "@ + status_text(g.status))],
        seq![plain("Current player: "@ + player_label(g.turn.player))],
        seq![plain("Remaining actions: "@ + decimal_text(g.turn.remaining as nat))],
        seq![plain("Systems:"@)],
    ] + systems_lines_of(g.turn.state, g.turn.state.systems.len() as int)
}

/// The bank panel's line for a color, all in that color.
pub open spec fn bank_line_of(s: StateView, color: Color) -> Seq<(Seq<char>, Option<Color>)> {
    seq![
        (color_label(color) + ":"@, Some(color)),
        (" small="@ + decimal_text(s.bank.spec_count(color, Size::Small) as nat) + " medium="@ + decimal_text(
            s.bank.spec_count(color, Size::Medium) as nat,
        ) + " large="@ + decimal_text(s.bank.spec_count(color, Size::Large) as nat), Some(color)),
    ]
}

/// The bank panel: one line per color, red, yellow, green, blue.
pub open spec fn bank_lines_of(g: GameView) -> Seq<Seq<(Seq<char>, Option<Color>)>> {
    let s = g.turn.state;
    seq![
        bank_line_of(s, Color::Red),
        bank_line_of(s, Color::Yellow),
        bank_line_of(s, Color::Green),
        bank_line_of(s, Color::Blue),
    ]
}

/// The status bar: whose turn it is and how many actions are left, or the
/// outcome, as `Debug` writes players and outcomes.
pub open spec fn status_bar_of(g: GameView) -> Seq<char> {
    match g.status {
        GameStatus::InProgress => "Current player: "@ + player_debug(g.turn.player) + " | actions: "@ + decimal_text(
            g.turn.remaining as nat,
        ),
        GameStatus::Finished(outcome) => "Finished: "@ + outcome_debug(outcome),
    }
}

fn segment(text: Vec<char>, color: Option<Color>) -> (s: Segment)
    ensures
        segment_view(s) == (text@, color),
{
    Segment { text: string_from_chars(text.as_slice()), color }
}

fn push_segment(line: &mut Vec<Segment>, text: Vec<char>, color: Option<Color>)
    ensures
        line_view(final(line)@) == line_view(old(line)@).push((text@, color)),
{
    let ghost before = line@;
    line.push(segment(text, color));
    assert(line_view(line@) =~= line_view(before).push((text@, color)));
}

fn chars_of(text: &str) -> (chars: Vec<char>)
    ensures
        chars@ == text@,
{
    crate::text::text_chars(text)
}

/// Appends the segments of a piece.
pub fn push_piece_segments(line: &mut Vec<Segment>, piece: Piece, show_owner: bool)
    ensures
        line_view(final(line)@) == line_view(old(line)@) + piece_segments_of(piece, show_owner),
{
    let ghost before = line_view(line@);
    if show_owner {
        if let Some(player) = piece.owner() {
            let mut name: Vec<char> = Vec::new();
            match player {
                Player::One => push_text(&mut name, "P1"),
                Player::Two => push_text(&mut name, "P2"),
            }
            push_segment(line, name, None);
            push_segment(line, chars_of(" "), None);
        }
    }
    let mut id: Vec<char> = Vec::new();
    push_compact(&mut id, piece);
    push_segment(line, id, Some(piece.color()));
    assert(line_view(line@) =~= before + piece_segments_of(piece, show_owner));
}

/// A line that lists pieces after a prefix, separated by commas, or says
/// `none`.
pub fn piece_list_line(prefix: &str, pieces: &[Piece], show_owner: bool) -> (line: Vec<Segment>)
    ensures
        line_view(line@) == piece_list_of(prefix@, pieces@, show_owner),
{
    let mut line: Vec<Segment> = Vec::new();
    push_segment(&mut line, chars_of(prefix), None);
    if pieces.len() == 0 {
        push_segment(&mut line, chars_of("none"), None);
        return line;
    }
    let mut i: usize = 0;
    while i < pieces.len()
        invariant
            0 <= i <= pieces@.len(),
            pieces@.len() > 0,
            line_view(line@) == seq![plain(prefix@)] + pieces_segments(pieces@, show_owner, i as int),
        decreases pieces@.len() - i,
    {
        let ghost before = line_view(line@);
        if i > 0 {
            push_segment(&mut line, chars_of(", "), None);
        }
        push_piece_segments(&mut line, pieces[i], show_owner);
        proof {
            let sep = if i + 1 > 1 {
                seq![plain(", "@)]
            } else {
                Seq::<(Seq<char>, Option<Color>)>::empty()
            };
            assert(pieces_segments(pieces@, show_owner, i + 1) == pieces_segments(pieces@, show_owner, i as int) + sep
                + piece_segments_of(pieces@[i as int], show_owner));
            assert(line_view(line@) =~= seq![plain(prefix@)] + pieces_segments(pieces@, show_owner, i + 1));
        }
        i += 1;
    }
    line
}

fn single_line(text: Vec<char>) -> (line: Vec<Segment>)
    ensures
        line_view(line@) == seq![plain(text@)],
{
    let mut line: Vec<Segment> = Vec::new();
    push_segment(&mut line, text, None);
    assert(line_view(line@) =~= seq![plain(text@)]);
    line
}

fn push_line(lines: &mut Vec<Vec<Segment>>, line: Vec<Segment>)
    ensures
        lines_view(final(lines)@) == lines_view(old(lines)@).push(line_view(line@)),
{
    let ghost before = lines@;
    lines.push(line);
    assert(lines_view(lines@) =~= lines_view(before).push(line_view(line@)));
}

/// The board panel of a game: status, current player, remaining actions,
/// and each system with its stars and ships.
pub fn board_lines(game: &Game) -> (lines: Vec<Vec<Segment>>)
    ensures
        lines_view(lines@) == board_lines_of(game@),
{
    let mut lines: Vec<Vec<Segment>> = Vec::new();
    let mut text: Vec<char> = Vec::new();
    push_text(&mut text, "Status: ");
    push_status(&mut text, game.status());
    push_line(&mut lines, single_line(text));
    let mut text: Vec<char> = Vec::new();
    push_text(&mut text, "Current player: ");
    push_player_label(&mut text, game.turn().current_player());
    push_line(&mut lines, single_line(text));
    let mut text: Vec<char> = Vec::new();
    push_text(&mut text, "Remaining actions: ");
    push_decimal(&mut text, game.turn().remaining_actions());
    push_line(&mut lines, single_line(text));
    push_line(&mut lines, single_line(chars_of("Systems:")));
    let ghost head = lines_view(lines@);
    let ghost g = game@;
    assert(head =~= seq![
        seq![plain("Status: "@ + status_text(g.status))],
        seq![plain("Current player: "@ + player_label(g.turn.player))],
        seq![plain("Remaining actions: "@ + decimal_text(g.turn.remaining as nat))],
        seq![plain("Systems:"@)],
    ]);
    let state = game.turn().state();
    let systems = state.systems();
    let ghost s = g.turn.state;
    let mut i: usize = 0;
    while i < systems.len()
        invariant
            g == game@,
            s == g.turn.state,
            state@ == s,
            crate::game_state::system_views(systems@) == s.systems,
            0 <= i <= systems@.len(),
            lines_view(lines@) == head + systems_lines_of(s, i as int),
        decreases systems@.len() - i,
    {
        let ghost before = lines_view(lines@);
        let mut text: Vec<char> = Vec::new();
        push_text(&mut text, "[");
        push_decimal(&mut text, i);
        push_text(&mut text, "] ");
        push_system_label(&mut text, state, SystemId::new(i));
        push_line(&mut lines, single_line(text));
        assert(systems@[i as int]@ == s.systems[i as int]);
        push_line(&mut lines, piece_list_line("  Stars: ", systems[i].stars(), false));
        push_line(&mut lines, piece_list_line("  Ships: ", systems[i].ships(), true));
        proof {
            assert(lines_view(lines@) =~= before + system_lines_of(s, i as int));
        }
        i += 1;
    }
    lines
}

/// The bank panel of a game: the count of each size, color by color.
pub fn bank_lines(game: &Game) -> (lines: Vec<Vec<Segment>>)
    ensures
        lines_view(lines@) == bank_lines_of(game@),
{
    let state = game.turn().state();
    let mut lines: Vec<Vec<Segment>> = Vec::new();
    push_line(&mut lines, bank_line(state, Color::Red));
    push_line(&mut lines, bank_line(state, Color::Yellow));
    push_line(&mut lines, bank_line(state, Color::Green));
    push_line(&mut lines, bank_line(state, Color::Blue));
    assert(lines_view(lines@) =~= bank_lines_of(game@));
    lines
}

fn bank_line(state: &crate::game_state::GameState, color: Color) -> (line: Vec<Segment>)
    ensures
        line_view(line@) == bank_line_of(state@, color),
{
    let bank = state.bank();
    let mut label: Vec<char> = Vec::new();
    push_color_label(&mut label, color);
    push_text(&mut label, ":");
    let mut counts: Vec<char> = Vec::new();
    push_text(&mut counts, " small=");
    push_decimal(&mut counts, bank.count(color, Size::Small) as usize);
    push_text(&mut counts, " medium=");
    push_decimal(&mut counts, bank.count(color, Size::Medium) as usize);
    push_text(&mut counts, " large=");
    push_decimal(&mut counts, bank.count(color, Size::Large) as usize);
    let mut line: Vec<Segment> = Vec::new();
    push_segment(&mut line, label, Some(color));
    push_segment(&mut line, counts, Some(color));
    assert(line_view(line@) =~= bank_line_of(state@, color));
    line
}

/// The status bar of a game.
pub fn render_status(game: &Game) -> (text: String)
    ensures
        text@ == status_bar_of(game@),
{
    let mut out: Vec<char> = Vec::new();
    match game.status() {
        GameStatus::InProgress => {
            push_text(&mut out, "Current player: ");
            push_player_debug(&mut out, game.turn().current_player());
            push_text(&mut out, " | actions: ");
            push_decimal(&mut out, game.turn().remaining_actions());
        },
        GameStatus::Finished(outcome) => {
            push_text(&mut out, "Finished: ");
            push_outcome_debug(&mut out, outcome);
        },
    }
    assert(out@ =~= status_bar_of(game@));
    string_from_chars(out.as_slice())
}

} // verus!

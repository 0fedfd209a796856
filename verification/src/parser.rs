use vstd::prelude::*;

use crate::action::{Action, ActionView, TargetView, TravelTarget};
use crate::game::{HomeworldSetup, SetupView};
use crate::piece::{Color, Piece, Player, Size, SystemId};
use crate::render::{decimal_text, digit_char};
use crate::text::{ascii_lower, is_space, is_word, plain_word, push_chars, push_text, string_from_chars, text_chars, token_views, tokenize, tokenize_chars, trim, trim_chars, words, words_chars};

verus! {

/// How an AI player picks its decisions.
#[derive(Clone, Copy, Debug, PartialEq, Eq, Structural)]
pub enum AiStrategy {
    First,
    Priority,
    Search,
}

/// An `ai` command: show who plays, or set or clear a player's AI.
#[derive(Clone, Copy, Debug, PartialEq, Eq, Structural)]
pub enum AiCommand {
    Show,
    SetStrategy { player: Player, strategy: AiStrategy },
    Off { player: Player },
}

/// A command typed at the game prompt.
#[derive(Clone, Debug, PartialEq, Eq)]
pub enum ParsedCommand {
    Help,
    Show,
    End,
    Quit,
    Ai(AiCommand),
    Save(String),
    SaveHistory(String),
    Load(String),
    Action(Action),
}

/// What a command is, in specification terms.
pub ghost enum CommandView {
    Help,
    Show,
    End,
    Quit,
    Ai(AiCommand),
    Save(Seq<char>),
    SaveHistory(Seq<char>),
    Load(Seq<char>),
    Action(ActionView),
}

impl View for ParsedCommand {
    type V = CommandView;

    open spec fn view(&self) -> CommandView {
        match self {
            ParsedCommand::Help => CommandView::Help,
            ParsedCommand::Show => CommandView::Show,
            ParsedCommand::End => CommandView::End,
            ParsedCommand::Quit => CommandView::Quit,
            ParsedCommand::Ai(command) => CommandView::Ai(*command),
            ParsedCommand::Save(path) => CommandView::Save(path@),
            ParsedCommand::SaveHistory(path) => CommandView::SaveHistory(path@),
            ParsedCommand::Load(path) => CommandView::Load(path@),
            ParsedCommand::Action(action) => CommandView::Action(action@),
        }
    }
}

/// A command and whether the board is to be shown after it (a trailing `;`).
#[derive(Clone, Debug, PartialEq, Eq)]
pub struct ParsedInput {
    pub command: ParsedCommand,
    pub show_after: bool,
}

/// Why a line could not be parsed, as a message for the player.
#[derive(Clone, Debug, PartialEq, Eq)]
pub struct ParseError {
    message: String,
}

impl View for ParseError {
    type V = Seq<char>;

    closed spec fn view(&self) -> Seq<char> {
        self.message@
    }
}

impl ParseError {
    pub fn message(&self) -> (message: &str)
        ensures
            message@ == self@,
    {
        self.message.as_str()
    }
}

/// An error with this message.
fn error_from(message: &[char]) -> (error: ParseError)
    ensures
        error@ == message@,
{
    ParseError { message: string_from_chars(message) }
}

/// An error with the text as its message.
fn error_text(text: &str) -> (error: ParseError)
    ensures
        error@ == text@,
{
    let chars = text_chars(text);
    error_from(chars.as_slice())
}

/// The message naming an offending word: `prefix`, the word in backticks.
pub open spec fn quoted(prefix: Seq<char>, word: Seq<char>) -> Seq<char> {
    prefix + "`"@ + word + "`"@
}

fn error_quoted(prefix: &str, word: &[char]) -> (error: ParseError)
    ensures
        error@ == quoted(prefix@, word@),
{
    let mut chars: Vec<char> = Vec::new();
    push_text(&mut chars, prefix);
    push_text(&mut chars, "`");
    push_chars(&mut chars, word);
    push_text(&mut chars, "`");
    error_from(chars.as_slice())
}

/// The color that a word names: a color name or its first letter.
pub open spec fn color_word(w: Seq<char>) -> Option<Color> {
    if w == "red"@ || w == "r"@ {
        Some(Color::Red)
    } else if w == "yellow"@ || w == "y"@ {
        Some(Color::Yellow)
    } else if w == "green"@ || w == "g"@ {
        Some(Color::Green)
    } else if w == "blue"@ || w == "b"@ {
        Some(Color::Blue)
    } else {
        None
    }
}

/// The size that a word names: a size name or its first letter.
pub open spec fn size_word(w: Seq<char>) -> Option<Size> {
    if w == "small"@ || w == "s"@ {
        Some(Size::Small)
    } else if w == "medium"@ || w == "m"@ {
        Some(Size::Medium)
    } else if w == "large"@ || w == "l"@ {
        Some(Size::Large)
    } else {
        None
    }
}

/// The color of a one-letter abbreviation.
pub open spec fn short_color(c: char) -> Option<Color> {
    if c == 'r' {
        Some(Color::Red)
    } else if c == 'y' {
        Some(Color::Yellow)
    } else if c == 'g' {
        Some(Color::Green)
    } else if c == 'b' {
        Some(Color::Blue)
    } else {
        None
    }
}

/// The size of a one-letter abbreviation.
pub open spec fn short_size(c: char) -> Option<Size> {
    if c == 's' {
        Some(Size::Small)
    } else if c == 'm' {
        Some(Size::Medium)
    } else if c == 'l' {
        Some(Size::Large)
    } else {
        None
    }
}

/// A piece written in two letters, color then size, such as `gs`.
pub open spec fn compact_piece(w: Seq<char>) -> Option<(Color, Size)> {
    if w.len() == 2 && short_color(w[0]) is Some && short_size(w[1]) is Some {
        Some((short_color(w[0])->0, short_size(w[1])->0))
    } else {
        None
    }
}

/// The piece at word `i` (compact, or a color word then a size word) and the
/// index of the word after it.
pub open spec fn piece_at(tokens: Seq<Seq<char>>, i: int) -> Result<(Color, Size, int), Seq<char>> {
    if i >= tokens.len() {
        Err("expected piece"@)
    } else if compact_piece(tokens[i]) is Some {
        let (color, size) = compact_piece(tokens[i])->0;
        Ok((color, size, i + 1))
    } else {
        match color_word(tokens[i]) {
            None => Err(quoted("invalid color "@, tokens[i])),
            Some(color) => if i + 1 >= tokens.len() {
                Err("expected piece size"@)
            } else {
                match size_word(tokens[i + 1]) {
                    None => Err(quoted("invalid size "@, tokens[i + 1])),
                    Some(size) => Ok((color, size, i + 2)),
                }
            },
        }
    }
}

/// `piece` in front of a parsed list, or the list's error.
pub open spec fn prepend(piece: Piece, rest: Result<Seq<Piece>, Seq<char>>) -> Result<Seq<Piece>, Seq<char>> {
    match rest {
        Ok(pieces) => Ok(seq![piece] + pieces),
        Err(e) => Err(e),
    }
}

/// The unowned pieces written from word `i` to the end.
pub open spec fn pieces_from(tokens: Seq<Seq<char>>, i: int) -> Result<Seq<Piece>, Seq<char>>
    decreases tokens.len() - i,
{
    if i < 0 || i >= tokens.len() {
        Ok(Seq::empty())
    } else if compact_piece(tokens[i]) is Some {
        let (color, size) = compact_piece(tokens[i])->0;
        prepend(Piece::make(color, size, None), pieces_from(tokens, i + 1))
    } else {
        match color_word(tokens[i]) {
            None => Err(quoted("invalid color "@, tokens[i])),
            Some(color) => if i + 1 >= tokens.len() {
                Err("expected piece size"@)
            } else {
                match size_word(tokens[i + 1]) {
                    None => Err(quoted("invalid size "@, tokens[i + 1])),
                    Some(size) => prepend(Piece::make(color, size, None), pieces_from(tokens, i + 2)),
                }
            },
        }
    }
}

/// The value of a word of decimal digits, with an optional leading `+`, if
/// it fits a `usize`.
pub open spec fn decimal(w: Seq<char>) -> Option<usize> {
    let digits = if w.len() > 0 && w[0] == '+' {
        w.drop_first()
    } else {
        w
    };
    if digits.len() > 0 && all_digits(digits) && digits_value(digits) <= usize::MAX {
        Some(digits_value(digits) as usize)
    } else {
        None
    }
}

/// Whether every character is a decimal digit.
pub open spec fn all_digits(w: Seq<char>) -> bool {
    forall|k: int| 0 <= k < w.len() ==> '0' <= #[trigger] w[k] <= '9'
}

/// The number that the digits write.
pub open spec fn digits_value(w: Seq<char>) -> nat
    decreases w.len(),
{
    if w.len() == 0 {
        0
    } else {
        digits_value(w.drop_last()) * 10 + ((w.last() as u32) - ('0' as u32)) as nat
    }
}

/// The decimal digits of a number are a plain word of digits with the number's value.
proof fn lemma_decimal_text_digits(n: nat)
    ensures
        plain_word(decimal_text(n)),
        all_digits(decimal_text(n)),
        digits_value(decimal_text(n)) == n,
    decreases n,
{
    let d = n % 10;
    let c = digit_char(d);
    assert(c as u32 == 48 + d);
    assert('0' as u32 == 48);
    assert(((c as u32) - ('0' as u32)) as nat == d);
    assert('0' <= c <= '9');
    assert(!is_space(c));
    assert(ascii_lower(c) == c);
    if n < 10 {
        let t = decimal_text(n);
        assert(t =~= seq![c]);
        assert(t[0] == c);
        assert(t.drop_last() =~= Seq::<char>::empty());
        assert(all_digits(t));
        assert(t.last() == c);
        assert(digits_value(t) == digits_value(t.drop_last()) * 10 + ((t.last() as u32) - ('0' as u32)) as nat);
    } else {
        lemma_decimal_text_digits(n / 10);
        let head = decimal_text(n / 10);
        let t = decimal_text(n);
        assert(t =~= head + seq![c]);
        assert(t.drop_last() =~= head);
        assert(t.last() == c);
        assert forall|k: int| 0 <= k < t.len() implies !is_space(#[trigger] t[k]) && ascii_lower(t[k]) == t[k] by {
            if k < head.len() {
                assert(t[k] == head[k]);
            }
        }
        assert forall|k: int| 0 <= k < t.len() implies '0' <= #[trigger] t[k] <= '9' by {
            if k < head.len() {
                assert(t[k] == head[k]);
            }
        }
        assert(n == (n / 10) * 10 + d);
        assert(all_digits(t));
        assert(digits_value(t) == digits_value(t.drop_last()) * 10 + ((t.last() as u32) - ('0' as u32)) as nat);
        assert(digits_value(head) == n / 10);
    }
}

/// The decimal digits of an index read back as that index.
pub proof fn lemma_decimal_reads_back(n: usize)
    ensures
        plain_word(decimal_text(n as nat)),
        decimal(decimal_text(n as nat)) == Some(n),
{
    lemma_decimal_text_digits(n as nat);
    assert(decimal_text(n as nat)[0] != '+');
}

proof fn lemma_digits_prefix(w: Seq<char>, k: int)
    requires
        0 <= k <= w.len(),
        all_digits(w),
    ensures
        digits_value(w.take(k)) <= digits_value(w),
    decreases w.len() - k,
{
    if k < w.len() {
        lemma_digits_prefix(w, k + 1);
        assert(w.take(k + 1).drop_last() =~= w.take(k));
    } else {
        assert(w.take(k) =~= w);
    }
}

/// The system id written at word `i`; `label` names it in messages.
pub open spec fn system_at(tokens: Seq<Seq<char>>, i: int, label: Seq<char>) -> Result<SystemId, Seq<char>> {
    if i >= tokens.len() {
        Err("expected "@ + label)
    } else {
        match decimal(tokens[i]) {
            Some(n) => Ok(SystemId(n)),
            None => Err(quoted("invalid "@ + label + " "@, tokens[i])),
        }
    }
}

/// The error when words follow where the command should end.
pub open spec fn end_at(tokens: Seq<Seq<char>>, next: int) -> Option<Seq<char>> {
    if next == tokens.len() {
        None
    } else {
        Some("unexpected extra input"@)
    }
}

/// A command word alone.
pub open spec fn alone(tokens: Seq<Seq<char>>, command: CommandView) -> Result<CommandView, Seq<char>> {
    match end_at(tokens, 1) {
        Some(e) => Err(e),
        None => Ok(command),
    }
}

/// `build <system> <piece>`.
pub open spec fn build_command(tokens: Seq<Seq<char>>, player: Player) -> Result<CommandView, Seq<char>> {
    match system_at(tokens, 1, "system"@) {
        Err(e) => Err(e),
        Ok(system) => match piece_at(tokens, 2) {
            Err(e) => Err(e),
            Ok((color, size, next)) => match end_at(tokens, next) {
                Some(e) => Err(e),
                None => Ok(CommandView::Action(ActionView::Build { player, system, ship: Piece::make(color, size, Some(player)) })),
            },
        },
    }
}

/// `sacrifice <system> <piece>`.
pub open spec fn sacrifice_command(tokens: Seq<Seq<char>>, player: Player) -> Result<CommandView, Seq<char>> {
    match system_at(tokens, 1, "system"@) {
        Err(e) => Err(e),
        Ok(system) => match piece_at(tokens, 2) {
            Err(e) => Err(e),
            Ok((color, size, next)) => match end_at(tokens, next) {
                Some(e) => Err(e),
                None => Ok(CommandView::Action(ActionView::Sacrifice { player, system, ship: Piece::make(color, size, Some(player)) })),
            },
        },
    }
}

/// `invade <system> <piece>`: the piece is the opponent's.
pub open spec fn invade_command(tokens: Seq<Seq<char>>, player: Player) -> Result<CommandView, Seq<char>> {
    match system_at(tokens, 1, "system"@) {
        Err(e) => Err(e),
        Ok(system) => match piece_at(tokens, 2) {
            Err(e) => Err(e),
            Ok((color, size, next)) => match end_at(tokens, next) {
                Some(e) => Err(e),
                None => Ok(
                    CommandView::Action(ActionView::Invade { player, system, target: Piece::make(color, size, Some(player.spec_other())) }),
                ),
            },
        },
    }
}

/// `trade <system> <from-piece> <to-piece>`.
pub open spec fn trade_command(tokens: Seq<Seq<char>>, player: Player) -> Result<CommandView, Seq<char>> {
    match system_at(tokens, 1, "system"@) {
        Err(e) => Err(e),
        Ok(system) => match piece_at(tokens, 2) {
            Err(e) => Err(e),
            Ok((c1, s1, n1)) => match piece_at(tokens, n1) {
                Err(e) => Err(e),
                Ok((c2, s2, n2)) => match end_at(tokens, n2) {
                    Some(e) => Err(e),
                    None => Ok(
                        CommandView::Action(
                            ActionView::Trade {
                                player,
                                system,
                                from: Piece::make(c1, s1, Some(player)),
                                to: Piece::make(c2, s2, Some(player)),
                            },
                        ),
                    ),
                },
            },
        },
    }
}

/// `catastrophe <system> <color>`.
pub open spec fn catastrophe_command(tokens: Seq<Seq<char>>) -> Result<CommandView, Seq<char>> {
    match system_at(tokens, 1, "system"@) {
        Err(e) => Err(e),
        Ok(system) => if 2 >= tokens.len() {
            Err("expected color"@)
        } else {
            match color_word(tokens[2]) {
                None => Err(quoted("invalid color "@, tokens[2])),
                Some(color) => match end_at(tokens, 3) {
                    Some(e) => Err(e),
                    None => Ok(CommandView::Action(ActionView::Catastrophe { system, color })),
                },
            }
        },
    }
}

/// `travel <system> <piece> existing <system>` or `travel <system> <piece> new <stars>`.
pub open spec fn travel_command(tokens: Seq<Seq<char>>, player: Player) -> Result<CommandView, Seq<char>> {
    match system_at(tokens, 1, "source system"@) {
        Err(e) => Err(e),
        Ok(from) => match piece_at(tokens, 2) {
            Err(e) => Err(e),
            Ok((color, size, t)) => {
                let ship = Piece::make(color, size, Some(player));
                if t >= tokens.len() {
                    Err("expected travel target"@)
                } else if tokens[t] == "existing"@ || tokens[t] == "x"@ {
                    match system_at(tokens, t + 1, "target system"@) {
                        Err(e) => Err(e),
                        Ok(to) => match end_at(tokens, t + 2) {
                            Some(e) => Err(e),
                            None => Ok(CommandView::Action(ActionView::Travel { player, from, ship, target: TargetView::Existing(to) })),
                        },
                    }
                } else if tokens[t] == "new"@ || tokens[t] == "n"@ {
                    match pieces_from(tokens, t + 1) {
                        Err(e) => Err(e),
                        Ok(stars) => if 1 <= stars.len() <= 2 {
                            Ok(CommandView::Action(ActionView::Travel { player, from, ship, target: TargetView::New(stars) }))
                        } else {
                            Err("new travel target needs one or two stars"@)
                        },
                    }
                } else {
                    Err("expected `existing`, `x`, `new`, or `n`"@)
                }
            },
        },
    }
}

/// The player that an `ai` command names.
pub open spec fn ai_player_word(w: Seq<char>) -> Option<Player> {
    if w == "p1"@ {
        Some(Player::One)
    } else if w == "p2"@ {
        Some(Player::Two)
    } else {
        None
    }
}

/// `ai`, `ai show`, `ai <p1|p2> <first|priority|search|off>`.
pub open spec fn ai_command(tokens: Seq<Seq<char>>) -> Result<CommandView, Seq<char>> {
    if tokens.len() == 1 || (tokens.len() == 2 && tokens[1] == "show"@) {
        Ok(CommandView::Ai(AiCommand::Show))
    } else {
        match ai_player_word(tokens[1]) {
            None => Err(quoted("invalid AI player "@, tokens[1])),
            Some(player) => if tokens.len() < 3 {
                Err("expected AI mode"@)
            } else if tokens.len() > 3 {
                Err("unexpected extra input"@)
            } else if tokens[2] == "first"@ {
                Ok(CommandView::Ai(AiCommand::SetStrategy { player, strategy: AiStrategy::First }))
            } else if tokens[2] == "priority"@ {
                Ok(CommandView::Ai(AiCommand::SetStrategy { player, strategy: AiStrategy::Priority }))
            } else if tokens[2] == "search"@ {
                Ok(CommandView::Ai(AiCommand::SetStrategy { player, strategy: AiStrategy::Search }))
            } else if tokens[2] == "off"@ {
                Ok(CommandView::Ai(AiCommand::Off { player }))
            } else {
                Err(quoted("invalid AI mode "@, tokens[2]))
            }
        }
    }
}

/// The one path argument of a file command, as written.
pub open spec fn path_argument(raw: Seq<Seq<char>>) -> Result<Seq<char>, Seq<char>> {
    if raw.len() < 2 {
        Err("expected path"@)
    } else if raw.len() > 2 {
        Err("unexpected extra input"@)
    } else {
        Ok(raw[1])
    }
}

/// The command that the words make for the current player; `raw` holds the
/// same words as written, for file paths.
pub open spec fn command_of(tokens: Seq<Seq<char>>, raw: Seq<Seq<char>>, player: Player) -> Result<CommandView, Seq<char>> {
    if tokens.len() == 0 {
        Err("expected a command"@)
    } else {
        let w = tokens[0];
        if w == "help"@ || w == "h"@ {
            alone(tokens, CommandView::Help)
        } else if w == "show"@ {
            alone(tokens, CommandView::Show)
        } else if w == "s"@ && tokens.len() == 1 {
            Ok(CommandView::Show)
        } else if w == "end"@ || w == "e"@ {
            alone(tokens, CommandView::End)
        } else if w == "quit"@ || w == "q"@ {
            alone(tokens, CommandView::Quit)
        } else if w == "build"@ || w == "b"@ {
            build_command(tokens, player)
        } else if w == "travel"@ || w == "t"@ {
            travel_command(tokens, player)
        } else if w == "trade"@ || w == "tr"@ || w == "x"@ {
            trade_command(tokens, player)
        } else if w == "sacrifice"@ || w == "sac"@ || w == "s"@ {
            sacrifice_command(tokens, player)
        } else if w == "invade"@ || w == "i"@ {
            invade_command(tokens, player)
        } else if w == "catastrophe"@ || w == "c"@ {
            catastrophe_command(tokens)
        } else if w == "ai"@ {
            ai_command(tokens)
        } else if w == "save"@ || w == "v"@ {
            match path_argument(raw) {
                Ok(path) => Ok(CommandView::Save(path)),
                Err(e) => Err(e),
            }
        } else if w == "save-history"@ || w == "sh"@ {
            match path_argument(raw) {
                Ok(path) => Ok(CommandView::SaveHistory(path)),
                Err(e) => Err(e),
            }
        } else if w == "load"@ || w == "l"@ {
            match path_argument(raw) {
                Ok(path) => Ok(CommandView::Load(path)),
                Err(e) => Err(e),
            }
        } else {
            Err(quoted("unknown command "@, w))
        }
    }
}

/// The view of a parse result.
pub open spec fn command_result_view(result: Result<ParsedCommand, ParseError>) -> Result<CommandView, Seq<char>> {
    match result {
        Ok(command) => Ok(command@),
        Err(e) => Err(e@),
    }
}

/// The position of the first `;` at or after index `i`.
pub open spec fn semicolon_from(s: Seq<char>, i: int) -> Option<int>
    decreases s.len() - i,
{
    if i < 0 || i >= s.len() {
        None
    } else if s[i] == ';' {
        Some(i)
    } else {
        semicolon_from(s, i + 1)
    }
}

/// `semicolon_from` finds the first `;` at or after `i`, or none when there is none.
pub proof fn lemma_semicolon_from(s: Seq<char>, i: int)
    requires
        0 <= i,
    ensures
        semicolon_from(s, i) is None <==> (forall|j: int| i <= j < s.len() ==> s[j] != ';'),
        semicolon_from(s, i) matches Some(k) ==> i <= k < s.len() && s[k] == ';' && (forall|j: int| i <= j < k ==> s[j]
            != ';'),
    decreases s.len() - i,
{
    if i < s.len() && s[i] != ';' {
        lemma_semicolon_from(s, i + 1);
        if semicolon_from(s, i) is None {
            assert forall|j: int| i <= j < s.len() implies s[j] != ';' by {
                if j > i {
                }
            }
        }
    }
}

/// The command of a line and whether it ends in `;`, which asks to show the
/// board afterwards; a `;` anywhere else is an error.
pub open spec fn input_of(line: Seq<char>, player: Player) -> Result<(CommandView, bool), Seq<char>> {
    let t = trim(line);
    match semicolon_from(t, 0) {
        Some(k) => if k == t.len() - 1 {
            match command_of(tokenize(t.take(k)), words(t.take(k)), player) {
                Ok(command) => Ok((command, true)),
                Err(e) => Err(e),
            }
        } else {
            Err("semicolon is only allowed at the end of a command"@)
        },
        None => match command_of(tokenize(t), words(t), player) {
            Ok(command) => Ok((command, false)),
            Err(e) => Err(e),
        },
    }
}

/// The view of an input parse result.
pub open spec fn input_result_view(result: Result<ParsedInput, ParseError>) -> Result<(CommandView, bool), Seq<char>> {
    match result {
        Ok(input) => Ok((input.command@, input.show_after)),
        Err(e) => Err(e@),
    }
}

/// A homeworld setup from its stars line and its ship line: exactly two
/// unowned stars, and exactly one ship, which the player owns.
pub open spec fn setup_of(stars_line: Seq<char>, ship_line: Seq<char>, player: Player) -> Result<SetupView, Seq<char>> {
    match pieces_from(tokenize(stars_line), 0) {
        Err(e) => Err(e),
        Ok(stars) => if stars.len() != 2 {
            Err("homeworld setup needs exactly two stars"@)
        } else {
            match pieces_from(tokenize(ship_line), 0) {
                Err(e) => Err(e),
                Ok(ships) => if ships.len() != 1 {
                    Err("homeworld setup needs exactly one ship"@)
                } else {
                    Ok(SetupView { stars, ship: Piece::make(ships[0].color, ships[0].size, Some(player)) })
                },
            }
        },
    }
}

/// The view of a setup parse result.
pub open spec fn setup_result_view(result: Result<HomeworldSetup, ParseError>) -> Result<SetupView, Seq<char>> {
    match result {
        Ok(setup) => Ok(setup@),
        Err(e) => Err(e@),
    }
}

fn parse_color(w: &[char]) -> (color: Option<Color>)
    ensures
        color == color_word(w@),
{
    if is_word(w, "red") || is_word(w, "r") {
        Some(Color::Red)
    } else if is_word(w, "yellow") || is_word(w, "y") {
        Some(Color::Yellow)
    } else if is_word(w, "green") || is_word(w, "g") {
        Some(Color::Green)
    } else if is_word(w, "blue") || is_word(w, "b") {
        Some(Color::Blue)
    } else {
        None
    }
}

fn parse_size(w: &[char]) -> (size: Option<Size>)
    ensures
        size == size_word(w@),
{
    if is_word(w, "small") || is_word(w, "s") {
        Some(Size::Small)
    } else if is_word(w, "medium") || is_word(w, "m") {
        Some(Size::Medium)
    } else if is_word(w, "large") || is_word(w, "l") {
        Some(Size::Large)
    } else {
        None
    }
}

fn parse_short_color(c: char) -> (color: Option<Color>)
    ensures
        color == short_color(c),
{
    if c == 'r' {
        Some(Color::Red)
    } else if c == 'y' {
        Some(Color::Yellow)
    } else if c == 'g' {
        Some(Color::Green)
    } else if c == 'b' {
        Some(Color::Blue)
    } else {
        None
    }
}

fn parse_short_size(c: char) -> (size: Option<Size>)
    ensures
        size == short_size(c),
{
    if c == 's' {
        Some(Size::Small)
    } else if c == 'm' {
        Some(Size::Medium)
    } else if c == 'l' {
        Some(Size::Large)
    } else {
        None
    }
}

fn parse_compact_piece(w: &[char]) -> (piece: Option<(Color, Size)>)
    ensures
        piece == compact_piece(w@),
{
    if w.len() != 2 {
        return None;
    }
    match (parse_short_color(w[0]), parse_short_size(w[1])) {
        (Some(color), Some(size)) => Some((color, size)),
        _ => None,
    }
}

/// The view of a piece parse result.
pub open spec fn piece_result_view(result: Result<(Color, Size, usize), ParseError>) -> Result<(Color, Size, int), Seq<char>> {
    match result {
        Ok((color, size, next)) => Ok((color, size, next as int)),
        Err(e) => Err(e@),
    }
}

fn consume_piece(tokens: &Vec<Vec<char>>, index: usize) -> (result: Result<(Color, Size, usize), ParseError>)
    requires
        tokens@.len() < usize::MAX - 2,
    ensures
        piece_result_view(result) == piece_at(token_views(tokens@), index as int),
{
    let ghost v = token_views(tokens@);
    if index >= tokens.len() {
        return Err(error_text("expected piece"));
    }
    let first = &tokens[index];
    assert(first@ == v[index as int]);
    if let Some((color, size)) = parse_compact_piece(first.as_slice()) {
        return Ok((color, size, index + 1));
    }
    let color = match parse_color(first.as_slice()) {
        Some(color) => color,
        None => {
            return Err(error_quoted("invalid color ", first.as_slice()));
        },
    };
    if index + 1 >= tokens.len() {
        return Err(error_text("expected piece size"));
    }
    let second = &tokens[index + 1];
    assert(second@ == v[index + 1]);
    match parse_size(second.as_slice()) {
        Some(size) => Ok((color, size, index + 2)),
        None => Err(error_quoted("invalid size ", second.as_slice())),
    }
}

/// `prefix` in front of a parsed list, or the list's error.
pub open spec fn prepend_all(prefix: Seq<Piece>, rest: Result<Seq<Piece>, Seq<char>>) -> Result<Seq<Piece>, Seq<char>> {
    match rest {
        Ok(pieces) => Ok(prefix + pieces),
        Err(e) => Err(e),
    }
}

proof fn lemma_pieces_step(v: Seq<Seq<char>>, i: int)
    requires
        0 <= i < v.len(),
    ensures
        match piece_at(v, i) {
            Ok((color, size, next)) => pieces_from(v, i) == prepend(Piece::make(color, size, None), pieces_from(v, next)),
            Err(e) => pieces_from(v, i) == Err::<Seq<Piece>, Seq<char>>(e),
        },
{
}

/// The view of a piece list parse result.
pub open spec fn pieces_result_view(result: Result<Vec<Piece>, ParseError>) -> Result<Seq<Piece>, Seq<char>> {
    match result {
        Ok(pieces) => Ok(pieces@),
        Err(e) => Err(e@),
    }
}

fn parse_piece_list(tokens: &Vec<Vec<char>>, start: usize) -> (result: Result<Vec<Piece>, ParseError>)
    requires
        tokens@.len() < usize::MAX - 2,
    ensures
        pieces_result_view(result) == pieces_from(token_views(tokens@), start as int),
{
    let ghost v = token_views(tokens@);
    let mut pieces: Vec<Piece> = Vec::new();
    let mut index = start;
    proof {
        assert(prepend_all(pieces@, pieces_from(v, index as int)) == pieces_from(v, start as int)) by {
            match pieces_from(v, start as int) {
                Ok(r) => {
                    assert(Seq::<Piece>::empty() + r =~= r);
                },
                Err(_) => {},
            }
        }
    }
    while index < tokens.len()
        invariant
            v == token_views(tokens@),
            tokens@.len() < usize::MAX - 2,
            start <= index,
            prepend_all(pieces@, pieces_from(v, index as int)) == pieces_from(v, start as int),
        decreases tokens@.len() - index,
    {
        proof {
            lemma_pieces_step(v, index as int);
        }
        let (color, size, next) = match consume_piece(tokens, index) {
            Ok(parsed) => parsed,
            Err(e) => {
                return Err(e);
            },
        };
        let ghost before = pieces@;
        pieces.push(Piece::new(color, size));
        proof {
            assert(pieces@ == before.push(Piece::make(color, size, None)));
            match pieces_from(v, next as int) {
                Ok(r) => {
                    assert(before + (seq![Piece::make(color, size, None)] + r) =~= pieces@ + r);
                },
                Err(_) => {},
            }
        }
        index = next;
    }
    proof {
        assert(pieces@ + Seq::<Piece>::empty() =~= pieces@);
    }
    Ok(pieces)
}

fn parse_decimal(w: &[char]) -> (value: Option<usize>)
    ensures
        value == decimal(w@),
{
    let mut start: usize = 0;
    if w.len() > 0 && w[0] == '+' {
        start = 1;
    }
    let ghost digits = if w@.len() > 0 && w@[0] == '+' {
        w@.drop_first()
    } else {
        w@
    };
    assert(digits =~= w@.skip(start as int));
    if start >= w.len() {
        return None;
    }
    let mut value: usize = 0;
    let mut i: usize = start;
    while i < w.len()
        invariant
            start <= i <= w@.len(),
            digits == w@.skip(start as int),
            digits == (if w@.len() > 0 && w@[0] == '+' {
                w@.drop_first()
            } else {
                w@
            }),
            all_digits(digits.take(i - start)),
            value == digits_value(digits.take(i - start)),
        decreases w@.len() - i,
    {
        let c = w[i];
        if c < '0' || c > '9' {
            proof {
                assert(digits[i - start] == c);
                assert(!all_digits(digits));
            }
            return None;
        }
        let d = (c as u32 - '0' as u32) as usize;
        proof {
            assert(digits.take(i - start + 1).drop_last() =~= digits.take(i - start));
            assert(digits.take(i - start + 1).last() == c);
            assert forall|k: int| 0 <= k < i - start + 1 implies '0' <= #[trigger] digits.take(i - start + 1)[k] <= '9' by {
                if k < i - start {
                    assert(digits.take(i - start + 1)[k] == digits.take(i - start)[k]);
                }
            }
        }
        if value > (usize::MAX - d) / 10 {
            proof {
                assert(digits_value(digits.take(i - start + 1)) > usize::MAX) by (nonlinear_arith)
                    requires
                        value > (usize::MAX - d) / 10,
                        digits_value(digits.take(i - start + 1)) == value * 10 + d,
                        d <= 9,
                ;
                if all_digits(digits) {
                    lemma_digits_prefix(digits, i - start + 1);
                    assert(digits_value(digits) > usize::MAX);
                }
                assert(decimal(w@) is None);
            }
            return None;
        }
        value = value * 10 + d;
        i += 1;
    }
    proof {
        assert(digits.take(i - start) =~= digits);
    }
    Some(value)
}

/// The view of a system parse result.
pub open spec fn system_result_view(result: Result<SystemId, ParseError>) -> Result<SystemId, Seq<char>> {
    match result {
        Ok(id) => Ok(id),
        Err(e) => Err(e@),
    }
}

fn parse_system(tokens: &Vec<Vec<char>>, index: usize, label: &str) -> (result: Result<SystemId, ParseError>)
    ensures
        system_result_view(result) == system_at(token_views(tokens@), index as int, label@),
{
    let ghost v = token_views(tokens@);
    if index >= tokens.len() {
        let mut chars: Vec<char> = Vec::new();
        push_text(&mut chars, "expected ");
        push_text(&mut chars, label);
        return Err(error_from(chars.as_slice()));
    }
    let token = &tokens[index];
    assert(token@ == v[index as int]);
    match parse_decimal(token.as_slice()) {
        Some(n) => Ok(SystemId::new(n)),
        None => {
            let mut chars: Vec<char> = Vec::new();
            push_text(&mut chars, "invalid ");
            push_text(&mut chars, label);
            push_text(&mut chars, " ");
            push_text(&mut chars, "`");
            push_chars(&mut chars, token.as_slice());
            push_text(&mut chars, "`");
            proof {
                assert(chars@ =~= quoted("invalid "@ + label@ + " "@, token@));
            }
            Err(error_from(chars.as_slice()))
        },
    }
}

/// The view of a check result.
pub open spec fn check_result_view(result: Result<(), ParseError>) -> Option<Seq<char>> {
    match result {
        Ok(()) => None,
        Err(e) => Some(e@),
    }
}

fn require_end(tokens: &Vec<Vec<char>>, next: usize) -> (result: Result<(), ParseError>)
    ensures
        check_result_view(result) == end_at(token_views(tokens@), next as int),
{
    if next == tokens.len() {
        Ok(())
    } else {
        Err(error_text("unexpected extra input"))
    }
}

fn parse_build(tokens: &Vec<Vec<char>>, player: Player) -> (result: Result<ParsedCommand, ParseError>)
    requires
        tokens@.len() < usize::MAX - 2,
    ensures
        command_result_view(result) == build_command(token_views(tokens@), player),
{
    let system = parse_system(tokens, 1, "system")?;
    let (color, size, next) = consume_piece(tokens, 2)?;
    require_end(tokens, next)?;
    Ok(ParsedCommand::Action(Action::Build { player, system, ship: Piece::owned(color, size, player) }))
}

fn parse_sacrifice(tokens: &Vec<Vec<char>>, player: Player) -> (result: Result<ParsedCommand, ParseError>)
    requires
        tokens@.len() < usize::MAX - 2,
    ensures
        command_result_view(result) == sacrifice_command(token_views(tokens@), player),
{
    let system = parse_system(tokens, 1, "system")?;
    let (color, size, next) = consume_piece(tokens, 2)?;
    require_end(tokens, next)?;
    Ok(ParsedCommand::Action(Action::Sacrifice { player, system, ship: Piece::owned(color, size, player) }))
}

fn parse_invade(tokens: &Vec<Vec<char>>, player: Player) -> (result: Result<ParsedCommand, ParseError>)
    requires
        tokens@.len() < usize::MAX - 2,
    ensures
        command_result_view(result) == invade_command(token_views(tokens@), player),
{
    let system = parse_system(tokens, 1, "system")?;
    let (color, size, next) = consume_piece(tokens, 2)?;
    require_end(tokens, next)?;
    Ok(ParsedCommand::Action(Action::Invade { player, system, target: Piece::owned(color, size, player.other()) }))
}

fn parse_trade(tokens: &Vec<Vec<char>>, player: Player) -> (result: Result<ParsedCommand, ParseError>)
    requires
        tokens@.len() < usize::MAX - 2,
    ensures
        command_result_view(result) == trade_command(token_views(tokens@), player),
{
    let system = parse_system(tokens, 1, "system")?;
    let (c1, s1, n1) = consume_piece(tokens, 2)?;
    let (c2, s2, n2) = consume_piece(tokens, n1)?;
    require_end(tokens, n2)?;
    Ok(
        ParsedCommand::Action(
            Action::Trade { player, system, from: Piece::owned(c1, s1, player), to: Piece::owned(c2, s2, player) },
        ),
    )
}

fn parse_catastrophe(tokens: &Vec<Vec<char>>) -> (result: Result<ParsedCommand, ParseError>)
    ensures
        command_result_view(result) == catastrophe_command(token_views(tokens@)),
{
    let ghost v = token_views(tokens@);
    let system = parse_system(tokens, 1, "system")?;
    if 2 >= tokens.len() {
        return Err(error_text("expected color"));
    }
    let word = &tokens[2];
    assert(word@ == v[2]);
    let color = match parse_color(word.as_slice()) {
        Some(color) => color,
        None => {
            return Err(error_quoted("invalid color ", word.as_slice()));
        },
    };
    require_end(tokens, 3)?;
    Ok(ParsedCommand::Action(Action::Catastrophe { system, color }))
}

fn parse_travel(tokens: &Vec<Vec<char>>, player: Player) -> (result: Result<ParsedCommand, ParseError>)
    requires
        tokens@.len() < usize::MAX - 2,
    ensures
        command_result_view(result) == travel_command(token_views(tokens@), player),
{
    let ghost v = token_views(tokens@);
    let from = parse_system(tokens, 1, "source system")?;
    let (color, size, t) = consume_piece(tokens, 2)?;
    let ship = Piece::owned(color, size, player);
    if t >= tokens.len() {
        return Err(error_text("expected travel target"));
    }
    let word = &tokens[t];
    assert(word@ == v[t as int]);
    if is_word(word.as_slice(), "existing") || is_word(word.as_slice(), "x") {
        let to = parse_system(tokens, t + 1, "target system")?;
        require_end(tokens, t + 2)?;
        Ok(ParsedCommand::Action(Action::Travel { player, from, ship, target: TravelTarget::Existing(to) }))
    } else if is_word(word.as_slice(), "new") || is_word(word.as_slice(), "n") {
        let stars = parse_piece_list(tokens, t + 1)?;
        if stars.len() < 1 || stars.len() > 2 {
            return Err(error_text("new travel target needs one or two stars"));
        }
        Ok(ParsedCommand::Action(Action::Travel { player, from, ship, target: TravelTarget::New { stars } }))
    } else {
        Err(error_text("expected `existing`, `x`, `new`, or `n`"))
    }
}

fn parse_ai(tokens: &Vec<Vec<char>>) -> (result: Result<ParsedCommand, ParseError>)
    requires
        tokens@.len() >= 1,
    ensures
        command_result_view(result) == ai_command(token_views(tokens@)),
{
    let ghost v = token_views(tokens@);
    if tokens.len() == 1 {
        return Ok(ParsedCommand::Ai(AiCommand::Show));
    }
    let second = tokens[1].as_slice();
    assert(second@ == v[1]);
    if tokens.len() == 2 && is_word(second, "show") {
        return Ok(ParsedCommand::Ai(AiCommand::Show));
    }
    let player = if is_word(second, "p1") {
        Player::One
    } else if is_word(second, "p2") {
        Player::Two
    } else {
        return Err(error_quoted("invalid AI player ", second));
    };
    if tokens.len() < 3 {
        return Err(error_text("expected AI mode"));
    }
    if tokens.len() > 3 {
        return Err(error_text("unexpected extra input"));
    }
    let mode = tokens[2].as_slice();
    assert(mode@ == v[2]);
    if is_word(mode, "first") {
        Ok(ParsedCommand::Ai(AiCommand::SetStrategy { player, strategy: AiStrategy::First }))
    } else if is_word(mode, "priority") {
        Ok(ParsedCommand::Ai(AiCommand::SetStrategy { player, strategy: AiStrategy::Priority }))
    } else if is_word(mode, "search") {
        Ok(ParsedCommand::Ai(AiCommand::SetStrategy { player, strategy: AiStrategy::Search }))
    } else if is_word(mode, "off") {
        Ok(ParsedCommand::Ai(AiCommand::Off { player }))
    } else {
        Err(error_quoted("invalid AI mode ", mode))
    }
}

/// The view of a path parse result.
pub open spec fn path_result_view(result: Result<String, ParseError>) -> Result<Seq<char>, Seq<char>> {
    match result {
        Ok(path) => Ok(path@),
        Err(e) => Err(e@),
    }
}

fn parse_path(raw: &Vec<Vec<char>>) -> (result: Result<String, ParseError>)
    ensures
        path_result_view(result) == path_argument(token_views(raw@)),
{
    if raw.len() < 2 {
        return Err(error_text("expected path"));
    }
    if raw.len() > 2 {
        return Err(error_text("unexpected extra input"));
    }
    assert(raw@[1]@ == token_views(raw@)[1]);
    Ok(string_from_chars(raw[1].as_slice()))
}

fn parse_tokens(tokens: &Vec<Vec<char>>, raw: &Vec<Vec<char>>, player: Player) -> (result: Result<ParsedCommand, ParseError>)
    requires
        tokens@.len() < usize::MAX - 2,
    ensures
        command_result_view(result) == command_of(token_views(tokens@), token_views(raw@), player),
{
    let ghost v = token_views(tokens@);
    if tokens.len() == 0 {
        return Err(error_text("expected a command"));
    }
    let w = tokens[0].as_slice();
    assert(w@ == v[0]);
    if is_word(w, "help") || is_word(w, "h") {
        require_end(tokens, 1)?;
        Ok(ParsedCommand::Help)
    } else if is_word(w, "show") {
        require_end(tokens, 1)?;
        Ok(ParsedCommand::Show)
    } else if is_word(w, "s") && tokens.len() == 1 {
        Ok(ParsedCommand::Show)
    } else if is_word(w, "end") || is_word(w, "e") {
        require_end(tokens, 1)?;
        Ok(ParsedCommand::End)
    } else if is_word(w, "quit") || is_word(w, "q") {
        require_end(tokens, 1)?;
        Ok(ParsedCommand::Quit)
    } else if is_word(w, "build") || is_word(w, "b") {
        parse_build(tokens, player)
    } else if is_word(w, "travel") || is_word(w, "t") {
        parse_travel(tokens, player)
    } else if is_word(w, "trade") || is_word(w, "tr") || is_word(w, "x") {
        parse_trade(tokens, player)
    } else if is_word(w, "sacrifice") || is_word(w, "sac") || is_word(w, "s") {
        parse_sacrifice(tokens, player)
    } else if is_word(w, "invade") || is_word(w, "i") {
        parse_invade(tokens, player)
    } else if is_word(w, "catastrophe") || is_word(w, "c") {
        parse_catastrophe(tokens)
    } else if is_word(w, "ai") {
        parse_ai(tokens)
    } else if is_word(w, "save") || is_word(w, "v") {
        let path = parse_path(raw)?;
        Ok(ParsedCommand::Save(path))
    } else if is_word(w, "save-history") || is_word(w, "sh") {
        let path = parse_path(raw)?;
        Ok(ParsedCommand::SaveHistory(path))
    } else if is_word(w, "load") || is_word(w, "l") {
        let path = parse_path(raw)?;
        Ok(ParsedCommand::Load(path))
    } else {
        Err(error_quoted("unknown command ", w))
    }
}

/// The words of a text; a text with more words than memory can index is
/// not expected.
fn words_of(chars: &[char]) -> (tokens: Vec<Vec<char>>)
    ensures
        token_views(tokens@) == tokenize(chars@),
        tokens@.len() < usize::MAX - 2,
{
    let n = chars.len();
    let tokens = tokenize_chars(chars);
    proof {
        crate::text::lemma_tokenize_len(chars@);
        assert(token_views(tokens@).len() == tokens@.len());
        assert(chars@.len() <= usize::MAX);
        assert(2 * tokens@.len() <= usize::MAX + 1);
    }
    tokens
}

/// Parses a command line for the current player.
pub fn parse_command(line: &str, current_player: Player) -> (result: Result<ParsedCommand, ParseError>)
    ensures
        command_result_view(result) == command_of(tokenize(line@), words(line@), current_player),
{
    let chars = text_chars(line);
    parse_command_chars(chars.as_slice(), current_player)
}

fn parse_command_chars(chars: &[char], current_player: Player) -> (result: Result<ParsedCommand, ParseError>)
    ensures
        command_result_view(result) == command_of(tokenize(chars@), words(chars@), current_player),
{
    let tokens = words_of(chars);
    let raw = words_chars(chars);
    parse_tokens(&tokens, &raw, current_player)
}

/// Parses a line at the game prompt: a command, and a trailing `;` asking
/// to show the board afterwards.
pub fn parse_input(line: &str, current_player: Player) -> (result: Result<ParsedInput, ParseError>)
    ensures
        input_result_view(result) == input_of(line@, current_player),
{
    let chars = text_chars(line);
    let trimmed = trim_chars(chars.as_slice());
    let ghost t = trimmed@;
    let mut k: usize = 0;
    while k < trimmed.len() && trimmed[k] != ';'
        invariant
            0 <= k <= t.len(),
            t == trimmed@,
            semicolon_from(t, 0) == semicolon_from(t, k as int),
        decreases t.len() - k,
    {
        k += 1;
    }
    if k < trimmed.len() {
        if k + 1 != trimmed.len() {
            return Err(error_text("semicolon is only allowed at the end of a command"));
        }
        let mut command_line: Vec<char> = Vec::new();
        let mut j: usize = 0;
        while j < k
            invariant
                0 <= j <= k < t.len(),
                t == trimmed@,
                command_line@ == t.take(j as int),
            decreases k - j,
        {
            command_line.push(trimmed[j]);
            proof {
                assert(t.take(j + 1) =~= t.take(j as int).push(t[j as int]));
            }
            j += 1;
        }
        let command = parse_command_chars(command_line.as_slice(), current_player)?;
        Ok(ParsedInput { command, show_after: true })
    } else {
        let command = parse_command_chars(trimmed.as_slice(), current_player)?;
        Ok(ParsedInput { command, show_after: false })
    }
}

/// Parses a homeworld setup from its stars line and its ship line.
pub fn parse_setup(stars_line: &str, ship_line: &str, player: Player) -> (result: Result<HomeworldSetup, ParseError>)
    ensures
        setup_result_view(result) == setup_of(stars_line@, ship_line@, player),
{
    let star_tokens = words_of(text_chars(stars_line).as_slice());
    let stars = parse_piece_list(&star_tokens, 0)?;
    if stars.len() != 2 {
        return Err(error_text("homeworld setup needs exactly two stars"));
    }
    let ship_tokens = words_of(text_chars(ship_line).as_slice());
    let ships = parse_piece_list(&ship_tokens, 0)?;
    if ships.len() != 1 {
        return Err(error_text("homeworld setup needs exactly one ship"));
    }
    let ship = ships[0];
    Ok(HomeworldSetup::new(stars, Piece::owned(ship.color(), ship.size(), player)))
}

} // verus!

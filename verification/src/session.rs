use vstd::prelude::*;

use crate::action::{Action, ActionView, TargetView, TravelTarget};
use crate::ai::{first_legal_choice, option_view, priority_choice, AiDecision, DecisionView, FirstLegalStrategy, PriorityStrategy, Strategy};
use crate::debug_text::{game_error_debug, push_game_error_debug};
use crate::game::{new_game_error, setup_system, Game, GameError, GameStatus, GameView, SetupView};
use crate::parser::{parse_setup, setup_of, AiStrategy};
use crate::piece::{Color, Piece, Player, Size, SystemId};
use crate::render::{color_short, decimal_text, push_decimal, size_short};
use crate::save::{fault_of, load_fault, reads_as, save_error_text, string_views, SaveError, SaveFile};
use crate::search::SearchStrategy;
use crate::text::{
    char_is_space, history_command, is_space, is_word, lowercase, push_chars, push_text, string_from_chars, text_chars,
    text_lines, tokenize, trim, trim_chars, trim_start, words_chars,
};
use crate::validation::{has_possible_catastrophe, possible_catastrophe};

verus! {

/// The most decisions that AI players make in a row before handing back.
pub const MAX_AI_DECISIONS: usize = 512;

/// How deeply loaded command files may load further files.
pub const MAX_LOAD_DEPTH: usize = 16;

/// Which players the AI plays, and how.
#[derive(Clone, Copy, Debug, Default, PartialEq, Eq)]
pub struct AiControl {
    pub player_one: Option<AiStrategy>,
    pub player_two: Option<AiStrategy>,
}

impl AiControl {
    /// The player's AI strategy, if the AI plays them.
    pub open spec fn spec_strategy(self, player: Player) -> Option<AiStrategy> {
        match player {
            Player::One => self.player_one,
            Player::Two => self.player_two,
        }
    }

    pub fn strategy(&self, player: Player) -> (strategy: Option<AiStrategy>)
        ensures
            strategy == self.spec_strategy(player),
    {
        match player {
            Player::One => self.player_one,
            Player::Two => self.player_two,
        }
    }

    pub fn set_strategy(&mut self, player: Player, strategy: AiStrategy)
        ensures
            final(self).spec_strategy(player) == Some(strategy),
            final(self).spec_strategy(player.spec_other()) == old(self).spec_strategy(player.spec_other()),
    {
        match player {
            Player::One => self.player_one = Some(strategy),
            Player::Two => self.player_two = Some(strategy),
        }
    }

    pub fn disable(&mut self, player: Player)
        ensures
            final(self).spec_strategy(player) is None,
            final(self).spec_strategy(player.spec_other()) == old(self).spec_strategy(player.spec_other()),
    {
        match player {
            Player::One => self.player_one = None,
            Player::Two => self.player_two = None,
        }
    }
}

/// The name of a strategy in messages.
pub open spec fn strategy_label(strategy: AiStrategy) -> Seq<char> {
    match strategy {
        AiStrategy::First => "first"@,
        AiStrategy::Priority => "priority"@,
        AiStrategy::Search => "search"@,
    }
}

pub fn ai_strategy_label(strategy: AiStrategy) -> (label: &'static str)
    ensures
        label@ == strategy_label(strategy),
{
    match strategy {
        AiStrategy::First => "first",
        AiStrategy::Priority => "priority",
        AiStrategy::Search => "search",
    }
}

/// A strategy's name, or `human` when nobody's AI plays.
pub open spec fn strategy_or_human(strategy: Option<AiStrategy>) -> Seq<char> {
    match strategy {
        Some(s) => strategy_label(s),
        None => "human"@,
    }
}

/// The line that lists who plays each seat.
pub open spec fn ai_control_text(control: AiControl) -> Seq<char> {
    "AI players: "@ + player_name(Player::One) + " "@ + strategy_or_human(control.player_one) + ", "@ + player_name(
        Player::Two,
    ) + " "@ + strategy_or_human(control.player_two)
}

pub fn render_ai_control(control: &AiControl) -> (text: String)
    ensures
        text@ == ai_control_text(*control),
{
    let mut out: Vec<char> = Vec::new();
    push_text(&mut out, "AI players: ");
    push_text(&mut out, player_label(Player::One));
    push_text(&mut out, " ");
    match control.player_one {
        Some(s) => push_text(&mut out, ai_strategy_label(s)),
        None => push_text(&mut out, "human"),
    }
    push_text(&mut out, ", ");
    push_text(&mut out, player_label(Player::Two));
    push_text(&mut out, " ");
    match control.player_two {
        Some(s) => push_text(&mut out, ai_strategy_label(s)),
        None => push_text(&mut out, "human"),
    }
    proof {
        assert(out@ =~= ai_control_text(*control));
    }
    string_from_chars(out.as_slice())
}

/// A player's name in messages.
pub open spec fn player_name(player: Player) -> Seq<char> {
    crate::render::player_label(player)
}

pub fn player_label(player: Player) -> (label: &'static str)
    ensures
        label@ == player_name(player),
{
    match player {
        Player::One => "Player 1",
        Player::Two => "Player 2",
    }
}

/// A player's short name at the prompt.
pub open spec fn prompt_name(player: Player) -> Seq<char> {
    match player {
        Player::One => "P1"@,
        Player::Two => "P2"@,
    }
}

pub fn prompt_label(player: Player) -> (label: &'static str)
    ensures
        label@ == prompt_name(player),
{
    match player {
        Player::One => "P1",
        Player::Two => "P2",
    }
}

/// What the player's AI strategy decides for the game.
/// The decision that a strategy picks in a game in progress.
pub open spec fn strategy_pick(strategy: AiStrategy, g: GameView) -> Option<DecisionView> {
    match strategy {
        AiStrategy::First => crate::ai::first_where(
            crate::listing::listing(g),
            |d: DecisionView| !crate::ai::fails_at_once(g, d),
        ),
        AiStrategy::Priority => crate::ai::priority_pick(g),
        AiStrategy::Search => match crate::search::best_among(g, g.turn.player, 1, crate::listing::listing(g)) {
            Some((d, _)) => Some(d),
            None => None,
        },
    }
}

pub fn choose_ai_decision(strategy: AiStrategy, game: &Game) -> (decision: Option<AiDecision>)
    requires
        game@.wf(),
    ensures
        strategy == AiStrategy::First ==> first_legal_choice(game@, option_view(decision)),
        strategy == AiStrategy::Priority ==> priority_choice(game@, option_view(decision)),
        strategy == AiStrategy::First && game@.status == GameStatus::InProgress ==> option_view(decision)
            == crate::ai::first_where(crate::listing::listing(game@), |d: DecisionView| !crate::ai::fails_at_once(game@, d)),
        strategy == AiStrategy::Priority && game@.status == GameStatus::InProgress ==> option_view(decision)
            == crate::ai::priority_pick(game@),
        strategy == AiStrategy::Search && game@.status == GameStatus::InProgress ==> option_view(decision)
            == match crate::search::best_among(game@, game@.turn.player, 1, crate::listing::listing(game@)) {
            Some((d, _)) => Some(d),
            None => None,
        },
        decision matches Some(d) ==> crate::ai::playable(game@, d@),
        game@.status != GameStatus::InProgress ==> decision is None,
        game@.status == GameStatus::InProgress ==> option_view(decision) == strategy_pick(strategy, game@),
{
    match strategy {
        AiStrategy::First => FirstLegalStrategy.choose_decision(game),
        AiStrategy::Priority => PriorityStrategy.choose_decision(game),
        AiStrategy::Search => SearchStrategy::default().choose_decision(game),
    }
}

/// A piece in two letters.
pub open spec fn compact_text(piece: Piece) -> Seq<char> {
    color_short(piece.color) + size_short(piece.size)
}

pub fn push_compact(out: &mut Vec<char>, piece: Piece)
    ensures
        final(out)@ == old(out)@ + compact_text(piece),
{
    let ghost start = out@;
    match piece.color() {
        Color::Red => push_text(out, "r"),
        Color::Yellow => push_text(out, "y"),
        Color::Green => push_text(out, "g"),
        Color::Blue => push_text(out, "b"),
    }
    match piece.size() {
        Size::Small => push_text(out, "s"),
        Size::Medium => push_text(out, "m"),
        Size::Large => push_text(out, "l"),
    }
    proof {
        assert(out@ =~= start + compact_text(piece));
    }
}

/// The two-letter form of a piece.
pub fn compact_piece(piece: Piece) -> (text: String)
    ensures
        text@ == compact_text(piece),
{
    let mut out: Vec<char> = Vec::new();
    push_compact(&mut out, piece);
    string_from_chars(out.as_slice())
}

/// The stars of a discovery, space-separated.
pub open spec fn stars_text(stars: Seq<Piece>) -> Seq<char>
    decreases stars.len(),
{
    if stars.len() == 0 {
        Seq::empty()
    } else if stars.len() == 1 {
        compact_text(stars[0])
    } else {
        stars_text(stars.drop_last()) + " "@ + compact_text(stars.last())
    }
}

/// The short command that performs the action, as a player would type it.
pub open spec fn action_command_text(a: ActionView) -> Seq<char> {
    match a {
        ActionView::Build { system, ship, .. } => "b "@ + decimal_text(system.0 as nat) + " "@ + compact_text(ship),
        ActionView::Travel { from, ship, target, .. } => match target {
            TargetView::Existing(to) => "t "@ + decimal_text(from.0 as nat) + " "@ + compact_text(ship) + " x "@ + decimal_text(
                to.0 as nat,
            ),
            TargetView::New(stars) => "t "@ + decimal_text(from.0 as nat) + " "@ + compact_text(ship) + " n "@ + stars_text(stars),
        },
        ActionView::Trade { system, from, to, .. } => "x "@ + decimal_text(system.0 as nat) + " "@ + compact_text(from) + " "@
            + compact_text(to),
        ActionView::Sacrifice { system, ship, .. } => "s "@ + decimal_text(system.0 as nat) + " "@ + compact_text(ship),
        ActionView::Invade { system, target, .. } => "i "@ + decimal_text(system.0 as nat) + " "@ + compact_text(target),
        ActionView::Catastrophe { system, color } => "c "@ + decimal_text(system.0 as nat) + " "@ + color_short(color),
    }
}

fn push_stars(out: &mut Vec<char>, stars: &[Piece])
    ensures
        final(out)@ == old(out)@ + stars_text(stars@),
{
    let ghost start = out@;
    let mut i: usize = 0;
    while i < stars.len()
        invariant
            0 <= i <= stars@.len(),
            out@ == start + stars_text(stars@.take(i as int)),
        decreases stars@.len() - i,
    {
        if i > 0 {
            push_text(out, " ");
        }
        push_compact(out, stars[i]);
        proof {
            let t = stars@.take(i + 1);
            assert(t.drop_last() =~= stars@.take(i as int));
            assert(t.last() == stars@[i as int]);
            assert(out@ =~= start + stars_text(t));
        }
        i += 1;
    }
    proof {
        assert(stars@.take(stars@.len() as int) =~= stars@);
    }
}

/// The short command that performs the action.
pub fn ai_action_command(action: &Action) -> (text: String)
    ensures
        text@ == action_command_text(action@),
{
    let mut out: Vec<char> = Vec::new();
    match action {
        Action::Build { system, ship, .. } => {
            push_text(&mut out, "b ");
            push_decimal(&mut out, system.index());
            push_text(&mut out, " ");
            push_compact(&mut out, *ship);
        },
        Action::Travel { from, ship, target, .. } => {
            push_text(&mut out, "t ");
            push_decimal(&mut out, from.index());
            push_text(&mut out, " ");
            push_compact(&mut out, *ship);
            match target {
                TravelTarget::Existing(to) => {
                    push_text(&mut out, " x ");
                    push_decimal(&mut out, to.index());
                },
                TravelTarget::New { stars } => {
                    push_text(&mut out, " n ");
                    push_stars(&mut out, stars.as_slice());
                },
            }
        },
        Action::Trade { system, from, to, .. } => {
            push_text(&mut out, "x ");
            push_decimal(&mut out, system.index());
            push_text(&mut out, " ");
            push_compact(&mut out, *from);
            push_text(&mut out, " ");
            push_compact(&mut out, *to);
        },
        Action::Sacrifice { system, ship, .. } => {
            push_text(&mut out, "s ");
            push_decimal(&mut out, system.index());
            push_text(&mut out, " ");
            push_compact(&mut out, *ship);
        },
        Action::Invade { system, target, .. } => {
            push_text(&mut out, "i ");
            push_decimal(&mut out, system.index());
            push_text(&mut out, " ");
            push_compact(&mut out, *target);
        },
        Action::Catastrophe { system, color } => {
            push_text(&mut out, "c ");
            push_decimal(&mut out, system.index());
            push_text(&mut out, " ");
            match color {
                Color::Red => push_text(&mut out, "r"),
                Color::Yellow => push_text(&mut out, "y"),
                Color::Green => push_text(&mut out, "g"),
                Color::Blue => push_text(&mut out, "b"),
            }
        },
    }
    proof {
        assert(out@ =~= action_command_text(action@));
    }
    string_from_chars(out.as_slice())
}

/// The short command of a decision: `e` to end the turn.
pub open spec fn decision_command_text(d: DecisionView) -> Seq<char> {
    match d {
        DecisionView::EndTurn => "e"@,
        DecisionView::Action(a) => action_command_text(a),
    }
}

pub fn ai_decision_command(decision: &AiDecision) -> (text: String)
    ensures
        text@ == decision_command_text(decision@),
{
    match decision {
        AiDecision::EndTurn => {
            let chars = text_chars("e");
            string_from_chars(chars.as_slice())
        },
        AiDecision::Action(action) => ai_action_command(action),
    }
}

/// Whether a paid action just spent the last of the budget and no
/// catastrophe could still be declared, so that the turn ends by itself.
pub open spec fn ends_by_itself(g: GameView) -> bool {
    &&& g.status == GameStatus::InProgress
    &&& g.turn.remaining == 0
    &&& !possible_catastrophe(g.turn.state)
}

pub fn should_auto_end(game: &Game) -> (ends: bool)
    ensures
        ends == ends_by_itself(game@),
{
    game.status() == GameStatus::InProgress && game.turn().remaining_actions() == 0 && !has_possible_catastrophe(
        game.turn().state(),
    )
}

/// Whether the command ends in its only `;`, asking to show the board
/// even after an error.
pub open spec fn requests_state(command: Seq<char>) -> bool {
    let t = trim(command);
    crate::parser::semicolon_from(t, 0) == Some(t.len() - 1)
}

pub fn command_requests_state_after_error(command: &str) -> (requests: bool)
    ensures
        requests == requests_state(command@),
{
    let chars = text_chars(command);
    let t = trim_chars(chars.as_slice());
    let mut k: usize = 0;
    while k < t.len() && t[k] != ';'
        invariant
            0 <= k <= t@.len(),
            crate::parser::semicolon_from(t@, 0) == crate::parser::semicolon_from(t@, k as int),
        decreases t@.len() - k,
    {
        k += 1;
    }
    k < t.len() && k + 1 == t.len()
}

/// What a setup line says without the `;` that ends it, when it ends in
/// its only `;`.
pub open spec fn setup_content(line: Seq<char>) -> Seq<char> {
    if requests_state(line) {
        trim(line).drop_last()
    } else {
        line
    }
}

/// A setup line without its closing `;`.
pub fn setup_line_content(line: &str) -> (content: String)
    ensures
        content@ == setup_content(line@),
{
    if command_requests_state_after_error(line) {
        let chars = text_chars(line);
        let t = trim_chars(chars.as_slice());
        let content = vstd::slice::slice_subrange(t.as_slice(), 0, t.len() - 1);
        assert(content@ =~= trim(line@).drop_last());
        string_from_chars(content)
    } else {
        let chars = text_chars(line);
        string_from_chars(chars.as_slice())
    }
}

/// Whether the command saves the typed history (`save-history` or `sh`).
pub open spec fn saves_history(command: Seq<char>) -> bool {
    tokenize(command).len() > 0 && (tokenize(command)[0] == "save-history"@ || tokenize(command)[0] == "sh"@)
}

pub fn is_save_history_command(command: &str) -> (saves: bool)
    ensures
        saves == saves_history(command@),
{
    let chars = text_chars(command);
    let tokens = crate::text::tokenize_chars(chars.as_slice());
    if tokens.len() == 0 {
        return false;
    }
    assert(tokens@[0]@ == crate::text::token_views(tokens@)[0]);
    is_word(tokens[0].as_slice(), "save-history") || is_word(tokens[0].as_slice(), "sh")
}

/// Whether a typed line joins the session's history: anything but a blank
/// line or a history save.
pub open spec fn records_history(line: Seq<char>) -> bool {
    trim(line).len() > 0 && !saves_history(trim(line))
}

pub fn should_record_user_history(line: &str) -> (records: bool)
    ensures
        records == records_history(line@),
{
    let chars = text_chars(line);
    let trimmed = trim_chars(chars.as_slice());
    if trimmed.len() == 0 {
        return false;
    }
    let text = string_from_chars(trimmed.as_slice());
    !is_save_history_command(text.as_str())
}

/// Whether a file's text has a line that, once its leading white space is
/// gone, reads `version: 1`: such a text is taken for a save file.
pub open spec fn looks_like_save(text: Seq<char>) -> bool {
    exists|i: int| 0 <= i < text_lines(text).len() && trim_start(#[trigger] text_lines(text)[i]) == "version: 1"@
}

pub fn looks_like_yaml_save(input: &str) -> (looks: bool)
    ensures
        looks == looks_like_save(input@),
{
    let chars = text_chars(input);
    let lines = crate::text::split_lines(chars.as_slice());
    let ghost views = crate::text::token_views(lines@);
    let mut i: usize = 0;
    while i < lines.len()
        invariant
            views == crate::text::token_views(lines@),
            views == text_lines(input@),
            0 <= i <= lines@.len(),
            forall|k: int| 0 <= k < i ==> trim_start(#[trigger] views[k]) != "version: 1"@,
        decreases lines@.len() - i,
    {
        let line = &lines[i];
        assert(line@ == views[i as int]);
        let mut a: usize = 0;
        while a < line.len() && char_is_space(line[a])
            invariant
                0 <= a <= line@.len(),
                forall|k: int| 0 <= k < a ==> is_space(#[trigger] line@[k]),
            decreases line@.len() - a,
        {
            a += 1;
        }
        proof {
            crate::text::lemma_trim_start(line@, a as int);
        }
        let mut rest: Vec<char> = Vec::new();
        let mut j: usize = a;
        while j < line.len()
            invariant
                a <= j <= line@.len(),
                rest@ == line@.subrange(a as int, j as int),
            decreases line@.len() - j,
        {
            rest.push(line[j]);
            proof {
                assert(line@.subrange(a as int, j + 1) =~= line@.subrange(a as int, j as int).push(line@[j as int]));
            }
            j += 1;
        }
        proof {
            assert(rest@ =~= line@.skip(a as int));
        }
        if is_word(rest.as_slice(), "version: 1") {
            return true;
        }
        i += 1;
    }
    false
}

/// The commands of a history text: each line without its comment, trimmed,
/// blank ones left out.
pub open spec fn commands_of_lines(lines: Seq<Seq<char>>) -> Seq<Seq<char>>
    decreases lines.len(),
{
    if lines.len() == 0 {
        Seq::empty()
    } else {
        commands_of_lines(lines.drop_last()) + match crate::text::history_line_command(lines.last()) {
            Some(c) => seq![c],
            None => Seq::empty(),
        }
    }
}

/// The commands of a history text.
pub open spec fn history_commands_of(text: Seq<char>) -> Seq<Seq<char>> {
    commands_of_lines(text_lines(text))
}

/// The texts of a list of strings.
pub open spec fn strings_view(strings: Seq<String>) -> Seq<Seq<char>> {
    strings.map_values(|s: String| s@)
}

/// The commands of a history text.
pub fn history_commands(text: &str) -> (commands: Vec<String>)
    ensures
        strings_view(commands@) == history_commands_of(text@),
{
    let chars = text_chars(text);
    let lines = crate::text::split_lines(chars.as_slice());
    let ghost views = crate::text::token_views(lines@);
    let mut commands: Vec<String> = Vec::new();
    let mut i: usize = 0;
    while i < lines.len()
        invariant
            views == crate::text::token_views(lines@),
            views == text_lines(text@),
            0 <= i <= lines@.len(),
            strings_view(commands@) == commands_of_lines(views.take(i as int)),
        decreases lines@.len() - i,
    {
        assert(lines@[i as int]@ == views[i as int]);
        let ghost before = strings_view(commands@);
        match history_command(lines[i].as_slice()) {
            Some(command) => {
                commands.push(string_from_chars(command.as_slice()));
                proof {
                    assert(strings_view(commands@) =~= before.push(command@));
                }
            },
            None => {},
        }
        proof {
            let t = views.take(i + 1);
            assert(t.drop_last() =~= views.take(i as int));
            assert(t.last() == views[i as int]);
            assert(strings_view(commands@) =~= commands_of_lines(t));
        }
        i += 1;
    }
    proof {
        assert(views.take(lines@.len() as int) =~= views);
    }
    commands
}

/// Why a command history could not set up a game.
#[derive(Clone, Debug, PartialEq, Eq)]
pub enum SetupLoadError {
    MissingSetupLine(String),
    InvalidSetup { player: Player, error: String },
    InvalidGame(String),
}

/// The message of a setup load error.
pub open spec fn setup_load_error_text(e: SetupLoadError) -> Seq<char> {
    match e {
        SetupLoadError::MissingSetupLine(label) => "command history is missing "@ + label@,
        SetupLoadError::InvalidSetup { player, error } => "invalid "@ + player_name(player) + " setup in command history: "@ + error@,
        SetupLoadError::InvalidGame(error) => "invalid homeworld setup in command history: "@ + error@,
    }
}

impl SetupLoadError {
    pub fn message(&self) -> (text: String)
        ensures
            text@ == setup_load_error_text(*self),
    {
        let mut out: Vec<char> = Vec::new();
        match self {
            SetupLoadError::MissingSetupLine(label) => {
                push_text(&mut out, "command history is missing ");
                push_text(&mut out, label.as_str());
            },
            SetupLoadError::InvalidSetup { player, error } => {
                push_text(&mut out, "invalid ");
                push_text(&mut out, player_label(*player));
                push_text(&mut out, " setup in command history: ");
                push_text(&mut out, error.as_str());
            },
            SetupLoadError::InvalidGame(error) => {
                push_text(&mut out, "invalid homeworld setup in command history: ");
                push_text(&mut out, error.as_str());
            },
        }
        proof {
            assert(out@ =~= setup_load_error_text(*self));
        }
        string_from_chars(out.as_slice())
    }
}

/// The text of a game error as its derived `Debug` shows it.
pub fn format_game_error(error: &GameError) -> (text: String)
    ensures
        text@ == game_error_debug(*error),
{
    let mut out: Vec<char> = Vec::new();
    push_game_error_debug(&mut out, *error);
    string_from_chars(out.as_slice())
}

fn owned(text: &str) -> (s: String)
    ensures
        s@ == text@,
{
    let chars = text_chars(text);
    string_from_chars(chars.as_slice())
}

/// The setup line that a history lacks when it holds `n` commands.
pub open spec fn missing_setup_line(n: nat) -> Seq<char> {
    if n == 0 {
        "Player 1 stars"@
    } else if n == 1 {
        "Player 1 ship"@
    } else if n == 2 {
        "Player 2 stars"@
    } else {
        "Player 2 ship"@
    }
}

/// Whether the game is the one that starts from the two setups with
/// Player 1 to move: both homeworlds as systems 0 and 1, every other piece
/// in the bank, one action and no required kind.
pub open spec fn starts_from(g: GameView, one: SetupView, two: SetupView) -> bool {
    &&& g.status == GameStatus::InProgress
    &&& g.turn.player == Player::One
    &&& g.turn.remaining == 1
    &&& g.turn.required is None
    &&& g.turn.state.systems == seq![setup_system(one), setup_system(two)]
    &&& g.turn.state.home_one == SystemId(0)
    &&& g.turn.state.home_two == SystemId(1)
    &&& forall|c: Color, s: Size| #[trigger] g.turn.state.piece_total(c, s) == 3
}

/// Whether a history sets up no game: it lacks a setup line, a setup does
/// not parse, or the two setups make no game.
pub open spec fn history_setup_fails(history: Seq<char>) -> bool {
    let c = history_commands_of(history);
    ||| c.len() < 4
    ||| setup_of(c[0], c[1], Player::One) is Err
    ||| setup_of(c[2], c[3], Player::Two) is Err
    ||| new_game_error(setup_of(c[0], c[1], Player::One)->Ok_0, setup_of(c[2], c[3], Player::Two)->Ok_0) is Some
}

/// A game set up from the first four commands of a history (Player 1's
/// stars and ship, then Player 2's), with the commands that follow.
pub fn game_from_history_setup(history: &str) -> (result: Result<(Game, Vec<String>), SetupLoadError>)
    ensures
        history_commands_of(history@).len() < 4 ==> (result matches Err(SetupLoadError::MissingSetupLine(line))
            && line@ == missing_setup_line(history_commands_of(history@).len())),
        history_commands_of(history@).len() >= 4 ==> {
            let c = history_commands_of(history@);
            match setup_of(c[0], c[1], Player::One) {
                Err(m) => result matches Err(SetupLoadError::InvalidSetup { player, error }) && player == Player::One
                    && error@ == m,
                Ok(one) => match setup_of(c[2], c[3], Player::Two) {
                    Err(m) => result matches Err(SetupLoadError::InvalidSetup { player, error }) && player == Player::Two
                        && error@ == m,
                    Ok(two) => match new_game_error(one, two) {
                        Some(e) => result matches Err(SetupLoadError::InvalidGame(text)) && text@ == game_error_debug(e),
                        None => result matches Ok((game, _)) && starts_from(game@, one, two),
                    },
                },
            }
        },
        result is Err <==> history_setup_fails(history@),
        result matches Ok((game, rest)) ==> {
            &&& game@.wf()
            &&& game@.status == GameStatus::InProgress
            &&& history_commands_of(history@).len() >= 4
            &&& strings_view(rest@) == history_commands_of(history@).skip(4)
        },
        history_commands_of(history@).len() < 4 ==> result matches Err(SetupLoadError::MissingSetupLine(_)),
{
    let commands = history_commands(history);
    let ghost all = strings_view(commands@);
    if commands.len() < 1 {
        return Err(SetupLoadError::MissingSetupLine(owned("Player 1 stars")));
    }
    if commands.len() < 2 {
        return Err(SetupLoadError::MissingSetupLine(owned("Player 1 ship")));
    }
    if commands.len() < 3 {
        return Err(SetupLoadError::MissingSetupLine(owned("Player 2 stars")));
    }
    if commands.len() < 4 {
        return Err(SetupLoadError::MissingSetupLine(owned("Player 2 ship")));
    }
    let one = match parse_setup(commands[0].as_str(), commands[1].as_str(), Player::One) {
        Ok(setup) => setup,
        Err(error) => {
            return Err(SetupLoadError::InvalidSetup { player: Player::One, error: owned(error.message()) });
        },
    };
    let two = match parse_setup(commands[2].as_str(), commands[3].as_str(), Player::Two) {
        Ok(setup) => setup,
        Err(error) => {
            return Err(SetupLoadError::InvalidSetup { player: Player::Two, error: owned(error.message()) });
        },
    };
    let homes = [one, two];
    assert(homes@[0]@ == one@ && homes@[1]@ == two@);
    let game = match Game::new(homes, Player::One) {
        Ok(game) => game,
        Err(error) => {
            return Err(SetupLoadError::InvalidGame(format_game_error(&error)));
        },
    };
    let mut rest: Vec<String> = Vec::new();
    let mut i: usize = 4;
    while i < commands.len()
        invariant
            all == strings_view(commands@),
            4 <= i <= commands@.len(),
            strings_view(rest@) == all.subrange(4, i as int),
        decreases commands@.len() - i,
    {
        let item = commands[i].clone();
        let ghost before = rest@;
        rest.push(item);
        proof {
            assert(strings_view(rest@) =~= strings_view(before).push(item@));
            assert(all.subrange(4, i + 1) =~= all.subrange(4, i as int).push(all[i as int]));
        }
        i += 1;
    }
    proof {
        assert(all.subrange(4, commands@.len() as int) =~= all.skip(4));
    }
    Ok((game, rest))
}

/// A file operation that a session asks the program running it to perform.
#[derive(Clone, Debug, PartialEq, Eq)]
pub enum FileRequest {
    /// Read the text of the file at the path.
    ReadText(String),
    /// Read the text as a save, in the save format.
    ParseSave(String),
    /// Write the save to the file at the path.
    WriteSave(String, SaveFile),
}

/// What the program answered to a file operation: the text or the reason it
/// could not be read, the save or why the text is none, or whether the
/// write went through.
#[derive(Debug)]
pub enum FileReply {
    Text(Result<String, String>),
    Parsed(Result<SaveFile, SaveError>),
    Written(Result<(), String>),
}

/// The file operations of one run of a session on a line or a script.
///
/// The program that runs a session performs its file operations: it starts a
/// run with the answers it has so far, in order; the run takes them one by
/// one as it asks, and records each request. When a run asks past the
/// answers, the journal names that request; the program performs it, adds
/// its answer, and runs again from the state before. Since a run depends on
/// nothing else, the final run makes the same requests, and each is
/// performed once, in order.
pub struct FileJournal {
    /// The answers not taken yet, the next one last.
    pending: Vec<FileReply>,
    requests: Vec<FileRequest>,
    unanswered: Option<usize>,
}

/// Whether a journal only grew: the requests made before are still its first
/// ones, and it is answered only if it was.
pub open spec fn journal_grows(before: FileJournal, after: FileJournal) -> bool {
    &&& before.spec_requests().len() <= after.spec_requests().len()
    &&& forall|i: int|
        0 <= i < before.spec_requests().len() ==> #[trigger] after.spec_requests()[i] == before.spec_requests()[i]
    &&& after.spec_answered() ==> before.spec_answered()
}

/// The answer that a journal gives next, if any.
pub open spec fn next_reply(pending: Seq<FileReply>) -> Option<FileReply> {
    if pending.len() == 0 {
        None
    } else {
        Some(pending.last())
    }
}

impl FileJournal {
    /// The answers not taken yet, the next one last.
    pub closed spec fn spec_pending(&self) -> Seq<FileReply> {
        self.pending@
    }

    /// The requests made so far, in order.
    pub closed spec fn spec_requests(&self) -> Seq<FileRequest> {
        self.requests@
    }

    /// Whether every request so far found its answer.
    pub closed spec fn spec_answered(&self) -> bool {
        self.unanswered is None
    }

    /// The request that found no answer, if one did.
    pub closed spec fn spec_unanswered(&self) -> Option<int> {
        match self.unanswered {
            Some(i) => Some(i as int),
            None => None,
        }
    }

    /// A journal for a run, with the answers given so far in order.
    pub fn new(answers: Vec<FileReply>) -> (journal: FileJournal)
        ensures
            journal.spec_pending() == answers@.reverse(),
            journal.spec_requests().len() == 0,
            journal.spec_answered(),
    {
        let mut pending: Vec<FileReply> = Vec::new();
        let mut rest = answers;
        while rest.len() > 0
            invariant
                pending@ + rest@.reverse() == answers@.reverse(),
            decreases rest.len(),
        {
            let ghost before = rest@;
            let reply = rest.pop().unwrap();
            proof {
                assert(before == rest@.push(reply));
                assert(before.reverse() =~= seq![reply] + rest@.reverse());
                assert(pending@.push(reply) + rest@.reverse() =~= pending@ + before.reverse());
            }
            pending.push(reply);
        }
        proof {
            assert(rest@.reverse() =~= Seq::<FileReply>::empty());
            assert(pending@ =~= answers@.reverse());
        }
        FileJournal { pending, requests: Vec::new(), unanswered: None }
    }

    /// The requests made, in order.
    pub fn requests(&self) -> (requests: &Vec<FileRequest>)
        ensures
            requests@ == self.spec_requests(),
    {
        &self.requests
    }

    /// The first request that found no answer: the one to perform next.
    pub fn wanted(&self) -> (request: Option<&FileRequest>)
        ensures
            self.spec_answered() ==> request is None,
            self.spec_unanswered() matches Some(i) ==> (0 <= i < self.spec_requests().len() ==> request == Some(
                &self.spec_requests()[i],
            )),
    {
        match self.unanswered {
            Some(i) => if i < self.requests.len() {
                Some(&self.requests[i])
            } else {
                None
            },
            None => None,
        }
    }

    /// Records a request and takes the next answer, if it is of the kind
    /// `kind` (0 text, 1 save, 2 write); else marks the request unanswered.
    fn take(&mut self, request: FileRequest, kind: u8) -> (reply: Option<FileReply>)
        ensures
            journal_grows(*old(self), *final(self)),
            final(self).spec_requests() == old(self).spec_requests().push(request),
            answers_next(old(self).spec_answered(), old(self).spec_pending(), kind) ==> final(self).spec_answered()
                && reply == Some(old(self).spec_pending().last()) && final(self).spec_pending()
                == old(self).spec_pending().drop_last(),
            !answers_next(old(self).spec_answered(), old(self).spec_pending(), kind) ==> !final(self).spec_answered()
                && reply is None && (old(self).spec_answered() ==> final(self).spec_unanswered() == Some(
                old(self).spec_requests().len() as int,
            )),
            !old(self).spec_answered() ==> final(self).spec_unanswered() == old(self).spec_unanswered(),
    {
        let index = self.requests.len();
        self.requests.push(request);
        if self.unanswered.is_some() {
            return None;
        }
        let fits = match self.pending.last() {
            Some(FileReply::Text(_)) => kind == 0,
            Some(FileReply::Parsed(_)) => kind == 1,
            Some(FileReply::Written(_)) => kind == 2,
            None => false,
        };
        if fits {
            self.pending.pop()
        } else {
            self.unanswered = Some(index);
            None
        }
    }

    /// Asks for the text of the file at `path`.
    pub fn read_text(&mut self, path: &str) -> (result: Result<String, String>)
        ensures
            journal_grows(*old(self), *final(self)),
            final(self).spec_requests().len() == old(self).spec_requests().len() + 1,
            final(self).spec_requests().last() matches FileRequest::ReadText(p) && p@ == path@,
            final(self).spec_requests().drop_last() == old(self).spec_requests(),
            final(self).spec_answered() ==> old(self).spec_answered() && next_reply(old(self).spec_pending())
                == Some(FileReply::Text(result)) && final(self).spec_pending() == old(self).spec_pending().drop_last(),
    {
        let request = FileRequest::ReadText(owned_path(path));
        let reply = self.take(request, 0);
        proof {
            assert(self.spec_requests().drop_last() =~= old(self).spec_requests());
        }
        match reply {
            Some(FileReply::Text(result)) => result,
            _ => Err(String::new()),
        }
    }

    /// Asks for the save that a text holds.
    pub fn parse_save(&mut self, text: &str) -> (result: Result<SaveFile, SaveError>)
        ensures
            journal_grows(*old(self), *final(self)),
            final(self).spec_requests().len() == old(self).spec_requests().len() + 1,
            final(self).spec_requests().last() matches FileRequest::ParseSave(t) && t@ == text@,
            final(self).spec_requests().drop_last() == old(self).spec_requests(),
            final(self).spec_answered() ==> old(self).spec_answered() && next_reply(old(self).spec_pending())
                == Some(FileReply::Parsed(result)) && final(self).spec_pending() == old(self).spec_pending().drop_last(),
    {
        let request = FileRequest::ParseSave(owned_path(text));
        let reply = self.take(request, 1);
        proof {
            assert(self.spec_requests().drop_last() =~= old(self).spec_requests());
        }
        match reply {
            Some(FileReply::Parsed(result)) => result,
            _ => Err(SaveError::Io { message: String::new() }),
        }
    }

    /// Asks for the save to be written to the file at `path`.
    pub fn write_save(&mut self, path: &str, file: SaveFile) -> (result: Result<(), String>)
        ensures
            journal_grows(*old(self), *final(self)),
            final(self).spec_requests().len() == old(self).spec_requests().len() + 1,
            final(self).spec_requests().last() matches FileRequest::WriteSave(p, f) && p@ == path@ && f == file,
            final(self).spec_requests().drop_last() == old(self).spec_requests(),
            final(self).spec_answered() ==> old(self).spec_answered() && next_reply(old(self).spec_pending())
                == Some(FileReply::Written(result)) && final(self).spec_pending() == old(self).spec_pending().drop_last(),
    {
        let request = FileRequest::WriteSave(owned_path(path), file);
        let reply = self.take(request, 2);
        proof {
            assert(self.spec_requests().drop_last() =~= old(self).spec_requests());
        }
        match reply {
            Some(FileReply::Written(result)) => result,
            _ => Err(String::new()),
        }
    }
}

/// Whether every request so far was answered and the next answer is of the
/// kind asked for.
pub open spec fn answers_next(answered: bool, pending: Seq<FileReply>, kind: u8) -> bool {
    answered && pending.len() > 0 && reply_kind(pending.last()) == kind
}

/// The kind of an answer: 0 a text, 1 a save, 2 a write.
pub open spec fn reply_kind(r: FileReply) -> u8 {
    match r {
        FileReply::Text(_) => 0,
        FileReply::Parsed(_) => 1,
        FileReply::Written(_) => 2,
    }
}

fn owned_path(text: &str) -> (owned: String)
    ensures
        owned@ == text@,
{
    let chars = text_chars(text);
    string_from_chars(chars.as_slice())
}

/// What a loaded file turned out to be.
pub enum LoadSource {
    Save(crate::save::SavedGame),
    History(String),
}

/// Whether `result` is what a loaded file is, from its text and what
/// reading the text as a save gave: the save's game when the save reads; else
/// an error when the text looks like a save; else the text as a command
/// history.
pub open spec fn load_source_ok(text: Seq<char>, parsed: Result<SaveFile, SaveError>, result: Result<LoadSource, String>) -> bool {
    match parsed {
        Ok(file) => match load_fault(file) {
            None => result matches Ok(LoadSource::Save(saved)) && {
                &&& reads_as(file, saved.game@)
                &&& saved.game@.wf()
                &&& string_views(saved.history@) == string_views(file.history@)
                &&& string_views(saved.commands@) == string_views(file.commands@)
            },
            Some(fault) => if looks_like_save(text) {
                result matches Err(m) && exists|e: SaveError| fault_of(e) == fault && m@ == #[trigger] save_error_text(e)
            } else {
                result matches Ok(LoadSource::History(t)) && t@ == text
            },
        },
        Err(e) => if looks_like_save(text) {
            result matches Err(m) && m@ == save_error_text(e)
        } else {
            result matches Ok(LoadSource::History(t)) && t@ == text
        },
    }
}

/// What a loaded file is, from its text and what reading the text as a save gave.
pub fn load_source_from(text: String, parsed: Result<SaveFile, SaveError>) -> (result: Result<LoadSource, String>)
    ensures
        load_source_ok(text@, parsed, result),
{
    let read = match parsed {
        Ok(file) => file.into_saved_game(),
        Err(error) => Err(error),
    };
    match read {
        Ok(saved) => Ok(LoadSource::Save(saved)),
        Err(error) => if looks_like_yaml_save(text.as_str()) {
            Err(error.message())
        } else {
            Ok(LoadSource::History(text))
        },
    }
}

/// Reads a file to load through the store: a save when it reads as one,
/// else a command history; a text that fails to read as a save but looks
/// like one is an error, and so is a file that cannot be read.
pub fn read_load_source(files: &mut FileJournal, path: &str) -> (result: Result<LoadSource, String>)
    ensures
        journal_grows(*old(files), *final(files)),
        result matches Ok(LoadSource::Save(saved)) ==> saved.game@.wf(),
        result matches Ok(LoadSource::History(text)) ==> !looks_like_save(text@),
        final(files).spec_requests().len() > old(files).spec_requests().len(),
        final(files).spec_requests()[old(files).spec_requests().len() as int] matches FileRequest::ReadText(p) && p@ == path@,
        final(files).spec_answered() ==> old(files).spec_answered() && loads_from_replies(
            old(files).spec_pending(),
            final(files).spec_pending(),
            result,
        ),
{
    let ghost before = files.spec_requests();
    let text = match files.read_text(path) {
        Ok(text) => text,
        Err(message) => {
            return Err(message);
        },
    };
    let parsed = files.parse_save(text.as_str());
    proof {
        assert(files.spec_requests()[before.len() as int] == files.spec_requests().drop_last()[before.len() as int]);
    }
    load_source_from(text, parsed)
}

/// What a load gives from the answers it takes: the text's read error, or
/// what the text and the answer to reading it as a save make.
pub open spec fn loads_from_replies(pending: Seq<FileReply>, rest: Seq<FileReply>, result: Result<LoadSource, String>) -> bool {
    match next_reply(pending) {
        Some(FileReply::Text(Err(m))) => result == Err::<LoadSource, String>(m) && rest == pending.drop_last(),
        Some(FileReply::Text(Ok(text))) => match next_reply(pending.drop_last()) {
            Some(FileReply::Parsed(parsed)) => rest == pending.drop_last().drop_last() && load_source_ok(
                text@,
                parsed,
                result,
            ),
            _ => false,
        },
        _ => false,
    }
}

} // verus!

use vstd::prelude::*;

use crate::ai::{accepts, AiDecision};
use crate::action::{Action, ActionView};
use crate::game::{new_game_error, status_of, Game, GameStatus, GameView, HomeworldSetup, SetupView};
use crate::turn::TurnView;
use crate::ai::DecisionView;
use crate::search::{leads_to, lemma_leads_to_unique, successor, takes};
use crate::parser::{input_of, parse_input, parse_setup, setup_of, AiCommand, CommandView, ParsedCommand};
use crate::piece::Player;
use crate::render::{game_text, help_text, render_game, render_help, render_turn_summary};
use crate::save::{copy_strings, string_views, writes_game, SaveExtras, SaveFile};
use crate::session::{
    ai_decision_command, ai_strategy_label, choose_ai_decision, command_requests_state_after_error,
    format_game_error, game_from_history_setup, history_commands, player_label, prompt_label, read_load_source,
    player_name, prompt_name, records_history, requests_state, ends_by_itself, strategy_pick, starts_from, render_ai_control, strings_view, setup_content, setup_line_content, should_auto_end, should_record_user_history, AiControl, FileJournal, FileReply, FileRequest, LoadSource, journal_grows, loads_from_replies, next_reply, MAX_AI_DECISIONS,
    MAX_LOAD_DEPTH,
};
use crate::text::{
    push_chars, push_text, split_lines, string_from_chars, text_chars, text_lines, token_views, tokenize, tokenize_chars, trim,
    trim_chars,
};

verus! {

/// Where a hot-seat session stands.
#[derive(Clone, Copy, Debug, PartialEq, Eq, Structural)]
pub enum CliPhase {
    /// A player is entering their homeworld's stars.
    Stars(Player),
    /// A player is entering their homeworld's ship.
    Ship(Player),
    /// The game is being played.
    Playing,
    /// The session is over.
    Finished,
}

/// Whether a command asks the session to go on or to stop.
#[derive(Clone, Copy, Debug, PartialEq, Eq, Structural)]
pub enum CommandOutcome {
    Continue,
    Quit,
}

/// What one submitted line gave: the text to show, and the line as it joins
/// the session's history, if it does.
pub struct SubmitOutcome {
    pub output: String,
    pub recorded: Option<String>,
}

/// A two-player hot-seat session: homeworld setup, then commands, with AI
/// players taking their turns by themselves.
#[derive(Clone)]
pub struct CliSession {
    phase: CliPhase,
    stars_line: Vec<char>,
    stars_show_after: bool,
    first_show_after: bool,
    first_setup: Option<HomeworldSetup>,
    game: Option<Game>,
    ai_control: AiControl,
    typed_history: Vec<String>,
}

/// The command a line gives during play, read for the player to move;
/// nothing when it does not parse or there is no game.
pub open spec fn parsed_command(line: Seq<char>, game: Option<Game>) -> Option<CommandView> {
    match game {
        Some(g) => match input_of(line, g@.turn.player) {
            Ok((command, _)) => Some(command),
            Err(_) => None,
        },
        None => None,
    }
}

/// The board of the game, when it is asked for and there is a game.
pub open spec fn board_if_asked(asked: bool, game: Option<Game>) -> Seq<char> {
    match game {
        Some(g) => if asked {
            game_text(g@)
        } else {
            Seq::empty()
        },
        None => Seq::empty(),
    }
}

/// What a command of play shows when it fails to parse, asks for the help
/// or asks for the board; `None` for other commands.
pub open spec fn shown_text(line: Seq<char>, game: Game) -> Option<Seq<char>> {
    match input_of(line, game@.turn.player) {
        Err(e) => Some("Error: "@ + e + "\n"@ + board_if_asked(requests_state(line), Some(game))),
        Ok((command, show)) => shown_for(command, show, game),
    }
}

/// What a parsed command that asks for the help or the board shows.
pub open spec fn shown_for(command: CommandView, show: bool, game: Game) -> Option<Seq<char>> {
    match command {
        CommandView::Help => Some(help_text() + board_if_asked(show, Some(game))),
        CommandView::Show => Some(game_text(game@)),
        _ => None,
    }
}

/// The game after its turn ends: the other player to move with one action,
/// and the status that the board gives.
pub open spec fn turn_ended(g: GameView) -> GameView {
    GameView {
        turn: TurnView { state: g.turn.state, player: g.turn.player.spec_other(), remaining: 1, required: None },
        status: status_of(g.turn.state),
    }
}

/// Whether `next` is the game after the session takes an accepted action:
/// the action applied, then the turn ended by itself when no action is left
/// and no catastrophe is possible.
pub open spec fn session_after_action(g: GameView, a: ActionView, next: GameView) -> bool {
    exists|mid: TurnView|
        #[trigger] g.turn.after_action(a, mid) && {
            let m = GameView { turn: mid, status: GameStatus::InProgress };
            next == if ends_by_itself(m) {
                turn_ended(m)
            } else {
                m
            }
        }
}

/// The game after the session takes a decision that the game takes: the
/// action applied, then the turn ended when it ends by itself; or the turn
/// ended.
pub open spec fn session_step(g: GameView, d: DecisionView) -> GameView {
    let n = successor(g, d);
    match d {
        DecisionView::Action(_) => if ends_by_itself(n) {
            turn_ended(n)
        } else {
            n
        },
        DecisionView::EndTurn => n,
    }
}

/// The game after the session takes the decision, when the game takes it;
/// else the game as it was.
pub open spec fn decision_taken(g: GameView, d: DecisionView) -> GameView {
    if takes(g, d) {
        session_step(g, d)
    } else {
        g
    }
}

/// One round of AI play: in a game in progress whose player to move is left
/// to an AI, that player's strategy picks a decision and the session takes
/// it; else nothing changes.
pub open spec fn ai_round(g: GameView, control: AiControl) -> GameView {
    if g.status != GameStatus::InProgress {
        g
    } else {
        match control.spec_strategy(g.turn.player) {
            None => g,
            Some(strategy) => match strategy_pick(strategy, g) {
                Some(d) => decision_taken(g, d),
                None => g,
            },
        }
    }
}

/// The game after `n` rounds of AI play.
pub open spec fn ai_rounds(g: GameView, control: AiControl, n: nat) -> GameView
    decreases n,
{
    if n == 0 {
        g
    } else {
        ai_round(ai_rounds(g, control, (n - 1) as nat), control)
    }
}

/// Once a round changes nothing, no later round does.
pub proof fn lemma_ai_rounds_settle(g: GameView, control: AiControl, k: nat, n: nat)
    requires
        k <= n,
        ai_round(ai_rounds(g, control, k), control) == ai_rounds(g, control, k),
    ensures
        ai_rounds(g, control, n) == ai_rounds(g, control, k),
    decreases n,
{
    if n > k {
        lemma_ai_rounds_settle(g, control, k, (n - 1) as nat);
    }
}

/// The game reached by a decision that the game takes is its successor.
pub proof fn lemma_leads_to_successor(g: GameView, d: DecisionView, n: GameView)
    requires
        leads_to(g, d, n),
    ensures
        successor(g, d) == n,
{
    lemma_leads_to_unique(g, d, n, successor(g, d));
}

/// Whether the game is over or its player to move is not left to an AI,
/// so that no AI round changes it.
pub open spec fn human_to_move(g: GameView, control: AiControl) -> bool {
    g.status != GameStatus::InProgress || control.spec_strategy(g.turn.player) is None
}

/// What an accepted action or turn end prints, given the game afterwards,
/// when no AI then moves: the action applied, the turn ended when it ends by
/// itself, the turn summary and the board when asked for; `None` for other
/// commands.
pub open spec fn played_text(line: Seq<char>, game: Game, control: AiControl, after: Option<Game>) -> Option<Seq<char>> {
    match input_of(line, game@.turn.player) {
        Ok((command, show)) => played_for(command, show, game, control, after),
        Err(_) => None,
    }
}

/// What a parsed action or turn end prints once accepted, given the game
/// afterwards, when no AI then moves.
pub open spec fn played_for(command: CommandView, show: bool, game: Game, control: AiControl, after: Option<Game>) -> Option<
    Seq<char>,
> {
    let g = game@;
    match command {
        CommandView::Action(a) => if accepts(g, a) && human_to_move(session_step(g, DecisionView::Action(a)), control) {
            Some(
                "Action applied.\n"@ + (if ends_by_itself(successor(g, DecisionView::Action(a))) {
                    "Turn ended.\n"@
                } else {
                    Seq::empty()
                }) + crate::tui::summary_if_any(after) + board_if_asked(show, after),
            )
        } else {
            None
        },
        CommandView::End => if g.status == GameStatus::InProgress && g.turn.can_end() && human_to_move(turn_ended(g), control) {
            Some("Turn ended.\n"@ + crate::tui::summary_if_any(after) + board_if_asked(show, after))
        } else {
            None
        },
        _ => None,
    }
}

/// Whether no player is left to an AI.
pub open spec fn no_ai(control: AiControl) -> bool {
    control.spec_strategy(Player::One) is None && control.spec_strategy(Player::Two) is None
}

/// Whether the command only shows something: the board or the help.
pub open spec fn only_shows(command: Option<CommandView>) -> bool {
    match command {
        Some(CommandView::Show) | Some(CommandView::Help) => true,
        _ => false,
    }
}

/// Whether the command neither quits nor loads a file, which may quit.
pub open spec fn cannot_quit(command: Option<CommandView>) -> bool {
    match command {
        Some(CommandView::Quit) | Some(CommandView::Load(_)) => false,
        _ => true,
    }
}

/// Whether a setup line asks to load a file: its first word is `load` or
/// `l`, in any case.
pub open spec fn load_line(line: Seq<char>) -> bool {
    tokenize(line).len() > 0 && (tokenize(line)[0] == "load"@ || tokenize(line)[0] == "l"@)
}

/// What one command of play does to the session, output aside: play goes
/// on, the history stays, and the command does what it names (see each
/// clause); `outcome` says whether the session quits.
spec fn plays_command(before: CliSession, after: CliSession, command: Seq<char>, outcome: CommandOutcome) -> bool {
    let parsed = parsed_command(command, before.game);
    &&& after.typed_history == before.typed_history
    &&& after.phase == CliPhase::Playing
    &&& parsed is None ==> after.game == before.game && outcome == CommandOutcome::Continue
    &&& parsed == Some(CommandView::Quit) ==> outcome == CommandOutcome::Quit && after.game == before.game
    &&& only_shows(parsed) ==> after.game == before.game && after.ai_control == before.ai_control
    &&& cannot_quit(parsed) ==> outcome == CommandOutcome::Continue
    &&& parsed matches Some(CommandView::Ai(AiCommand::SetStrategy { player, strategy }))
        ==> after.ai_control.spec_strategy(player) == Some(strategy)
    &&& parsed matches Some(CommandView::Ai(AiCommand::Off { player })) ==> after.ai_control.spec_strategy(player) is None
    &&& parsed matches Some(CommandView::Action(a)) ==> (!accepts(before.game.unwrap()@, a) ==> after.game == before.game)
    &&& parsed == Some(CommandView::End) ==> (!(before.game.unwrap()@.status == GameStatus::InProgress
        && before.game.unwrap()@.turn.can_end()) ==> after.game == before.game)
    &&& command.len() == 0 ==> after.game == before.game
    &&& parsed matches Some(CommandView::Action(a)) ==> (accepts(before.game.unwrap()@, a) && no_ai(before.ai_control)
        ==> (after.game matches Some(n) && session_after_action(before.game.unwrap()@, a, n@)))
    &&& parsed == Some(CommandView::End) ==> (before.game.unwrap()@.status == GameStatus::InProgress
        && before.game.unwrap()@.turn.can_end() && no_ai(before.ai_control) ==> (after.game matches Some(n) && n@
        == turn_ended(before.game.unwrap()@)))
}

/// Whether replaying the commands from `before` leads to `after`: each
/// command played in turn, stopping at one that quits, and `outcome` says
/// whether one did.
spec fn replays_commands(before: CliSession, commands: Seq<Seq<char>>, after: CliSession, outcome: CommandOutcome) -> bool
    decreases commands.len(),
{
    if commands.len() == 0 {
        after == before && outcome == CommandOutcome::Continue
    } else {
        exists|mid: CliSession, o: CommandOutcome|
            #![trigger plays_command(before, mid, commands[0], o)]
            plays_command(before, mid, commands[0], o) && if o == CommandOutcome::Quit {
                after == mid && outcome == CommandOutcome::Quit
            } else {
                replays_commands(mid, commands.drop_first(), after, outcome)
            }
    }
}

/// What taking a typed line does to a session and what it prints: once
/// the session is over, nothing; at setup, the stars kept or the setup
/// read, and the game that two setups start; in play, the command run,
/// with the AI's turns after it.
#[verifier::opaque]
pub open spec fn submits(before: CliSession, after: CliSession, line: Seq<char>, output: Seq<char>) -> bool {
    &&& before.spec_phase() != CliPhase::Finished && records_history(trim(line)) ==> after.spec_history()
        == before.spec_history().push(trim(line))
    &&& !(before.spec_phase() != CliPhase::Finished && records_history(trim(line))) ==> after.spec_history()
        == before.spec_history()
    &&& before.spec_phase() == CliPhase::Finished ==> after.spec_phase() == CliPhase::Finished && output.len() == 0
    &&& before.spec_phase() matches CliPhase::Stars(p) ==> (!load_line(trim(line)) ==> after.spec_phase()
        == CliPhase::Ship(p) && after.spec_stars_line() == setup_content(trim(line))
        && after.spec_first_setup() == before.spec_first_setup() && output.len() == 0)
    &&& before.spec_phase() matches CliPhase::Ship(p) ==> {
        let parsed = setup_of(before.spec_stars_line(), setup_content(trim(line)), p);
        &&& parsed is Err ==> after.spec_phase() == CliPhase::Stars(p)
        &&& parsed is Ok && p == Player::One ==> after.spec_phase() == CliPhase::Stars(Player::Two)
        &&& parsed is Ok && p == Player::Two ==> (after.spec_phase() == CliPhase::Playing
            || after.spec_phase() == CliPhase::Stars(Player::One))
        &&& parsed matches Err(m) ==> output == "Error: "@ + m + "\n"@ + player_name(p) + " setup\n"@
        &&& p == Player::One ==> (parsed matches Ok(one) ==> after.spec_first_setup() == Some(one)
            && output == "Player 2 setup\n"@)
        &&& p == Player::Two ==> (parsed matches Ok(two) ==> match new_game_error(
            before.spec_first_setup().unwrap(),
            two,
        ) {
            None => after.spec_phase() == CliPhase::Playing && after.spec_game() is Some && starts_from(
                after.spec_game().unwrap()@,
                before.spec_first_setup().unwrap(),
                two,
            ),
            Some(e) => after.spec_phase() == CliPhase::Stars(Player::One) && output
                == "Error: invalid homeworld setup: "@ + crate::debug_text::game_error_debug(e) + "\n"@
                + "Player 1 setup\n"@,
        })
    }
    &&& before.spec_phase() == CliPhase::Playing ==> {
        let command = parsed_command(trim(line), before.spec_game());
        &&& command is None ==> after.spec_phase() == CliPhase::Playing && after.spec_game()
            == before.spec_game()
        &&& command == Some(CommandView::Quit) ==> after.spec_phase() == CliPhase::Finished
            && after.spec_game() == before.spec_game() && output == "Goodbye.\n"@
        &&& only_shows(command) ==> after.spec_phase() == CliPhase::Playing && after.spec_game()
            == before.spec_game() && after.spec_ai() == before.spec_ai()
        &&& cannot_quit(command) ==> after.spec_phase() == CliPhase::Playing
        &&& command matches Some(CommandView::Ai(AiCommand::SetStrategy { player, strategy }))
            ==> after.spec_ai().spec_strategy(player) == Some(strategy)
        &&& command matches Some(CommandView::Ai(AiCommand::Off { player })) ==> after.spec_ai().spec_strategy(
            player,
        ) is None
        &&& command matches Some(CommandView::Action(a)) ==> (!accepts(before.spec_game().unwrap()@, a)
            ==> after.spec_game() == before.spec_game())
        &&& command == Some(CommandView::End) ==> (!(before.spec_game().unwrap()@.status
            == GameStatus::InProgress && before.spec_game().unwrap()@.turn.can_end())
            ==> after.spec_game() == before.spec_game())
        &&& command matches Some(CommandView::Action(a)) ==> (accepts(before.spec_game().unwrap()@, a) && no_ai(
            before.spec_ai(),
        ) ==> (after.spec_game() matches Some(n) && session_after_action(
            before.spec_game().unwrap()@,
            a,
            n@,
        )))
        &&& command == Some(CommandView::End) ==> (before.spec_game().unwrap()@.status == GameStatus::InProgress
            && before.spec_game().unwrap()@.turn.can_end() && no_ai(before.spec_ai())
            ==> (after.spec_game() matches Some(n) && n@ == turn_ended(before.spec_game().unwrap()@)))
        &&& command matches Some(CommandView::Action(a)) ==> (accepts(before.spec_game().unwrap()@, a)
            ==> after.spec_game().unwrap()@ == ai_rounds(
            session_step(before.spec_game().unwrap()@, DecisionView::Action(a)),
            before.spec_ai(),
            MAX_AI_DECISIONS as nat,
        ))
        &&& command == Some(CommandView::End) ==> (before.spec_game().unwrap()@.status == GameStatus::InProgress
            && before.spec_game().unwrap()@.turn.can_end() ==> after.spec_game().unwrap()@ == ai_rounds(
            turn_ended(before.spec_game().unwrap()@),
            before.spec_ai(),
            MAX_AI_DECISIONS as nat,
        ))
        &&& trim(line).len() > 0 ==> (played_text(
            trim(line),
            before.spec_game().unwrap(),
            before.spec_ai(),
            after.spec_game(),
        ) matches Some(text) ==> output == text)
        &&& trim(line).len() == 0 ==> output.len() == 0 && after.spec_game() == before.spec_game()
        &&& trim(line).len() > 0 ==> (shown_text(trim(line), before.spec_game().unwrap()) matches Some(text)
            ==> output == text)
    }
}

/// The prompt that a running session shows before it reads a line.
pub open spec fn prompt_text(s: CliSession) -> Seq<char> {
    match s.spec_phase() {
        CliPhase::Stars(p) => player_name(p) + " stars> "@,
        CliPhase::Ship(p) => player_name(p) + " ship> "@,
        _ => prompt_name(s.spec_game().unwrap()@.turn.player) + "> "@,
    }
}

/// Whether a session goes through the states `sessions` as it takes the
/// `lines` one after another, each while it still runs, printing `outs`.
pub open spec fn plays_lines(sessions: Seq<CliSession>, outs: Seq<Seq<char>>, lines: Seq<Seq<char>>) -> bool
    decreases lines.len(),
{
    &&& sessions.len() == lines.len() + 1
    &&& outs.len() == lines.len()
    &&& lines.len() > 0 ==> {
        &&& plays_lines(sessions.drop_last(), outs.drop_last(), lines.drop_last())
        &&& sessions[lines.len() - 1].spec_phase() != CliPhase::Finished
        &&& submits(sessions[lines.len() - 1], sessions.last(), lines.last(), outs.last())
    }
}

/// What a session shows while it takes lines: before each, its prompt,
/// then what taking it printed.
pub open spec fn said_text(sessions: Seq<CliSession>, outs: Seq<Seq<char>>) -> Seq<char>
    decreases outs.len(),
{
    if outs.len() == 0 {
        Seq::empty()
    } else {
        said_text(sessions.drop_last(), outs.drop_last()) + prompt_text(sessions[outs.len() - 1]) + outs.last()
    }
}

/// Whether the session is one that has just started: Player 1's stars are
/// awaited, with no game, no history and no AI.
pub open spec fn fresh_session(s: CliSession) -> bool {
    &&& s.spec_phase() == CliPhase::Stars(Player::One)
    &&& s.spec_game() is None
    &&& s.spec_history().len() == 0
    &&& s.spec_ai() == (AiControl { player_one: None, player_two: None })
}

/// The greeting that a session starts with.
pub open spec fn greeting_text() -> Seq<char> {
    "Homeworlds hot seat\n"@ + "Enter pieces as gs, red medium, or yellow small, or load <path>.\n"@
        + "Player 1 setup\n"@
}

/// Whether the journal's one new request writes, to `path`, a save of the
/// game with `history` as its typed history and no commands to replay.
pub open spec fn writes_save(before: FileJournal, after: FileJournal, path: Seq<char>, g: GameView, history: Seq<Seq<char>>) -> bool {
    &&& after.spec_requests().len() == before.spec_requests().len() + 1
    &&& after.spec_requests().drop_last() == before.spec_requests()
    &&& after.spec_requests().last() matches FileRequest::WriteSave(p, f) && p@ == path && writes_game(f, g)
        && string_views(f.history@) == history && f.commands@.len() == 0
}

/// What a save command says once its write is answered: where it saved, or
/// why it could not.
pub open spec fn written_text(pending: Seq<FileReply>, label: Seq<char>, path: Seq<char>) -> Seq<char> {
    match next_reply(pending) {
        Some(FileReply::Written(Ok(_))) => label + path + ".\n"@,
        Some(FileReply::Written(Err(m))) => "Error: "@ + m@ + "\n"@,
        _ => Seq::empty(),
    }
}

/// What a load during play does with what it read: an error is printed,
/// with the board when asked for, and changes nothing; a save that holds no
/// commands to replay replaces the game, and the AI players then move.
pub open spec fn loads_into(
    game: Option<Game>,
    ai: AiControl,
    game_after: Option<Game>,
    source: Result<LoadSource, String>,
    show_after: bool,
    out_before: Seq<char>,
    out_after: Seq<char>,
) -> bool {
    match source {
        Err(m) => out_after == out_before + "Error: "@ + m@ + "\n"@ + board_if_asked(show_after, game)
            && game_after == game,
        Ok(LoadSource::Save(saved)) => saved.commands@.len() == 0 ==> game_after is Some
            && game_after.unwrap()@ == ai_rounds(saved.game@, ai, MAX_AI_DECISIONS as nat),
        Ok(LoadSource::History(_)) => true,
    }
}

/// What a file command of play does: a save writes the game, with the
/// typed history for `save-history`, to the path typed, and says where or
/// why not; a load at `depth` reads the path typed and goes on with what it
/// read, unless loads are nested too deep. Other commands are not file
/// commands.
pub open spec fn does_file_command(
    game: Option<Game>,
    ai: AiControl,
    history: Seq<Seq<char>>,
    game_after: Option<Game>,
    files_before: FileJournal,
    files_after: FileJournal,
    command: CommandView,
    show_after: bool,
    depth: int,
    out_before: Seq<char>,
    out_after: Seq<char>,
) -> bool {
    match command {
        CommandView::Save(path) => {
            &&& writes_save(files_before, files_after, path, game.unwrap()@, Seq::empty())
            &&& files_after.spec_answered() ==> out_after == out_before + written_text(
                files_before.spec_pending(),
                "Saved to "@,
                path,
            ) + board_if_asked(show_after, game)
            &&& game_after == game
        },
        CommandView::SaveHistory(path) => {
            &&& writes_save(files_before, files_after, path, game.unwrap()@, history)
            &&& files_after.spec_answered() ==> out_after == out_before + written_text(
                files_before.spec_pending(),
                "Saved history to "@,
                path,
            ) + board_if_asked(show_after, game)
            &&& game_after == game
        },
        CommandView::Load(path) => {
            &&& depth >= MAX_LOAD_DEPTH ==> out_after == out_before + "Error: load nesting limit exceeded\n"@
                && game_after == game && files_after == files_before
            &&& depth < MAX_LOAD_DEPTH ==> files_after.spec_requests().len() > files_before.spec_requests().len()
                && (files_after.spec_requests()[files_before.spec_requests().len() as int] matches FileRequest::ReadText(p)
                && p@ == path)
            &&& depth < MAX_LOAD_DEPTH && files_after.spec_answered() ==> exists|
                source: Result<LoadSource, String>,
                rest: Seq<FileReply>,
            |
                #[trigger] loads_from_replies(files_before.spec_pending(), rest, source) && loads_into(
                    game,
                    ai,
                    game_after,
                    source,
                    show_after,
                    out_before,
                    out_after,
                )
        },
        _ => true,
    }
}

/// What a line of play does as a file command, when it reads as one.
pub open spec fn does_file_line(
    game: Option<Game>,
    ai: AiControl,
    history: Seq<Seq<char>>,
    game_after: Option<Game>,
    files_before: FileJournal,
    files_after: FileJournal,
    line: Seq<char>,
    depth: int,
    out_before: Seq<char>,
    out_after: Seq<char>,
) -> bool {
    match game {
        Some(g) => match input_of(line, g@.turn.player) {
            Ok((command, show_after)) => does_file_command(
                game,
                ai,
                history,
                game_after,
                files_before,
                files_after,
                command,
                show_after,
                depth,
                out_before,
                out_after,
            ),
            Err(_) => true,
        },
        None => true,
    }
}

/// The path that a line loads, when it reads as a load.
pub open spec fn load_path_of(line: Seq<char>) -> Option<Seq<char>> {
    match input_of(line, Player::One) {
        Ok((CommandView::Load(path), _)) => Some(path),
        _ => None,
    }
}

/// Whether the first request that a journal gained reads the file at `path`.
pub open spec fn reads_first(files_before: FileJournal, files_after: FileJournal, path: Seq<char>) -> bool {
    &&& files_after.spec_requests().len() > files_before.spec_requests().len()
    &&& files_after.spec_requests()[files_before.spec_requests().len() as int] matches FileRequest::ReadText(p) && p@ == path
}

impl CliSession {
    /// The session keeps a game that follows the rules once play begins.
    pub closed spec fn wf(&self) -> bool {
        &&& self.phase == CliPhase::Playing ==> self.game is Some
        &&& self.game matches Some(game) ==> game@.wf()
        &&& (self.phase == CliPhase::Stars(Player::Two) || self.phase == CliPhase::Ship(Player::Two))
            ==> self.first_setup is Some
    }

    /// Player 1's homeworld setup, once entered.
    pub closed spec fn spec_first_setup(&self) -> Option<SetupView> {
        match self.first_setup {
            Some(setup) => Some(setup@),
            None => None,
        }
    }

    /// Where the session stands.
    pub closed spec fn spec_phase(&self) -> CliPhase {
        self.phase
    }

    /// The game being played, once setup is done.
    pub closed spec fn spec_game(&self) -> Option<Game> {
        self.game
    }

    /// Which players the AI plays.
    pub closed spec fn spec_ai(&self) -> AiControl {
        self.ai_control
    }

    /// The lines typed so far that the history keeps.
    pub closed spec fn spec_history(&self) -> Seq<Seq<char>> {
        strings_view(self.typed_history@)
    }

    /// The stars line of the setup in progress.
    pub closed spec fn spec_stars_line(&self) -> Seq<char> {
        self.stars_line@
    }

    /// Starts a session at Player 1's setup, with its greeting.
    pub fn start() -> (started: (CliSession, String))
        ensures
            started.0.wf(),
            started.0.spec_phase() == CliPhase::Stars(Player::One),
            started.0.spec_game() is None,
            started.0.spec_history().len() == 0,
            started.0.spec_ai() == (AiControl { player_one: None, player_two: None }),
            started.1@ == "Homeworlds hot seat\n"@ + "Enter pieces as gs, red medium, or yellow small, or load <path>.\n"@
                + "Player 1 setup\n"@,
    {
        let mut out: Vec<char> = Vec::new();
        push_text(&mut out, "Homeworlds hot seat\n");
        push_text(&mut out, "Enter pieces as gs, red medium, or yellow small, or load <path>.\n");
        push_text(&mut out, "Player 1 setup\n");
        proof {
            assert(out@ =~= "Homeworlds hot seat\n"@ + "Enter pieces as gs, red medium, or yellow small, or load <path>.\n"@
                + "Player 1 setup\n"@);
        }
        let session = CliSession {
            phase: CliPhase::Stars(Player::One),
            stars_line: Vec::new(),
            stars_show_after: false,
            first_show_after: false,
            first_setup: None,
            game: None,
            ai_control: AiControl { player_one: None, player_two: None },
            typed_history: Vec::new(),
        };
        (session, string_from_chars(out.as_slice()))
    }

    pub fn phase(&self) -> (phase: CliPhase)
        ensures
            phase == self.spec_phase(),
    {
        self.phase
    }

    pub fn is_finished(&self) -> (finished: bool)
        ensures
            finished == (self.spec_phase() == CliPhase::Finished),
    {
        self.phase == CliPhase::Finished
    }

    /// The game being played, once setup is done.
    pub fn game(&self) -> (game: Option<&Game>)
        requires
            self.wf(),
        ensures
            game matches Some(g) ==> g@.wf(),
            self.spec_phase() == CliPhase::Playing ==> game is Some,
            game is None <==> self.spec_game() is None,
            game matches Some(g) ==> self.spec_game() == Some(*g),
    {
        self.game.as_ref()
    }

    /// The lines typed so far that the history keeps.
    pub fn typed_history(&self) -> (history: &Vec<String>)
        ensures
            strings_view(history@) == self.spec_history(),
    {
        &self.typed_history
    }

    /// The prompt for the next line.
    pub fn prompt(&self) -> (prompt: String)
        requires
            self.wf(),
        ensures
            self.spec_phase() matches CliPhase::Stars(p) ==> prompt@ == player_name(p) + " stars> "@,
            self.spec_phase() matches CliPhase::Ship(p) ==> prompt@ == player_name(p) + " ship> "@,
            self.spec_phase() == CliPhase::Playing ==> prompt@ == prompt_name(self.spec_game().unwrap()@.turn.player)
                + "> "@,
            self.spec_phase() != CliPhase::Finished ==> prompt@ == prompt_text(*self),
    {
        let mut out: Vec<char> = Vec::new();
        match self.phase {
            CliPhase::Stars(player) => {
                push_text(&mut out, player_label(player));
                push_text(&mut out, " stars> ");
            },
            CliPhase::Ship(player) => {
                push_text(&mut out, player_label(player));
                push_text(&mut out, " ship> ");
            },
            _ => {
                let player = match &self.game {
                    Some(game) => game.turn().current_player(),
                    None => Player::One,
                };
                push_text(&mut out, prompt_label(player));
                push_text(&mut out, "> ");
            },
        }
        string_from_chars(out.as_slice())
    }

    /// Ctrl-C: says goodbye and ends the session.
    pub fn interrupt(&mut self) -> (output: String)
        requires
            old(self).wf(),
        ensures
            final(self).wf(),
            final(self).spec_phase() == CliPhase::Finished,
            final(self).spec_game() == old(self).spec_game(),
            output@ == "Goodbye.\n"@,
    {
        self.phase = CliPhase::Finished;
        let chars = text_chars("Goodbye.\n");
        string_from_chars(chars.as_slice())
    }

    /// The input has run out: the session ends.
    pub fn end_of_input(&mut self)
        requires
            old(self).wf(),
        ensures
            final(self).wf(),
            final(self).spec_phase() == CliPhase::Finished,
    {
        self.phase = CliPhase::Finished;
    }

    /// Takes one typed line: a setup line, or a command once play begins.
    pub fn submit(&mut self, line: &str, files: &mut FileJournal) -> (outcome: SubmitOutcome)
        requires
            old(self).wf(),
        ensures
            old(self).spec_phase() is Stars && load_line(trim(line@)) ==> (load_path_of(trim(line@)) matches Some(path)
                ==> reads_first(*old(files), *final(files), path)),
            old(self).spec_phase() == CliPhase::Playing && trim(line@).len() > 0 ==> does_file_line(
                old(self).spec_game(),
                old(self).spec_ai(),
                final(self).spec_history(),
                final(self).spec_game(),
                *old(files),
                *final(files),
                trim(line@),
                0,
                Seq::empty(),
                outcome.output@,
            ),
            journal_grows(*old(files), *final(files)),
            final(self).wf(),
            old(self).spec_phase() == CliPhase::Finished ==> outcome.recorded is None,
            old(self).spec_phase() != CliPhase::Finished ==> (outcome.recorded matches Some(r) ==> r@ == trim(line@)
                && records_history(trim(line@))),
            old(self).spec_phase() != CliPhase::Finished && records_history(trim(line@)) ==> outcome.recorded is Some,
            submits(*old(self), *final(self), line@, outcome.output@),
    {
        let outcome = self.submit_line(line, files);
        proof {
            reveal(submits);
        }
        outcome
    }

    fn submit_line(&mut self, line: &str, files: &mut FileJournal) -> (outcome: SubmitOutcome)
        requires
            old(self).wf(),
        ensures
            old(self).spec_phase() is Stars && load_line(trim(line@)) ==> (load_path_of(trim(line@)) matches Some(path)
                ==> reads_first(*old(files), *final(files), path)),
            old(self).spec_phase() == CliPhase::Playing && trim(line@).len() > 0 ==> does_file_line(
                old(self).spec_game(),
                old(self).spec_ai(),
                final(self).spec_history(),
                final(self).spec_game(),
                *old(files),
                *final(files),
                trim(line@),
                0,
                Seq::empty(),
                outcome.output@,
            ),
            journal_grows(*old(files), *final(files)),
            final(self).wf(),
            old(self).spec_phase() == CliPhase::Finished ==> outcome.recorded is None,
            old(self).spec_phase() != CliPhase::Finished ==> (outcome.recorded matches Some(r) ==> r@ == trim(line@)
                && records_history(trim(line@))),
            old(self).spec_phase() != CliPhase::Finished && records_history(trim(line@)) ==> outcome.recorded is Some,
            old(self).spec_phase() != CliPhase::Finished && records_history(trim(line@)) ==> final(self).spec_history()
                == old(self).spec_history().push(trim(line@)),
            !(old(self).spec_phase() != CliPhase::Finished && records_history(trim(line@))) ==> final(self).spec_history()
                == old(self).spec_history(),
            old(self).spec_phase() == CliPhase::Finished ==> final(self).spec_phase() == CliPhase::Finished && outcome.output@.len() == 0,
            old(self).spec_phase() matches CliPhase::Stars(p) ==> (!load_line(trim(line@)) ==> final(self).spec_phase()
                == CliPhase::Ship(p) && final(self).spec_stars_line() == setup_content(trim(line@))
                && final(self).spec_first_setup() == old(self).spec_first_setup() && outcome.output@.len() == 0),
            old(self).spec_phase() matches CliPhase::Ship(p) ==> {
                let parsed = setup_of(old(self).spec_stars_line(), setup_content(trim(line@)), p);
                &&& parsed is Err ==> final(self).spec_phase() == CliPhase::Stars(p)
                &&& parsed is Ok && p == Player::One ==> final(self).spec_phase() == CliPhase::Stars(Player::Two)
                &&& parsed is Ok && p == Player::Two ==> (final(self).spec_phase() == CliPhase::Playing
                    || final(self).spec_phase() == CliPhase::Stars(Player::One))
                &&& parsed matches Err(m) ==> outcome.output@ == "Error: "@ + m + "\n"@ + player_name(p) + " setup\n"@
                &&& p == Player::One ==> (parsed matches Ok(one) ==> final(self).spec_first_setup() == Some(one)
                    && outcome.output@ == "Player 2 setup\n"@)
                &&& p == Player::Two ==> (parsed matches Ok(two) ==> match new_game_error(
                    old(self).spec_first_setup().unwrap(),
                    two,
                ) {
                    None => final(self).spec_phase() == CliPhase::Playing && final(self).spec_game() is Some && starts_from(
                        final(self).spec_game().unwrap()@,
                        old(self).spec_first_setup().unwrap(),
                        two,
                    ),
                    Some(e) => final(self).spec_phase() == CliPhase::Stars(Player::One) && outcome.output@
                        == "Error: invalid homeworld setup: "@ + crate::debug_text::game_error_debug(e) + "\n"@
                        + "Player 1 setup\n"@,
                })
            },
            old(self).spec_phase() == CliPhase::Playing ==> {
                let command = parsed_command(trim(line@), old(self).spec_game());
                &&& command is None ==> final(self).spec_phase() == CliPhase::Playing && final(self).spec_game()
                    == old(self).spec_game()
                &&& command == Some(CommandView::Quit) ==> final(self).spec_phase() == CliPhase::Finished
                    && final(self).spec_game() == old(self).spec_game() && outcome.output@ == "Goodbye.\n"@
                &&& only_shows(command) ==> final(self).spec_phase() == CliPhase::Playing && final(self).spec_game()
                    == old(self).spec_game() && final(self).spec_ai() == old(self).spec_ai()
                &&& cannot_quit(command) ==> final(self).spec_phase() == CliPhase::Playing
                &&& command matches Some(CommandView::Ai(AiCommand::SetStrategy { player, strategy }))
                    ==> final(self).spec_ai().spec_strategy(player) == Some(strategy)
                &&& command matches Some(CommandView::Ai(AiCommand::Off { player })) ==> final(self).spec_ai().spec_strategy(
                    player,
                ) is None
                &&& command matches Some(CommandView::Action(a)) ==> (!accepts(old(self).spec_game().unwrap()@, a)
                    ==> final(self).spec_game() == old(self).spec_game())
                &&& command == Some(CommandView::End) ==> (!(old(self).spec_game().unwrap()@.status
                    == GameStatus::InProgress && old(self).spec_game().unwrap()@.turn.can_end())
                    ==> final(self).spec_game() == old(self).spec_game())
                &&& command matches Some(CommandView::Action(a)) ==> (accepts(old(self).spec_game().unwrap()@, a) && no_ai(
                    old(self).spec_ai(),
                ) ==> (final(self).spec_game() matches Some(n) && session_after_action(
                    old(self).spec_game().unwrap()@,
                    a,
                    n@,
                )))
                &&& command == Some(CommandView::End) ==> (old(self).spec_game().unwrap()@.status == GameStatus::InProgress
                    && old(self).spec_game().unwrap()@.turn.can_end() && no_ai(old(self).spec_ai())
                    ==> (final(self).spec_game() matches Some(n) && n@ == turn_ended(old(self).spec_game().unwrap()@)))
                &&& command matches Some(CommandView::Action(a)) ==> (accepts(old(self).spec_game().unwrap()@, a)
                    ==> final(self).spec_game().unwrap()@ == ai_rounds(
                    session_step(old(self).spec_game().unwrap()@, DecisionView::Action(a)),
                    old(self).spec_ai(),
                    MAX_AI_DECISIONS as nat,
                ))
                &&& command == Some(CommandView::End) ==> (old(self).spec_game().unwrap()@.status == GameStatus::InProgress
                    && old(self).spec_game().unwrap()@.turn.can_end() ==> final(self).spec_game().unwrap()@ == ai_rounds(
                    turn_ended(old(self).spec_game().unwrap()@),
                    old(self).spec_ai(),
                    MAX_AI_DECISIONS as nat,
                ))
                &&& trim(line@).len() > 0 ==> (played_text(
                    trim(line@),
                    old(self).spec_game().unwrap(),
                    old(self).spec_ai(),
                    final(self).spec_game(),
                ) matches Some(text) ==> outcome.output@ == text)
                &&& trim(line@).len() == 0 ==> outcome.output@.len() == 0 && final(self).spec_game() == old(self).spec_game()
                &&& trim(line@).len() > 0 ==> (shown_text(trim(line@), old(self).spec_game().unwrap()) matches Some(text)
                    ==> outcome.output@ == text)
            },
    {
        let chars = text_chars(line);
        let trimmed_chars = trim_chars(chars.as_slice());
        let trimmed = string_from_chars(trimmed_chars.as_slice());
        let mut out: Vec<char> = Vec::new();
        let mut recorded: Option<String> = None;
        if self.phase == CliPhase::Finished {
            return SubmitOutcome { output: string_from_chars(out.as_slice()), recorded };
        }
        if should_record_user_history(trimmed.as_str()) {
            self.typed_history.push(trimmed.clone());
            recorded = Some(trimmed.clone());
        }
        match self.phase {
            CliPhase::Stars(player) => self.setup_stars(trimmed.as_str(), player, files, &mut out),
            CliPhase::Ship(player) => self.setup_ship(trimmed.as_str(), player, &mut out),
            CliPhase::Playing => {
                if self.run_command(trimmed.as_str(), files, 0, &mut out) == CommandOutcome::Quit {
                    self.phase = CliPhase::Finished;
                }
            },
            CliPhase::Finished => {},
        }
        SubmitOutcome { output: string_from_chars(out.as_slice()), recorded }
    }

    fn setup_stars(&mut self, line: &str, player: Player, files: &mut FileJournal, out: &mut Vec<char>)
        requires
            old(self).wf(),
            old(self).phase == CliPhase::Stars(player),
        ensures
            journal_grows(*old(files), *final(files)),
            final(self).typed_history == old(self).typed_history,
            final(self).wf(),
            !load_line(line@) ==> final(self).phase == CliPhase::Ship(player) && final(self).stars_line@
                == setup_content(line@) && final(self).first_setup == old(self).first_setup && final(out)@ == old(out)@,
            load_line(line@) ==> (load_path_of(line@) matches Some(path) ==> reads_first(*old(files), *final(files), path)),
    {
        if is_load_line(line) {
            match parse_input(line, Player::One) {
                Ok(parsed) => {
                    if let ParsedCommand::Load(path) = parsed.command {
                        self.load_from_setup(path.as_str(), parsed.show_after, files, out);
                    }
                },
                Err(error) => {
                    push_text(out, "Error: ");
                    push_text(out, error.message());
                    push_text(out, "\n");
                },
            }
            if self.phase != CliPhase::Playing && self.phase != CliPhase::Finished {
                push_text(out, player_label(player));
                push_text(out, " setup\n");
            }
            return;
        }
        let content = setup_line_content(line);
        self.stars_line = text_chars(content.as_str());
        self.stars_show_after = command_requests_state_after_error(line);
        self.phase = CliPhase::Ship(player);
    }

    fn setup_ship(&mut self, line: &str, player: Player, out: &mut Vec<char>)
        requires
            old(self).wf(),
            old(self).phase == CliPhase::Ship(player),
        ensures
            final(self).typed_history == old(self).typed_history,
            final(self).wf(),
            setup_of(old(self).stars_line@, setup_content(line@), player) is Err ==> final(self).phase
                == CliPhase::Stars(player),
            setup_of(old(self).stars_line@, setup_content(line@), player) is Ok && player == Player::One
                ==> final(self).phase == CliPhase::Stars(Player::Two),
            setup_of(old(self).stars_line@, setup_content(line@), player) is Ok && player == Player::Two
                ==> final(self).phase == CliPhase::Playing || final(self).phase == CliPhase::Stars(Player::One),
            setup_of(old(self).stars_line@, setup_content(line@), player) matches Err(m) ==> final(out)@ == old(out)@
                + "Error: "@ + m + "\n"@ + player_name(player) + " setup\n"@,
            player == Player::One ==> (setup_of(old(self).stars_line@, setup_content(line@), player) matches Ok(one)
                ==> final(self).spec_first_setup() == Some(one) && final(out)@ == old(out)@ + "Player 2 setup\n"@),
            player == Player::Two ==> (setup_of(old(self).stars_line@, setup_content(line@), player) matches Ok(two) ==> match new_game_error(
                old(self).spec_first_setup().unwrap(),
                two,
            ) {
                None => final(self).phase == CliPhase::Playing && final(self).game is Some && starts_from(
                    final(self).game.unwrap()@,
                    old(self).spec_first_setup().unwrap(),
                    two,
                ),
                Some(e) => final(self).phase == CliPhase::Stars(Player::One) && final(self).game == old(self).game
                    && final(out)@ == old(out)@ + "Error: invalid homeworld setup: "@ + crate::debug_text::game_error_debug(e)
                    + "\n"@ + "Player 1 setup\n"@,
            }),
    {
        let show_after = self.stars_show_after || command_requests_state_after_error(line);
        let stars = string_from_chars(self.stars_line.as_slice());
        let ship = setup_line_content(line);
        match parse_setup(stars.as_str(), ship.as_str(), player) {
            Ok(setup) => match player {
                Player::One => {
                    self.first_setup = Some(setup);
                    self.first_show_after = show_after;
                    self.phase = CliPhase::Stars(Player::Two);
                    push_text(out, "Player 2 setup\n");
                },
                Player::Two => {
                    let first = self.first_setup.take();
                    self.phase = CliPhase::Stars(Player::One);
                    let show_after = self.first_show_after || show_after;
                    self.first_show_after = false;
                    match first {
                        Some(one) => match Game::new(
                            {
                                let homes = [one, setup];
                                assert(homes@[0]@ == old(self).spec_first_setup().unwrap() && homes@[1] == setup);
                                homes
                            },
                            Player::One,
                        ) {
                            Ok(game) => {
                                self.start_game(game, show_after, out);
                            },
                            Err(error) => {
                                push_text(out, "Error: invalid homeworld setup: ");
                                let text = format_game_error(&error);
                                push_text(out, text.as_str());
                                push_text(out, "\n");
                                self.phase = CliPhase::Stars(Player::One);
                                push_text(out, "Player 1 setup\n");
                            },
                        },
                        None => {
                            self.phase = CliPhase::Stars(Player::One);
                            push_text(out, "Player 1 setup\n");
                        },
                    }
                },
            },
            Err(error) => {
                push_text(out, "Error: ");
                push_text(out, error.message());
                push_text(out, "\n");
                self.phase = CliPhase::Stars(player);
                push_text(out, player_label(player));
                push_text(out, " setup\n");
            },
        }
    }

    fn start_game(&mut self, game: Game, show_after: bool, out: &mut Vec<char>)
        requires
            old(self).wf(),
            game@.wf(),
        ensures
            final(self).typed_history == old(self).typed_history,
            final(self).wf(),
            final(self).phase == CliPhase::Playing,
            final(self).game == Some(game),
    {
        push_text(out, "Game started.\n");
        if show_after {
            let text = render_game(&game);
            push_text(out, text.as_str());
        } else {
            let text = render_turn_summary(&game);
            push_text(out, text.as_str());
        }
        self.game = Some(game);
        self.phase = CliPhase::Playing;
    }

    fn load_from_setup(&mut self, path: &str, show_after: bool, files: &mut FileJournal, out: &mut Vec<char>)
        requires
            old(self).wf(),
        ensures
            journal_grows(*old(files), *final(files)),
            final(self).typed_history == old(self).typed_history,
            final(self).wf(),
            final(self).phase == old(self).phase && final(self).game == old(self).game || final(self).phase
                == CliPhase::Playing || final(self).phase == CliPhase::Finished,
            reads_first(*old(files), *final(files), path@),
    {
        let source = read_load_source(files, path);
        let ghost mid = *files;
        self.start_from_source(source, path, show_after, files, out);
        proof {
            assert(files.spec_requests()[old(files).spec_requests().len() as int] == mid.spec_requests()[old(
                files,
            ).spec_requests().len() as int]);
        }
    }

    /// Starts play from what a load at setup read: the saved game, or the
    /// game that a history's first four commands set up, with the commands
    /// that follow replayed; an error is shown and changes nothing else.
    fn start_from_source(
        &mut self,
        source: Result<LoadSource, String>,
        path: &str,
        show_after: bool,
        files: &mut FileJournal,
        out: &mut Vec<char>,
    )
        requires
            old(self).wf(),
            source matches Ok(LoadSource::Save(saved)) ==> saved.game@.wf(),
        ensures
            journal_grows(*old(files), *final(files)),
            final(self).typed_history == old(self).typed_history,
            final(self).wf(),
            final(self).phase == old(self).phase && final(self).game == old(self).game || final(self).phase
                == CliPhase::Playing || final(self).phase == CliPhase::Finished,
            source matches Err(m) ==> final(out)@ == old(out)@ + "Error: "@ + m@ + "\n"@ && final(self).game
                == old(self).game && final(self).phase == old(self).phase,
            source matches Ok(LoadSource::Save(saved)) ==> (saved.commands@.len() == 0 ==> final(self).game == Some(saved.game)
                && final(self).phase == CliPhase::Playing),
            source matches Ok(LoadSource::History(text)) ==> (crate::session::history_setup_fails(text@)
                ==> final(self).game == old(self).game && final(self).phase == old(self).phase),
    {
        match source {
            Ok(LoadSource::Save(saved)) => {
                push_text(out, "Loaded from ");
                push_text(out, path);
                push_text(out, ".\n");
                if saved.commands.len() == 0 {
                    self.start_game(saved.game, show_after, out);
                } else {
                    self.start_game(saved.game, false, out);
                    let commands = copy_strings(&saved.commands);
                    push_text(out, "Running commands from ");
                    push_text(out, path);
                    push_text(out, ".\n");
                    if self.run_loaded_history(&commands, path, show_after, files, 1, out) == CommandOutcome::Quit {
                        self.phase = CliPhase::Finished;
                    }
                }
            },
            Ok(LoadSource::History(history)) => match game_from_history_setup(history.as_str()) {
                Ok((game, commands)) => {
                    self.start_game(game, false, out);
                    push_text(out, "Running commands from ");
                    push_text(out, path);
                    push_text(out, ".\n");
                    if self.run_loaded_history(&commands, path, show_after, files, 1, out) == CommandOutcome::Quit {
                        self.phase = CliPhase::Finished;
                    }
                },
                Err(error) => {
                    push_text(out, "Error: ");
                    let text = error.message();
                    push_text(out, text.as_str());
                    push_text(out, "\n");
                },
            },
            Err(message) => {
                push_text(out, "Error: ");
                push_text(out, message.as_str());
                push_text(out, "\n");
            },
        }
    }

    fn render_after_semicolon(&self, show_after: bool, out: &mut Vec<char>)
        requires
            self.wf(),
        ensures
            final(out)@ == old(out)@ + board_if_asked(show_after, self.game),
    {
        if show_after {
            if let Some(game) = &self.game {
                let text = render_game(game);
                push_text(out, text.as_str());
                return;
            }
        }
        assert(out@ =~= old(out)@ + board_if_asked(show_after, self.game));
    }

    fn push_summary(&self, out: &mut Vec<char>)
        requires
            self.wf(),
        ensures
            final(out)@ == old(out)@ + crate::tui::summary_if_any(self.game),
    {
        if let Some(game) = &self.game {
            let text = render_turn_summary(game);
            push_text(out, text.as_str());
        } else {
            assert(out@ =~= old(out)@ + crate::tui::summary_if_any(self.game));
        }
    }

    /// Runs one command of play; file commands go through the journal, and
    /// `depth` counts the loaded files that led here.
    #[verifier::rlimit(80)]
    #[verifier::spinoff_prover]
    fn run_command(&mut self, command: &str, files: &mut FileJournal, depth: usize, out: &mut Vec<char>) -> (outcome: CommandOutcome)
        requires
            old(self).wf(),
            old(self).phase == CliPhase::Playing,
            depth <= MAX_LOAD_DEPTH,
        ensures
            journal_grows(*old(files), *final(files)),
            final(self).typed_history == old(self).typed_history,
            final(self).wf(),
            final(self).phase == CliPhase::Playing,
            parsed_command(command@, old(self).game) is None ==> final(self).game == old(self).game && outcome
                == CommandOutcome::Continue,
            parsed_command(command@, old(self).game) == Some(CommandView::Quit) ==> outcome == CommandOutcome::Quit
                && final(self).game == old(self).game && final(out)@ == old(out)@ + "Goodbye.\n"@,
            only_shows(parsed_command(command@, old(self).game)) ==> final(self).game == old(self).game
                && final(self).ai_control == old(self).ai_control,
            cannot_quit(parsed_command(command@, old(self).game)) ==> outcome == CommandOutcome::Continue,
            parsed_command(command@, old(self).game) matches Some(CommandView::Ai(AiCommand::SetStrategy { player, strategy }))
                ==> final(self).ai_control.spec_strategy(player) == Some(strategy),
            parsed_command(command@, old(self).game) matches Some(CommandView::Ai(AiCommand::Off { player }))
                ==> final(self).ai_control.spec_strategy(player) is None,
            parsed_command(command@, old(self).game) matches Some(CommandView::Action(a)) ==> (!accepts(
                old(self).game.unwrap()@,
                a,
            ) ==> final(self).game == old(self).game),
            parsed_command(command@, old(self).game) == Some(CommandView::End) ==> (!(old(self).game.unwrap()@.status
                == GameStatus::InProgress && old(self).game.unwrap()@.turn.can_end()) ==> final(self).game
                == old(self).game),
            command@.len() > 0 ==> (shown_text(command@, old(self).game.unwrap()) matches Some(text) ==> final(out)@
                == old(out)@ + text),
            command@.len() == 0 ==> final(out)@ == old(out)@ && final(self).game == old(self).game,
            command@.len() > 0 ==> (played_text(command@, old(self).game.unwrap(), old(self).ai_control, final(self).game)
                matches Some(text) ==> final(out)@ == old(out)@ + text),
            parsed_command(command@, old(self).game) matches Some(CommandView::Action(a)) ==> (accepts(
                old(self).game.unwrap()@,
                a,
            ) ==> final(self).game.unwrap()@ == ai_rounds(
                session_step(old(self).game.unwrap()@, DecisionView::Action(a)),
                old(self).ai_control,
                MAX_AI_DECISIONS as nat,
            )),
            parsed_command(command@, old(self).game) == Some(CommandView::End) ==> (old(self).game.unwrap()@.status
                == GameStatus::InProgress && old(self).game.unwrap()@.turn.can_end() ==> final(self).game.unwrap()@
                == ai_rounds(turn_ended(old(self).game.unwrap()@), old(self).ai_control, MAX_AI_DECISIONS as nat)),
            parsed_command(command@, old(self).game) matches Some(CommandView::Action(a)) ==> (accepts(
                old(self).game.unwrap()@,
                a,
            ) && no_ai(old(self).ai_control) ==> (final(self).game matches Some(n) && session_after_action(
                old(self).game.unwrap()@,
                a,
                n@,
            ))),
            parsed_command(command@, old(self).game) == Some(CommandView::End) ==> (old(self).game.unwrap()@.status
                == GameStatus::InProgress && old(self).game.unwrap()@.turn.can_end() && no_ai(old(self).ai_control)
                ==> (final(self).game matches Some(n) && n@ == turn_ended(old(self).game.unwrap()@))),
            command@.len() > 0 ==> does_file_line(
                old(self).game,
                old(self).ai_control,
                strings_view(old(self).typed_history@),
                final(self).game,
                *old(files),
                *final(files),
                command@,
                depth as int,
                old(out)@,
                final(out)@,
            ),
        decreases MAX_LOAD_DEPTH - depth, 4int,
    {
        let chars = text_chars(command);
        if chars.len() == 0 {
            return CommandOutcome::Continue;
        }
        let show_after_error = command_requests_state_after_error(command);
        let current = match &self.game {
            Some(game) => game.turn().current_player(),
            None => Player::One,
        };
        let parsed = match parse_input(command, current) {
            Ok(parsed) => parsed,
            Err(error) => {
                push_text(out, "Error: ");
                push_text(out, error.message());
                push_text(out, "\n");
                self.render_after_semicolon(show_after_error, out);
                return CommandOutcome::Continue;
            },
        };
        let show_after = parsed.show_after;
        self.run_parsed(parsed.command, show_after, files, depth, out)
    }

    /// Runs one parsed command of play; `show_after` asks for the board
    /// afterwards.
    #[verifier::rlimit(100)]
    #[verifier::spinoff_prover]
    fn run_parsed(
        &mut self,
        command: ParsedCommand,
        show_after: bool,
        files: &mut FileJournal,
        depth: usize,
        out: &mut Vec<char>,
    ) -> (outcome: CommandOutcome)
        requires
            old(self).wf(),
            old(self).phase == CliPhase::Playing,
            depth <= MAX_LOAD_DEPTH,
        ensures
            journal_grows(*old(files), *final(files)),
            final(self).typed_history == old(self).typed_history,
            final(self).wf(),
            final(self).phase == CliPhase::Playing,
            Some(command@) == Some(CommandView::Quit) ==> outcome == CommandOutcome::Quit
                && final(self).game == old(self).game && final(out)@ == old(out)@ + "Goodbye.\n"@,
            only_shows(Some(command@)) ==> final(self).game == old(self).game
                && final(self).ai_control == old(self).ai_control,
            cannot_quit(Some(command@)) ==> outcome == CommandOutcome::Continue,
            Some(command@) matches Some(CommandView::Ai(AiCommand::SetStrategy { player, strategy }))
                ==> final(self).ai_control.spec_strategy(player) == Some(strategy),
            Some(command@) matches Some(CommandView::Ai(AiCommand::Off { player }))
                ==> final(self).ai_control.spec_strategy(player) is None,
            Some(command@) matches Some(CommandView::Action(a)) ==> (!accepts(
                old(self).game.unwrap()@,
                a,
            ) ==> final(self).game == old(self).game),
            Some(command@) == Some(CommandView::End) ==> (!(old(self).game.unwrap()@.status
                == GameStatus::InProgress && old(self).game.unwrap()@.turn.can_end()) ==> final(self).game
                == old(self).game),
            shown_for(command@, show_after, old(self).game.unwrap()) matches Some(text) ==> final(out)@ == old(out)@ + text,
            played_for(command@, show_after, old(self).game.unwrap(), old(self).ai_control, final(self).game) matches Some(
                text,
            ) ==> final(out)@ == old(out)@ + text,
            Some(command@) matches Some(CommandView::Action(a)) ==> (accepts(
                old(self).game.unwrap()@,
                a,
            ) ==> final(self).game.unwrap()@ == ai_rounds(
                session_step(old(self).game.unwrap()@, DecisionView::Action(a)),
                old(self).ai_control,
                MAX_AI_DECISIONS as nat,
            )),
            Some(command@) == Some(CommandView::End) ==> (old(self).game.unwrap()@.status
                == GameStatus::InProgress && old(self).game.unwrap()@.turn.can_end() ==> final(self).game.unwrap()@
                == ai_rounds(turn_ended(old(self).game.unwrap()@), old(self).ai_control, MAX_AI_DECISIONS as nat)),
            Some(command@) matches Some(CommandView::Action(a)) ==> (accepts(
                old(self).game.unwrap()@,
                a,
            ) && no_ai(old(self).ai_control) ==> (final(self).game matches Some(n) && session_after_action(
                old(self).game.unwrap()@,
                a,
                n@,
            ))),
            Some(command@) == Some(CommandView::End) ==> (old(self).game.unwrap()@.status
                == GameStatus::InProgress && old(self).game.unwrap()@.turn.can_end() && no_ai(old(self).ai_control)
                ==> (final(self).game matches Some(n) && n@ == turn_ended(old(self).game.unwrap()@))),
            does_file_command(
                old(self).game,
                old(self).ai_control,
                strings_view(old(self).typed_history@),
                final(self).game,
                *old(files),
                *final(files),
                command@,
                show_after,
                depth as int,
                old(out)@,
                final(out)@,
            ),
        decreases MAX_LOAD_DEPTH - depth, 3int,
    {
        match command {
            ParsedCommand::Help => {
                push_text(out, render_help());
                self.render_after_semicolon(show_after, out);
                CommandOutcome::Continue
            },
            ParsedCommand::Show => {
                self.render_after_semicolon(true, out);
                CommandOutcome::Continue
            },
            ParsedCommand::Quit => {
                push_text(out, "Goodbye.\n");
                CommandOutcome::Quit
            },
            ParsedCommand::Ai(ai) => {
                self.run_ai_command(ai, out);
                self.render_after_semicolon(show_after, out);
                self.run_ai_turns(out);
                CommandOutcome::Continue
            },
            ParsedCommand::Save(_) | ParsedCommand::SaveHistory(_) | ParsedCommand::Load(_) => self.file_command(
                command,
                show_after,
                files,
                depth,
                out,
            ),
            ParsedCommand::End => {
                self.end_turn_command(show_after, out);
                CommandOutcome::Continue
            },
            ParsedCommand::Action(action) => {
                self.take_action(action, show_after, out);
                CommandOutcome::Continue
            },
        }
    }

    /// Runs a file command of play: a save, a save with the history, or a load.
    fn file_command(
        &mut self,
        command: ParsedCommand,
        show_after: bool,
        files: &mut FileJournal,
        depth: usize,
        out: &mut Vec<char>,
    ) -> (outcome: CommandOutcome)
        requires
            old(self).wf(),
            old(self).phase == CliPhase::Playing,
            depth <= MAX_LOAD_DEPTH,
            command is Save || command is SaveHistory || command is Load,
        ensures
            journal_grows(*old(files), *final(files)),
            final(self).typed_history == old(self).typed_history,
            final(self).wf(),
            final(self).phase == CliPhase::Playing,
            !(command is Load) ==> outcome == CommandOutcome::Continue && final(self).game == old(self).game
                && final(self).ai_control == old(self).ai_control,
            does_file_command(
                old(self).game,
                old(self).ai_control,
                strings_view(old(self).typed_history@),
                final(self).game,
                *old(files),
                *final(files),
                command@,
                show_after,
                depth as int,
                old(out)@,
                final(out)@,
            ),
        decreases MAX_LOAD_DEPTH - depth, 2int,
    {
        match command {
            ParsedCommand::Save(path) => {
                self.save_command(path.as_str(), show_after, files, out);
                CommandOutcome::Continue
            },
            ParsedCommand::SaveHistory(path) => {
                self.save_history_command(path.as_str(), show_after, files, out);
                CommandOutcome::Continue
            },
            ParsedCommand::Load(path) => self.load_command(path.as_str(), show_after, files, depth, out),
            _ => CommandOutcome::Continue,
        }
    }

    /// Saves the game to `path`, saying where or why not.
    fn save_command(&mut self, path: &str, show_after: bool, files: &mut FileJournal, out: &mut Vec<char>)
        requires
            old(self).wf(),
            old(self).phase == CliPhase::Playing,
        ensures
            writes_save(*old(files), *final(files), path@, old(self).game.unwrap()@, Seq::empty()),
            final(files).spec_answered() ==> final(out)@ == old(out)@ + written_text(old(files).spec_pending(), "Saved to "@, path@)
                + board_if_asked(show_after, old(self).game),
            journal_grows(*old(files), *final(files)),
            final(self).typed_history == old(self).typed_history,
            final(self).wf(),
            final(self).phase == CliPhase::Playing,
            final(self).game == old(self).game,
            final(self).ai_control == old(self).ai_control,
    {
        if let Some(game) = &self.game {
            let file = SaveFile::from_game(game);
            proof {
                assert(string_views(file.history@) =~= Seq::<Seq<char>>::empty());
            }
            match files.write_save(path, file) {
                Ok(()) => {
                    push_text(out, "Saved to ");
                    push_text(out, path);
                    push_text(out, ".\n");
                },
                Err(text) => {
                    push_text(out, "Error: ");
                    push_text(out, text.as_str());
                    push_text(out, "\n");
                },
            }
        }
        self.render_after_semicolon(show_after, out);
    }

    /// Saves the game with the typed history to `path`, saying where or why not.
    fn save_history_command(&mut self, path: &str, show_after: bool, files: &mut FileJournal, out: &mut Vec<char>)
        requires
            old(self).wf(),
            old(self).phase == CliPhase::Playing,
        ensures
            writes_save(*old(files), *final(files), path@, old(self).game.unwrap()@, strings_view(old(self).typed_history@)),
            final(files).spec_answered() ==> final(out)@ == old(out)@ + written_text(
                old(files).spec_pending(),
                "Saved history to "@,
                path@,
            ) + board_if_asked(show_after, old(self).game),
            journal_grows(*old(files), *final(files)),
            final(self).typed_history == old(self).typed_history,
            final(self).wf(),
            final(self).phase == CliPhase::Playing,
            final(self).game == old(self).game,
            final(self).ai_control == old(self).ai_control,
    {
        if let Some(game) = &self.game {
            let extras = SaveExtras { history: copy_strings(&self.typed_history), commands: Vec::new() };
            let file = SaveFile::from_game_with_extras(game, &extras);
            proof {
                assert(string_views(file.commands@).len() == file.commands@.len());
                assert(string_views(extras.commands@).len() == 0);
                assert(string_views(file.history@) =~= strings_view(self.typed_history@));
            }
            match files.write_save(path, file) {
                Ok(()) => {
                    push_text(out, "Saved history to ");
                    push_text(out, path);
                    push_text(out, ".\n");
                },
                Err(text) => {
                    push_text(out, "Error: ");
                    push_text(out, text.as_str());
                    push_text(out, "\n");
                },
            }
        }
        self.render_after_semicolon(show_after, out);
    }

    /// Loads `path` during play: a saved game, with its commands run, or a
    /// history whose commands run on the current game.
    fn load_command(
        &mut self,
        path: &str,
        show_after: bool,
        files: &mut FileJournal,
        depth: usize,
        out: &mut Vec<char>,
    ) -> (outcome: CommandOutcome)
        requires
            old(self).wf(),
            old(self).phase == CliPhase::Playing,
            depth <= MAX_LOAD_DEPTH,
        ensures
            journal_grows(*old(files), *final(files)),
            final(self).typed_history == old(self).typed_history,
            final(self).wf(),
            final(self).phase == CliPhase::Playing,
            depth >= MAX_LOAD_DEPTH ==> final(out)@ == old(out)@ + "Error: load nesting limit exceeded\n"@
                && final(self).game == old(self).game && *final(files) == *old(files),
            depth < MAX_LOAD_DEPTH ==> final(files).spec_requests().len() > old(files).spec_requests().len()
                && (final(files).spec_requests()[old(files).spec_requests().len() as int] matches FileRequest::ReadText(p)
                && p@ == path@),
            depth < MAX_LOAD_DEPTH && final(files).spec_answered() ==> exists|
                source: Result<LoadSource, String>,
                rest: Seq<FileReply>,
            |
                #[trigger] loads_from_replies(old(files).spec_pending(), rest, source) && loads_into(
                    old(self).game,
                    old(self).ai_control,
                    final(self).game,
                    source,
                    show_after,
                    old(out)@,
                    final(out)@,
                ),
        decreases MAX_LOAD_DEPTH - depth, 1int,
    {
        if depth >= MAX_LOAD_DEPTH {
            push_text(out, "Error: load nesting limit exceeded\n");
            return CommandOutcome::Continue;
        }
        let source = read_load_source(files, path);
        let ghost mid = *files;
        let ghost before = *self;
        let ghost out_before = out@;
        let outcome = self.play_loaded(source, path, show_after, files, depth, out);
        proof {
            assert(files.spec_requests()[old(files).spec_requests().len() as int] == mid.spec_requests()[old(
                files,
            ).spec_requests().len() as int]);
            if files.spec_answered() {
                assert(loads_from_replies(old(files).spec_pending(), mid.spec_pending(), source));
            }
        }
        outcome
    }

    /// Plays on with what a load during play read: the saved game, with its
    /// commands run, or a command history run on the current game; an error
    /// is printed, with the board when asked for.
    fn play_loaded(
        &mut self,
        source: Result<LoadSource, String>,
        path: &str,
        show_after: bool,
        files: &mut FileJournal,
        depth: usize,
        out: &mut Vec<char>,
    ) -> (outcome: CommandOutcome)
        requires
            old(self).wf(),
            old(self).phase == CliPhase::Playing,
            depth < MAX_LOAD_DEPTH,
            source matches Ok(LoadSource::Save(saved)) ==> saved.game@.wf(),
        ensures
            journal_grows(*old(files), *final(files)),
            final(self).typed_history == old(self).typed_history,
            final(self).wf(),
            final(self).phase == CliPhase::Playing,
            loads_into(old(self).game, old(self).ai_control, final(self).game, source, show_after, old(out)@, final(out)@),
        decreases MAX_LOAD_DEPTH - depth, 0int,
    {
        match source {
            Ok(LoadSource::Save(loaded)) => {
                self.game = Some(loaded.game);
                push_text(out, "Loaded from ");
                push_text(out, path);
                push_text(out, ".\n");
                self.push_summary(out);
                if loaded.commands.len() == 0 {
                    self.render_after_semicolon(show_after, out);
                    self.run_ai_turns(out);
                    CommandOutcome::Continue
                } else {
                    let commands = copy_strings(&loaded.commands);
                    push_text(out, "Running commands from ");
                    push_text(out, path);
                    push_text(out, ".\n");
                    self.run_loaded_history(&commands, path, show_after, files, depth + 1, out)
                }
            },
            Ok(LoadSource::History(history)) => {
                let commands = history_commands(history.as_str());
                push_text(out, "Running commands from ");
                push_text(out, path);
                push_text(out, ".\n");
                self.run_loaded_history(&commands, path, show_after, files, depth + 1, out)
            },
            Err(message) => {
                push_text(out, "Error: ");
                push_text(out, message.as_str());
                push_text(out, "\n");
                self.render_after_semicolon(show_after, out);
                CommandOutcome::Continue
            },
        }
    }

    /// Ends the turn on the player's command, then lets AI players move.
    fn end_turn_command(&mut self, show_after: bool, out: &mut Vec<char>)
        requires
            old(self).wf(),
            old(self).phase == CliPhase::Playing,
        ensures
            final(self).typed_history == old(self).typed_history,
            final(self).wf(),
            final(self).phase == CliPhase::Playing,
            final(self).ai_control == old(self).ai_control,
            !(old(self).game.unwrap()@.status == GameStatus::InProgress && old(self).game.unwrap()@.turn.can_end())
                ==> final(self).game == old(self).game,
            old(self).game.unwrap()@.status == GameStatus::InProgress && old(self).game.unwrap()@.turn.can_end()
                && no_ai(old(self).ai_control) ==> (final(self).game matches Some(n) && n@ == turn_ended(
                old(self).game.unwrap()@,
            )),
            old(self).game.unwrap()@.status == GameStatus::InProgress && old(self).game.unwrap()@.turn.can_end()
                ==> final(self).game.unwrap()@ == ai_rounds(
                turn_ended(old(self).game.unwrap()@),
                old(self).ai_control,
                MAX_AI_DECISIONS as nat,
            ),
            old(self).game.unwrap()@.status == GameStatus::InProgress && old(self).game.unwrap()@.turn.can_end()
                && human_to_move(turn_ended(old(self).game.unwrap()@), old(self).ai_control) ==> final(out)@ == old(out)@
                + "Turn ended.\n"@ + crate::tui::summary_if_any(final(self).game) + board_if_asked(show_after, final(self).game),
    {
        let ended = match &self.game {
            Some(game) => Some(game.end_turn()),
            None => None,
        };
        match ended {
            Some(Ok(next)) => {
                self.game = Some(next);
                push_text(out, "Turn ended.\n");
                self.push_summary(out);
                self.render_after_semicolon(show_after, out);
                self.run_ai_turns(out);
            },
            Some(Err(error)) => {
                push_text(out, "Error: ");
                let text = format_game_error(&error);
                push_text(out, text.as_str());
                push_text(out, "\n");
                self.render_after_semicolon(show_after, out);
            },
            None => {},
        }
    }

    /// Applies the player's action, ends the turn when it ends by itself,
    /// then lets AI players move.
    fn take_action(&mut self, action: Action, show_after: bool, out: &mut Vec<char>)
        requires
            old(self).wf(),
            old(self).phase == CliPhase::Playing,
        ensures
            final(self).typed_history == old(self).typed_history,
            final(self).wf(),
            final(self).phase == CliPhase::Playing,
            final(self).ai_control == old(self).ai_control,
            !accepts(old(self).game.unwrap()@, action@) ==> final(self).game == old(self).game,
            accepts(old(self).game.unwrap()@, action@) && no_ai(old(self).ai_control) ==> (final(self).game matches Some(
                n,
            ) && session_after_action(old(self).game.unwrap()@, action@, n@)),
            accepts(old(self).game.unwrap()@, action@) ==> final(self).game.unwrap()@ == ai_rounds(
                session_step(old(self).game.unwrap()@, DecisionView::Action(action@)),
                old(self).ai_control,
                MAX_AI_DECISIONS as nat,
            ),
            accepts(old(self).game.unwrap()@, action@) && human_to_move(
                session_step(old(self).game.unwrap()@, DecisionView::Action(action@)),
                old(self).ai_control,
            ) ==> final(out)@ == old(out)@ + "Action applied.\n"@ + (if ends_by_itself(
                successor(old(self).game.unwrap()@, DecisionView::Action(action@)),
            ) {
                "Turn ended.\n"@
            } else {
                Seq::empty()
            }) + crate::tui::summary_if_any(final(self).game) + board_if_asked(show_after, final(self).game),
    {
        let applied = match &self.game {
            Some(game) => Some(game.apply_action(&action)),
            None => None,
        };
        match applied {
            Some(Ok(next)) => {
                proof {
                    lemma_leads_to_successor(old(self).game.unwrap()@, DecisionView::Action(action@), next@);
                }
                let ghost mid = next@.turn;
                self.game = Some(next);
                push_text(out, "Action applied.\n");
                self.auto_end_turn_if_ready(out);
                self.push_summary(out);
                self.render_after_semicolon(show_after, out);
                self.run_ai_turns(out);
                proof {
                    let g = old(self).game.unwrap()@;
                    if accepts(g, action@) && no_ai(old(self).ai_control) {
                        assert(g.turn.after_action(action@, mid));
                        assert(session_after_action(g, action@, self.game.unwrap()@));
                    }
                }
            },
            Some(Err(error)) => {
                push_text(out, "Error: ");
                let text = format_game_error(&error);
                push_text(out, text.as_str());
                push_text(out, "\n");
                self.render_after_semicolon(show_after, out);
            },
            None => {},
        }
    }

    /// Replays a loaded history's commands, each after its prompt.
    fn run_loaded_history(
        &mut self,
        commands: &Vec<String>,
        path: &str,
        show_after: bool,
        files: &mut FileJournal,
        depth: usize,
        out: &mut Vec<char>,
    ) -> (outcome: CommandOutcome)
        requires
            old(self).wf(),
            old(self).phase == CliPhase::Playing,
            1 <= depth <= MAX_LOAD_DEPTH,
        ensures
            journal_grows(*old(files), *final(files)),
            final(self).typed_history == old(self).typed_history,
            final(self).wf(),
            final(self).phase == CliPhase::Playing,
            exists|mid: CliSession|
                #[trigger] replays_commands(*old(self), strings_view(commands@), mid, outcome) && {
                    &&& outcome == CommandOutcome::Quit ==> *final(self) == mid
                    &&& outcome == CommandOutcome::Continue ==> final(self).game is Some && final(self).game.unwrap()@
                        == ai_rounds(mid.game.unwrap()@, mid.ai_control, MAX_AI_DECISIONS as nat)
                        && final(self).ai_control == mid.ai_control
                },
        decreases MAX_LOAD_DEPTH - depth, 5int,
    {
        let ghost all = strings_view(commands@);
        assert(all.skip(0) =~= all);
        let mut i: usize = 0;
        while i < commands.len()
            invariant
                journal_grows(*old(files), *files),
                self.wf(),
                self.phase == CliPhase::Playing,
                1 <= depth <= MAX_LOAD_DEPTH,
                self.typed_history == old(self).typed_history,
                all == strings_view(commands@),
                0 <= i <= commands@.len(),
                forall|a: CliSession, q: CommandOutcome| #[trigger] replays_commands(*self, all.skip(i as int), a, q)
                    ==> replays_commands(*old(self), all, a, q),
            decreases commands@.len() - i,
        {
            let ghost s0 = *self;
            let player = match &self.game {
                Some(game) => game.turn().current_player(),
                None => Player::One,
            };
            push_text(out, prompt_label(player));
            push_text(out, "> ");
            push_text(out, commands[i].as_str());
            push_text(out, "\n");
            let o = self.run_command(commands[i].as_str(), files, depth, out);
            proof {
                let c = all.skip(i as int);
                assert(c[0] == commands@[i as int]@);
                assert(c.drop_first() =~= all.skip(i + 1));
                assert(plays_command(s0, *self, c[0], o));
                if o == CommandOutcome::Quit {
                    assert(replays_commands(s0, c, *self, CommandOutcome::Quit));
                } else {
                    assert forall|a: CliSession, q: CommandOutcome| #[trigger] replays_commands(*self, all.skip(i + 1), a, q)
                        implies replays_commands(*old(self), all, a, q) by {
                        assert(replays_commands(s0, c, a, q));
                    }
                }
            }
            if o == CommandOutcome::Quit {
                return CommandOutcome::Quit;
            }
            i += 1;
        }
        let ghost mid = *self;
        proof {
            assert(replays_commands(mid, all.skip(i as int), mid, CommandOutcome::Continue));
            assert(replays_commands(*old(self), all, mid, CommandOutcome::Continue));
        }
        push_text(out, "Finished commands from ");
        push_text(out, path);
        push_text(out, ".\n");
        self.render_after_semicolon(show_after, out);
        self.run_ai_turns(out);
        CommandOutcome::Continue
    }

    fn run_ai_command(&mut self, command: AiCommand, out: &mut Vec<char>)
        requires
            old(self).wf(),
        ensures
            final(self).typed_history == old(self).typed_history,
            final(self).wf(),
            final(self).phase == old(self).phase,
            final(self).game == old(self).game,
            command matches AiCommand::SetStrategy { player, strategy } ==> final(self).ai_control.spec_strategy(player)
                == Some(strategy),
            command matches AiCommand::Off { player } ==> final(self).ai_control.spec_strategy(player) is None,
            command is Show ==> final(self).ai_control == old(self).ai_control,
    {
        match command {
            AiCommand::Show => {
                let text = render_ai_control(&self.ai_control);
                push_text(out, text.as_str());
                push_text(out, "\n");
            },
            AiCommand::SetStrategy { player, strategy } => {
                self.ai_control.set_strategy(player, strategy);
                push_text(out, "AI ");
                push_text(out, player_label(player));
                push_text(out, " set to ");
                push_text(out, ai_strategy_label(strategy));
                push_text(out, ".\n");
            },
            AiCommand::Off { player } => {
                self.ai_control.disable(player);
                push_text(out, "AI ");
                push_text(out, player_label(player));
                push_text(out, " disabled.\n");
            },
        }
    }

    /// Ends the turn when the last paid action is spent and no catastrophe
    /// can be declared.
    fn auto_end_turn_if_ready(&mut self, out: &mut Vec<char>)
        requires
            old(self).wf(),
        ensures
            final(self).typed_history == old(self).typed_history,
            final(self).wf(),
            final(self).phase == old(self).phase,
            old(self).game is Some ==> final(self).game is Some,
            final(self).ai_control == old(self).ai_control,
            old(self).game matches Some(g) ==> if ends_by_itself(g@) {
                final(self).game matches Some(n) && n@ == turn_ended(g@) && final(out)@ == old(out)@ + "Turn ended.\n"@
            } else {
                final(self).game == old(self).game && final(out)@ == old(out)@
            },
    {
        let ended = match &self.game {
            Some(game) => if should_auto_end(game) {
                Some(game.end_turn())
            } else {
                None
            },
            None => None,
        };
        match ended {
            Some(Ok(next)) => {
                self.game = Some(next);
                push_text(out, "Turn ended.\n");
            },
            Some(Err(error)) => {
                push_text(out, "Error: ");
                let text = format_game_error(&error);
                push_text(out, text.as_str());
                push_text(out, "\n");
            },
            None => {},
        }
    }

    /// Lets AI players take their decisions until a human is to play, the
    /// game is over, or the limit of decisions in a row is reached.
    #[verifier::rlimit(40)]
    fn run_ai_turns(&mut self, out: &mut Vec<char>)
        requires
            old(self).wf(),
        ensures
            final(self).typed_history == old(self).typed_history,
            final(self).wf(),
            final(self).phase == old(self).phase,
            old(self).game is Some ==> final(self).game is Some,
            final(self).ai_control == old(self).ai_control,
            old(self).game matches Some(g) && (g@.status != GameStatus::InProgress || old(self).ai_control.spec_strategy(
                g@.turn.player,
            ) is None) ==> final(self).game == old(self).game && final(out)@ == old(out)@,
            old(self).game is Some ==> final(self).game.unwrap()@ == ai_rounds(
                old(self).game.unwrap()@,
                old(self).ai_control,
                MAX_AI_DECISIONS as nat,
            ),
    {
        let ghost control = old(self).ai_control;
        let ghost human = match old(self).game {
            Some(g) => g@.status != GameStatus::InProgress || old(self).ai_control.spec_strategy(g@.turn.player) is None,
            None => false,
        };
        let mut count: usize = 0;
        while count < MAX_AI_DECISIONS
            invariant
                self.wf(),
                self.phase == old(self).phase,
                old(self).game is Some ==> self.game is Some,
                self.ai_control == old(self).ai_control,
                self.typed_history == old(self).typed_history,
                human == match old(self).game {
                    Some(g) => g@.status != GameStatus::InProgress || old(self).ai_control.spec_strategy(g@.turn.player) is None,
                    None => false,
                },
                human ==> count == 0 && self.game == old(self).game && out@ == old(out)@,
                control == self.ai_control,
                count <= MAX_AI_DECISIONS,
                old(self).game is Some ==> self.game.unwrap()@ == ai_rounds(old(self).game.unwrap()@, control, count as nat),
            decreases MAX_AI_DECISIONS - count,
        {
            let (player, decision) = match &self.game {
                None => {
                    return;
                },
                Some(game) => {
                    if game.status() != GameStatus::InProgress {
                        proof {
                            if old(self).game is Some {
                                lemma_ai_rounds_settle(old(self).game.unwrap()@, control, count as nat, MAX_AI_DECISIONS as nat);
                            }
                        }
                        return;
                    }
                    let player = game.turn().current_player();
                    let strategy = match self.ai_control.strategy(player) {
                        Some(strategy) => strategy,
                        None => {
                            proof {
                                if old(self).game is Some {
                                    lemma_ai_rounds_settle(old(self).game.unwrap()@, control, count as nat, MAX_AI_DECISIONS as nat);
                                }
                            }
                            return;
                        },
                    };
                    (player, choose_ai_decision(strategy, game))
                },
            };
            let decision = match decision {
                Some(decision) => decision,
                None => {
                    push_text(out, "AI has no legal decision.\n");
                    proof {
                        if old(self).game is Some {
                            lemma_ai_rounds_settle(old(self).game.unwrap()@, control, count as nat, MAX_AI_DECISIONS as nat);
                        }
                    }
                    return;
                },
            };
            push_text(out, prompt_label(player));
            push_text(out, "> ");
            let text = ai_decision_command(&decision);
            push_text(out, text.as_str());
            push_text(out, "\n");
            let ghost before = self.game;
            self.apply_ai_decision(decision, out);
            proof {
                if old(self).game is Some {
                    assert(ai_round(before.unwrap()@, control) == decision_taken(before.unwrap()@, decision@));
                }
            }
            count += 1;
        }
        push_text(out, "AI stopped after ");
        crate::render::push_decimal(out, MAX_AI_DECISIONS);
        push_text(out, " decisions.\n");
    }

    fn apply_ai_decision(&mut self, decision: AiDecision, out: &mut Vec<char>)
        requires
            old(self).wf(),
        ensures
            final(self).typed_history == old(self).typed_history,
            final(self).wf(),
            final(self).phase == old(self).phase,
            old(self).game is Some ==> final(self).game is Some,
            final(self).ai_control == old(self).ai_control,
            old(self).game is Some ==> final(self).game.unwrap()@ == decision_taken(old(self).game.unwrap()@, decision@),
    {
        match decision {
            AiDecision::Action(action) => {
                let applied = match &self.game {
                    Some(game) => Some(game.apply_action(&action)),
                    None => None,
                };
                match applied {
                    Some(Ok(next)) => {
                        proof {
                            lemma_leads_to_successor(old(self).game.unwrap()@, decision@, next@);
                        }
                        self.game = Some(next);
                        push_text(out, "Action applied.\n");
                        self.auto_end_turn_if_ready(out);
                        self.push_summary(out);
                    },
                    Some(Err(error)) => {
                        push_text(out, "Error: ");
                        let text = format_game_error(&error);
                        push_text(out, text.as_str());
                        push_text(out, "\n");
                    },
                    None => {},
                }
            },
            AiDecision::EndTurn => {
                let ended = match &self.game {
                    Some(game) => Some(game.end_turn()),
                    None => None,
                };
                match ended {
                    Some(Ok(next)) => {
                        proof {
                            lemma_leads_to_successor(old(self).game.unwrap()@, decision@, next@);
                        }
                        self.game = Some(next);
                        push_text(out, "Turn ended.\n");
                        self.push_summary(out);
                    },
                    Some(Err(error)) => {
                        push_text(out, "Error: ");
                        let text = format_game_error(&error);
                        push_text(out, text.as_str());
                        push_text(out, "\n");
                    },
                    None => {},
                }
            },
        }
    }
}

/// Whether a setup line asks to load a file: its first word is `load` or `l`.
fn is_load_line(line: &str) -> (load: bool)
    ensures
        load == load_line(line@),
{
    let chars = text_chars(line);
    let tokens = tokenize_chars(chars.as_slice());
    if tokens.len() == 0 {
        return false;
    }
    assert(tokens@[0]@ == crate::text::token_views(tokens@)[0]);
    crate::text::is_word(tokens[0].as_slice(), "load") || crate::text::is_word(tokens[0].as_slice(), "l")
}

/// Runs a whole session on the lines of a script, as if typed one after
/// another, until the session ends or the lines run out; gives back all
/// that the session wrote, each prompt included.
pub fn run(input: &str, files: &mut FileJournal) -> (output: String)
    ensures
        journal_grows(*old(files), *final(files)),
        exists|sessions: Seq<CliSession>, outs: Seq<Seq<char>>|
            #![trigger plays_lines(sessions, outs, text_lines(input@).take(outs.len() as int))]
            {
                &&& outs.len() <= text_lines(input@).len()
                &&& fresh_session(sessions[0])
                &&& plays_lines(sessions, outs, text_lines(input@).take(outs.len() as int))
                &&& outs.len() < text_lines(input@).len() ==> sessions.last().spec_phase() == CliPhase::Finished
                &&& output@ == greeting_text() + said_text(sessions, outs) + if sessions.last().spec_phase()
                    == CliPhase::Finished {
                    Seq::empty()
                } else {
                    prompt_text(sessions.last())
                }
            },
{
    let (mut session, greeting) = CliSession::start();
    let mut out = text_chars(greeting.as_str());
    let chars = text_chars(input);
    let lines = split_lines(chars.as_slice());
    let ghost script = text_lines(input@);
    let ghost mut sessions: Seq<CliSession> = seq![session];
    let ghost mut outs: Seq<Seq<char>> = Seq::empty();
    proof {
        assert(script.take(0) =~= Seq::<Seq<char>>::empty());
    }
    let mut i: usize = 0;
    loop
        invariant
            journal_grows(*old(files), *files),
            session.wf(),
            0 <= i <= lines@.len(),
            token_views(lines@) == script,
            script == text_lines(input@),
            outs.len() == i,
            sessions.last() == session,
            fresh_session(sessions[0]),
            plays_lines(sessions, outs, script.take(i as int)),
            out@ == greeting_text() + said_text(sessions, outs),
        decreases lines@.len() - i,
    {
        if session.is_finished() {
            let output = string_from_chars(out.as_slice());
            proof {
                assert(output@ =~= greeting_text() + said_text(sessions, outs) + Seq::<char>::empty());
            }
            return output;
        }
        let prompt = session.prompt();
        push_text(&mut out, prompt.as_str());
        if i >= lines.len() {
            session.end_of_input();
            return string_from_chars(out.as_slice());
        }
        let line = string_from_chars(lines[i].as_slice());
        let ghost before = session;
        let outcome = session.submit(line.as_str(), files);
        push_text(&mut out, outcome.output.as_str());
        proof {
            assert(line@ == script[i as int]);
            let old_sessions = sessions;
            let old_outs = outs;
            sessions = sessions.push(session);
            outs = outs.push(outcome.output@);
            assert(sessions.drop_last() =~= old_sessions);
            assert(outs.drop_last() =~= old_outs);
            assert(script.take(i + 1).drop_last() =~= script.take(i as int));
            assert(script.take(i + 1).last() == script[i as int]);
            assert(sessions[0] == old_sessions[0]);
        }
        i += 1;
    }
}

} // verus!

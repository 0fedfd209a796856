use vstd::prelude::*;

use crate::ai::{accepts, AiDecision, DecisionView};
use crate::game::{new_game_error, Game, GameStatus, HomeworldSetup, SetupView};
use crate::cli::{
    ai_round, ai_rounds, board_if_asked, decision_taken, lemma_ai_rounds_settle, lemma_leads_to_successor, load_line, no_ai,
    load_path_of, parsed_command, reads_first, session_after_action, turn_ended, writes_save,
};
use crate::parser::{input_of, parse_input, parse_setup, setup_of, AiCommand, CommandView, ParseError, ParsedCommand};
use crate::piece::Player;
use crate::render::{render_game, render_turn_summary};
use crate::save::{copy_strings, string_views, SaveExtras, SaveFile};
use crate::session::{
    ai_decision_command, ai_strategy_label, prompt_name, choose_ai_decision, command_requests_state_after_error, format_game_error,
    game_from_history_setup, history_commands, player_label, prompt_label, read_load_source, render_ai_control,
    records_history, requests_state, ends_by_itself, starts_from, setup_content, setup_line_content, should_auto_end, should_record_user_history, strings_view, AiControl, FileJournal, FileReply, FileRequest, LoadSource, journal_grows, loads_from_replies, next_reply, MAX_AI_DECISIONS,
    MAX_LOAD_DEPTH,
};
use crate::text::{push_text, split_lines, string_from_chars, text_chars, text_lines, tokenize_chars, trim, trim_chars};

verus! {

/// The most messages the log keeps; older ones are dropped first.
pub const MAX_MESSAGES: usize = 200;

/// Whether the terminal app is setting up homeworlds or playing.
#[derive(Clone, Copy, Debug, PartialEq, Eq, Structural)]
pub enum AppMode {
    Setup,
    Playing,
}

/// Which setup line the app waits for.
#[derive(Clone, Copy, Debug, PartialEq, Eq, Structural)]
pub enum SetupStep {
    PlayerOneStars,
    PlayerOneShip,
    PlayerTwoStars,
    PlayerTwoShip,
}

/// The name of a setup step, as the prompt shows it.
pub open spec fn step_prompt(step: SetupStep) -> Seq<char> {
    match step {
        SetupStep::PlayerOneStars => "Player 1 stars"@,
        SetupStep::PlayerOneShip => "Player 1 ship"@,
        SetupStep::PlayerTwoStars => "Player 2 stars"@,
        SetupStep::PlayerTwoShip => "Player 2 ship"@,
    }
}

impl SetupStep {
    pub fn prompt(self) -> (label: &'static str)
        ensures
            label@ == step_prompt(self),
    {
        match self {
            SetupStep::PlayerOneStars => "Player 1 stars",
            SetupStep::PlayerOneShip => "Player 1 ship",
            SetupStep::PlayerTwoStars => "Player 2 stars",
            SetupStep::PlayerTwoShip => "Player 2 ship",
        }
    }
}

/// The lines entered so far during homeworld setup.
#[derive(Clone)]
struct SetupState {
    step: SetupStep,
    player_one_stars: Option<String>,
    player_one: Option<HomeworldSetup>,
    player_two_stars: Option<String>,
    show_after: bool,
}

fn fresh_setup() -> (setup: SetupState)
    ensures
        setup.step == SetupStep::PlayerOneStars,
        setup.player_one is None,
        setup.player_one_stars is None,
        setup.player_two_stars is None,
        !setup.show_after,
{
    SetupState {
        step: SetupStep::PlayerOneStars,
        player_one_stars: None,
        player_one: None,
        player_two_stars: None,
        show_after: false,
    }
}

/// The text of a stored line, or nothing.
pub open spec fn stored_text(line: Option<String>) -> Seq<char> {
    match line {
        Some(text) => text@,
        None => Seq::empty(),
    }
}

/// The log after one more message, keeping only the newest ones.
pub open spec fn log_push(log: Seq<Seq<char>>, message: Seq<char>) -> Seq<Seq<char>> {
    let pushed = log.push(message);
    if pushed.len() > MAX_MESSAGES {
        pushed.skip(pushed.len() - MAX_MESSAGES)
    } else {
        pushed
    }
}

/// The log after each of the messages is added in turn.
pub open spec fn log_push_all(log: Seq<Seq<char>>, messages: Seq<Seq<char>>) -> Seq<Seq<char>>
    decreases messages.len(),
{
    if messages.len() == 0 {
        log
    } else {
        log_push(log_push_all(log, messages.drop_last()), messages.last())
    }
}

/// The log after the game's board is added line by line, when it is asked
/// for.
pub open spec fn log_board(log: Seq<Seq<char>>, asked: bool, game: Option<Game>) -> Seq<Seq<char>> {
    log_push_all(log, text_lines(board_if_asked(asked, game)))
}

/// The turn summary of the game, if there is one.
pub open spec fn summary_if_any(game: Option<Game>) -> Seq<char> {
    match game {
        Some(g) => crate::render::turn_summary_text(g@),
        None => Seq::empty(),
    }
}

/// The log after a command of play that fails to parse, toggles the help,
/// shows the board or quits; `None` for other commands.
pub open spec fn game_line_log(log: Seq<Seq<char>>, line: Seq<char>, game: Game, show_help: bool) -> Option<
    Seq<Seq<char>>,
> {
    match input_of(line, game@.turn.player) {
        Err(e) => Some(log_board(log_push(log, "Error: "@ + e), requests_state(line), Some(game))),
        Ok((CommandView::Help, show)) => Some(
            log_board(
                log_push(
                    log,
                    if show_help {
                        "Help hidden."@
                    } else {
                        "Help shown."@
                    },
                ),
                show,
                Some(game),
            ),
        ),
        Ok((CommandView::Show, _)) => Some(log_board(log, true, Some(game))),
        Ok((CommandView::Quit, _)) => Some(log_push(log, "Goodbye."@)),
        _ => None,
    }
}

/// What submitting a line does to the interface: a blank line does
/// nothing; a line that is kept joins the history; a setup line moves setup
/// on, or back to the same player's stars when it does not parse; a command
/// of play keeps play going and does what it names (see each clause).
pub open spec fn takes_line(before: TuiApp, after: TuiApp, line: Seq<char>) -> bool {
    takes_line_kept(before, after, line, true)
}

/// What taking a line does, as `takes_line` says, with the line kept in the
/// history only when `keep` holds (replayed commands are not kept).
pub open spec fn takes_line_kept(before: TuiApp, after: TuiApp, line: Seq<char>, keep: bool) -> bool {
    &&& trim(line).len() == 0 ==> after.spec_messages() == before.spec_messages() && after.spec_mode()
        == before.spec_mode() && after.spec_game() == before.spec_game()
    &&& before.spec_mode() == AppMode::Playing ==> after.spec_mode() == AppMode::Playing
    &&& keep && records_history(trim(line)) ==> after.spec_history() == before.spec_history().push(trim(line))
    &&& !(keep && records_history(trim(line))) ==> after.spec_history() == before.spec_history()
    &&& before.spec_mode() == AppMode::Setup && trim(line).len() > 0 && !load_line(trim(line)) ==> match before.spec_step() {
            SetupStep::PlayerOneStars => after.spec_mode() == AppMode::Setup && after.spec_step()
                == SetupStep::PlayerOneShip,
            SetupStep::PlayerTwoStars => after.spec_mode() == AppMode::Setup && after.spec_step()
                == SetupStep::PlayerTwoShip,
            SetupStep::PlayerOneShip => if setup_of(
                before.spec_pending_stars(),
                setup_content(trim(line)),
                Player::One,
            ) is Ok {
                after.spec_mode() == AppMode::Setup && after.spec_step() == SetupStep::PlayerTwoStars
            } else {
                after.spec_mode() == AppMode::Setup && after.spec_step() == SetupStep::PlayerOneStars
            },
            SetupStep::PlayerTwoShip => if setup_of(
                before.spec_pending_stars(),
                setup_content(trim(line)),
                Player::Two,
            ) is Ok {
                after.spec_mode() == AppMode::Playing || (after.spec_mode() == AppMode::Setup && after.spec_step()
                    == SetupStep::PlayerOneStars)
            } else {
                after.spec_mode() == AppMode::Setup && after.spec_step() == SetupStep::PlayerTwoStars
            },
        }
    &&& before.spec_mode() == AppMode::Playing ==> {
            let command = parsed_command(trim(line), before.spec_game());
            &&& command is None ==> after.spec_game() == before.spec_game() && after.spec_should_quit()
                == before.spec_should_quit() && after.spec_show_help() == before.spec_show_help()
            &&& command == Some(CommandView::Quit) ==> after.spec_should_quit() && after.spec_game() == before.spec_game()
            &&& command == Some(CommandView::Help) ==> after.spec_show_help() == !before.spec_show_help()
                && after.spec_game() == before.spec_game()
            &&& command == Some(CommandView::Show) ==> after.spec_game() == before.spec_game() && after.spec_show_help()
                == before.spec_show_help()
            &&& command matches Some(CommandView::Ai(AiCommand::SetStrategy { player, strategy }))
                ==> after.spec_ai().spec_strategy(player) == Some(strategy)
            &&& command matches Some(CommandView::Ai(AiCommand::Off { player })) ==> after.spec_ai().spec_strategy(
                player,
            ) is None
            &&& command matches Some(CommandView::Action(a)) ==> (!accepts(before.spec_game().unwrap()@, a)
                && before.spec_ai().spec_strategy(before.spec_game().unwrap()@.turn.player) is None
                ==> after.spec_game() == before.spec_game())
            &&& command == Some(CommandView::End) ==> (!(before.spec_game().unwrap()@.status
                == GameStatus::InProgress && before.spec_game().unwrap()@.turn.can_end())
                ==> after.spec_game() == before.spec_game())
            &&& trim(line).len() > 0 ==> (game_line_log(
                before.spec_messages(),
                trim(line),
                before.spec_game().unwrap(),
                before.spec_show_help(),
            ) matches Some(log) ==> after.spec_messages() == log)
            &&& command matches Some(CommandView::Action(a)) ==> (accepts(before.spec_game().unwrap()@, a) && no_ai(
                before.spec_ai(),
            ) ==> (after.spec_game() matches Some(n) && session_after_action(
                before.spec_game().unwrap()@,
                a,
                n@,
            )))
            &&& command == Some(CommandView::End) ==> (before.spec_game().unwrap()@.status == GameStatus::InProgress
                && before.spec_game().unwrap()@.turn.can_end() && no_ai(before.spec_ai())
                ==> (after.spec_game() matches Some(n) && n@ == turn_ended(before.spec_game().unwrap()@)))
            &&& command matches Some(CommandView::Action(a)) ==> (after.spec_game() matches Some(n) && n@ == ai_rounds(
                decision_taken(before.spec_game().unwrap()@, DecisionView::Action(a)),
                before.spec_ai(),
                MAX_AI_DECISIONS as nat,
            ))
            &&& command == Some(CommandView::End) ==> (before.spec_game().unwrap()@.status == GameStatus::InProgress
                && before.spec_game().unwrap()@.turn.can_end() ==> (after.spec_game() matches Some(n) && n@ == ai_rounds(
                turn_ended(before.spec_game().unwrap()@),
                before.spec_ai(),
                MAX_AI_DECISIONS as nat,
            )))
        }
    &&& before.spec_mode() == AppMode::Setup && trim(line).len() > 0 && !load_line(trim(line)) ==> takes_setup_line(
        before,
        after,
        setup_content(trim(line)),
    )
}

/// What a setup line (its content, `;` and `load` aside) does: a stars line
/// is kept for the player; a ship line that reads with the kept stars
/// stores Player 1's setup, or with Player 2's starts the game that both
/// setups make; a line that does not read logs its error, and so does a
/// pair of setups that makes no game, which starts setup again.
pub open spec fn takes_setup_line(before: TuiApp, after: TuiApp, content: Seq<char>) -> bool {
    match before.spec_step() {
        SetupStep::PlayerOneStars | SetupStep::PlayerTwoStars => {
            &&& after.spec_pending_stars() == content
            &&& after.spec_messages() == before.spec_messages()
            &&& after.spec_first_setup() == before.spec_first_setup()
        },
        SetupStep::PlayerOneShip => match setup_of(before.spec_pending_stars(), content, Player::One) {
            Ok(one) => after.spec_first_setup() == Some(one) && after.spec_messages() == before.spec_messages(),
            Err(m) => after.spec_messages() == log_push(before.spec_messages(), "Error: "@ + m),
        },
        SetupStep::PlayerTwoShip => match setup_of(before.spec_pending_stars(), content, Player::Two) {
            Err(m) => after.spec_messages() == log_push(before.spec_messages(), "Error: "@ + m),
            Ok(two) => match before.spec_first_setup() {
                None => after.spec_step() == SetupStep::PlayerOneStars && after.spec_messages() == log_push(
                    before.spec_messages(),
                    "Error: missing Player 1 setup"@,
                ),
                Some(one) => match new_game_error(one, two) {
                    None => after.spec_mode() == AppMode::Playing && after.spec_game() is Some && starts_from(
                        after.spec_game().unwrap()@,
                        one,
                        two,
                    ),
                    Some(e) => after.spec_mode() == AppMode::Setup && after.spec_step() == SetupStep::PlayerOneStars
                        && after.spec_messages() == log_push(
                        before.spec_messages(),
                        "Error: invalid homeworld setup: "@ + crate::debug_text::game_error_debug(e),
                    ),
                },
            },
        },
    }
}

/// Whether the interface is as it was in all but the typed input.
pub open spec fn same_but_input(before: TuiApp, after: TuiApp) -> bool {
    &&& after.spec_mode() == before.spec_mode()
    &&& after.spec_step() == before.spec_step()
    &&& after.spec_pending_stars() == before.spec_pending_stars()
    &&& after.spec_messages() == before.spec_messages()
    &&& after.spec_game() == before.spec_game()
    &&& after.spec_ai() == before.spec_ai()
    &&& after.spec_show_help() == before.spec_show_help()
    &&& after.spec_should_quit() == before.spec_should_quit()
    &&& after.spec_history() == before.spec_history()
}

/// Whether `echoed` is the interface with a replayed command logged after
/// the prompt of the player to move, when there is a game, and nothing else
/// changed.
pub open spec fn echoes(before: TuiApp, echoed: TuiApp, command: Seq<char>) -> bool {
    &&& echoed.spec_messages() == match before.spec_game() {
        Some(g) => log_push(before.spec_messages(), prompt_name(g@.turn.player) + "> "@ + command),
        None => before.spec_messages(),
    }
    &&& echoed.spec_mode() == before.spec_mode()
    &&& echoed.spec_step() == before.spec_step()
    &&& echoed.spec_pending_stars() == before.spec_pending_stars()
    &&& echoed.spec_game() == before.spec_game()
    &&& echoed.spec_ai() == before.spec_ai()
    &&& echoed.spec_show_help() == before.spec_show_help()
    &&& echoed.spec_should_quit() == before.spec_should_quit()
    &&& echoed.spec_history() == before.spec_history()
}

/// Whether `after` is what replaying the commands from `before` gives: until
/// the interface quits, each command is logged after the prompt and taken as
/// a line that does not join the history.
pub open spec fn replays(before: TuiApp, commands: Seq<Seq<char>>, after: TuiApp) -> bool
    decreases commands.len(),
{
    if commands.len() == 0 || before.spec_should_quit() {
        after == before
    } else {
        exists|echoed: TuiApp, mid: TuiApp|
            #![trigger echoes(before, echoed, commands[0]), takes_line_kept(echoed, mid, commands[0], false)]
            echoes(before, echoed, commands[0]) && takes_line_kept(echoed, mid, commands[0], false) && replays(
                mid,
                commands.drop_first(),
                after,
            )
    }
}

/// The state behind a terminal interface: homeworld setup, then play, with
/// a log of messages, a help panel and AI players.
#[derive(Clone)]
pub struct TuiApp {
    mode: AppMode,
    setup: SetupState,
    game: Option<Game>,
    ai_control: AiControl,
    input: Vec<char>,
    messages: Vec<String>,
    show_help: bool,
    should_quit: bool,
    typed_history: Vec<String>,
}

/// What a save during play logs once its write is answered: where it saved,
/// or why it could not.
pub open spec fn written_message(pending: Seq<FileReply>, label: Seq<char>, path: Seq<char>) -> Seq<char> {
    match next_reply(pending) {
        Some(FileReply::Written(Ok(_))) => label + path + "."@,
        Some(FileReply::Written(Err(m))) => "Error: "@ + m@,
        _ => Seq::empty(),
    }
}

/// What a load during play does with what it read: an error is logged, with
/// the board when asked for, and changes nothing; a save that holds no
/// commands to replay replaces the game, and the AI players then move.
pub open spec fn logs_load(
    game: Option<Game>,
    ai: AiControl,
    messages: Seq<Seq<char>>,
    game_after: Option<Game>,
    messages_after: Seq<Seq<char>>,
    source: Result<LoadSource, String>,
    show_after: bool,
) -> bool {
    match source {
        Err(m) => messages_after == log_board(log_push(messages, "Error: "@ + m@), show_after, game) && game_after == game,
        Ok(LoadSource::Save(saved)) => saved.commands@.len() == 0 ==> game_after is Some && game_after.unwrap()@
            == ai_rounds(saved.game@, ai, MAX_AI_DECISIONS as nat),
        Ok(LoadSource::History(_)) => true,
    }
}

/// What a file command during play does: a save writes the game, with the
/// typed history for `save-history`, to the path typed, and logs where or
/// why not; a load at `depth` reads the path typed and goes on with what it
/// read, unless loads are nested too deep. Other commands are not file
/// commands.
pub open spec fn logs_file_command(
    game: Option<Game>,
    ai: AiControl,
    history: Seq<Seq<char>>,
    messages: Seq<Seq<char>>,
    game_after: Option<Game>,
    messages_after: Seq<Seq<char>>,
    files_before: FileJournal,
    files_after: FileJournal,
    command: CommandView,
    show_after: bool,
    depth: int,
) -> bool {
    match command {
        CommandView::Save(path) => {
            &&& writes_save(files_before, files_after, path, game.unwrap()@, Seq::empty())
            &&& files_after.spec_answered() ==> messages_after == log_board(
                log_push(messages, written_message(files_before.spec_pending(), "Saved to "@, path)),
                show_after,
                game,
            )
            &&& game_after == game
        },
        CommandView::SaveHistory(path) => {
            &&& writes_save(files_before, files_after, path, game.unwrap()@, history)
            &&& files_after.spec_answered() ==> messages_after == log_board(
                log_push(messages, written_message(files_before.spec_pending(), "Saved history to "@, path)),
                show_after,
                game,
            )
            &&& game_after == game
        },
        CommandView::Load(path) => {
            &&& depth >= MAX_LOAD_DEPTH ==> messages_after == log_push(messages, "Error: load nesting limit exceeded"@)
                && game_after == game && files_after == files_before
            &&& depth < MAX_LOAD_DEPTH ==> files_after.spec_requests().len() > files_before.spec_requests().len()
                && (files_after.spec_requests()[files_before.spec_requests().len() as int] matches FileRequest::ReadText(p)
                && p@ == path)
            &&& depth < MAX_LOAD_DEPTH && files_after.spec_answered() ==> exists|
                source: Result<LoadSource, String>,
                rest: Seq<FileReply>,
            |
                #[trigger] loads_from_replies(files_before.spec_pending(), rest, source) && logs_load(
                    game,
                    ai,
                    messages,
                    game_after,
                    messages_after,
                    source,
                    show_after,
                )
        },
        _ => true,
    }
}

/// What a line of play does as a file command, when it reads as one.
pub open spec fn logs_file_line(
    game: Option<Game>,
    ai: AiControl,
    history: Seq<Seq<char>>,
    messages: Seq<Seq<char>>,
    game_after: Option<Game>,
    messages_after: Seq<Seq<char>>,
    files_before: FileJournal,
    files_after: FileJournal,
    line: Seq<char>,
    depth: int,
) -> bool {
    match game {
        Some(g) => match input_of(line, g@.turn.player) {
            Ok((command, show_after)) => logs_file_command(
                game,
                ai,
                history,
                messages,
                game_after,
                messages_after,
                files_before,
                files_after,
                command,
                show_after,
                depth,
            ),
            Err(_) => true,
        },
        None => true,
    }
}

impl TuiApp {
    /// Play has a game that follows the rules, and the log stays bounded.
    pub closed spec fn wf(&self) -> bool {
        &&& self.mode == AppMode::Playing ==> self.game is Some
        &&& self.game matches Some(game) ==> game@.wf()
        &&& self.messages@.len() <= MAX_MESSAGES
    }

    pub closed spec fn spec_mode(&self) -> AppMode {
        self.mode
    }

    /// Player 1's homeworld setup, once entered.
    pub closed spec fn spec_first_setup(&self) -> Option<SetupView> {
        match self.setup.player_one {
            Some(setup) => Some(setup@),
            None => None,
        }
    }

    pub closed spec fn spec_step(&self) -> SetupStep {
        self.setup.step
    }

    /// The stars line entered for the homeworld whose ship is awaited.
    pub closed spec fn spec_pending_stars(&self) -> Seq<char> {
        match self.setup.step {
            SetupStep::PlayerTwoShip => stored_text(self.setup.player_two_stars),
            _ => stored_text(self.setup.player_one_stars),
        }
    }

    pub closed spec fn spec_messages(&self) -> Seq<Seq<char>> {
        strings_view(self.messages@)
    }

    pub closed spec fn spec_show_help(&self) -> bool {
        self.show_help
    }

    pub closed spec fn spec_should_quit(&self) -> bool {
        self.should_quit
    }

    pub closed spec fn spec_input(&self) -> Seq<char> {
        self.input@
    }

    pub closed spec fn spec_history(&self) -> Seq<Seq<char>> {
        strings_view(self.typed_history@)
    }

    pub closed spec fn spec_game(&self) -> Option<Game> {
        self.game
    }

    pub closed spec fn spec_ai(&self) -> AiControl {
        self.ai_control
    }

    /// A new app at Player 1's stars, its log holding the title.
    pub fn new() -> (app: TuiApp)
        ensures
            app.wf(),
            app.spec_mode() == AppMode::Setup,
            app.spec_step() == SetupStep::PlayerOneStars,
            app.spec_game() is None,
            app.spec_messages() == seq!["Homeworlds TUI"@],
            app.spec_input().len() == 0,
            app.spec_history().len() == 0,
            !app.spec_show_help(),
            !app.spec_should_quit(),
    {
        let mut messages: Vec<String> = Vec::new();
        let title = text_chars("Homeworlds TUI");
        messages.push(string_from_chars(title.as_slice()));
        proof {
            assert(strings_view(messages@) =~= seq!["Homeworlds TUI"@]);
        }
        TuiApp {
            mode: AppMode::Setup,
            setup: fresh_setup(),
            game: None,
            ai_control: AiControl { player_one: None, player_two: None },
            input: Vec::new(),
            messages,
            show_help: false,
            should_quit: false,
            typed_history: Vec::new(),
        }
    }

    pub fn mode(&self) -> (mode: AppMode)
        ensures
            mode == self.spec_mode(),
    {
        self.mode
    }

    /// What the prompt names: the setup step, or the player to move.
    pub fn prompt(&self) -> (label: &'static str)
        requires
            self.wf(),
        ensures
            self.spec_mode() == AppMode::Setup ==> label@ == step_prompt(self.spec_step()),
            self.spec_mode() == AppMode::Playing ==> label@ == crate::session::prompt_name(
                self.spec_game().unwrap()@.turn.player,
            ),
    {
        match self.mode {
            AppMode::Setup => self.setup.step.prompt(),
            AppMode::Playing => match &self.game {
                Some(game) => prompt_label(game.turn().current_player()),
                None => "P1",
            },
        }
    }

    /// The prompt followed by `> `.
    pub fn prompt_text(&self) -> (text: String)
        requires
            self.wf(),
        ensures
            self.spec_mode() == AppMode::Setup ==> text@ == step_prompt(self.spec_step()) + "> "@,
            self.spec_mode() == AppMode::Playing ==> text@ == prompt_name(self.spec_game().unwrap()@.turn.player) + "> "@,
    {
        let mut out: Vec<char> = Vec::new();
        push_text(&mut out, self.prompt());
        push_text(&mut out, "> ");
        string_from_chars(out.as_slice())
    }

    /// The line being typed.
    pub fn input(&self) -> (text: String)
        ensures
            text@ == self.spec_input(),
    {
        string_from_chars(self.input.as_slice())
    }

    pub fn messages(&self) -> (messages: &Vec<String>)
        requires
            self.wf(),
        ensures
            strings_view(messages@) == self.spec_messages(),
            messages@.len() <= MAX_MESSAGES,
    {
        &self.messages
    }

    pub fn game(&self) -> (game: Option<&Game>)
        requires
            self.wf(),
        ensures
            game matches Some(g) ==> g@.wf() && self.spec_game() == Some(*g),
            game is None <==> self.spec_game() is None,
    {
        self.game.as_ref()
    }

    pub fn show_help(&self) -> (shown: bool)
        ensures
            shown == self.spec_show_help(),
    {
        self.show_help
    }

    pub fn should_quit(&self) -> (quit: bool)
        ensures
            quit == self.spec_should_quit(),
    {
        self.should_quit
    }

    /// Types one more character.
    pub fn push_char(&mut self, ch: char)
        requires
            old(self).wf(),
        ensures
            final(self).wf(),
            final(self).spec_input() == old(self).spec_input().push(ch),
            same_but_input(*old(self), *final(self)),
    {
        self.input.push(ch);
    }

    /// Erases the last typed character, if any.
    pub fn backspace(&mut self)
        requires
            old(self).wf(),
        ensures
            final(self).wf(),
            old(self).spec_input().len() > 0 ==> final(self).spec_input() == old(self).spec_input().drop_last(),
            old(self).spec_input().len() == 0 ==> final(self).spec_input().len() == 0,
            same_but_input(*old(self), *final(self)),
    {
        if self.input.len() > 0 {
            self.input.pop();
        }
    }

    /// Submits the typed line and clears it.
    pub fn submit_input(&mut self, files: &mut FileJournal)
        requires
            old(self).wf(),
        ensures
            old(self).spec_mode() == AppMode::Setup && load_line(trim(old(self).spec_input())) ==> (load_path_of(trim(old(self).spec_input())) matches Some(
                path,
            ) ==> reads_first(*old(files), *final(files), path)),
            old(self).spec_mode() == AppMode::Playing && trim(old(self).spec_input()).len() > 0 ==> logs_file_line(
                old(self).spec_game(),
                old(self).spec_ai(),
                final(self).spec_history(),
                old(self).spec_messages(),
                final(self).spec_game(),
                final(self).spec_messages(),
                *old(files),
                *final(files),
                trim(old(self).spec_input()),
                0,
            ),
            journal_grows(*old(files), *final(files)),
            final(self).wf(),
            final(self).spec_input().len() == 0,
            takes_line(*old(self), *final(self), old(self).spec_input()),
    {
        let line = string_from_chars(self.input.as_slice());
        self.input = Vec::new();
        self.submit_line(line.as_str(), files);
    }

    /// Takes one line: a setup line, or a command once play begins. A line
    /// that is blank once trimmed does nothing.
    pub fn submit_line(&mut self, line: &str, files: &mut FileJournal)
        requires
            old(self).wf(),
        ensures
            old(self).spec_mode() == AppMode::Setup && load_line(trim(line@)) ==> (load_path_of(trim(line@)) matches Some(
                path,
            ) ==> reads_first(*old(files), *final(files), path)),
            old(self).spec_mode() == AppMode::Playing && trim(line@).len() > 0 ==> logs_file_line(
                old(self).spec_game(),
                old(self).spec_ai(),
                final(self).spec_history(),
                old(self).spec_messages(),
                final(self).spec_game(),
                final(self).spec_messages(),
                *old(files),
                *final(files),
                trim(line@),
                0,
            ),
            journal_grows(*old(files), *final(files)),
            final(self).wf(),
            final(self).spec_input() == old(self).spec_input(),
            takes_line(*old(self), *final(self), line@),
    {
        self.submit_line_with_depth(line, 0, true, files);
    }

    fn submit_line_with_depth(&mut self, line: &str, depth: usize, record: bool, files: &mut FileJournal)
        requires
            old(self).wf(),
            depth <= MAX_LOAD_DEPTH,
        ensures
            journal_grows(*old(files), *final(files)),
            final(self).wf(),
            final(self).input == old(self).input,
            crate::text::trim(line@).len() == 0 ==> final(self).spec_messages() == old(self).spec_messages()
                && final(self).mode == old(self).mode && final(self).game == old(self).game,
            old(self).mode == AppMode::Playing ==> final(self).mode == AppMode::Playing,
            record && records_history(trim(line@)) ==> strings_view(final(self).typed_history@) == strings_view(
                old(self).typed_history@,
            ).push(trim(line@)),
            !(record && records_history(trim(line@))) ==> final(self).typed_history == old(self).typed_history,
            old(self).mode == AppMode::Setup && trim(line@).len() > 0 && !load_line(trim(line@)) ==> match old(self).setup.step {
                SetupStep::PlayerOneStars => final(self).mode == AppMode::Setup && final(self).setup.step
                    == SetupStep::PlayerOneShip,
                SetupStep::PlayerTwoStars => final(self).mode == AppMode::Setup && final(self).setup.step
                    == SetupStep::PlayerTwoShip,
                SetupStep::PlayerOneShip => if setup_of(
                    stored_text(old(self).setup.player_one_stars),
                    setup_content(trim(line@)),
                    Player::One,
                ) is Ok {
                    final(self).mode == AppMode::Setup && final(self).setup.step == SetupStep::PlayerTwoStars
                } else {
                    final(self).mode == AppMode::Setup && final(self).setup.step == SetupStep::PlayerOneStars
                },
                SetupStep::PlayerTwoShip => if setup_of(
                    stored_text(old(self).setup.player_two_stars),
                    setup_content(trim(line@)),
                    Player::Two,
                ) is Ok {
                    final(self).mode == AppMode::Playing || (final(self).mode == AppMode::Setup && final(self).setup.step
                        == SetupStep::PlayerOneStars)
                } else {
                    final(self).mode == AppMode::Setup && final(self).setup.step == SetupStep::PlayerTwoStars
                },
            },
            old(self).mode == AppMode::Playing ==> {
                let command = parsed_command(trim(line@), old(self).game);
                &&& command is None ==> final(self).game == old(self).game && final(self).should_quit
                    == old(self).should_quit && final(self).show_help == old(self).show_help
                &&& command == Some(CommandView::Quit) ==> final(self).should_quit && final(self).game == old(self).game
                &&& command == Some(CommandView::Help) ==> final(self).show_help == !old(self).show_help
                    && final(self).game == old(self).game
                &&& command == Some(CommandView::Show) ==> final(self).game == old(self).game && final(self).show_help
                    == old(self).show_help
                &&& command matches Some(CommandView::Ai(AiCommand::SetStrategy { player, strategy }))
                    ==> final(self).ai_control.spec_strategy(player) == Some(strategy)
                &&& command matches Some(CommandView::Ai(AiCommand::Off { player })) ==> final(self).ai_control.spec_strategy(
                    player,
                ) is None
                &&& command matches Some(CommandView::Action(a)) ==> (!accepts(old(self).game.unwrap()@, a)
                    && old(self).ai_control.spec_strategy(old(self).game.unwrap()@.turn.player) is None
                    ==> final(self).game == old(self).game)
                &&& command == Some(CommandView::End) ==> (!(old(self).game.unwrap()@.status == GameStatus::InProgress
                    && old(self).game.unwrap()@.turn.can_end()) ==> final(self).game == old(self).game)
                &&& trim(line@).len() > 0 ==> (game_line_log(
                    old(self).spec_messages(),
                    trim(line@),
                    old(self).game.unwrap(),
                    old(self).show_help,
                ) matches Some(log) ==> final(self).spec_messages() == log)
                &&& command matches Some(CommandView::Action(a)) ==> (accepts(old(self).game.unwrap()@, a) && no_ai(
                    old(self).ai_control,
                ) ==> (final(self).game matches Some(n) && session_after_action(old(self).game.unwrap()@, a, n@)))
                &&& command == Some(CommandView::End) ==> (old(self).game.unwrap()@.status == GameStatus::InProgress
                    && old(self).game.unwrap()@.turn.can_end() && no_ai(old(self).ai_control)
                    ==> (final(self).game matches Some(n) && n@ == turn_ended(old(self).game.unwrap()@)))
                &&& command matches Some(CommandView::Action(a)) ==> (final(self).game matches Some(n) && n@ == ai_rounds(
                    decision_taken(old(self).game.unwrap()@, DecisionView::Action(a)),
                    old(self).ai_control,
                    MAX_AI_DECISIONS as nat,
                ))
                &&& command == Some(CommandView::End) ==> (old(self).game.unwrap()@.status == GameStatus::InProgress
                    && old(self).game.unwrap()@.turn.can_end() ==> (final(self).game matches Some(n) && n@ == ai_rounds(
                    turn_ended(old(self).game.unwrap()@),
                    old(self).ai_control,
                    MAX_AI_DECISIONS as nat,
                )))
            },
            old(self).mode == AppMode::Setup && trim(line@).len() > 0 && !load_line(trim(line@)) ==> takes_setup_line(
                *old(self),
                *final(self),
                setup_content(trim(line@)),
            ),
            old(self).mode == AppMode::Playing && trim(line@).len() > 0 ==> logs_file_line(
                old(self).game,
                old(self).ai_control,
                strings_view(final(self).typed_history@),
                old(self).spec_messages(),
                final(self).game,
                final(self).spec_messages(),
                *old(files),
                *final(files),
                trim(line@),
                depth as int,
            ),
            old(self).mode == AppMode::Setup && depth < MAX_LOAD_DEPTH && load_line(trim(line@)) ==> (load_path_of(
                trim(line@),
            ) matches Some(path) ==> reads_first(*old(files), *final(files), path)),
        decreases MAX_LOAD_DEPTH - depth, 4int,
    {
        let chars = text_chars(line);
        let trimmed_chars = trim_chars(chars.as_slice());
        if trimmed_chars.len() == 0 {
            return;
        }
        let trimmed = string_from_chars(trimmed_chars.as_slice());
        if record && should_record_user_history(trimmed.as_str()) {
            self.typed_history.push(trimmed.clone());
        }
        match self.mode {
            AppMode::Setup => self.handle_setup_line(trimmed.as_str(), depth, files),
            AppMode::Playing => self.handle_game_line(trimmed.as_str(), depth, files),
        }
    }

    fn handle_setup_line(&mut self, line: &str, depth: usize, files: &mut FileJournal)
        requires
            old(self).wf(),
            old(self).mode == AppMode::Setup,
            depth <= MAX_LOAD_DEPTH,
        ensures
            journal_grows(*old(files), *final(files)),
            final(self).typed_history == old(self).typed_history,
            final(self).wf(),
            final(self).input == old(self).input,
            old(self).mode == AppMode::Setup && !load_line(line@) ==> match old(self).setup.step {
                SetupStep::PlayerOneStars => final(self).mode == AppMode::Setup && final(self).setup.step
                    == SetupStep::PlayerOneShip,
                SetupStep::PlayerTwoStars => final(self).mode == AppMode::Setup && final(self).setup.step
                    == SetupStep::PlayerTwoShip,
                SetupStep::PlayerOneShip => if setup_of(
                    stored_text(old(self).setup.player_one_stars),
                    setup_content(line@),
                    Player::One,
                ) is Ok {
                    final(self).mode == AppMode::Setup && final(self).setup.step == SetupStep::PlayerTwoStars
                } else {
                    final(self).mode == AppMode::Setup && final(self).setup.step == SetupStep::PlayerOneStars
                },
                SetupStep::PlayerTwoShip => if setup_of(
                    stored_text(old(self).setup.player_two_stars),
                    setup_content(line@),
                    Player::Two,
                ) is Ok {
                    final(self).mode == AppMode::Playing || (final(self).mode == AppMode::Setup && final(self).setup.step
                        == SetupStep::PlayerOneStars)
                } else {
                    final(self).mode == AppMode::Setup && final(self).setup.step == SetupStep::PlayerTwoStars
                },
            },
            old(self).mode == AppMode::Setup && !load_line(line@) ==> takes_setup_line(
                *old(self),
                *final(self),
                setup_content(line@),
            ),
            depth < MAX_LOAD_DEPTH && load_line(line@) ==> (load_path_of(line@) matches Some(path) ==> reads_first(
                *old(files),
                *final(files),
                path,
            )),
        decreases MAX_LOAD_DEPTH - depth, 2int,
    {
        match parse_load_command(line) {
            Some(Ok((path, show_after))) => {
                self.load_from_setup(path.as_str(), show_after, depth, files);
                return;
            },
            Some(Err(error)) => {
                let mut out: Vec<char> = Vec::new();
                push_text(&mut out, "Error: ");
                push_text(&mut out, error.message());
                self.push_message(string_from_chars(out.as_slice()));
                return;
            },
            None => {},
        }
        self.setup.show_after = self.setup.show_after || command_requests_state_after_error(line);
        let content = setup_line_content(line);
        let line = content.as_str();
        match self.setup.step {
            SetupStep::PlayerOneStars => {
                self.setup.player_one_stars = Some(owned_text(line));
                self.setup.step = SetupStep::PlayerOneShip;
            },
            SetupStep::PlayerOneShip => {
                let stars = match &self.setup.player_one_stars {
                    Some(stars) => stars.clone(),
                    None => String::new(),
                };
                match parse_setup(stars.as_str(), line, Player::One) {
                    Ok(setup) => {
                        self.setup.player_one = Some(setup);
                        self.setup.step = SetupStep::PlayerTwoStars;
                    },
                    Err(error) => {
                        self.push_error_message(error.message());
                        self.setup.player_one_stars = None;
                        self.setup.step = SetupStep::PlayerOneStars;
                    },
                }
            },
            SetupStep::PlayerTwoStars => {
                self.setup.player_two_stars = Some(owned_text(line));
                self.setup.step = SetupStep::PlayerTwoShip;
            },
            SetupStep::PlayerTwoShip => {
                let stars = match &self.setup.player_two_stars {
                    Some(stars) => stars.clone(),
                    None => String::new(),
                };
                match parse_setup(stars.as_str(), line, Player::Two) {
                    Err(error) => {
                        self.push_error_message(error.message());
                        self.setup.player_two_stars = None;
                        self.setup.step = SetupStep::PlayerTwoStars;
                    },
                    Ok(two) => match self.setup.player_one.take() {
                        Some(one) => match Game::new(
                            {
                                let homes = [one, two];
                                assert(homes@[0] == one && homes@[1] == two);
                                homes
                            },
                            Player::One,
                        ) {
                            Ok(game) => self.start_game(game),
                            Err(error) => {
                                let mut out: Vec<char> = Vec::new();
                                push_text(&mut out, "Error: invalid homeworld setup: ");
                                let text = format_game_error(&error);
                                push_text(&mut out, text.as_str());
                                self.push_message(string_from_chars(out.as_slice()));
                                self.setup = fresh_setup();
                            },
                        },
                        None => {
                            self.push_message(owned_text("Error: missing Player 1 setup"));
                            self.setup = fresh_setup();
                        },
                    },
                }
            },
        }
    }

    fn start_game(&mut self, game: Game)
        requires
            old(self).wf(),
            game@.wf(),
        ensures
            final(self).typed_history == old(self).typed_history,
            final(self).wf(),
            final(self).mode == AppMode::Playing,
            final(self).game == Some(game),
            final(self).input == old(self).input,
    {
        let show_after = self.setup.show_after;
        self.game = Some(game);
        self.mode = AppMode::Playing;
        self.setup = fresh_setup();
        self.push_message(owned_text("Game started."));
        if show_after {
            self.push_game_render();
        } else {
            self.push_turn_summary();
        }
    }

    fn load_from_setup(&mut self, path: &str, show_after: bool, depth: usize, files: &mut FileJournal)
        requires
            old(self).wf(),
            depth <= MAX_LOAD_DEPTH,
        ensures
            journal_grows(*old(files), *final(files)),
            final(self).typed_history == old(self).typed_history,
            final(self).wf(),
            final(self).input == old(self).input,
            old(self).mode == AppMode::Playing ==> final(self).mode == AppMode::Playing,
            depth >= MAX_LOAD_DEPTH ==> final(self).spec_messages() == log_push(
                old(self).spec_messages(),
                "Error: load nesting limit exceeded"@,
            ) && final(self).game == old(self).game && final(self).mode == old(self).mode,
            final(self).mode == old(self).mode && final(self).game == old(self).game || final(self).mode
                == AppMode::Playing,
            depth < MAX_LOAD_DEPTH ==> reads_first(*old(files), *final(files), path@),
        decreases MAX_LOAD_DEPTH - depth, 1int,
    {
        if depth >= MAX_LOAD_DEPTH {
            self.push_message(owned_text("Error: load nesting limit exceeded"));
            return;
        }
        let source = read_load_source(files, path);
        let ghost mid = *files;
        self.start_from_source(source, path, show_after, depth, files);
        proof {
            assert(files.spec_requests()[old(files).spec_requests().len() as int] == mid.spec_requests()[old(
                files,
            ).spec_requests().len() as int]);
        }
    }

    /// Starts play from what a load at setup read: the saved game, or the
    /// game that a history's first four commands set up, with the commands
    /// that follow replayed; an error is logged and changes nothing else.
    fn start_from_source(
        &mut self,
        source: Result<LoadSource, String>,
        path: &str,
        show_after: bool,
        depth: usize,
        files: &mut FileJournal,
    )
        requires
            old(self).wf(),
            depth < MAX_LOAD_DEPTH,
            source matches Ok(LoadSource::Save(saved)) ==> saved.game@.wf(),
        ensures
            journal_grows(*old(files), *final(files)),
            final(self).typed_history == old(self).typed_history,
            final(self).wf(),
            final(self).input == old(self).input,
            old(self).mode == AppMode::Playing ==> final(self).mode == AppMode::Playing,
            final(self).mode == old(self).mode && final(self).game == old(self).game || final(self).mode
                == AppMode::Playing,
            source matches Err(m) ==> final(self).spec_messages() == log_push(old(self).spec_messages(), "Error: "@ + m@)
                && final(self).game == old(self).game && final(self).mode == old(self).mode,
            source matches Ok(LoadSource::Save(saved)) ==> final(self).mode == AppMode::Playing && (saved.commands@.len() == 0
                ==> final(self).game.unwrap()@ == ai_rounds(saved.game@, old(self).ai_control, MAX_AI_DECISIONS as nat)),
            source matches Ok(LoadSource::History(text)) ==> (crate::session::history_setup_fails(text@)
                ==> final(self).game == old(self).game && final(self).mode == old(self).mode),
        decreases MAX_LOAD_DEPTH - depth, 0int,
    {
        match source {
            Ok(LoadSource::Save(saved)) => {
                self.game = Some(saved.game);
                self.mode = AppMode::Playing;
                self.setup = fresh_setup();
                self.push_path_message("Loaded from ", path);
                if show_after {
                    self.push_game_render();
                } else {
                    self.push_turn_summary();
                }
                if saved.commands.len() > 0 {
                    self.push_path_message("Running commands from ", path);
                    self.run_history_commands(&saved.commands, depth + 1, files);
                    self.push_path_message("Finished commands from ", path);
                }
                self.run_ai_turns();
            },
            Ok(LoadSource::History(history)) => match game_from_history_setup(history.as_str()) {
                Ok((game, commands)) => {
                    self.game = Some(game);
                    self.mode = AppMode::Playing;
                    self.setup = fresh_setup();
                    self.push_path_message("Loaded setup from ", path);
                    self.push_turn_summary();
                    self.push_path_message("Running commands from ", path);
                    self.run_history_commands(&commands, depth + 1, files);
                    self.push_path_message("Finished commands from ", path);
                    self.run_ai_turns();
                },
                Err(error) => {
                    let text = error.message();
                    self.push_error_message(text.as_str());
                },
            },
            Err(message) => {
                self.push_error_message(message.as_str());
            },
        }
    }

    fn handle_game_line(&mut self, line: &str, depth: usize, files: &mut FileJournal)
        requires
            old(self).wf(),
            old(self).mode == AppMode::Playing,
            depth <= MAX_LOAD_DEPTH,
        ensures
            journal_grows(*old(files), *final(files)),
            final(self).typed_history == old(self).typed_history,
            final(self).wf(),
            final(self).mode == AppMode::Playing,
            final(self).input == old(self).input,
            parsed_command(line@, old(self).game) is None ==> final(self).game == old(self).game
                && final(self).should_quit == old(self).should_quit && final(self).show_help == old(self).show_help,
            parsed_command(line@, old(self).game) == Some(CommandView::Quit) ==> final(self).should_quit
                && final(self).game == old(self).game,
            parsed_command(line@, old(self).game) == Some(CommandView::Help) ==> final(self).show_help
                == !old(self).show_help && final(self).game == old(self).game,
            parsed_command(line@, old(self).game) == Some(CommandView::Show) ==> final(self).game == old(self).game
                && final(self).show_help == old(self).show_help,
            parsed_command(line@, old(self).game) matches Some(CommandView::Ai(AiCommand::SetStrategy { player, strategy }))
                ==> final(self).ai_control.spec_strategy(player) == Some(strategy),
            parsed_command(line@, old(self).game) matches Some(CommandView::Ai(AiCommand::Off { player }))
                ==> final(self).ai_control.spec_strategy(player) is None,
            parsed_command(line@, old(self).game) matches Some(CommandView::Action(a)) ==> (!accepts(
                old(self).game.unwrap()@,
                a,
            ) && old(self).ai_control.spec_strategy(old(self).game.unwrap()@.turn.player) is None ==> final(self).game
                == old(self).game),
            parsed_command(line@, old(self).game) == Some(CommandView::End) ==> (!(old(self).game.unwrap()@.status
                == GameStatus::InProgress && old(self).game.unwrap()@.turn.can_end()) ==> final(self).game
                == old(self).game),
            game_line_log(old(self).spec_messages(), line@, old(self).game.unwrap(), old(self).show_help) matches Some(log)
                ==> final(self).spec_messages() == log,
            parsed_command(line@, old(self).game) matches Some(CommandView::Action(a)) ==> (accepts(
                old(self).game.unwrap()@,
                a,
            ) && no_ai(old(self).ai_control) ==> (final(self).game matches Some(n) && session_after_action(
                old(self).game.unwrap()@,
                a,
                n@,
            ))),
            parsed_command(line@, old(self).game) == Some(CommandView::End) ==> (old(self).game.unwrap()@.status
                == GameStatus::InProgress && old(self).game.unwrap()@.turn.can_end() && no_ai(old(self).ai_control)
                ==> (final(self).game matches Some(n) && n@ == turn_ended(old(self).game.unwrap()@))),
            parsed_command(line@, old(self).game) matches Some(CommandView::Action(a)) ==> (final(self).game matches Some(
                n,
            ) && n@ == ai_rounds(
                decision_taken(old(self).game.unwrap()@, DecisionView::Action(a)),
                old(self).ai_control,
                MAX_AI_DECISIONS as nat,
            )),
            parsed_command(line@, old(self).game) == Some(CommandView::End) ==> (old(self).game.unwrap()@.status
                == GameStatus::InProgress && old(self).game.unwrap()@.turn.can_end() ==> (final(self).game matches Some(
                n,
            ) && n@ == ai_rounds(turn_ended(old(self).game.unwrap()@), old(self).ai_control, MAX_AI_DECISIONS as nat))),
            logs_file_line(
                old(self).game,
                old(self).ai_control,
                strings_view(old(self).typed_history@),
                old(self).spec_messages(),
                final(self).game,
                final(self).spec_messages(),
                *old(files),
                *final(files),
                line@,
                depth as int,
            ),
        decreases MAX_LOAD_DEPTH - depth, 3int,
    {
        let current = match &self.game {
            Some(game) => game.turn().current_player(),
            None => {
                self.push_message(owned_text("Error: game is not started"));
                return;
            },
        };
        let show_after_error = command_requests_state_after_error(line);
        let parsed = match parse_input(line, current) {
            Ok(parsed) => parsed,
            Err(error) => {
                self.push_error_message(error.message());
                self.push_render_after_semicolon(show_after_error);
                return;
            },
        };
        let show_after = parsed.show_after;
        match parsed.command {
            ParsedCommand::Help => {
                self.show_help = !self.show_help;
                if self.show_help {
                    self.push_message(owned_text("Help shown."));
                } else {
                    self.push_message(owned_text("Help hidden."));
                }
                self.push_render_after_semicolon(show_after);
            },
            ParsedCommand::Show => {
                self.push_game_render();
            },
            ParsedCommand::Quit => {
                self.should_quit = true;
                self.push_message(owned_text("Goodbye."));
            },
            ParsedCommand::Ai(command) => {
                self.run_ai_command(command);
                self.push_render_after_semicolon(show_after);
                self.run_ai_turns();
            },
            ParsedCommand::Save(_) | ParsedCommand::SaveHistory(_) | ParsedCommand::Load(_) => {
                self.file_in_game(parsed.command, show_after, depth, files);
            },
            ParsedCommand::End => {
                let ended = match &self.game {
                    Some(game) => game.end_turn(),
                    None => {
                        return;
                    },
                };
                match ended {
                    Ok(next) => {
                        self.game = Some(next);
                        self.push_message(owned_text("Turn ended."));
                        self.push_turn_summary();
                        self.push_render_after_semicolon(show_after);
                        self.run_ai_turns();
                    },
                    Err(error) => {
                        let text = format_game_error(&error);
                        self.push_error_message(text.as_str());
                        self.push_render_after_semicolon(show_after);
                    },
                }
            },
            ParsedCommand::Action(action) => {
                self.apply_decision(AiDecision::Action(action));
                self.push_render_after_semicolon(show_after);
                self.run_ai_turns();
            },
        }
    }

    /// Runs a file command during play: a save, a save with the history, or
    /// a load.
    fn file_in_game(&mut self, command: ParsedCommand, show_after: bool, depth: usize, files: &mut FileJournal)
        requires
            old(self).wf(),
            old(self).mode == AppMode::Playing,
            depth <= MAX_LOAD_DEPTH,
            command is Save || command is SaveHistory || command is Load,
        ensures
            journal_grows(*old(files), *final(files)),
            final(self).typed_history == old(self).typed_history,
            final(self).wf(),
            final(self).mode == AppMode::Playing,
            final(self).input == old(self).input,
            !(command is Load) ==> final(self).game == old(self).game && final(self).should_quit == old(self).should_quit
                && final(self).show_help == old(self).show_help && final(self).ai_control == old(self).ai_control,
            logs_file_command(
                old(self).game,
                old(self).ai_control,
                strings_view(old(self).typed_history@),
                old(self).spec_messages(),
                final(self).game,
                final(self).spec_messages(),
                *old(files),
                *final(files),
                command@,
                show_after,
                depth as int,
            ),
        decreases MAX_LOAD_DEPTH - depth, 2int,
    {
        match command {
            ParsedCommand::Save(path) => {
                let game = match &self.game {
                    Some(game) => game,
                    None => {
                        return;
                    },
                };
                let file = SaveFile::from_game(game);
                proof {
                    assert(string_views(file.history@) =~= Seq::<Seq<char>>::empty());
                }
                let written = files.write_save(path.as_str(), file);
                match written {
                    Ok(()) => self.push_path_message("Saved to ", path.as_str()),
                    Err(text) => {
                        self.push_error_message(text.as_str());
                    },
                }
                self.push_render_after_semicolon(show_after);
            },
            ParsedCommand::SaveHistory(path) => {
                let game = match &self.game {
                    Some(game) => game,
                    None => {
                        return;
                    },
                };
                let extras = SaveExtras { history: copy_strings(&self.typed_history), commands: Vec::new() };
                let file = SaveFile::from_game_with_extras(game, &extras);
                proof {
                    assert(string_views(file.commands@).len() == file.commands@.len());
                    assert(string_views(extras.commands@).len() == 0);
                    assert(string_views(file.history@) =~= strings_view(self.typed_history@));
                }
                let written = files.write_save(path.as_str(), file);
                match written {
                    Ok(()) => self.push_path_message("Saved history to ", path.as_str()),
                    Err(text) => {
                        self.push_error_message(text.as_str());
                    },
                }
                self.push_render_after_semicolon(show_after);
            },
            ParsedCommand::Load(path) => {
                self.load_in_game(path.as_str(), show_after, depth, files);
            },
            _ => {},
        }
    }

    fn load_in_game(&mut self, path: &str, show_after: bool, depth: usize, files: &mut FileJournal)
        requires
            old(self).wf(),
            old(self).mode == AppMode::Playing,
            depth <= MAX_LOAD_DEPTH,
        ensures
            journal_grows(*old(files), *final(files)),
            final(self).typed_history == old(self).typed_history,
            final(self).wf(),
            final(self).mode == AppMode::Playing,
            final(self).input == old(self).input,
            depth >= MAX_LOAD_DEPTH ==> final(self).spec_messages() == log_push(
                old(self).spec_messages(),
                "Error: load nesting limit exceeded"@,
            ) && final(self).game == old(self).game && *final(files) == *old(files),
            depth < MAX_LOAD_DEPTH ==> final(files).spec_requests().len() > old(files).spec_requests().len()
                && (final(files).spec_requests()[old(files).spec_requests().len() as int] matches FileRequest::ReadText(p)
                && p@ == path@),
            depth < MAX_LOAD_DEPTH && final(files).spec_answered() ==> exists|
                source: Result<LoadSource, String>,
                rest: Seq<FileReply>,
            |
                #[trigger] loads_from_replies(old(files).spec_pending(), rest, source) && logs_load(
                    old(self).game,
                    old(self).ai_control,
                    old(self).spec_messages(),
                    final(self).game,
                    final(self).spec_messages(),
                    source,
                    show_after,
                ),
        decreases MAX_LOAD_DEPTH - depth, 1int,
    {
        if depth >= MAX_LOAD_DEPTH {
            self.push_message(owned_text("Error: load nesting limit exceeded"));
            return;
        }
        let source = read_load_source(files, path);
        let ghost mid = *files;
        self.play_from_source(source, path, show_after, depth, files);
        proof {
            assert(files.spec_requests()[old(files).spec_requests().len() as int] == mid.spec_requests()[old(
                files,
            ).spec_requests().len() as int]);
            if files.spec_answered() {
                assert(loads_from_replies(old(files).spec_pending(), mid.spec_pending(), source));
            }
        }
    }

    /// Continues play from what a load during play read: the saved game with
    /// its commands replayed, or the current game with a history's commands
    /// replayed; an error is logged, with the board when asked for, and
    /// changes nothing else.
    fn play_from_source(
        &mut self,
        source: Result<LoadSource, String>,
        path: &str,
        show_after: bool,
        depth: usize,
        files: &mut FileJournal,
    )
        requires
            old(self).wf(),
            old(self).mode == AppMode::Playing,
            depth < MAX_LOAD_DEPTH,
            source matches Ok(LoadSource::Save(saved)) ==> saved.game@.wf(),
        ensures
            journal_grows(*old(files), *final(files)),
            final(self).typed_history == old(self).typed_history,
            final(self).wf(),
            final(self).mode == AppMode::Playing,
            final(self).input == old(self).input,
            source matches Err(m) ==> final(self).spec_messages() == log_board(
                log_push(old(self).spec_messages(), "Error: "@ + m@),
                show_after,
                old(self).game,
            ) && final(self).game == old(self).game,
            source matches Ok(LoadSource::Save(saved)) ==> (saved.commands@.len() == 0
                ==> final(self).game.unwrap()@ == ai_rounds(saved.game@, old(self).ai_control, MAX_AI_DECISIONS as nat)),
        decreases MAX_LOAD_DEPTH - depth, 0int,
    {
        match source {
            Ok(LoadSource::Save(saved)) => {
                self.game = Some(saved.game);
                self.push_path_message("Loaded from ", path);
                self.push_turn_summary();
                if saved.commands.len() > 0 {
                    self.push_path_message("Running commands from ", path);
                    self.run_history_commands(&saved.commands, depth + 1, files);
                    self.push_path_message("Finished commands from ", path);
                }
                self.push_render_after_semicolon(show_after);
                self.run_ai_turns();
            },
            Ok(LoadSource::History(history)) => {
                let commands = history_commands(history.as_str());
                self.push_path_message("Running commands from ", path);
                self.run_history_commands(&commands, depth + 1, files);
                self.push_path_message("Finished commands from ", path);
                self.push_render_after_semicolon(show_after);
                self.run_ai_turns();
            },
            Err(message) => {
                self.push_error_message(message.as_str());
                self.push_render_after_semicolon(show_after);
            },
        }
    }

    /// Replays commands from a file, each after the prompt it answers,
    /// until one of them quits.
    #[verifier::rlimit(60)]
    #[verifier::spinoff_prover]
    fn run_history_commands(&mut self, commands: &Vec<String>, depth: usize, files: &mut FileJournal)
        requires
            old(self).wf(),
            1 <= depth <= MAX_LOAD_DEPTH,
        ensures
            journal_grows(*old(files), *final(files)),
            final(self).typed_history == old(self).typed_history,
            final(self).wf(),
            final(self).input == old(self).input,
            old(self).mode == AppMode::Playing ==> final(self).mode == AppMode::Playing,
            replays(*old(self), strings_view(commands@), *final(self)),
        decreases MAX_LOAD_DEPTH - depth, 5int,
    {
        let ghost all = strings_view(commands@);
        assert(all.skip(0) =~= all);
        let mut i: usize = 0;
        while i < commands.len()
            invariant
                journal_grows(*old(files), *files),
                self.wf(),
                self.input == old(self).input,
                old(self).mode == AppMode::Playing ==> self.mode == AppMode::Playing,
                1 <= depth <= MAX_LOAD_DEPTH,
                self.typed_history == old(self).typed_history,
                all == strings_view(commands@),
                0 <= i <= commands@.len(),
                forall|a: TuiApp| #[trigger] replays(*self, all.skip(i as int), a) ==> replays(*old(self), all, a),
            decreases commands@.len() - i,
        {
            if self.should_quit {
                assert(replays(*self, all.skip(i as int), *self));
                return;
            }
            let ghost s0 = *self;
            let player = match &self.game {
                Some(game) => Some(game.turn().current_player()),
                None => None,
            };
            if let Some(player) = player {
                let mut out: Vec<char> = Vec::new();
                push_text(&mut out, prompt_label(player));
                push_text(&mut out, "> ");
                push_text(&mut out, commands[i].as_str());
                self.push_message(string_from_chars(out.as_slice()));
            }
            let ghost s1 = *self;
            self.submit_line_with_depth(commands[i].as_str(), depth, false, files);
            proof {
                let c = all.skip(i as int);
                assert(c[0] == commands@[i as int]@);
                assert(c.drop_first() =~= all.skip(i + 1));
                assert(echoes(s0, s1, c[0]));
                assert forall|a: TuiApp| #[trigger] replays(*self, all.skip(i + 1), a) implies replays(*old(self), all, a) by {
                    assert(takes_line_kept(s1, *self, c[0], false));
                    assert(replays(s0, c, a));
                }
            }
            i += 1;
        }
        assert(replays(*self, all.skip(i as int), *self));
    }

    fn run_ai_command(&mut self, command: AiCommand)
        requires
            old(self).wf(),
        ensures
            final(self).typed_history == old(self).typed_history,
            final(self).wf(),
            final(self).mode == old(self).mode,
            final(self).game == old(self).game,
            final(self).input == old(self).input,
            final(self).show_help == old(self).show_help,
            final(self).should_quit == old(self).should_quit,
            command matches AiCommand::SetStrategy { player, strategy } ==> final(self).ai_control.spec_strategy(player)
                == Some(strategy),
            command matches AiCommand::Off { player } ==> final(self).ai_control.spec_strategy(player) is None,
            command is Show ==> final(self).ai_control == old(self).ai_control,
    {
        match command {
            AiCommand::Show => {
                let text = render_ai_control(&self.ai_control);
                self.push_message(text);
            },
            AiCommand::SetStrategy { player, strategy } => {
                self.ai_control.set_strategy(player, strategy);
                let mut out: Vec<char> = Vec::new();
                push_text(&mut out, "AI ");
                push_text(&mut out, player_label(player));
                push_text(&mut out, " set to ");
                push_text(&mut out, ai_strategy_label(strategy));
                push_text(&mut out, ".");
                self.push_message(string_from_chars(out.as_slice()));
            },
            AiCommand::Off { player } => {
                self.ai_control.disable(player);
                let mut out: Vec<char> = Vec::new();
                push_text(&mut out, "AI ");
                push_text(&mut out, player_label(player));
                push_text(&mut out, " disabled.");
                self.push_message(string_from_chars(out.as_slice()));
            },
        }
    }

    /// Lets AI players take their decisions until a human is to play, the
    /// game is over, or the limit of decisions in a row is reached.
    #[verifier::rlimit(40)]
    fn run_ai_turns(&mut self)
        requires
            old(self).wf(),
        ensures
            final(self).typed_history == old(self).typed_history,
            final(self).wf(),
            final(self).mode == old(self).mode,
            final(self).input == old(self).input,
            old(self).game is Some ==> final(self).game is Some,
            old(self).game matches Some(g) ==> (g@.status != GameStatus::InProgress || old(self).ai_control.spec_strategy(
                g@.turn.player,
            ) is None ==> final(self).game == old(self).game),
            final(self).show_help == old(self).show_help,
            final(self).should_quit == old(self).should_quit,
            final(self).ai_control == old(self).ai_control,
            old(self).game is Some ==> final(self).game.unwrap()@ == ai_rounds(
                old(self).game.unwrap()@,
                old(self).ai_control,
                MAX_AI_DECISIONS as nat,
            ),
    {
        let ghost control = old(self).ai_control;
        let mut count: usize = 0;
        while count < MAX_AI_DECISIONS
            invariant
                self.wf(),
                self.mode == old(self).mode,
                self.input == old(self).input,
                old(self).game is Some ==> self.game is Some,
                self.show_help == old(self).show_help,
                self.should_quit == old(self).should_quit,
                self.ai_control == old(self).ai_control,
                self.typed_history == old(self).typed_history,
                old(self).game matches Some(g) ==> (g@.status != GameStatus::InProgress || old(self).ai_control.spec_strategy(
                    g@.turn.player,
                ) is None ==> self.game == old(self).game),
                control == self.ai_control,
                count <= MAX_AI_DECISIONS,
                old(self).game is Some ==> self.game.unwrap()@ == ai_rounds(old(self).game.unwrap()@, control, count as nat),
            decreases MAX_AI_DECISIONS - count,
        {
            let (player, decision) = match &self.game {
                None => {
                    return;
                },
                Some(game) => {
                    if game.status() != GameStatus::InProgress {
                        proof {
                            if old(self).game is Some {
                                lemma_ai_rounds_settle(old(self).game.unwrap()@, control, count as nat, MAX_AI_DECISIONS as nat);
                            }
                        }
                        return;
                    }
                    let player = game.turn().current_player();
                    let strategy = match self.ai_control.strategy(player) {
                        Some(strategy) => strategy,
                        None => {
                            proof {
                            if old(self).game is Some {
                                lemma_ai_rounds_settle(old(self).game.unwrap()@, control, count as nat, MAX_AI_DECISIONS as nat);
                            }
                        }
                        return;
                        },
                    };
                    (player, choose_ai_decision(strategy, game))
                },
            };
            let decision = match decision {
                Some(decision) => decision,
                None => {
                    self.push_message(owned_text("AI has no legal decision."));
                    proof {
                            if old(self).game is Some {
                                lemma_ai_rounds_settle(old(self).game.unwrap()@, control, count as nat, MAX_AI_DECISIONS as nat);
                            }
                        }
                        return;
                },
            };
            let mut out: Vec<char> = Vec::new();
            push_text(&mut out, prompt_label(player));
            push_text(&mut out, "> ");
            let text = ai_decision_command(&decision);
            push_text(&mut out, text.as_str());
            self.push_message(string_from_chars(out.as_slice()));
            let ghost before = self.game;
            self.apply_decision(decision);
            proof {
                if old(self).game is Some {
                    assert(ai_round(before.unwrap()@, control) == decision_taken(before.unwrap()@, decision@));
                }
            }
            count += 1;
        }
        let mut out: Vec<char> = Vec::new();
        push_text(&mut out, "AI stopped after ");
        crate::render::push_decimal(&mut out, MAX_AI_DECISIONS);
        push_text(&mut out, " decisions.");
        self.push_message(string_from_chars(out.as_slice()));
    }

    /// Applies an action (ending the turn when it spent the last action and
    /// no catastrophe can follow) or ends the turn, logging what happened.
    fn apply_decision(&mut self, decision: AiDecision)
        requires
            old(self).wf(),
        ensures
            final(self).typed_history == old(self).typed_history,
            final(self).wf(),
            final(self).mode == old(self).mode,
            final(self).input == old(self).input,
            old(self).game is Some ==> final(self).game is Some,
            decision matches AiDecision::Action(a) ==> (old(self).game is Some && !accepts(old(self).game.unwrap()@, a@)
                ==> final(self).game == old(self).game),
            decision matches AiDecision::Action(a) ==> (old(self).game is Some && accepts(old(self).game.unwrap()@, a@)
                ==> (final(self).game matches Some(n) && session_after_action(old(self).game.unwrap()@, a@, n@))),
            decision is EndTurn ==> (old(self).game is Some && old(self).game.unwrap()@.status == GameStatus::InProgress
                && old(self).game.unwrap()@.turn.can_end() ==> (final(self).game matches Some(n) && n@ == turn_ended(
                old(self).game.unwrap()@,
            ))),
            final(self).show_help == old(self).show_help,
            final(self).should_quit == old(self).should_quit,
            final(self).ai_control == old(self).ai_control,
            old(self).game is Some ==> final(self).game.unwrap()@ == decision_taken(old(self).game.unwrap()@, decision@),
    {
        match decision {
            AiDecision::Action(action) => {
                let applied = match &self.game {
                    Some(game) => game.apply_action(&action),
                    None => {
                        self.push_message(owned_text("Error: game is not started"));
                        return;
                    },
                };
                match applied {
                    Ok(next) => {
                        proof {
                            lemma_leads_to_successor(old(self).game.unwrap()@, decision@, next@);
                        }
                        let ghost mid = next@.turn;
                        self.game = Some(next);
                        self.push_message(owned_text("Action applied."));
                        self.auto_end_turn_if_ready();
                        self.push_turn_summary();
                        proof {
                            let g = old(self).game.unwrap()@;
                            if accepts(g, action@) {
                                assert(g.turn.after_action(action@, mid));
                                assert(session_after_action(g, action@, self.game.unwrap()@));
                            }
                        }
                    },
                    Err(error) => {
                        let text = format_game_error(&error);
                        self.push_error_message(text.as_str());
                    },
                }
            },
            AiDecision::EndTurn => {
                let ended = match &self.game {
                    Some(game) => game.end_turn(),
                    None => {
                        self.push_message(owned_text("Error: game is not started"));
                        return;
                    },
                };
                match ended {
                    Ok(next) => {
                        proof {
                            lemma_leads_to_successor(old(self).game.unwrap()@, decision@, next@);
                        }
                        self.game = Some(next);
                        self.push_message(owned_text("Turn ended."));
                        self.push_turn_summary();
                    },
                    Err(error) => {
                        let text = format_game_error(&error);
                        self.push_error_message(text.as_str());
                    },
                }
            },
        }
    }

    fn auto_end_turn_if_ready(&mut self)
        requires
            old(self).wf(),
        ensures
            final(self).typed_history == old(self).typed_history,
            final(self).wf(),
            final(self).mode == old(self).mode,
            final(self).input == old(self).input,
            old(self).game is Some ==> final(self).game is Some,
            final(self).show_help == old(self).show_help,
            final(self).should_quit == old(self).should_quit,
            final(self).ai_control == old(self).ai_control,
            old(self).game matches Some(g) ==> if ends_by_itself(g@) {
                final(self).game matches Some(n) && n@ == turn_ended(g@)
            } else {
                final(self).game == old(self).game
            },
    {
        let ended = match &self.game {
            Some(game) => if should_auto_end(game) {
                game.end_turn()
            } else {
                return;
            },
            None => {
                return;
            },
        };
        match ended {
            Ok(next) => {
                self.game = Some(next);
                self.push_message(owned_text("Turn ended."));
            },
            Err(error) => {
                let text = format_game_error(&error);
                self.push_error_message(text.as_str());
            },
        }
    }

    fn push_turn_summary(&mut self)
        requires
            old(self).wf(),
        ensures
            final(self).spec_messages() == log_push_all(old(self).spec_messages(), text_lines(summary_if_any(old(self).game))),
            final(self).typed_history == old(self).typed_history,
            final(self).wf(),
            final(self).mode == old(self).mode,
            final(self).game == old(self).game,
            final(self).input == old(self).input,
            final(self).show_help == old(self).show_help,
            final(self).should_quit == old(self).should_quit,
            final(self).ai_control == old(self).ai_control,
    {
        let text = match &self.game {
            Some(game) => render_turn_summary(game),
            None => {
                proof {
                    assert(text_lines(Seq::<char>::empty()) =~= Seq::<Seq<char>>::empty());
                }
                return;
            },
        };
        self.push_message_lines(text.as_str());
    }

    fn push_game_render(&mut self)
        requires
            old(self).wf(),
        ensures
            final(self).spec_messages() == log_board(old(self).spec_messages(), true, old(self).game),
            final(self).typed_history == old(self).typed_history,
            final(self).wf(),
            final(self).mode == old(self).mode,
            final(self).game == old(self).game,
            final(self).input == old(self).input,
            final(self).show_help == old(self).show_help,
            final(self).should_quit == old(self).should_quit,
            final(self).ai_control == old(self).ai_control,
    {
        let text = match &self.game {
            Some(game) => render_game(game),
            None => {
                proof {
                    assert(text_lines(Seq::<char>::empty()) =~= Seq::<Seq<char>>::empty());
                }
                return;
            },
        };
        self.push_message_lines(text.as_str());
    }

    fn push_render_after_semicolon(&mut self, show_after: bool)
        requires
            old(self).wf(),
        ensures
            final(self).spec_messages() == log_board(old(self).spec_messages(), show_after, old(self).game),
            final(self).typed_history == old(self).typed_history,
            final(self).wf(),
            final(self).mode == old(self).mode,
            final(self).game == old(self).game,
            final(self).input == old(self).input,
            final(self).show_help == old(self).show_help,
            final(self).should_quit == old(self).should_quit,
            final(self).ai_control == old(self).ai_control,
    {
        if show_after {
            self.push_game_render();
        } else {
            assert(text_lines(Seq::<char>::empty()) =~= Seq::<Seq<char>>::empty());
        }
    }

    /// Logs `Error: ` and the text.
    fn push_error_message(&mut self, text: &str)
        requires
            old(self).wf(),
        ensures
            final(self).spec_messages() == log_push(old(self).spec_messages(), "Error: "@ + text@),
            final(self).typed_history == old(self).typed_history,
            final(self).wf(),
            final(self).mode == old(self).mode,
            final(self).game == old(self).game,
            final(self).input == old(self).input,
            final(self).show_help == old(self).show_help,
            final(self).should_quit == old(self).should_quit,
            final(self).ai_control == old(self).ai_control,
    {
        let mut out: Vec<char> = Vec::new();
        push_text(&mut out, "Error: ");
        push_text(&mut out, text);
        self.push_message(string_from_chars(out.as_slice()));
    }

    /// Logs the words followed by the path and a full stop.
    fn push_path_message(&mut self, words: &str, path: &str)
        requires
            old(self).wf(),
        ensures
            final(self).spec_messages() == log_push(old(self).spec_messages(), words@ + path@ + "."@),
            final(self).typed_history == old(self).typed_history,
            final(self).wf(),
            final(self).mode == old(self).mode,
            final(self).game == old(self).game,
            final(self).input == old(self).input,
            final(self).show_help == old(self).show_help,
            final(self).should_quit == old(self).should_quit,
            final(self).ai_control == old(self).ai_control,
    {
        let mut out: Vec<char> = Vec::new();
        push_text(&mut out, words);
        push_text(&mut out, path);
        push_text(&mut out, ".");
        self.push_message(string_from_chars(out.as_slice()));
    }

    /// Adds a message to the log, dropping the oldest beyond the limit.
    fn push_message(&mut self, message: String)
        requires
            old(self).wf(),
        ensures
            final(self).typed_history == old(self).typed_history,
            final(self).wf(),
            final(self).spec_messages() == log_push(old(self).spec_messages(), message@),
            final(self).mode == old(self).mode,
            final(self).game == old(self).game,
            final(self).input == old(self).input,
            final(self).setup == old(self).setup,
            final(self).show_help == old(self).show_help,
            final(self).should_quit == old(self).should_quit,
            final(self).ai_control == old(self).ai_control,
    {
        let ghost before = self.messages@;
        self.messages.push(message);
        proof {
            assert(strings_view(self.messages@) =~= strings_view(before).push(message@));
        }
        if self.messages.len() > MAX_MESSAGES {
            let ghost pushed = self.messages@;
            self.messages.remove(0);
            proof {
                assert(self.messages@ =~= pushed.skip(1));
                assert(strings_view(self.messages@) =~= strings_view(pushed).skip(1));
            }
        }
    }

    /// Logs each line of a text as its own message.
    fn push_message_lines(&mut self, text: &str)
        requires
            old(self).wf(),
        ensures
            final(self).spec_messages() == log_push_all(old(self).spec_messages(), text_lines(text@)),
            final(self).typed_history == old(self).typed_history,
            final(self).wf(),
            final(self).mode == old(self).mode,
            final(self).game == old(self).game,
            final(self).input == old(self).input,
            final(self).show_help == old(self).show_help,
            final(self).should_quit == old(self).should_quit,
            final(self).ai_control == old(self).ai_control,
    {
        let chars = text_chars(text);
        let lines = split_lines(chars.as_slice());
        let mut i: usize = 0;
        while i < lines.len()
            invariant
                self.wf(),
                self.mode == old(self).mode,
                self.game == old(self).game,
                self.input == old(self).input,
                self.show_help == old(self).show_help,
                self.should_quit == old(self).should_quit,
                self.ai_control == old(self).ai_control,
                self.typed_history == old(self).typed_history,
                0 <= i <= lines@.len(),
                crate::text::token_views(lines@) == text_lines(text@),
                self.spec_messages() == log_push_all(old(self).spec_messages(), text_lines(text@).take(i as int)),
            decreases lines@.len() - i,
        {
            proof {
                let all = text_lines(text@);
                assert(all.take(i + 1).drop_last() =~= all.take(i as int));
                assert(all.take(i + 1).last() == lines@[i as int]@);
            }
            self.push_message(string_from_chars(lines[i].as_slice()));
            i += 1;
        }
        proof {
            assert(text_lines(text@).take(lines@.len() as int) =~= text_lines(text@));
        }
    }
}

fn owned_text(text: &str) -> (s: String)
    ensures
        s@ == text@,
{
    let chars = text_chars(text);
    string_from_chars(chars.as_slice())
}

/// A setup line whose first word is `load` or `l`, read as a load command
/// with its path and whether it ends in `;`.
fn parse_load_command(line: &str) -> (parsed: Option<Result<(String, bool), ParseError>>)
    ensures
        !load_line(line@) ==> parsed is None,
        load_line(line@) ==> match input_of(line@, Player::One) {
            Ok((CommandView::Load(path), show)) => parsed matches Some(Ok((p, s))) && p@ == path && s == show,
            Ok(_) => parsed is None,
            Err(e) => parsed matches Some(Err(error)) && error@ == e,
        },
{
    let chars = text_chars(line);
    let tokens = tokenize_chars(chars.as_slice());
    if tokens.len() == 0 {
        return None;
    }
    assert(tokens@[0]@ == crate::text::token_views(tokens@)[0]);
    if !(crate::text::is_word(tokens[0].as_slice(), "load") || crate::text::is_word(tokens[0].as_slice(), "l")) {
        return None;
    }
    match parse_input(line, Player::One) {
        Ok(parsed) => match parsed.command {
            ParsedCommand::Load(path) => Some(Ok((path, parsed.show_after))),
            _ => None,
        },
        Err(error) => Some(Err(error)),
    }
}

} // verus!

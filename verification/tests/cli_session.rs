use std::collections::HashMap;

use homeworlds::cli::{run, CliSession};
use homeworlds::save::{SaveError, SaveExtras, SaveFile};
use homeworlds::session::{game_from_history_setup, load_source_from, SetupLoadError, should_record_user_history, FileJournal, FileReply, FileRequest, LoadSource};
use homeworlds::{Game, Player};

/// Files kept in memory. A save is written as a short text that names it,
/// and that text reads back as the save.
#[derive(Default)]
struct MemoryFiles {
    texts: HashMap<String, String>,
    saves: Vec<SaveFile>,
}

impl MemoryFiles {
    fn with_text(path: &str, text: &str) -> Self {
        let mut files = MemoryFiles::default();
        files.texts.insert(path.to_owned(), text.to_owned());
        files
    }

    fn with_save(path: &str, file: SaveFile) -> Self {
        let mut files = MemoryFiles::default();
        files.write_save(path, &file).expect("memory write");
        files
    }
}

impl MemoryFiles {
    fn read_text(&mut self, path: &str) -> Result<String, SaveError> {
        self.texts.get(path).cloned().ok_or(SaveError::Io {
            message: "No such file or directory (os error 2)".to_owned(),
        })
    }

    fn parse_save(&mut self, text: &str) -> Result<SaveFile, SaveError> {
        text.strip_prefix("version: 1\nsave ")
            .and_then(|index| index.trim().parse::<usize>().ok())
            .and_then(|index| self.saves.get(index).cloned())
            .ok_or(SaveError::Yaml { message: "not a save".to_owned() })
    }

    fn write_save(&mut self, path: &str, file: &SaveFile) -> Result<(), SaveError> {
        self.saves.push(file.clone());
        let text = format!("version: 1\nsave {}\n", self.saves.len() - 1);
        self.texts.insert(path.to_owned(), text);
        Ok(())
    }
}

/// An answer given to a file request, kept to give it again on the next run.
#[derive(Clone)]
enum Answer {
    Text(Result<String, String>),
    Parsed(Result<SaveFile, SaveError>),
    Written(Result<(), String>),
}

impl Answer {
    fn reply(&self) -> FileReply {
        match self {
            Answer::Text(result) => FileReply::Text(result.clone()),
            Answer::Parsed(result) => FileReply::Parsed(result.clone()),
            Answer::Written(result) => FileReply::Written(result.clone()),
        }
    }
}

/// Runs `step` on a copy of `state` until every file request it makes has
/// its answer, performing each request once, in order, on `files`.
fn with_files<T: Clone, R>(
    state: &mut T,
    files: &mut MemoryFiles,
    mut step: impl FnMut(&mut T, &mut FileJournal) -> R,
) -> R {
    let mut answers: Vec<Answer> = Vec::new();
    loop {
        let mut attempt = state.clone();
        let mut journal = FileJournal::new(answers.iter().map(Answer::reply).collect());
        let result = step(&mut attempt, &mut journal);
        match journal.wanted() {
            None => {
                *state = attempt;
                return result;
            }
            Some(request) => {
                let answer = match request {
                    FileRequest::ReadText(path) => Answer::Text(files.read_text(path).map_err(|e| e.message())),
                    FileRequest::ParseSave(text) => Answer::Parsed(files.parse_save(text)),
                    FileRequest::WriteSave(path, file) => Answer::Written(files.write_save(path, file).map_err(|e| e.message())),
                };
                answers.push(answer);
            }
        }
    }
}

enum Line {
    Read(&'static str),
    Interrupted,
}

struct Session {
    output: String,
    prompts: Vec<String>,
    history: Vec<String>,
}

fn run_lines(lines: Vec<Line>, files: &mut MemoryFiles) -> Session {
    let (mut session, greeting) = CliSession::start();
    let mut result = Session { output: greeting, prompts: Vec::new(), history: Vec::new() };
    let mut lines = lines.into_iter();
    while !session.is_finished() {
        let prompt = session.prompt();
        result.output.push_str(&prompt);
        result.prompts.push(prompt);
        match lines.next() {
            None => session.end_of_input(),
            Some(Line::Interrupted) => result.output.push_str(&session.interrupt()),
            Some(Line::Read(line)) => {
                let outcome = with_files(&mut session, files, |session, journal| session.submit(line, journal));
                result.output.push_str(&outcome.output);
                if let Some(recorded) = outcome.recorded {
                    result.history.push(recorded);
                }
            }
        }
    }
    result
}

fn run_script_with(input: &str, files: &mut MemoryFiles) -> String {
    with_files(&mut (), files, |_, journal| run(input, journal))
}

fn run_script(input: &str) -> String {
    run_script_with(input, &mut MemoryFiles::default())
}

#[test]
fn show_prints_the_current_game_state() {
        let output = run_script(
            "ys bm
gs
bl rl
rm
show
q
",
        );

        assert!(output.contains("Homeworlds hot seat"));
        assert!(output.contains("Player 1 stars> "));
        assert!(output.contains("Game started."));
        assert!(output.contains("[0] homeworld Player 1"));
        assert!(output.contains("Stars: ys, bm"));
        assert!(output.contains("Ships: P1 gs"));
        assert!(output.contains("[1] homeworld Player 2"));
        assert!(output.contains("Stars: bl, rl"));
        assert!(output.contains("Ships: P2 rm"));
        assert!(output.contains("Goodbye."));
    }

#[test]
fn invalid_commands_do_not_advance_the_turn() {
        let output = run_script(
            "ys bm
gs
bl rl
rm
nonsense
show
q
",
        );

        assert!(output.contains("Error: unknown command"));
        assert!(output.contains("Current player: Player 1"));
        assert!(output.contains("Remaining actions: 1"));
    }

#[test]
fn setup_semicolon_prints_state_once_after_setup() {
        let output = run_script(
            "ys bm;
gs;
bl rl;
rm;
q
",
        );

        assert!(!output.contains("Error:"));
        assert!(output.contains("Game started."));
        assert_eq!(output.matches("Status: in progress").count(), 1);
        assert_eq!(output.matches("Current player: Player 1").count(), 1);
        assert_eq!(output.matches("Remaining actions: 1").count(), 1);
        assert!(output.contains("[0] homeworld Player 1"));
        assert!(output.contains("[1] homeworld Player 2"));
    }

#[test]
fn short_action_notation_drives_hot_seat_turns() {
        let output = run_script(
            "ys bm
gs
bl rl
rm
b 0 gs
s
q
",
        );

        assert!(output.contains("Action applied."));
        assert!(output.contains("Turn ended."));
        assert!(output.contains("Current player: Player 2"));
        assert!(output.contains("Remaining actions: 1"));
        assert!(!output.contains("Error:"));
    }

#[test]
fn ai_command_reports_selectable_strategies() {
        let output = run_script(
            "ys bm
gs
bl rl
rm
ai
ai p2 first
ai
ai p2 off
ai
q
",
        );

        assert!(output.contains("AI players: Player 1 human, Player 2 human"));
        assert!(output.contains("AI Player 2 set to first."));
        assert!(output.contains("AI players: Player 1 human, Player 2 first"));
        assert!(output.contains("AI Player 2 disabled."));
        assert!(!output.contains("Error:"));
    }

#[test]
fn ai_command_accepts_search_strategy() {
        let output = run_script(
            "ys bm
gs
bl rl
rm
ai p2 search
ai
q
",
        );

        assert!(output.contains("AI Player 2 set to search."));
        assert!(output.contains("AI players: Player 1 human, Player 2 search"));
        assert!(!output.contains("Error:"));
    }

#[test]
fn enabling_ai_for_current_player_runs_immediately() {
        let output = run_script(
            "ys bm
gs
bl rl
rm
ai p1 priority
q
",
        );

        assert!(output.contains("AI Player 1 set to priority."));
        assert!(output.contains("P1> b 0 rs"));
        assert!(output.contains("Action applied."));
        assert!(output.contains("Turn ended."));
        assert!(output.contains("Current player: Player 2"));
        assert!(!output.contains("Error:"));
    }

#[test]
fn ai_runs_after_human_turn_reaches_ai_player() {
        let output = run_script(
            "ys bm
gs
bl rl
rm
ai p2 priority
b 0 rs
q
",
        );

        assert!(output.contains("AI Player 2 set to priority."));
        assert!(output.contains("P2> x 1 rm ym"));
        assert!(output.contains("Action applied."));
        assert!(output.contains("Turn ended."));
        assert!(output.contains("Current player: Player 1"));
        assert!(!output.contains("Error:"));
    }

#[test]
fn disabling_ai_stops_automatic_play() {
        let output = run_script(
            "ys bm
gs
bl rl
rm
ai p2 priority
ai p2 off
b 0 rs
q
",
        );

        assert!(output.contains("AI Player 2 set to priority."));
        assert!(output.contains("AI Player 2 disabled."));
        assert!(!output.contains("P2> x "));
        assert!(output.contains("Current player: Player 2"));
        assert!(!output.contains("Error:"));
    }

#[test]
fn paid_action_auto_ends_when_no_catastrophe_is_possible() {
        let output = run_script(
            "ys bm
gs
bl rl
rm
b 0 gs
q
",
        );

        assert!(output.contains("Action applied."));
        assert!(output.contains("Turn ended."));
        assert!(output.contains("Current player: Player 2"));
        assert!(output.contains("Remaining actions: 1"));
    }

#[test]
fn paid_action_does_not_auto_end_when_catastrophe_is_possible() {
        let output = run_script(
            "gs gm
gl
ys rm
bl
b 0 gs;
q
",
        );

        assert!(output.contains("Action applied."));
        assert!(!output.contains("Turn ended."));
        assert!(output.contains("Current player: Player 1"));
        assert!(output.contains("Remaining actions: 0"));
        assert!(output.contains("Stars: gs, gm"));
        assert!(output.contains("Ships: P1 gl, P1 gs"));
    }

#[test]
fn catastrophe_auto_ends_after_budget_is_spent_when_none_remain() {
        let output = run_script(
            "gs gm
gl
ys rm
bl
b 0 gs
c 0 g
q
",
        );

        assert!(output.contains("Action applied."));
        assert!(output.contains("Turn ended."));
        assert!(output.contains("Status: finished, winner Player 2"));
    }

#[test]
fn scripted_game_can_reach_a_winner() {
        let output = run_script(
            "gs gm
gl
ys bl
gs
b 0 gs
e
c 0 g
b 1 rs
e
q
",
        );

        assert!(output.contains("Status: finished, winner Player 2"));
    }

#[test]
fn semicolon_prints_state_after_a_successful_command() {
        let output = run_script(
            "ys bm
gs
bl rl
rm
b 0 gs;
q
",
        );

        assert!(output.contains("Action applied."));
        assert!(output.contains("Status: in progress"));
        assert!(output.contains("Ships: P1 gs, P1 gs"));
    }

#[test]
fn show_with_semicolon_only_prints_state_once() {
        let output = run_script(
            "ys bm
gs
bl rl
rm
show;
q
",
        );

        assert_eq!(output.matches("Status: in progress").count(), 1);
    }

#[test]
fn semicolon_prints_state_after_a_parse_error() {
        let output = run_script(
            "ys bm
gs
bl rl
rm
bad;
q
",
        );

        assert!(output.contains("Error: unknown command"));
        assert!(output.contains("Status: in progress"));
        assert!(output.contains("Current player: Player 1"));
        assert!(output.contains("Remaining actions: 1"));
    }

#[test]
fn semicolon_prints_state_after_an_action_error() {
        let output = run_script(
            "ys bm
gs
bl rl
rm
b 9 gs;
q
",
        );

        assert!(output.contains("Error: Turn(InvalidAction(InvalidAction(UnknownSystem"));
        assert!(output.contains("Status: in progress"));
        assert!(output.contains("Current player: Player 1"));
        assert!(output.contains("Remaining actions: 1"));
    }

#[test]
fn user_history_policy_filters_empty_and_save_history_lines() {
        assert!(should_record_user_history("ys bm"));
        assert!(should_record_user_history("show"));
        assert!(should_record_user_history("q"));

        assert!(!should_record_user_history(""));
        assert!(!should_record_user_history("   "));
        assert!(!should_record_user_history("save-history game.yaml"));
        assert!(!should_record_user_history("sh game.yaml"));
        assert!(!should_record_user_history("SH game.yaml"));
    }

#[test]
fn line_input_prompts_and_records_shared_session_history() {
    let lines = ["ys bm", "gs", "bl rl", "rm", "show", "q"].into_iter().map(Line::Read).collect();
    let session = run_lines(lines, &mut MemoryFiles::default());

    assert_eq!(
        session.prompts,
        [
            "Player 1 stars> ",
            "Player 1 ship> ",
            "Player 2 stars> ",
            "Player 2 ship> ",
            "P1> ",
            "P1> ",
        ]
    );
    assert_eq!(session.history, ["ys bm", "gs", "bl rl", "rm", "show", "q"]);
}

#[test]
fn ctrl_c_quits_during_setup() {
    let session = run_lines(vec![Line::Interrupted], &mut MemoryFiles::default());

    assert_eq!(session.prompts, ["Player 1 stars> "]);
    assert!(session.history.is_empty());
    assert!(session.output.contains("Goodbye."));
    assert!(!session.output.contains("Game started."));
}

#[test]
fn ctrl_c_quits_during_command_prompt() {
    let lines = vec![
        Line::Read("ys bm"),
        Line::Read("gs"),
        Line::Read("bl rl"),
        Line::Read("rm"),
        Line::Interrupted,
    ];
    let session = run_lines(lines, &mut MemoryFiles::default());

    assert_eq!(
        session.prompts,
        ["Player 1 stars> ", "Player 1 ship> ", "Player 2 stars> ", "Player 2 ship> ", "P1> "]
    );
    assert_eq!(session.history, ["ys bm", "gs", "bl rl", "rm"]);
    assert!(session.output.contains("Game started."));
    assert!(session.output.contains("Goodbye."));
}

#[test]
fn load_command_replays_command_history_file() {
    let mut files = MemoryFiles::with_text("history.hw", "b 0 gs\nshow\n");
    let output = run_script_with("ys bm\ngs\nbl rl\nrm\nl history.hw\nq\n", &mut files);

    assert!(output.contains("Running commands from "));
    assert!(output.contains("P1> b 0 gs"));
    assert!(output.contains("Action applied."));
    assert!(output.contains("Turn ended."));
    assert!(output.contains("P2> show"));
    assert!(output.contains("Current player: Player 2"));
    assert!(output.contains("Finished commands from "));
    assert!(!output.contains("Error:"));
}

#[test]
fn history_load_ignores_blank_lines_and_comments() {
    let history = "# Build a ship, then the turn passes automatically.\n\nb 0 gs # use green power\n\n# Comments can occupy whole lines.\nshow # inspect the resulting state\n";
    let mut files = MemoryFiles::with_text("history.hw", history);
    let output = run_script_with("ys bm\ngs\nbl rl\nrm\nl history.hw\nq\n", &mut files);

    assert!(!output.contains("Error:"));
    assert!(output.contains("Action applied."));
    assert!(output.contains("Turn ended."));
    assert!(output.contains("Current player: Player 2"));
    assert!(output.contains("Finished commands from "));
}

#[test]
fn history_load_supports_semicolon_state_printing() {
    let mut files = MemoryFiles::with_text("history.hw", "b 0 gs;\n");
    let output = run_script_with("ys bm\ngs\nbl rl\nrm\nl history.hw\nq\n", &mut files);

    assert!(output.contains("Action applied."));
    assert!(output.contains("Status: in progress"));
    assert!(output.contains("Ships: P1 gs, P1 gs"));
}

#[test]
fn history_load_quit_exits_the_session() {
    let mut files = MemoryFiles::with_text("history.hw", "q\n");
    let output = run_script_with("ys bm\ngs\nbl rl\nrm\nl history.hw\nshow\n", &mut files);

    assert!(output.contains("Running commands from "));
    assert!(output.contains("Goodbye."));
    assert!(!output.contains("Status: in progress"));
}

#[test]
fn failed_load_keeps_the_current_game() {
    let output = run_script("ys bm\ngs\nbl rl\nrm\nl missing.yaml\nshow\nq\n");

    assert!(output.contains("Error: I/O error:"));
    assert!(output.contains("Current player: Player 1"));
    assert!(output.contains("Remaining actions: 1"));
}

#[test]
fn malformed_yaml_save_is_not_replayed_as_history() {
    let mut files = MemoryFiles::with_text("broken.yaml", "version: 1\nplayers:\n  - p1\n");
    let output = run_script_with("ys bm\ngs\nbl rl\nrm\nl broken.yaml\nshow\nq\n", &mut files);

    assert!(output.contains("Error:"));
    assert!(!output.contains("Running commands from "));
    assert!(output.contains("Current player: Player 1"));
    assert!(output.contains("Remaining actions: 1"));
}

#[test]
fn load_command_at_setup_reads_history_setup_lines() {
    let mut files = MemoryFiles::with_text("history.hw", "gm ys\nbl\nys rm\ngl\nshow\n");
    let output = run_script_with("l history.hw\nq\n", &mut files);

    assert!(output.contains("Running commands from "));
    assert!(output.contains("Game started."));
    assert!(output.contains("[0] homeworld Player 1"));
    assert!(output.contains("Stars: gm, ys"));
    assert!(output.contains("Ships: P1 bl"));
    assert!(output.contains("[1] homeworld Player 2"));
    assert!(output.contains("Stars: ys, rm"));
    assert!(output.contains("Ships: P2 gl"));
    assert!(output.contains("Finished commands from "));
}

#[test]
fn setup_history_ignores_blank_lines_and_comments() {
    let history = "# Setup starts below.\n\ngm ys # Player 1 stars\nbl # Player 1 ship\n\n# Player 2 setup.\nys rm # Player 2 stars\ngl # Player 2 ship\n\nshow # remaining commands still run\n";
    let mut files = MemoryFiles::with_text("history.hw", history);
    let output = run_script_with("l history.hw\nq\n", &mut files);

    assert!(!output.contains("Error:"));
    assert!(output.contains("Game started."));
    assert!(output.contains("Stars: gm, ys"));
    assert!(output.contains("Ships: P1 bl"));
    assert!(output.contains("Stars: ys, rm"));
    assert!(output.contains("Ships: P2 gl"));
    assert!(output.contains("P1> show"));
}

#[test]
fn failed_setup_load_keeps_prompting_for_setup() {
    let mut files = MemoryFiles::with_text("history.hw", "ys bm\ngs\n");
    let output = run_script_with("l history.hw\nys bm\ngs\nbl rl\nrm\nshow\nq\n", &mut files);

    assert!(output.contains("Error: command history is missing Player 2 stars"));
    assert!(output.contains("Game started."));
    assert!(output.contains("Stars: ys, bm"));
    assert!(output.contains("Stars: bl, rl"));
}

#[test]
fn load_command_at_setup_accepts_yaml_saves() {
    let mut files = MemoryFiles::with_save("game.yaml", SaveFile::from_game(&Game::default(Player::Two)));
    let output = run_script_with("load game.yaml\nq\n", &mut files);

    assert!(output.contains("Loaded from "));
    assert!(output.contains("Game started."));
    assert!(output.contains("Current player: Player 2"));
}

#[test]
fn load_command_replaces_the_current_game() {
    let mut files = MemoryFiles::with_save("game.yaml", SaveFile::from_game(&Game::default(Player::Two)));
    let output = run_script_with("ys bm\ngs\nbl rl\nrm\nl game.yaml\nq\n", &mut files);

    assert!(output.contains("Loaded from "));
    assert!(output.contains("Current player: Player 2"));
}

#[test]
fn load_yaml_replays_commands_but_not_history() {
    let extras = SaveExtras { history: vec!["bad;".to_owned()], commands: vec!["show".to_owned()] };
    let file = SaveFile::from_game_with_extras(&Game::default(Player::One), &extras);
    let mut files = MemoryFiles::with_save("game.yaml", file);
    let output = run_script_with("ys bm\ngs\nbl rl\nrm\nl game.yaml\nq\n", &mut files);

    assert!(output.contains("Loaded from "));
    assert!(output.contains("P1> show"));
    assert!(output.contains("Status: in progress"));
    assert!(!output.contains("unknown command `bad`"));
}

#[test]
fn save_history_command_writes_typed_history_only() {
    let mut files = MemoryFiles::with_text("replay.hw", "show\n");
    let output = run_script_with("ys bm\ngs\nbl rl\nrm\nl replay.hw\nbad;\nsh game.yaml\nq\n", &mut files);

    assert!(output.contains("Saved history to game.yaml."));
    let saved = files.saves.last().expect("a save was written");
    assert_eq!(saved.history, ["ys bm", "gs", "bl rl", "rm", "l replay.hw", "bad;"]);
    assert!(saved.commands.is_empty());
}

#[test]
fn ai_configuration_survives_load_but_is_not_saved() {
    let mut files = MemoryFiles::with_save("loaded.yaml", SaveFile::from_game(&Game::default(Player::Two)));
    let output = run_script_with("ys bm\ngs\nbl rl\nrm\nai p2 priority\nv saved.yaml\nl loaded.yaml\nq\n", &mut files);

    assert!(output.contains("Saved to saved.yaml."));
    assert!(output.contains("Loaded from "));
    assert!(output.contains("P2> x 1 rm ym"));
    assert!(!output.contains("Error:"));
    let saved = files.saves.last().expect("a save was written");
    assert!(!saved.history.iter().chain(&saved.commands).any(|line| line.contains("priority") || line.contains("ai")));
}

#[test]
fn session_ends_at_end_of_input_without_goodbye() {
    let output = run_script("ys bm\ngs\nbl rl\nrm\n");

    assert!(output.contains("Game started."));
    assert!(!output.contains("Goodbye."));
}

#[test]
fn invalid_setup_reprompts_the_same_player() {
    let output = run_script("ys bm\ngs rm\nys bm\ngs\nbl rl\nrm\nq\n");

    assert!(output.contains("Error: homeworld setup needs exactly one ship"));
    assert_eq!(output.matches("Player 1 setup").count(), 2);
    assert!(output.contains("Game started."));
}

#[test]
fn help_and_show_print_exactly_the_help_and_the_board() {
    let mut files = MemoryFiles::default();
    let (mut session, _greeting) = CliSession::start();
    for line in ["ys bm", "gs", "bl rl", "rm"] {
        with_files(&mut session, &mut files, |session, journal| session.submit(line, journal));
    }
    let board = homeworlds::render::render_game(session.game().expect("game started"));
    assert_eq!(with_files(&mut session, &mut files, |session, journal| session.submit("show", journal)).output, board);
    assert_eq!(with_files(&mut session, &mut files, |session, journal| session.submit("help", journal)).output, homeworlds::render::render_help());
    assert_eq!(
        with_files(&mut session, &mut files, |session, journal| session.submit("help;", journal)).output,
        format!("{}{}", homeworlds::render::render_help(), board)
    );
    assert_eq!(with_files(&mut session, &mut files, |session, journal| session.submit("   ", journal)).output, "");
    let error = with_files(&mut session, &mut files, |session, journal| session.submit("frobnicate", journal)).output;
    assert!(error.starts_with("Error: ") && error.ends_with('\n'));
}

#[test]
fn save_command_writes_yaml() {
    let mut files = MemoryFiles::default();
    let output = run_script_with("ys bm\ngs\nbl rl\nrm\nv game.yaml;\nq\n", &mut files);

    assert!(output.contains("Saved to "));
    assert!(output.contains("Status: in progress"));
    let saved = files.saves.last().expect("a save was written");
    assert_eq!(saved.version, 1);
    assert_eq!(saved.systems.len(), 2);
    assert!(saved.history.is_empty());
    assert!(saved.commands.is_empty());
}

#[test]
fn load_yaml_with_history_only_does_not_replay() {
    let extras = SaveExtras { history: vec!["show".to_owned()], commands: Vec::new() };
    let file = SaveFile::from_game_with_extras(&Game::default(Player::One), &extras);
    let mut files = MemoryFiles::with_save("game.yaml", file);
    let output = run_script_with("ys bm\ngs\nbl rl\nrm\nl game.yaml\nq\n", &mut files);

    assert!(output.contains("Loaded from "));
    assert!(!output.contains("P1> show"));
}

#[test]
fn load_with_semicolon_prints_the_loaded_state() {
    let mut files = MemoryFiles::with_save("game.yaml", SaveFile::from_game(&Game::default(Player::Two)));
    let output = run_script_with("ys bm\ngs\nbl rl\nrm\nl game.yaml;\nq\n", &mut files);

    assert!(output.contains("Loaded from "));
    assert!(output.contains("Status: in progress"));
    assert!(output.contains("Current player: Player 2"));
}

#[test]
fn load_source_from_tells_saves_from_histories() {
    let file = SaveFile::from_game(&Game::default(Player::Two));
    match load_source_from("version: 1\n".to_owned(), Ok(file)) {
        Ok(LoadSource::Save(saved)) => assert_eq!(saved.game, Game::default(Player::Two)),
        _ => panic!("a readable save loads as a save"),
    }

    let bad = SaveError::Yaml { message: "not a save".to_owned() };
    match load_source_from("show\nend\n".to_owned(), Err(bad.clone())) {
        Ok(LoadSource::History(text)) => assert_eq!(text, "show\nend\n"),
        _ => panic!("plain text loads as a history"),
    }
    match load_source_from("# saved\n  version: 1\n".to_owned(), Err(bad.clone())) {
        Err(message) => assert_eq!(message, bad.message()),
        _ => panic!("a text that looks like a save is an error"),
    }

    let mut broken = SaveFile::from_game(&Game::default(Player::One));
    broken.version = 2;
    match load_source_from("version: 2\n".to_owned(), Ok(broken.clone())) {
        Ok(LoadSource::History(text)) => assert_eq!(text, "version: 2\n"),
        _ => panic!("an unreadable save that does not look like one is a history"),
    }
    match load_source_from("version: 1\n".to_owned(), Ok(broken)) {
        Err(message) => assert!(message.contains("2")),
        _ => panic!("an unreadable save that looks like one is an error"),
    }
}

#[test]
fn history_setup_reports_the_first_missing_or_bad_line() {
    assert!(matches!(
        game_from_history_setup("ys bm\ngs\n"),
        Err(SetupLoadError::MissingSetupLine(line)) if line == "Player 2 stars"
    ));
    assert!(matches!(
        game_from_history_setup("ys bm\nzz\nbl rl\nrm\n"),
        Err(SetupLoadError::InvalidSetup { player: Player::One, .. })
    ));
    let (game, rest) = game_from_history_setup("ys bm\ngs\nbl rl\nrm\nshow\n").expect("setup reads");
    assert_eq!(game.turn().current_player(), Player::One);
    assert_eq!(rest, vec!["show".to_owned()]);
}

#[test]
fn a_save_asks_to_write_the_typed_path_and_says_where_it_saved() {
    let mut files = MemoryFiles::default();
    let (mut session, _greeting) = CliSession::start();
    for line in ["ys bm", "gs", "bl rl", "rm"] {
        with_files(&mut session, &mut files, |session, journal| session.submit(line, journal));
    }
    let mut journal = FileJournal::new(vec![FileReply::Written(Ok(()))]);
    let outcome = session.submit("v typed.yaml", &mut journal);

    assert!(journal.wanted().is_none());
    assert_eq!(journal.requests().len(), 1);
    match &journal.requests()[0] {
        FileRequest::WriteSave(path, file) => {
            assert_eq!(path, "typed.yaml");
            assert_eq!(file, &SaveFile::from_game(session.game().expect("game started")));
        }
        other => panic!("unexpected request {other:?}"),
    }
    assert_eq!(outcome.output, "Saved to typed.yaml.\n");
}

#[test]
fn a_load_asks_for_the_typed_path_first_and_a_read_error_changes_nothing() {
    let mut files = MemoryFiles::default();
    let (mut session, _greeting) = CliSession::start();
    for line in ["ys bm", "gs", "bl rl", "rm"] {
        with_files(&mut session, &mut files, |session, journal| session.submit(line, journal));
    }
    let before = session.game().cloned();
    let mut journal = FileJournal::new(vec![FileReply::Text(Err("I/O error: missing".to_owned()))]);
    let outcome = session.submit("load other.yaml", &mut journal);

    assert!(journal.wanted().is_none());
    assert_eq!(journal.requests(), &vec![FileRequest::ReadText("other.yaml".to_owned())]);
    assert_eq!(outcome.output, "Error: I/O error: missing\n");
    assert_eq!(session.game().cloned(), before);
}

#[test]
fn a_run_without_answers_names_the_request_to_perform() {
    let mut files = MemoryFiles::default();
    let (mut session, _greeting) = CliSession::start();
    for line in ["ys bm", "gs", "bl rl", "rm"] {
        with_files(&mut session, &mut files, |session, journal| session.submit(line, journal));
    }
    let mut journal = FileJournal::new(Vec::new());
    session.submit("load game.yaml", &mut journal);

    assert_eq!(journal.wanted(), Some(&FileRequest::ReadText("game.yaml".to_owned())));
}

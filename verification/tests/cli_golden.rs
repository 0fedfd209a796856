use homeworlds::cli::run;
use homeworlds::save::{SaveError, SaveFile};
use homeworlds::session::{history_commands, FileJournal, FileReply, FileRequest};

struct GoldenCase {
    name: &'static str,
    history: &'static str,
    expect: &'static [&'static str],
    reject: &'static [&'static str],
}

const PARTIAL_OPENING: &str = "# Both players set up, then look at the board.
ys bm
gs
bl rl
rm
show
";

const SHORT_TERMINAL_GAME: &str = "gs gm
gl
ys rm
bl
# Player 1 builds, then destroys their own homeworld's green.
b 0 gs
c 0 g
";

const COMMENTS_AND_BLANKS: &str = "# Opening comment

ys bm
gs # the first ship

bl rl
rm
b 0 gs;   # build and show
";

const GOLDEN_CASES: &[GoldenCase] = &[
    GoldenCase {
        name: "partial opening",
        history: PARTIAL_OPENING,
        expect: &[
            "Game started.",
            "Status: in progress",
            "Current player: Player 1",
            "[0] homeworld Player 1",
            "Ships: P1 gs",
        ],
        reject: &["Error:"],
    },
    GoldenCase {
        name: "short terminal game",
        history: SHORT_TERMINAL_GAME,
        expect: &["Game started.", "Action applied.", "Turn ended.", "Status: finished, winner Player 2"],
        reject: &["Error:"],
    },
    GoldenCase {
        name: "comments and blanks",
        history: COMMENTS_AND_BLANKS,
        expect: &[
            "Game started.",
            "Action applied.",
            "Turn ended.",
            "Current player: Player 2",
            "Ships: P1 gs, P1 gs",
        ],
        reject: &["Error:", "Opening comment"],
    },
];

/// A file system with no files.
struct NoFiles;

impl NoFiles {
    fn read_text(&mut self, _path: &str) -> Result<String, SaveError> {
        Err(SaveError::Io { message: "No such file or directory (os error 2)".to_owned() })
    }

    fn parse_save(&mut self, _text: &str) -> Result<SaveFile, SaveError> {
        Err(SaveError::Yaml { message: "not a save".to_owned() })
    }

    fn write_save(&mut self, _path: &str, _file: &SaveFile) -> Result<(), SaveError> {
        Err(SaveError::Io { message: "read-only".to_owned() })
    }
}

/// An answer given to a file request, kept to give it again on the next run.
#[derive(Clone)]
enum Answer {
    Text(Result<String, String>),
    Parsed(Result<SaveFile, SaveError>),
    Written(Result<(), String>),
}

impl Answer {
    fn reply(&self) -> FileReply {
        match self {
            Answer::Text(result) => FileReply::Text(result.clone()),
            Answer::Parsed(result) => FileReply::Parsed(result.clone()),
            Answer::Written(result) => FileReply::Written(result.clone()),
        }
    }
}

/// Runs `step` on a copy of `state` until every file request it makes has
/// its answer, performing each request once, in order, on `files`.
fn with_files<T: Clone, R>(
    state: &mut T,
    files: &mut NoFiles,
    mut step: impl FnMut(&mut T, &mut FileJournal) -> R,
) -> R {
    let mut answers: Vec<Answer> = Vec::new();
    loop {
        let mut attempt = state.clone();
        let mut journal = FileJournal::new(answers.iter().map(Answer::reply).collect());
        let result = step(&mut attempt, &mut journal);
        match journal.wanted() {
            None => {
                *state = attempt;
                return result;
            }
            Some(request) => {
                let answer = match request {
                    FileRequest::ReadText(path) => Answer::Text(files.read_text(path).map_err(|e| e.message())),
                    FileRequest::ParseSave(text) => Answer::Parsed(files.parse_save(text)),
                    FileRequest::WriteSave(path, file) => Answer::Written(files.write_save(path, file).map_err(|e| e.message())),
                };
                answers.push(answer);
            }
        }
    }
}

fn run_history(history: &str) -> String {
    let input = command_stream(history);
    with_files(&mut (), &mut NoFiles, |_, journal| run(&input, journal))
}

fn command_stream(history: &str) -> String {
    history_commands(history).into_iter().fold(String::new(), |mut commands, command| {
        commands.push_str(&command);
        commands.push('\n');
        commands
    })
}

#[test]
fn golden_sessions_match_expectations() {
    for case in GOLDEN_CASES {
        let output = run_history(case.history);

        for expected in case.expect {
            assert!(output.contains(expected), "{} should contain {expected:?}\n\n{output}", case.name);
        }

        for rejected in case.reject {
            assert!(!output.contains(rejected), "{} should not contain {rejected:?}\n\n{output}", case.name);
        }
    }
}

#[test]
fn command_stream_ignores_blank_lines_and_comments() {
    let history = "
ys bm

# setup ship
gs # inline comment

show
";

    assert_eq!(command_stream(history), "ys bm\ngs\nshow\n");
}

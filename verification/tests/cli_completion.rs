use homeworlds::completion::{command_completion, completion_candidates, CompletionSnapshot, PathCompleter};
use homeworlds::paths::DirectoryEntry;
use homeworlds::{Game, Player};

/// A file system with no files.
struct NoFiles;

impl PathCompleter for NoFiles {
    fn read_directory(&self, _directory: &str) -> Option<Vec<DirectoryEntry>> {
        None
    }
}

/// A file system with a few files in one directory.
struct SomeFiles;

impl PathCompleter for SomeFiles {
    fn read_directory(&self, directory: &str) -> Option<Vec<DirectoryEntry>> {
        if directory != "saves" && directory != "saves/" {
            return None;
        }
        Some(vec![
            DirectoryEntry { name: "history.hw".to_owned(), is_directory: false },
            DirectoryEntry { name: "game.yaml".to_owned(), is_directory: false },
        ])
    }
}

/// A temporary directory holding a saved game and a history.
struct TempDirectory;

const TEMP_DIRECTORY: &str = "/tmp/hw-cli-tab-completion";

impl PathCompleter for TempDirectory {
    fn read_directory(&self, directory: &str) -> Option<Vec<DirectoryEntry>> {
        if directory != TEMP_DIRECTORY {
            return None;
        }
        Some(vec![
            DirectoryEntry { name: "game.yaml".to_owned(), is_directory: false },
            DirectoryEntry { name: "history.hw".to_owned(), is_directory: false },
        ])
    }
}

#[test]
fn tab_completion_suggests_paths_for_file_arguments() {
    let prefix = format!("{TEMP_DIRECTORY}/g");
    let line = format!("load {prefix}");
    assert_eq!(
        completion_candidates(&line, line.len(), &CompletionSnapshot::default(), &TempDirectory),
        Some((5, vec![format!("{TEMP_DIRECTORY}/game.yaml")]))
    );
}

#[test]
fn tab_completion_expands_exact_command_shorthands() {
        for (input, expected) in [
            ("h", "help"),
            ("e", "end"),
            ("q", "quit"),
            ("v", "save"),
            ("sh", "save-history"),
            ("l", "load"),
            ("b", "build"),
            ("t", "travel"),
            ("tr", "trade"),
            ("x", "trade"),
            ("sac", "sacrifice"),
            ("i", "invade"),
            ("c", "catastrophe"),
            ("B", "build"),
        ] {
            assert_eq!(
                command_completion(input, input.len()),
                Some((0, expected)),
                "{input} should complete to {expected}"
            );
        }
    }

#[test]
fn tab_completion_expands_unique_command_partials() {
        for (input, expected) in [
            ("a", "ai"),
            ("bu", "build"),
            ("cat", "catastrophe"),
            ("en", "end"),
            ("he", "help"),
            ("inv", "invade"),
            ("lo", "load"),
            ("qui", "quit"),
            ("sho", "show"),
            ("save-h", "save-history"),
            ("trav", "travel"),
        ] {
            assert_eq!(
                command_completion(input, input.len()),
                Some((0, expected)),
                "{input} should complete to {expected}"
            );
        }
    }

#[test]
fn tab_completion_preserves_text_after_first_token() {
        assert_eq!(command_completion("b 0 gs", 1), Some((0, "build")));
        assert_eq!(command_completion("  b 0 gs", 3), Some((2, "build")));
    }

#[test]
fn tab_completion_ignores_ambiguous_partials_arguments_and_semicolons() {
        for input in [
            "", "   ", "s", "show", "build", "save", "sa", "sav", "b;", "b 0 gs;",
        ] {
            assert_eq!(command_completion(input, input.len()), None, "{input}");
        }

        assert_eq!(command_completion("b ", 2), None);
        assert_eq!(command_completion("b 0 gs", "b 0 gs".len()), None);
    }

#[test]
fn tab_completion_suggests_system_ids_for_system_arguments() {
        let snapshot = CompletionSnapshot::from_game(&Game::default(Player::One));

        assert_eq!(
            completion_candidates("b ", 2, &snapshot, &NoFiles),
            Some((2, vec!["0".to_owned(), "1".to_owned()]))
        );
        assert_eq!(
            completion_candidates("s ", 2, &snapshot, &NoFiles),
            Some((2, vec!["0".to_owned(), "1".to_owned()]))
        );
    }

#[test]
fn tab_completion_suggests_board_piece_arguments() {
    let snapshot = CompletionSnapshot::from_game(&Game::default(Player::One));

    assert_eq!(completion_candidates("b 0 g", 5, &snapshot, &NoFiles), Some((4, vec!["gs".to_owned()])));
    assert_eq!(completion_candidates("i 1 r", 5, &snapshot, &NoFiles), Some((4, vec!["rm".to_owned()])));
    assert_eq!(completion_candidates("i 1 R", 5, &snapshot, &NoFiles), Some((4, vec!["rm".to_owned()])));
}

#[test]
fn tab_completion_suggests_travel_target_words_and_catastrophe_colors() {
        let snapshot = CompletionSnapshot::from_game(&Game::default(Player::One));

        assert_eq!(
            completion_candidates("t 0 gs ", 7, &snapshot, &NoFiles),
            Some((
                7,
                vec![
                    "existing".to_owned(),
                    "new".to_owned(),
                    "x".to_owned(),
                    "n".to_owned(),
                ],
            ))
        );
        assert_eq!(
            completion_candidates("t 0 gs e", 8, &snapshot, &NoFiles),
            Some((7, vec!["existing".to_owned()]))
        );
        assert_eq!(
            completion_candidates("c 0 r", 5, &snapshot, &NoFiles),
            Some((4, vec!["red".to_owned()]))
        );
    }

#[test]
fn tab_completion_suggests_ai_arguments() {
        assert_eq!(
            completion_candidates("ai ", 3, &CompletionSnapshot::default(), &NoFiles),
            Some((3, vec!["show".to_owned(), "p1".to_owned(), "p2".to_owned()]))
        );
        assert_eq!(
            completion_candidates("ai p2 p", 7, &CompletionSnapshot::default(), &NoFiles),
            Some((6, vec!["priority".to_owned()]))
        );
        assert_eq!(
            completion_candidates("ai p2 s", 7, &CompletionSnapshot::default(), &NoFiles),
            Some((6, vec!["search".to_owned()]))
        );
    }

#[test]
fn tab_completion_asks_for_paths_for_file_arguments() {
    assert_eq!(
        completion_candidates("load saves/g", 12, &CompletionSnapshot::default(), &SomeFiles),
        Some((5, vec!["saves/game.yaml".to_owned()]))
    );
    assert_eq!(
        completion_candidates("v saves/", 8, &CompletionSnapshot::default(), &SomeFiles),
        Some((2, vec!["saves/game.yaml".to_owned(), "saves/history.hw".to_owned()]))
    );
    assert_eq!(completion_candidates("load other/", 11, &CompletionSnapshot::default(), &SomeFiles), None);
}

#[test]
fn snapshot_lists_system_ids_and_each_visible_piece_once() {
    let snapshot = CompletionSnapshot::from_game(&Game::default(Player::One));

    assert_eq!(snapshot.system_ids, vec!["0".to_owned(), "1".to_owned()]);
    assert_eq!(snapshot.pieces, vec!["ys".to_owned(), "gs".to_owned(), "bl".to_owned(), "rm".to_owned()]);
}

#[test]
fn tab_completion_of_travel_targets_follows_the_target_word() {
    let snapshot = CompletionSnapshot::from_game(&Game::default(Player::One));

    assert_eq!(
        completion_candidates("t 0 gs x ", 9, &snapshot, &NoFiles),
        Some((9, vec!["0".to_owned(), "1".to_owned()]))
    );
    assert_eq!(
        completion_candidates("t 0 gs n y", 10, &snapshot, &NoFiles),
        Some((9, vec!["ys".to_owned()]))
    );
    assert_eq!(
        completion_candidates("t 0 gs n ys ", 12, &snapshot, &NoFiles),
        Some((12, vec!["ys".to_owned(), "gs".to_owned(), "bl".to_owned(), "rm".to_owned()]))
    );
    assert_eq!(completion_candidates("t 0 gs x 1 ", 11, &snapshot, &NoFiles), None);
}

#[test]
fn tab_completion_needs_the_cursor_at_the_end() {
    let snapshot = CompletionSnapshot::from_game(&Game::default(Player::One));

    assert_eq!(completion_candidates("b 0 g", 3, &snapshot, &NoFiles), None);
    assert_eq!(completion_candidates("zz ", 3, &snapshot, &NoFiles), None);
    assert_eq!(completion_candidates("b 0 gs;", 7, &snapshot, &NoFiles), None);
}

use homeworlds::paths::{
    candidates_from_entries, path_candidates, path_replacement, sort_texts, split_path, text_at_most, DirectoryEntry,
    PathCompleter,
};

fn entry(name: &str, is_directory: bool) -> DirectoryEntry {
    DirectoryEntry { name: name.to_owned(), is_directory }
}

fn chars(text: &str) -> Vec<char> {
    text.chars().collect()
}

/// A directory tree with one folder of saves beside a file.
struct Tree;

impl PathCompleter for Tree {
    fn read_directory(&self, directory: &str) -> Option<Vec<DirectoryEntry>> {
        match directory {
            "." => Some(vec![entry("saves", true), entry("notes.txt", false), entry("scratch", true)]),
            "saves" | "saves/" => Some(vec![
                entry("old game.yaml", false),
                entry("game.yaml", false),
                entry("archive", true),
                entry("game2.yaml", false),
            ]),
            _ => None,
        }
    }
}

#[test]
fn split_path_separates_directory_and_prefix() {
    assert_eq!(split_path("saves/ga"), ("saves".to_owned(), "ga".to_owned()));
    assert_eq!(split_path("saves/"), ("saves/".to_owned(), String::new()));
    assert_eq!(split_path("game"), (String::new(), "game".to_owned()));
    assert_eq!(split_path(""), (String::new(), String::new()));
    assert_eq!(split_path("/etc/pa"), ("/etc".to_owned(), "pa".to_owned()));
}

#[test]
fn path_replacement_marks_directories_and_drops_the_typed_text_and_spaces() {
    assert_eq!(path_replacement("sa", "saves", true), Some("saves/".to_owned()));
    assert_eq!(path_replacement("sa", "saves.yaml", false), Some("saves.yaml".to_owned()));
    assert_eq!(path_replacement("saves", "saves", true), None);
    assert_eq!(path_replacement("s", "saves/old game.yaml", false), None);
    assert_eq!(path_replacement("s", "tab\tname", false), None);
}

#[test]
fn text_order_compares_characters_then_length() {
    assert!(text_at_most(&chars("abc"), &chars("abd")));
    assert!(!text_at_most(&chars("abd"), &chars("abc")));
    assert!(text_at_most(&chars("ab"), &chars("abc")));
    assert!(!text_at_most(&chars("abc"), &chars("ab")));
    assert!(text_at_most(&chars("same"), &chars("same")));
    assert!(text_at_most(&chars("Zebra"), &chars("apple")));
}

#[test]
fn sort_texts_orders_like_std() {
    let texts: Vec<String> = ["game2.yaml", "archive/", "game.yaml", "Zed", "game.yaml", "é", "e"]
        .into_iter()
        .map(str::to_owned)
        .collect();
    let mut expected = texts.clone();
    expected.sort();
    assert_eq!(sort_texts(texts), expected);
    assert_eq!(sort_texts(Vec::new()), Vec::<String>::new());
}

#[test]
fn candidates_from_entries_filter_join_and_sort() {
    let entries = vec![entry("game2.yaml", false), entry("game.yaml", false), entry("games", true), entry("notes", false)];
    assert_eq!(
        candidates_from_entries("saves/ga", "saves", "ga", &entries),
        vec!["saves/game.yaml".to_owned(), "saves/game2.yaml".to_owned(), "saves/games/".to_owned()]
    );
    assert_eq!(
        candidates_from_entries("ga", "", "ga", &entries),
        vec!["game.yaml".to_owned(), "game2.yaml".to_owned(), "games/".to_owned()]
    );
    assert_eq!(candidates_from_entries("notes", "", "notes", &entries), Vec::<String>::new());
}

#[test]
fn path_candidates_read_the_directory_of_the_typed_path() {
    assert_eq!(path_candidates("s", &Tree), vec!["saves/".to_owned(), "scratch/".to_owned()]);
    assert_eq!(
        path_candidates("saves/", &Tree),
        vec!["saves/archive/".to_owned(), "saves/game.yaml".to_owned(), "saves/game2.yaml".to_owned()]
    );
    assert_eq!(path_candidates("saves/game.", &Tree), vec!["saves/game.yaml".to_owned()]);
    assert_eq!(path_candidates("missing/x", &Tree), Vec::<String>::new());
}

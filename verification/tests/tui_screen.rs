use homeworlds::screen::{bank_lines, board_lines, render_status, Segment};
use homeworlds::{Color, Game, HomeworldSetup, Piece, Player, Size};

fn sample_game() -> Game {
    Game::new(
        [
            HomeworldSetup::new(
                vec![Piece::new(Color::Yellow, Size::Small), Piece::new(Color::Blue, Size::Medium)],
                Piece::owned(Color::Green, Size::Small, Player::One),
            ),
            HomeworldSetup::new(
                vec![Piece::new(Color::Blue, Size::Large), Piece::new(Color::Red, Size::Large)],
                Piece::owned(Color::Red, Size::Medium, Player::Two),
            ),
        ],
        Player::One,
    )
    .expect("game starts")
}

fn lines_text(lines: &[Vec<Segment>]) -> String {
    lines.iter().map(|line| line_text(line)).collect::<Vec<_>>().join("\n")
}

fn line_text(line: &[Segment]) -> String {
    line.iter().map(|segment| segment.text.as_str()).collect::<Vec<_>>().join("")
}

fn span_color(lines: &[Vec<Segment>], content: &str) -> Option<Color> {
    lines.iter().find_map(|line| line.iter().find(|segment| segment.text == content).and_then(|segment| segment.color))
}

fn line_color(lines: &[Vec<Segment>], prefix: &str) -> Option<Color> {
    lines
        .iter()
        .find(|line| line_text(line).starts_with(prefix))
        .and_then(|line| line.first())
        .and_then(|segment| segment.color)
}

fn line_spans_have_color(lines: &[Vec<Segment>], prefix: &str, color: Color) -> bool {
    lines
        .iter()
        .find(|line| line_text(line).starts_with(prefix))
        .is_some_and(|line| !line.is_empty() && line.iter().all(|segment| segment.color == Some(color)))
}

#[test]
fn board_lines_render_systems_without_bank_section() {
    let text = lines_text(&board_lines(&sample_game()));

    assert!(text.contains("Status: in progress"));
    assert!(text.contains("Current player: Player 1"));
    assert!(text.contains("Remaining actions: 1"));
    assert!(text.contains("[0] homeworld Player 1"));
    assert!(text.contains("Stars: ys, bm"));
    assert!(text.contains("Ships: P1 gs"));
    assert!(!text.contains("Bank:"));
    assert!(!text.contains("red: small="));
}

#[test]
fn board_lines_color_piece_tokens_by_game_color() {
    let lines = board_lines(&sample_game());

    assert_eq!(span_color(&lines, "ys"), Some(Color::Yellow));
    assert_eq!(span_color(&lines, "bm"), Some(Color::Blue));
    assert_eq!(span_color(&lines, "gs"), Some(Color::Green));
    assert_eq!(span_color(&lines, "rm"), Some(Color::Red));
}

#[test]
fn bank_lines_color_each_bank_row_by_game_color() {
    let lines = bank_lines(&sample_game());

    assert_eq!(line_color(&lines, "red:"), Some(Color::Red));
    assert!(line_spans_have_color(&lines, "red:", Color::Red));
    assert_eq!(line_color(&lines, "yellow:"), Some(Color::Yellow));
    assert!(line_spans_have_color(&lines, "yellow:", Color::Yellow));
    assert_eq!(line_color(&lines, "green:"), Some(Color::Green));
    assert!(line_spans_have_color(&lines, "green:", Color::Green));
    assert_eq!(line_color(&lines, "blue:"), Some(Color::Blue));
    assert!(line_spans_have_color(&lines, "blue:", Color::Blue));
}

#[test]
fn board_lines_list_every_system_in_order() {
    let text = lines_text(&board_lines(&sample_game()));

    assert_eq!(
        text,
        "Status: in progress\nCurrent player: Player 1\nRemaining actions: 1\nSystems:\n\
         [0] homeworld Player 1\n  Stars: ys, bm\n  Ships: P1 gs\n\
         [1] homeworld Player 2\n  Stars: bl, rl\n  Ships: P2 rm"
    );
}

#[test]
fn bank_lines_count_each_size() {
    let lines = bank_lines(&sample_game());

    assert_eq!(line_text(&lines[0]), "red: small=3 medium=2 large=2");
    assert_eq!(line_text(&lines[3]), "blue: small=3 medium=2 large=2");
}

#[test]
fn status_bar_names_the_player_and_actions() {
    assert_eq!(render_status(&sample_game()), "Current player: One | actions: 1");
    assert_eq!(render_status(&Game::default(Player::Two)), "Current player: Two | actions: 1");
}

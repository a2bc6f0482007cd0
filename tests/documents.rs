use puzzle_studies::puzzle::{concatenate_pgn, Puzzle};
use puzzle_studies::staging::App;
use puzzle_studies::termcolors::{color, Color};

fn puzzle(id: &str, rating: i32, solution: &[&str], themes: &[&str], fen: &str, direct: Option<bool>) -> Puzzle {
    Puzzle {
        id: id.to_string(),
        rating,
        solution: solution.iter().map(|s| s.to_string()).collect(),
        themes: themes.iter().map(|s| s.to_string()).collect(),
        fen: fen.to_string(),
        imported_directly: direct,
    }
}

#[test]
fn info_comment_lists_link_rating_and_themes() {
    let p = puzzle("abc12", 1500, &["e2e4"], &["mateIn2", "short", "endgame"], "8/8/8/8/8/8/4P3/8 w - - 0 1", Some(true));
    assert_eq!(
        p.info_comment(),
        "https://lichess.org/training/abc12 (from ID)\nRating - 1500\nThemes - Mate in2, Short, Endgame"
    );
}

#[test]
fn info_comment_from_history_with_negative_rating() {
    let p = puzzle("zz", -5, &[], &["crushingBlow"], "8/8/8/8/8/8/8/8 w - - 0 1", None);
    assert_eq!(
        p.info_comment(),
        "https://lichess.org/training/zz (from puzzle history)\nRating - -5\nThemes - Crushing blow"
    );
}

#[test]
fn build_pgn_white_to_move() {
    let p = puzzle("abc12", 1500, &["e2e4"], &["mateIn2"], "8/8/8/8/8/8/4P3/8 w - - 0 1", Some(true));
    let expected = "[Event \"Puzzle 3\"]\n[Result \"*\"]\n[Variant \"From Position\"]\n[ECO \"?\"]\n[Opening \"?\"]\n[FEN \"8/8/8/8/8/8/4P3/8 w - - 0 1\"]\n[SetUp \"1\"]\n[ChapterMode \"gamebook\"]\n\n{ White to move \n}\n1. e4 { https://lichess.org/training/abc12 (from ID)\nRating - 1500\nThemes - Mate in2 } ";
    assert_eq!(p.build_pgn(3).unwrap(), expected);
}

#[test]
fn build_pgn_black_to_move_with_last_move() {
    let p = puzzle("q1", 2100, &["f4e3", "a1b1"], &["enPassant"], "8/8/8/8/4Pp2/8/8/K7 b - e3 0 1", None);
    let expected = "[Event \"Puzzle 12\"]\n[Result \"*\"]\n[Variant \"From Position\"]\n[ECO \"?\"]\n[Opening \"?\"]\n[FEN \"8/8/8/8/4Pp2/8/8/K7 b - e3 0 1\"]\n[SetUp \"1\"]\n[ChapterMode \"gamebook\"]\n\n{ Black to move \n(Last move: e4)\n}\n1... fxe3 { Correct } 2... Ka1b1 { https://lichess.org/training/q1 (from puzzle history)\nRating - 2100\nThemes - En passant } *";
    assert_eq!(p.build_pgn(12).unwrap(), expected);
}

#[test]
fn build_pgn_reports_bad_solution() {
    let p = puzzle("q1", 2100, &["a1a1a1"], &[], "8/8/8/8/8/8/8/K7 w - - 0 1", None);
    assert!(p.build_pgn(1).is_err());
}

#[test]
fn concatenate_numbers_chapters_from_offset() {
    let a = puzzle("a", 1, &["a1a2"], &[], "8/8/8/8/8/8/8/K7 w - - 0 1", None);
    let b = puzzle("b", 2, &["a1b1"], &[], "8/8/8/8/8/8/8/K7 w - - 0 1", None);
    let joined = concatenate_pgn(&vec![a.clone(), b.clone()], true).unwrap();
    let first = a.build_pgn(2).unwrap();
    let second = b.build_pgn(3).unwrap();
    assert_eq!(joined, format!("{}\n\n{}", first, second));
    assert!(joined.starts_with("[Event \"Puzzle 2\"]"));
    assert_eq!(concatenate_pgn(&vec![], false).unwrap(), "");
}

#[test]
fn color_wraps_text_in_escape_codes() {
    assert_eq!(color("hi", Color::Red), "\x1b[31mhi\x1b[0m");
    assert_eq!(color("", Color::Cyan), "\x1b[36m\x1b[0m");
}

#[test]
fn new_session_is_empty() {
    let mut app = App::new();
    assert!(app.pat.is_empty());
    assert!(app.study_id.is_empty());
    assert!(app.puzzles.is_empty());
    assert!(!app.is_data_stale);
    app.puzzles.push(puzzle("x1", 1, &[], &[], "8/8/8/8/8/8/8/8 w - - 0 1", None));
    assert_eq!(app.get_staged_ids(), vec!["x1".to_string()]);
}

#[test]
fn themes_are_made_readable() {
    let p = puzzle("t", 1, &[], &["mateIn2", "advancedPawn", "x", "oneMove"], "8/8/8/8/8/8/8/8 w - - 0 1", None);
    assert_eq!(p.formatted_themes(), "Mate in2, Advanced pawn, X, One move");
    let q = puzzle("t", 1, &[], &[], "8/8/8/8/8/8/8/8 w - - 0 1", None);
    assert_eq!(q.formatted_themes(), "");
}

use puzzle_studies::error::NotationError;
use puzzle_studies::puzzle::{
    ids_to_fetch, select_incorrect, DirectPuzzle, DirectPuzzleData, DirectPuzzleGameData, Puzzle, PuzzleAttempt,
};
use puzzle_studies::staging::{App, Command, StageError, STAGE_CAPACITY};
use puzzle_studies::study::chapter_ids;

fn puzzle(id: &str) -> Puzzle {
    Puzzle {
        id: id.to_string(),
        rating: 1000,
        solution: vec![],
        themes: vec![],
        fen: "8/8/8/8/8/8/8/8 w - - 0 1".to_string(),
        imported_directly: Some(true),
    }
}

fn strings(v: &[&str]) -> Vec<String> {
    v.iter().map(|s| s.to_string()).collect()
}

#[test]
fn direct_puzzle_takes_final_position_of_game() {
    let data = DirectPuzzleData {
        game: DirectPuzzleGameData { pgn: "e4 e5".to_string() },
        puzzle: DirectPuzzle { rating: 1800, solution: strings(&["g1f3"]), themes: strings(&["opening"]) },
    };
    let p = Puzzle::from_direct("abcde".to_string(), data).unwrap();
    assert_eq!(p.id, "abcde");
    assert_eq!(p.rating, 1800);
    assert_eq!(p.solution, vec!["g1f3"]);
    assert_eq!(p.fen, "rnbqkbnr/pppp1ppp/8/4p3/4P3/8/PPPP1PPP/RNBQKBNR w KQkq e6 0 1");
    assert_eq!(p.imported_directly, Some(true));
}

#[test]
fn direct_puzzle_reports_bad_game() {
    let data = DirectPuzzleData {
        game: DirectPuzzleGameData { pgn: "e4 Qz".to_string() },
        puzzle: DirectPuzzle { rating: 1, solution: vec![], themes: vec![] },
    };
    assert_eq!(Puzzle::from_direct("x".to_string(), data).err(), Some(NotationError::MalformedPly(1)));
}

#[test]
fn history_page_keeps_lost_new_puzzles() {
    let attempts = vec![
        PuzzleAttempt { win: false, puzzle: puzzle("a"), date: 10 },
        PuzzleAttempt { win: true, puzzle: puzzle("b"), date: 20 },
        PuzzleAttempt { win: false, puzzle: puzzle("c"), date: 30 },
        PuzzleAttempt { win: false, puzzle: puzzle("d"), date: 40 },
    ];
    let (kept, last, dups) = select_incorrect(attempts, &strings(&["c"]));
    let ids: Vec<&str> = kept.iter().map(|p| p.id.as_str()).collect();
    assert_eq!(ids, vec!["a", "d"]);
    assert!(kept.iter().all(|p| p.imported_directly.is_none()));
    assert_eq!(last, 40);
    assert_eq!(dups, 1);
}

#[test]
fn history_page_with_nothing_kept() {
    let (kept, last, dups) = select_incorrect(vec![], &vec![]);
    assert!(kept.is_empty());
    assert_eq!(last, 0);
    assert_eq!(dups, 0);
}

#[test]
fn ids_skip_ignored_and_repeated() {
    let (fetch, dups) = ids_to_fetch(&strings(&["aaaaa", "bbbbb", "aaaaa", "ccccc"]), &strings(&["ccccc"]));
    assert_eq!(fetch, vec!["aaaaa", "bbbbb"]);
    assert_eq!(dups, 2);
}

#[test]
fn chapter_ids_from_site_headers() {
    let body = "[Event \"x\"]\r\n[Site \"https://lichess.org/study/AbCdEfGh/Ch1\"]\r\n\r\n1. e4 *\n[Site \"https://lichess.org/study/AbCdEfGh/Ch2\"]\n[Site nothing";
    assert_eq!(chapter_ids(body), vec!["Ch1", "Ch2"]);
    assert!(chapter_ids("").is_empty());
}

#[test]
fn stage_truncates_at_capacity() {
    let mut app = App::new();
    let first: Vec<Puzzle> = (0..60).map(|i| puzzle(&format!("p{}", i))).collect();
    assert_eq!(app.stage(first), 0);
    let more: Vec<Puzzle> = (0..7).map(|i| puzzle(&format!("q{}", i))).collect();
    assert_eq!(app.stage(more), 3);
    assert_eq!(app.puzzles.len(), STAGE_CAPACITY);
    assert_eq!(app.puzzles[63].id, "q3");
    assert_eq!(app.begin_autofill(), Err(StageError::StageFull));
    assert_eq!(app.clear_puzzles(), 64);
    assert_eq!(app.begin_autofill(), Ok(64));
}

#[test]
fn upload_checks_in_order() {
    let mut app = App::new();
    assert_eq!(app.check_upload(), Err(StageError::NoStudy));
    app.study_id = "AbCdEfGh".to_string();
    assert_eq!(app.check_upload(), Err(StageError::NothingStaged));
    app.stage(vec![puzzle("a")]);
    assert_eq!(app.check_upload(), Ok(()));
    app.is_data_stale = true;
    assert_eq!(app.check_upload(), Err(StageError::AlreadyUploaded));
    assert_eq!(
        StageError::AlreadyUploaded.message(),
        "The currently staged puzzles have already been uploaded to this study"
    );
    assert_eq!(StageError::StageFull.message(), "Stage is already full; use 'c' to clear it first");
}

#[test]
fn commands_by_letter() {
    assert_eq!(Command::parse("q"), Command::Quit);
    assert_eq!(Command::parse("Q"), Command::Quit);
    assert_eq!(Command::parse("h"), Command::Help);
    assert_eq!(Command::parse("P"), Command::ChangePat);
    assert_eq!(Command::parse("s"), Command::SetStudy);
    assert_eq!(Command::parse("c"), Command::Clear);
    assert_eq!(Command::parse("f"), Command::Autofill);
    assert_eq!(Command::parse("u"), Command::Upload);
    assert_eq!(Command::parse("abcde"), Command::Other);
    assert_eq!(Command::parse(""), Command::Other);
}

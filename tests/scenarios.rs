use puzzle_studies::decoder::pgn_to_fen;
use puzzle_studies::encoder::fen_to_pgn;

fn moves(v: &[&str]) -> Vec<String> {
    v.iter().map(|s| s.to_string()).collect()
}

#[test]
fn first_pawn_push_is_destination_only() {
    let out = fen_to_pgn(
        "6k1/5p2/2p3pQ/1p3q1P/2n1pP2/1BP3R1/1P3PK1/r7 b - - 1 1",
        moves(&["e4e3"]),
    )
    .unwrap();
    assert_eq!(out, vec!["e3"]);
}

#[test]
fn king_step_embeds_origin() {
    let out = fen_to_pgn("2k5/1pp3N1/p3P3/5p2/7p/P5n1/1PP3P1/2K5 b - - 0 1", moves(&["c8d8"])).unwrap();
    assert_eq!(out, vec!["Kc8d8"]);
}

#[test]
fn decoding_short_game_gives_board_and_turn() {
    let fen = pgn_to_fen("g4 d5 Bg2 Bxg4 c4 c6 Qb3 Nf6 Qxb7 e6 Qxa8 Bc5 Qb7 Ne4 f3").unwrap();
    assert!(fen.starts_with("1n1qk2r/pQ3ppp/2p1p3/2bp4/2P1n1b1/5P2/PP1PP1BP/RNB1K1NR b"));
}

#[test]
fn en_passant_removes_the_passed_pawn() {
    let fen = pgn_to_fen("e4 a6 e5 d5 exd6").unwrap();
    assert_eq!(fen, "rnbqkbnr/1pp1pppp/p2P4/8/8/8/PPPP1PPP/RNBQKBNR b KQkq - 0 1");
}

#[test]
fn en_passant_target_expires_after_one_ply() {
    let fen = pgn_to_fen("e4 a6 e5 d5 Nf3 Nc6 exd6").unwrap();
    assert_eq!(fen, "r1bqkbnr/1pp1pppp/p1nP4/3p4/8/5N2/PPPP1PPP/RNBQKB1R b KQkq - 0 1");
}

#[test]
fn double_advance_sets_en_passant_field() {
    let fen = pgn_to_fen("e4").unwrap();
    assert_eq!(fen, "rnbqkbnr/pppppppp/8/8/4P3/8/PPPP1PPP/RNBQKBNR b KQkq e3 0 1");
}

#[test]
fn promotion_token_places_a_queen() {
    let fen = pgn_to_fen("e4 f5 exf5 e5 Bc4 e4 Nf3 e3 Nc3 exf2+ Ke2 f1=Q+").unwrap();
    assert_eq!(fen, "rnbqkbnr/pppp2pp/8/5P2/2B5/2N2N2/PPPPK1PP/R1BQ1q1R w KQkq - 0 1");
}

#[test]
fn encoder_promotes_and_captures_with_the_new_piece() {
    let out = fen_to_pgn("8/8/8/8/8/8/1p6/2R4K b - - 0 1", moves(&["b2c1n", "h1g1", "c1e2"])).unwrap();
    assert_eq!(out, vec!["bxc1=N", "Kh1g1", "Nc1e2"]);
}

#[test]
fn encoder_castles_both_wings() {
    let out = fen_to_pgn("r3k2r/8/8/8/8/8/8/R3K2R w KQkq - 0 1", moves(&["e1g1", "e8c8"])).unwrap();
    assert_eq!(out, vec!["O-O", "O-O-O"]);
}

#[test]
fn encoder_empty_move_list() {
    let out = fen_to_pgn("8/8/8/8/8/8/8/K7 w - - 0 1", moves(&[])).unwrap();
    assert_eq!(out.len(), 0);
}

#[test]
fn encoder_output_length_matches_moves() {
    let input = moves(&["e2e4", "e7e5", "g1f3", "b8c6", "f1b5"]);
    let n = input.len();
    let out = fen_to_pgn("rnbqkbnr/pppppppp/8/8/8/8/PPPPPPPP/RNBQKBNR w KQkq - 0 1", input).unwrap();
    assert_eq!(out.len(), n);
    assert_eq!(out, vec!["e4", "e5", "Ng1f3", "Nb8c6", "Bf1b5"]);
}

#[test]
fn decoder_castles_and_disambiguates() {
    let fen = pgn_to_fen("Nf3 Nf6 g3 g6 Bg2 Bg7 O-O O-O Nc3 Nc6 Nd4 Nd5 Ndb5 Nxc3").unwrap();
    assert_eq!(fen, "r1bq1rk1/ppppppbp/2n3p1/1N6/8/2n3P1/PPPPPPBP/R1BQ1RK1 w KQkq - 0 1");
}

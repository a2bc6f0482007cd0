use puzzle_studies::codec::parse_fen;
use puzzle_studies::decoder::pgn_to_fen;
use puzzle_studies::encoder::{fen_to_pgn, Move};
use puzzle_studies::error::NotationError;
use puzzle_studies::position::{Piece, PieceColor, PieceKind, Position};

fn moves(v: &[&str]) -> Vec<String> {
    v.iter().map(|s| s.to_string()).collect()
}

const KINDS: [PieceKind; 6] = [
    PieceKind::Pawn,
    PieceKind::Knight,
    PieceKind::Bishop,
    PieceKind::Rook,
    PieceKind::Queen,
    PieceKind::King,
];

#[test]
fn parse_then_write_keeps_board_side_and_target() {
    for fen in [
        "r4rk1/ppp3b1/3p3p/3Pp1pn/P1P1P1qn/2NQ1pP1/1P1B1PBP/R1R1N1K1 b - - 0 1",
        "r2qk2r/p1pp2pp/1p2p3/2b1Pp2/5PPn/2NQ2K1/PPP4P/R1B2R2 w kq f6 0 1",
        "8/8/8/8/8/8/8/8 w - - 3 9",
    ] {
        let (p, side) = parse_fen(fen).unwrap();
        let out = p.to_fen(side);
        let a: Vec<&str> = fen.split_whitespace().collect();
        let b: Vec<&str> = out.split_whitespace().collect();
        assert_eq!(b.len(), 6);
        assert_eq!(a[0], b[0]);
        assert_eq!(a[1], b[1]);
        assert_eq!(a[3], b[3]);
        assert_eq!(b[2], "KQkq");
        assert_eq!(b[4], "0");
        assert_eq!(b[5], "1");
    }
}

#[test]
fn parse_reads_squares_and_target() {
    let (p, side) = parse_fen("r2qk2r/p1pp2pp/1p2p3/2b1Pp2/5PPn/2NQ2K1/PPP4P/R1B2R2 w kq f6 0 1").unwrap();
    assert_eq!(side, PieceColor::White);
    assert_eq!(p.en_passant_target, Some((5, 5)));
    assert_eq!(p.piece_at(7, 0), Some(Piece { kind: PieceKind::Rook, color: PieceColor::Black }));
    assert_eq!(p.piece_at(4, 4), Some(Piece { kind: PieceKind::Pawn, color: PieceColor::White }));
    assert_eq!(p.piece_at(4, 3), None);
}

#[test]
fn parse_rejects_malformed_positions() {
    for fen in [
        "",
        "8/8/8/8/8/8/8 w - - 0 1",
        "8/8/8/8/8/8/8/8/8 w - - 0 1",
        "8/8/8/8/8/8/8/7 w - - 0 1",
        "8/8/8/8/8/8/8/9 w - - 0 1",
        "8/8/8/8/8/8/8/4x3 w - - 0 1",
        "8/8/8/8/8/8/8/8 x - - 0 1",
        "8/8/8/8/8/8/8/8 w - e9 0 1",
        "8/8/8/8/8/8/8/8 w - -",
        "8/8/8/8/8/8/8/8 w - - 0 1 extra",
    ] {
        assert_eq!(parse_fen(fen).err(), Some(NotationError::MalformedPosition), "{}", fen);
    }
}

#[test]
fn encoder_reports_malformed_move_with_index() {
    let r = fen_to_pgn("8/8/8/8/8/8/4P3/K7 w - - 0 1", moves(&["e2e4", "e9e4"]));
    assert_eq!(r, Err(NotationError::MalformedPly(1)));
    let r = fen_to_pgn("8/8/8/8/8/8/4P3/K7 w - - 0 1", moves(&["e2e4x"]));
    assert_eq!(r, Err(NotationError::MalformedPly(0)));
}

#[test]
fn encoder_reports_empty_origin() {
    let r = fen_to_pgn("8/8/8/8/8/8/4P3/K7 w - - 0 1", moves(&["a1a2", "d2d4"]));
    assert_eq!(r, Err(NotationError::UnresolvableOrigin(1)));
}

#[test]
fn encoder_reports_bad_position() {
    let r = fen_to_pgn("not a position", moves(&["e2e4"]));
    assert_eq!(r, Err(NotationError::MalformedPosition));
}

#[test]
fn decoder_reports_malformed_token() {
    assert_eq!(pgn_to_fen("e4 Zz9"), Err(NotationError::MalformedPly(1)));
    assert_eq!(pgn_to_fen("e4 e5 +"), Err(NotationError::MalformedPly(2)));
    assert_eq!(pgn_to_fen("O-O-O-O"), Err(NotationError::MalformedPly(0)));
}

#[test]
fn decoder_reports_unresolvable_origin() {
    assert_eq!(pgn_to_fen("e5"), Err(NotationError::UnresolvableOrigin(0)));
    assert_eq!(pgn_to_fen("e4 e5 Bb4"), Err(NotationError::UnresolvableOrigin(2)));
}

#[test]
fn decoder_empty_movetext_is_start_position() {
    assert_eq!(
        pgn_to_fen("  ").unwrap(),
        "rnbqkbnr/pppppppp/8/8/8/8/PPPPPPPP/RNBQKBNR w KQkq - 0 1"
    );
}

#[test]
fn bare_board_resolves_nothing() {
    let p = Position::new();
    for r in 0..8usize {
        for f in 0..8usize {
            for kind in KINDS {
                for color in [PieceColor::White, PieceColor::Black] {
                    assert_eq!(p.find_origin_of_move((r, f), kind, color, (None, None)), None);
                    assert_eq!(p.find_origin_of_move((r, f), kind, color, (Some(r), Some(f))), None);
                }
            }
        }
    }
}

#[test]
fn resolver_takes_first_ray_in_order() {
    let (p, _) = parse_fen("8/8/8/8/8/8/8/R6R w - - 0 1").unwrap();
    assert_eq!(p.find_origin_of_move((0, 3), PieceKind::Rook, PieceColor::White, (None, None)), Some((0, 7)));
    assert_eq!(
        p.find_origin_of_move((0, 3), PieceKind::Rook, PieceColor::White, (None, Some(0))),
        Some((0, 0))
    );
}

#[test]
fn resolver_rank_restriction_and_blocking() {
    let (p, _) = parse_fen("8/8/8/8/8/R7/8/R3K3 w - - 0 1").unwrap();
    assert_eq!(p.find_origin_of_move((1, 0), PieceKind::Rook, PieceColor::White, (None, None)), Some((2, 0)));
    assert_eq!(
        p.find_origin_of_move((1, 0), PieceKind::Rook, PieceColor::White, (Some(0), None)),
        Some((0, 0))
    );
    // the rook on a1 is hidden behind the one on a3 when searching from a4
    assert_eq!(
        p.find_origin_of_move((3, 0), PieceKind::Rook, PieceColor::White, (Some(0), None)),
        None
    );
}

#[test]
fn resolver_pawn_single_and_double_steps() {
    let p = Position::initial();
    assert_eq!(p.find_origin_of_move((3, 4), PieceKind::Pawn, PieceColor::White, (None, None)), Some((1, 4)));
    assert_eq!(p.find_origin_of_move((2, 4), PieceKind::Pawn, PieceColor::White, (None, None)), Some((1, 4)));
    assert_eq!(p.find_origin_of_move((4, 4), PieceKind::Pawn, PieceColor::Black, (None, None)), Some((6, 4)));
    assert_eq!(p.find_origin_of_move((4, 4), PieceKind::Pawn, PieceColor::White, (None, None)), None);
    assert_eq!(p.find_origin_of_move((2, 4), PieceKind::Pawn, PieceColor::White, (None, Some(3))), Some((1, 3)));
}

#[test]
fn executor_castles_and_clears_target() {
    let (mut p, _) = parse_fen("r3k2r/8/8/8/8/8/8/R3K2R w KQkq - 0 1").unwrap();
    let moved = p.apply_move((0, 4), (0, 2), None);
    assert_eq!(moved, Piece { kind: PieceKind::King, color: PieceColor::White });
    assert_eq!(p.to_fen(PieceColor::Black), "r3k2r/8/8/8/8/8/8/2KR3R b KQkq - 0 1");
}

#[test]
fn coordinate_move_reading() {
    let m = Move::from_ambiguous("d7d8q").unwrap();
    assert_eq!(m.start_square, (6, 3));
    assert_eq!(m.end_square, (7, 3));
    assert_eq!(m.promotion, Some(PieceKind::Queen));
    assert!(Move::from_ambiguous("d7d8").unwrap().promotion.is_none());
    assert!(Move::from_ambiguous("d7d8z").is_none());
    assert!(Move::from_ambiguous("i7d8").is_none());
    assert!(Move::from_ambiguous("d7").is_none());
}

#[test]
fn resolver_pawn_meets_rank_restriction() {
    let p = Position::initial();
    assert_eq!(p.find_origin_of_move((3, 4), PieceKind::Pawn, PieceColor::White, (Some(6), None)), None);
    assert_eq!(p.find_origin_of_move((3, 4), PieceKind::Pawn, PieceColor::White, (Some(1), None)), Some((1, 4)));
    assert_eq!(p.find_origin_of_move((2, 4), PieceKind::Pawn, PieceColor::White, (Some(0), Some(3))), None);
}

#[test]
fn parse_checks_castling_and_counters() {
    assert!(parse_fen("8/8/8/8/8/8/8/8 w KQkq - 0 1").is_ok());
    assert!(parse_fen("8/8/8/8/8/8/8/8 w Kq - 12 40").is_ok());
    for fen in [
        "8/8/8/8/8/8/8/8 w - - x y",
        "8/8/8/8/8/8/8/8 w - - 0 y",
        "8/8/8/8/8/8/8/8 w KX - 0 1",
        "8/8/8/8/8/8/8/8 w -- - 0 1",
    ] {
        assert_eq!(parse_fen(fen).err(), Some(NotationError::MalformedPosition), "{}", fen);
    }
}

#[test]
fn executor_promotion_replaces_pawn() {
    let (mut p, _) = parse_fen("8/4P3/8/8/8/8/8/8 w - - 0 1").unwrap();
    p.apply_move((6, 4), (7, 4), Some(PieceKind::Queen));
    assert_eq!(p.piece_at(7, 4), Some(Piece { kind: PieceKind::Queen, color: PieceColor::White }));
    assert_eq!(p.piece_at(6, 4), None);
}

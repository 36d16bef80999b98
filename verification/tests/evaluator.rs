use chess_server::engine::{Side, Status};
use chess_server::evaluator::{board_score, score};
use chess_server::position::Position;

const START: &[u8] = b"rnbqkbnr/pppppppp/8/8/8/8/PPPPPPPP/RNBQKBNR w KQkq - 0 1";

#[test]
fn the_initial_position_scores_its_mobility() {
    let position = Position::parse(START).unwrap();
    assert_eq!(board_score(&position), 20);
}

#[test]
fn a_queen_ahead_scores_900_plus_mobility() {
    let level = Position::parse(START).unwrap();
    let ahead =
        Position::parse(b"rnb1kbnr/pppppppp/8/8/8/8/PPPPPPPP/RNBQKBNR w KQkq - 0 1").unwrap();
    assert_eq!(board_score(&ahead), 920);
    assert_eq!(board_score(&ahead) - board_score(&level), 900);
}

#[test]
fn a_queen_behind_scores_minus_900_plus_mobility() {
    let behind =
        Position::parse(b"rnbqkbnr/pppppppp/8/8/8/8/PPPPPPPP/RNB1KBNR w KQkq - 0 1").unwrap();
    assert_eq!(board_score(&behind), -900 + 21);
}

#[test]
fn checkmated_black_scores_the_maximum() {
    let mated = Position::parse(
        b"r1bqkb1r/pppp1Qpp/2n2n2/4p3/2B1P3/8/PPPP1PPP/RNB1K1NR b KQkq - 0 1",
    )
    .unwrap();
    assert_eq!(board_score(&mated), i32::MAX);
}

#[test]
fn checkmated_white_scores_the_minimum() {
    let mated =
        Position::parse(b"rnb1kbnr/pppp1ppp/8/4p3/6Pq/5P2/PPPPP2P/RNBQKBNR w KQkq - 0 1").unwrap();
    assert_eq!(board_score(&mated), i32::MIN);
}

#[test]
fn stalemate_is_scored_by_material() {
    let stale = Position::parse(b"7k/5Q2/6K1/8/8/8/8/8 b - - 0 1").unwrap();
    assert_eq!(board_score(&stale), 900);
}

#[test]
fn black_to_move_counts_black_mobility() {
    let position =
        Position::parse(b"rnbqkbnr/pppppppp/8/8/4P3/8/PPPP1PPP/RNBQKBNR b KQkq - 0 1").unwrap();
    assert_eq!(board_score(&position), 20);
}

#[test]
fn score_adds_material_and_mobility() {
    assert_eq!(score(Status::Ongoing, Side::White, b"Q7/8 w", 5), 905);
    assert_eq!(score(Status::Ongoing, Side::Black, b"q7/8 w", 5), -895);
    assert_eq!(score(Status::Stalemate, Side::White, b"PNBRQK", 0), 2100);
    assert_eq!(score(Status::Stalemate, Side::White, b"pnbrqk", 0), -2100);
    assert_eq!(score(Status::Ongoing, Side::White, b"PNBRQKpnbrqk", 3), 3);
    assert_eq!(score(Status::Ongoing, Side::White, b"", 0), 0);
    assert_eq!(score(Status::Ongoing, Side::White, b"xyz/12345678", 7), 7);
}

#[test]
fn score_stops_at_the_first_space() {
    assert_eq!(score(Status::Ongoing, Side::White, b"Q w QQQQ", 0), 900);
    assert_eq!(score(Status::Ongoing, Side::White, b" QQQQ", 1), 1);
    assert_eq!(score(Status::Ongoing, Side::White, b"rnbqkbnr/8 b KQkq - 0 1", 2), -3098);
}

#[test]
fn score_of_mate_overrides_material() {
    assert_eq!(score(Status::Checkmate, Side::Black, b"qqqq w", 0), i32::MAX);
    assert_eq!(score(Status::Checkmate, Side::White, b"QQQQ w", 0), i32::MIN);
}

#[test]
fn score_stays_within_the_scores_of_mate() {
    assert_eq!(score(Status::Ongoing, Side::White, b"", usize::MAX), i32::MAX);
    let queens: Vec<u8> = vec![b'Q'; 3_000_000];
    assert_eq!(score(Status::Ongoing, Side::White, &queens, 0), i32::MAX);
    let black_queens: Vec<u8> = vec![b'q'; 3_000_000];
    assert_eq!(score(Status::Ongoing, Side::White, &black_queens, 0), i32::MIN);
    let many: Vec<u8> = vec![b'Q'; 1000];
    assert_eq!(score(Status::Ongoing, Side::White, &many, 12), 900_012);
}

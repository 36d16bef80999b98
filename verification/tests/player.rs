use chess::{Board, ChessMove, Color, MoveGen, Square, ALL_SQUARES};
use chess_server::engine::{GameResult, Move, Side};
use chess_server::evaluator::board_score;
use chess_server::frame::{decode, FrameError};
use chess_server::player::{
    result_code, result_name, result_notice, square, GreedyPlayer, NetworkPlayer, OpponentKind,
    Player, PlayerError, Probe, ProtocolError, RandomPlayer,
};
use chess_server::position::Position;
use std::str::FromStr;

const START: &[u8] = b"rnbqkbnr/pppppppp/8/8/8/8/PPPPPPPP/RNBQKBNR w KQkq - 0 1";

fn plain(m: ChessMove) -> Move {
    Move {
        from: m.get_source().to_int(),
        to: m.get_dest().to_int(),
        promotion: m.get_promotion().map(|p| p.to_index() as u8),
    }
}

fn score_after(board: &Board, m: ChessMove) -> i32 {
    let next = format!("{}", board.make_move_new(m));
    board_score(&Position::parse(next.as_bytes()).unwrap())
}

fn first_best(fen: &str) -> Move {
    let board = Board::from_str(fen).unwrap();
    let mut moves = MoveGen::new_legal(&board);
    let mut kept = moves.next().unwrap();
    for m in moves {
        let better = match board.side_to_move() {
            Color::White => score_after(&board, m) > score_after(&board, kept),
            Color::Black => score_after(&board, m) < score_after(&board, kept),
        };
        if better {
            kept = m;
        }
    }
    plain(kept)
}

fn remote(color: Side) -> NetworkPlayer<()> {
    NetworkPlayer { socket: (), color }
}

#[test]
fn select_takes_the_best_score() {
    assert_eq!(GreedyPlayer::select(&vec![1, 5, 3], Side::White), Some(1));
    assert_eq!(GreedyPlayer::select(&vec![1, 5, 3], Side::Black), Some(0));
    assert_eq!(GreedyPlayer::select(&vec![4, -2, 9, -7], Side::White), Some(2));
    assert_eq!(GreedyPlayer::select(&vec![4, -2, 9, -7], Side::Black), Some(3));
    assert_eq!(GreedyPlayer::select(&vec![i32::MIN, i32::MAX], Side::White), Some(1));
    assert_eq!(GreedyPlayer::select(&vec![i32::MIN, i32::MAX], Side::Black), Some(0));
}

#[test]
fn select_takes_the_earliest_of_equal_scores() {
    assert_eq!(GreedyPlayer::select(&vec![5, 5], Side::White), Some(0));
    assert_eq!(GreedyPlayer::select(&vec![5, 5], Side::Black), Some(0));
    assert_eq!(GreedyPlayer::select(&vec![1, 7, 7, 2, 7], Side::White), Some(1));
    assert_eq!(GreedyPlayer::select(&vec![3, 0, 2, 0, 0], Side::Black), Some(1));
    assert_eq!(GreedyPlayer::select(&vec![8], Side::White), Some(0));
}

#[test]
fn select_of_nothing_is_nothing() {
    assert_eq!(GreedyPlayer::select(&Vec::new(), Side::White), None);
    assert_eq!(GreedyPlayer::select(&Vec::new(), Side::Black), None);
}

#[test]
fn greedy_takes_the_queen() {
    let position = Position::parse(b"4k3/8/8/3q4/4P3/8/8/4K3 w - - 0 1").unwrap();
    let m = GreedyPlayer.get_move(&position).unwrap();
    assert_eq!(m, Move { from: 28, to: 35, promotion: None });
}

#[test]
fn greedy_gives_mate_when_it_can() {
    let position = Position::parse(b"6k1/5ppp/8/8/8/8/8/R3K3 w - - 0 1").unwrap();
    let m = GreedyPlayer.get_move(&position).unwrap();
    assert_eq!(m, Move { from: 0, to: 56, promotion: None });
}

#[test]
fn greedy_as_black_goes_for_the_lowest_score() {
    let position = Position::parse(b"4k3/8/8/4p3/3Q4/8/8/4K3 b - - 0 1").unwrap();
    let m = GreedyPlayer.get_move(&position).unwrap();
    assert_eq!(m, Move { from: 36, to: 27, promotion: None });
}

#[test]
fn greedy_always_returns_the_same_move() {
    let position = Position::parse(START).unwrap();
    let first = GreedyPlayer.get_move(&position).unwrap();
    let mut round: u32 = 0;
    while round < 5 {
        assert_eq!(GreedyPlayer.get_move(&position).unwrap(), first);
        round += 1;
    }
}

#[test]
fn greedy_keeps_the_first_move_seen_with_the_best_score() {
    let fens: [&str; 6] = [
        "rnbqkbnr/pppppppp/8/8/8/8/PPPPPPPP/RNBQKBNR w KQkq - 0 1",
        "rnbqkbnr/pppppppp/8/8/4P3/8/PPPP1PPP/RNBQKBNR b KQkq - 0 1",
        "r1bqkbnr/pppp1ppp/2n5/4p3/2B1P3/5N2/PPPP1PPP/RNBQK2R b KQkq - 0 1",
        "8/P6k/8/8/8/8/6Kp/8 w - - 0 1",
        "8/P6k/8/8/8/8/6Kp/8 b - - 0 1",
        "r3k2r/pppq1ppp/2npbn2/2b1p3/2B1P3/2NPBN2/PPPQ1PPP/R3K2R w KQkq - 0 1",
    ];
    for fen in fens.iter() {
        let position = Position::parse(fen.as_bytes()).unwrap();
        assert_eq!(GreedyPlayer.get_move(&position).unwrap(), first_best(fen));
    }
}

#[test]
fn greedy_has_no_move_when_the_game_is_over() {
    let mated =
        Position::parse(b"rnb1kbnr/pppp1ppp/8/4p3/6Pq/5P2/PPPPP2P/RNBQKBNR w KQkq - 0 1").unwrap();
    assert_eq!(GreedyPlayer.get_move(&mated), Err(PlayerError::NoLegalMove));
    let stale = Position::parse(b"7k/5Q2/6K1/8/8/8/8/8 b - - 0 1").unwrap();
    assert_eq!(GreedyPlayer.get_move(&stale), Err(PlayerError::NoLegalMove));
}

#[test]
fn random_returns_a_legal_move() {
    let position = Position::parse(START).unwrap();
    let board = Board::from_str("rnbqkbnr/pppppppp/8/8/8/8/PPPPPPPP/RNBQKBNR w KQkq - 0 1").unwrap();
    let legal: Vec<Move> = MoveGen::new_legal(&board).map(plain).collect();
    assert_eq!(legal.len(), 20);
    let mut round: u32 = 0;
    while round < 200 {
        let m = RandomPlayer.get_move(&position).unwrap();
        assert!(legal.contains(&m));
        round += 1;
    }
}

#[test]
fn random_reaches_every_legal_move() {
    let position = Position::parse(b"4k3/8/8/8/8/8/8/4K3 w - - 0 1").unwrap();
    let mut seen: Vec<Move> = Vec::new();
    let mut round: u32 = 0;
    while round < 2000 {
        let m = RandomPlayer.get_move(&position).unwrap();
        if !seen.contains(&m) {
            seen.push(m);
        }
        round += 1;
    }
    assert_eq!(seen.len(), 5);
}

#[test]
fn random_has_no_move_when_the_game_is_over() {
    let mated =
        Position::parse(b"rnb1kbnr/pppp1ppp/8/4p3/6Pq/5P2/PPPPP2P/RNBQKBNR w KQkq - 0 1").unwrap();
    assert_eq!(RandomPlayer.get_move(&mated), Err(PlayerError::NoLegalMove));
}

#[test]
fn pick_takes_the_move_at_the_index() {
    let a = Move { from: 12, to: 28, promotion: None };
    let b = Move { from: 6, to: 21, promotion: None };
    let moves = vec![a, b];
    assert_eq!(RandomPlayer::pick(&moves, 0), Some(a));
    assert_eq!(RandomPlayer::pick(&moves, 1), Some(b));
    assert_eq!(RandomPlayer::pick(&moves, 2), None);
    assert_eq!(RandomPlayer::pick(&Vec::new(), 0), None);
}

#[test]
fn opponent_is_one_of_three_words() {
    let player = remote(Side::White);
    assert_eq!(player.get_opponent(b"Random"), Ok(OpponentKind::Random));
    assert_eq!(player.get_opponent(b"Greedy"), Ok(OpponentKind::Greedy));
    assert_eq!(player.get_opponent(b"Network"), Ok(OpponentKind::Network));
}

#[test]
fn any_other_opponent_is_a_protocol_error() {
    let player = remote(Side::White);
    assert_eq!(player.get_opponent(b"random"), Err(ProtocolError::UnknownOpponent));
    assert_eq!(player.get_opponent(b"Greedy "), Err(ProtocolError::UnknownOpponent));
    assert_eq!(player.get_opponent(b"Networ"), Err(ProtocolError::UnknownOpponent));
    assert_eq!(player.get_opponent(b""), Err(ProtocolError::UnknownOpponent));
    assert_eq!(player.get_opponent(b"Stockfish"), Err(ProtocolError::UnknownOpponent));
    assert_eq!(player.get_opponent(&[0xff, 0xfe]), Err(ProtocolError::NotText));
    assert_eq!(player.get_opponent(&[b'R', 0x80]), Err(ProtocolError::NotText));
}

#[test]
fn a_move_is_two_squares() {
    let player = remote(Side::White);
    assert_eq!(player.read_move(b"e2e4"), Ok(Move { from: 12, to: 28, promotion: None }));
    assert_eq!(player.read_move(b"a1h8"), Ok(Move { from: 0, to: 63, promotion: None }));
    assert_eq!(player.read_move(b"h8a1"), Ok(Move { from: 63, to: 0, promotion: None }));
    assert_eq!(player.read_move(b"g8f6"), Ok(Move { from: 62, to: 45, promotion: None }));
}

#[test]
fn a_malformed_move_is_a_protocol_error() {
    let player = remote(Side::White);
    assert_eq!(player.read_move(b"e2e"), Err(ProtocolError::UnexpectedLength));
    assert_eq!(player.read_move(b"e2e4q"), Err(ProtocolError::UnexpectedLength));
    assert_eq!(player.read_move(b""), Err(ProtocolError::UnexpectedLength));
    assert_eq!(player.read_move(b"e9e4"), Err(ProtocolError::MalformedMove));
    assert_eq!(player.read_move(b"e2i4"), Err(ProtocolError::MalformedMove));
    assert_eq!(player.read_move(b"E2E4"), Err(ProtocolError::MalformedMove));
    assert_eq!(player.read_move(b"e0e4"), Err(ProtocolError::MalformedMove));
    assert_eq!(player.read_move(b"2e4e"), Err(ProtocolError::MalformedMove));
    assert_eq!(player.read_move(&[b'e', b'2', 0xff, b'4']), Err(ProtocolError::NotText));
    assert_eq!(player.read_move(&[0xc3, 0xa9, b'e', b'4']), Err(ProtocolError::MalformedMove));
    assert_eq!(player.read_move(&[0xff]), Err(ProtocolError::NotText));
}

#[test]
fn squares_are_numbered_as_the_engine_numbers_them() {
    for sq in ALL_SQUARES.iter() {
        let text = format!("{}", sq);
        let bytes = text.as_bytes();
        assert_eq!(square(bytes[0], bytes[1]), Some(sq.to_int()));
        assert_eq!(Square::from_str(&text).unwrap(), *sq);
    }
    assert_eq!(square(b'a', b'1'), Some(0));
    assert_eq!(square(b'h', b'1'), Some(7));
    assert_eq!(square(b'a', b'2'), Some(8));
    assert_eq!(square(b'h', b'8'), Some(63));
    assert_eq!(square(b'i', b'1'), None);
    assert_eq!(square(b'a', b'9'), None);
    assert_eq!(square(b'1', b'a'), None);
}

#[test]
fn a_silent_connected_peer_is_alive() {
    assert!(remote(Side::White).alive(Probe::WouldBlock));
}

#[test]
fn a_peer_that_closed_is_dead() {
    assert!(!remote(Side::White).alive(Probe::Returned));
    assert!(!remote(Side::White).alive(Probe::Failed));
}

#[test]
fn result_codes_are_relative_to_the_color() {
    assert_eq!(result_code(GameResult::WhiteCheckmates, Side::White), b'W');
    assert_eq!(result_code(GameResult::WhiteCheckmates, Side::Black), b'L');
    assert_eq!(result_code(GameResult::BlackResigns, Side::White), b'W');
    assert_eq!(result_code(GameResult::BlackResigns, Side::Black), b'L');
    assert_eq!(result_code(GameResult::BlackCheckmates, Side::White), b'L');
    assert_eq!(result_code(GameResult::BlackCheckmates, Side::Black), b'W');
    assert_eq!(result_code(GameResult::WhiteResigns, Side::White), b'L');
    assert_eq!(result_code(GameResult::WhiteResigns, Side::Black), b'W');
    assert_eq!(result_code(GameResult::Stalemate, Side::White), b'D');
    assert_eq!(result_code(GameResult::Stalemate, Side::Black), b'D');
    assert_eq!(result_code(GameResult::DrawAccepted, Side::White), b'D');
    assert_eq!(result_code(GameResult::DrawAccepted, Side::Black), b'D');
    assert_eq!(result_code(GameResult::DrawDeclared, Side::White), b'D');
    assert_eq!(result_code(GameResult::DrawDeclared, Side::Black), b'D');
}

#[test]
fn move_request_is_the_position_in_one_frame() {
    let position = Position::parse(START).unwrap();
    let frame = remote(Side::White).move_request(&position).unwrap();
    assert_eq!(frame.len(), START.len() + 1);
    assert_eq!(frame[0] as usize, START.len());
    assert_eq!(&frame[1..], START);
}

#[test]
fn result_is_sent_in_three_frames() {
    let text: &[u8] = b"rnb1kbnr/pppp1ppp/8/4p3/6Pq/5P2/PPPPP2P/RNBQKBNR w KQkq - 0 1";
    let position = Position::parse(text).unwrap();
    let stream = remote(Side::White)
        .inform_of_result(&position, GameResult::BlackCheckmates, b"10.1.2.3/game-2.board")
        .unwrap();
    let (code, a) = decode(&stream).unwrap();
    let (fen, b) = decode(&stream[a..]).unwrap();
    let (link, c) = decode(&stream[a + b..]).unwrap();
    assert_eq!(code, b"L".to_vec());
    assert_eq!(fen, text.to_vec());
    assert_eq!(link, b"https://chess.waltersmuts.com/10.1.2.3/game-2.board.html".to_vec());
    assert_eq!(a + b + c, stream.len());
    let other = remote(Side::Black)
        .inform_of_result(&position, GameResult::BlackCheckmates, b"10.1.2.3/game-2.board")
        .unwrap();
    assert_eq!(decode(&other).unwrap().0, b"W".to_vec());
    assert_eq!(&other[2..], &stream[2..]);
}

#[test]
fn a_reference_too_long_for_a_frame_is_refused() {
    let position = Position::parse(START).unwrap();
    let long: Vec<u8> = vec![b'x'; 221];
    assert_eq!(
        remote(Side::White).inform_of_result(&position, GameResult::Stalemate, &long),
        Err(FrameError::TooLong)
    );
    let fits: Vec<u8> = vec![b'x'; 220];
    assert!(remote(Side::White)
        .inform_of_result(&position, GameResult::Stalemate, &fits)
        .is_ok());
}

#[test]
fn results_have_names() {
    assert_eq!(result_name(GameResult::WhiteCheckmates), b"WhiteCheckmates");
    assert_eq!(result_name(GameResult::WhiteResigns), b"WhiteResigns");
    assert_eq!(result_name(GameResult::BlackCheckmates), b"BlackCheckmates");
    assert_eq!(result_name(GameResult::BlackResigns), b"BlackResigns");
    assert_eq!(result_name(GameResult::Stalemate), b"Stalemate");
    assert_eq!(result_name(GameResult::DrawAccepted), b"DrawAccepted");
    assert_eq!(result_name(GameResult::DrawDeclared), b"DrawDeclared");
}

#[test]
fn a_local_player_gets_a_line_for_the_log() {
    let position = Position::parse(b"7k/5Q2/6K1/8/8/8/8/8 b - - 0 1").unwrap();
    let expected: &[u8] =
        b"Final board state 7k/5Q2/6K1/8/8/8/8/8 b - - 0 1 result Stalemate at 1.2.3.4/game-9.board";
    assert_eq!(result_notice(&position, GameResult::Stalemate, b"1.2.3.4/game-9.board"), expected);
    assert_eq!(
        GreedyPlayer.inform_of_result(&position, GameResult::Stalemate, b"1.2.3.4/game-9.board"),
        expected
    );
    assert_eq!(
        RandomPlayer.inform_of_result(&position, GameResult::Stalemate, b"1.2.3.4/game-9.board"),
        expected
    );
}

#[test]
fn a_remote_player_is_white_to_itself() {
    let player = NetworkPlayer::new(17u32);
    assert_eq!(player.color, Side::White);
    assert_eq!(player.socket, 17);
}

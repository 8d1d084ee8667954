use chess::{Board, Color, GameState, Location, Move, Piece, PieceType};

fn count(board: &Board) -> usize {
    board.all_possible_moves().iter().map(|(_, moves)| moves.len()).sum()
}

fn find(board: &Board, from: (i8, i8), to: (i8, i8)) -> Move {
    let from = Location::new(from.0, from.1);
    let to = Location::new(to.0, to.1);
    for (origin, moves) in board.all_possible_moves() {
        if origin == from {
            for mv in moves {
                if mv.to == to {
                    return mv;
                }
            }
        }
    }
    panic!("no legal move from {:?} to {:?}", from, to);
}

fn play(board: &mut Board, from: (i8, i8), to: (i8, i8)) {
    let mv = find(board, from, to);
    board.move_piece(&mv);
}

#[test]
fn white_has_twenty_moves_at_the_start() {
    let board = Board::with_decks(vec![0, 0], vec![0, 0]);
    assert_eq!(count(&board), 20);
    let listing = board.all_possible_moves();
    assert_eq!(listing.len(), 10);
    assert_eq!(listing[0].0, Location::new(1, 0));
    assert_eq!(listing[0].1.len(), 2);
    assert_eq!(board.game_state(&listing), GameState::Normal);
    assert!(!board.is_game_over());
    assert_eq!(board.get_check(), None);
    assert_eq!(board.active, Color::White);
}

#[test]
fn black_has_twenty_replies() {
    let mut board = Board::with_decks(vec![0, 0], vec![0, 0]);
    play(&mut board, (4, 1), (4, 3));
    assert_eq!(board.active, Color::Black);
    assert_eq!(board.half_moves, 1);
    assert_eq!(count(&board), 20);
    assert_eq!(board.en_passant, Some(Location::new(4, 2)));
}

#[test]
fn fools_mate_is_checkmate_of_white() {
    let mut board = Board::with_decks(vec![0, 0], vec![0, 0]);
    play(&mut board, (5, 1), (5, 2));
    play(&mut board, (4, 6), (4, 4));
    play(&mut board, (6, 1), (6, 3));
    play(&mut board, (3, 7), (7, 3));
    let listing = board.all_possible_moves();
    assert!(listing.is_empty());
    assert_eq!(board.game_state(&listing), GameState::Checkmate(Color::White));
    assert!(board.is_game_over());
    assert_eq!(board.get_check(), Some(Location::new(4, 0)));
}

#[test]
fn kingside_castling_moves_king_and_rook() {
    let mut board = Board::with_decks(vec![0, 0], vec![0, 0]);
    play(&mut board, (4, 1), (4, 3));
    play(&mut board, (4, 6), (4, 4));
    play(&mut board, (6, 0), (5, 2));
    play(&mut board, (1, 7), (2, 5));
    play(&mut board, (5, 0), (2, 3));
    play(&mut board, (5, 7), (2, 4));
    let castle = find(&board, (4, 0), (6, 0));
    assert_eq!(castle.castle, Some((Location::new(7, 0), Location::new(5, 0))));
    board.move_piece(&castle);
    assert_eq!(board.pieces[0][6], Some(Piece::new(PieceType::King, Color::White)));
    assert_eq!(board.pieces[0][5], Some(Piece::new(PieceType::Rook, Color::White)));
    assert_eq!(board.pieces[0][4], None);
    assert_eq!(board.pieces[0][7], None);
    assert!(!board.wk_castle);
    assert!(!board.wq_castle);
    assert!(board.bk_castle);
    assert!(board.bq_castle);
}

use chess::{Board, Color, Location, Piece, PieceType};

#[test]
fn initial_board_in_writing() {
    let board = Board::with_decks(vec![0], vec![0]);
    assert_eq!(board.to_string(), "rnbqkbnr/pppppppp/8/8/8/8/PPPPPPPP/RNBQKBNR w KQkq - 0 1");
}

#[test]
fn board_after_a_double_step_in_writing() {
    let mut board = Board::with_decks(vec![0], vec![0]);
    let listing = board.all_possible_moves();
    let (_, moves) = listing.iter().find(|(origin, _)| *origin == Location::new(4, 1)).unwrap();
    let mv = moves[1];
    board.move_piece(&mv);
    assert_eq!(board.to_string(), "rnbqkbnr/pppppppp/8/8/4P3/8/PPPP1PPP/RNBQKBNR b KQkq e3 0 1");
}

#[test]
fn sparse_board_in_writing() {
    let mut board = Board::with_decks(vec![0], vec![0]);
    board.pieces = [[None; 8]; 8];
    board.pieces[0][4] = Some(Piece::new(PieceType::King, Color::White));
    board.pieces[7][0] = Some(Piece::new(PieceType::King, Color::Black));
    board.pieces[3][1] = Some(Piece::new(PieceType::Queen, Color::Black));
    board.pieces[3][6] = Some(Piece::new(PieceType::Knight, Color::White));
    board.wk_castle = false;
    board.bq_castle = false;
    board.active = Color::Black;
    assert_eq!(board.to_string(), "k7/8/8/8/1q4N1/8/8/4K3 b -Qk- - 0 1");
}

#[test]
fn values_in_writing() {
    assert_eq!(Color::White.to_string(), "w");
    assert_eq!(Color::Black.to_string(), "b");
    assert_eq!(Color::Black.to_char(), 'b');
    assert_eq!(Piece::new(PieceType::Knight, Color::White).to_string(), "N");
    assert_eq!(Piece::new(PieceType::Knight, Color::Black).to_string(), "n");
    assert_eq!(Piece::new(PieceType::Pawn, Color::White).to_char(), 'P');
    assert_eq!(Piece::new(PieceType::Rook, Color::Black).to_char(), 'r');
    assert_eq!(Piece::new(PieceType::Queen, Color::White).to_char(), 'Q');
    assert_eq!(Piece::new(PieceType::Bishop, Color::Black).to_char(), 'b');
    assert_eq!(Piece::new(PieceType::King, Color::White).to_char(), 'K');
    assert_eq!(Location::new(0, 0).to_string(), "a1");
    assert_eq!(Location::new(4, 3).to_string(), "e4");
    assert_eq!(Location::new(7, 7).to_string(), "h8");
}

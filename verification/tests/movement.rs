use chess::generate::all_directions;
use chess::{Board, Color, GameState, Location, LocationState, Move, Piece, PieceType};

fn at(file: i8, rank: i8) -> Location {
    Location::new(file, rank)
}

fn piece(typ: PieceType, color: Color) -> Option<Piece> {
    Some(Piece::new(typ, color))
}

/// A board with nothing on it but what the list names, no castling rights,
/// and the given side to move.
fn board_with(active: Color, placed: &[(i8, i8, PieceType, Color)]) -> Board {
    let mut board = Board::with_decks(vec![0, 0], vec![0, 0]);
    board.pieces = [[None; 8]; 8];
    for (file, rank, typ, color) in placed {
        board.pieces[*rank as usize][*file as usize] = piece(*typ, *color);
    }
    board.active = active;
    board.wk_castle = false;
    board.wq_castle = false;
    board.bk_castle = false;
    board.bq_castle = false;
    board
}

fn targets(moves: &[Move]) -> Vec<(i8, i8)> {
    moves.iter().map(|mv| (mv.to.file, mv.to.rank)).collect()
}

fn legal_from(board: &Board, file: i8, rank: i8) -> Vec<Move> {
    for (origin, moves) in board.all_possible_moves() {
        if origin == at(file, rank) {
            return moves;
        }
    }
    Vec::new()
}

fn find(board: &Board, from: (i8, i8), to: (i8, i8)) -> Move {
    for mv in legal_from(board, from.0, from.1) {
        if mv.to == at(to.0, to.1) {
            return mv;
        }
    }
    panic!("no legal move from {:?} to {:?}", from, to);
}

fn play(board: &mut Board, from: (i8, i8), to: (i8, i8)) {
    let mv = find(board, from, to);
    board.move_piece(&mv);
}

fn kings(board: &Board, color: Color) -> usize {
    let mut n = 0;
    for rank in board.pieces.iter() {
        for cell in rank.iter() {
            if *cell == piece(PieceType::King, color) {
                n += 1;
            }
        }
    }
    n
}

use PieceType::{Bishop, King, Knight, Pawn, Queen, Rook};

#[test]
fn knight_directions_in_order() {
    assert_eq!(
        all_directions(1, 2),
        vec![(1, 2), (2, 1), (-1, 2), (2, -1), (1, -2), (-2, 1), (-1, -2), (-2, -1)]
    );
}

#[test]
fn diagonal_and_straight_directions_in_order() {
    assert_eq!(all_directions(1, 1), vec![(1, 1), (-1, 1), (1, -1), (-1, -1)]);
    assert_eq!(all_directions(1, 0), vec![(1, 0), (0, 1), (-1, 0), (0, -1)]);
    assert_eq!(all_directions(0, 0), vec![(0, 0)]);
}

#[test]
fn location_offset_stays_on_board() {
    assert_eq!(at(0, 0).offset(1, 2), Some(at(1, 2)));
    assert_eq!(at(0, 0).offset(-1, 0), None);
    assert_eq!(at(7, 7).offset(0, 1), None);
    assert_eq!(at(7, 7).offset(-7, -7), Some(at(0, 0)));
    assert_eq!(at(3, 3).offset(127, 127), None);
    assert!(at(7, 0).is_valid());
    assert!(!Location { file: 8, rank: 0 }.is_valid());
    assert!(!Location { file: 0, rank: -1 }.is_valid());
}

#[test]
fn color_and_piece_queries() {
    assert_eq!(Color::White.other(), Color::Black);
    assert_eq!(Color::Black.other(), Color::White);
    assert!(Color::White.is_white());
    assert!(!Color::Black.is_white());
    let p = Piece::new(Queen, Color::Black);
    assert!(p.is_queen());
    assert!(!p.is_king() && !p.is_pawn() && !p.is_rook() && !p.is_bishop() && !p.is_knight());
    assert!(Piece::new(King, Color::White).is_king());
    assert!(Piece::new(Pawn, Color::White).is_pawn());
    assert!(Piece::new(Rook, Color::White).is_rook());
    assert!(Piece::new(Bishop, Color::White).is_bishop());
    assert!(Piece::new(Knight, Color::White).is_knight());
}

#[test]
fn move_builders_fill_their_fields() {
    let p = Piece::new(King, Color::White);
    let mv = Move::new(p, at(4, 0), at(6, 0));
    assert_eq!(mv.piece, p);
    assert_eq!(mv.from, at(4, 0));
    assert_eq!(mv.to, at(6, 0));
    assert_eq!(mv.attack, None);
    assert_eq!(mv.castle, None);
    assert!(!mv.is_promotion);
    assert_eq!(mv.promote_to, None);
    let castle = mv.with_castle(at(7, 0), at(5, 0));
    assert_eq!(castle.castle, Some((at(7, 0), at(5, 0))));
    let victim = Piece::new(Pawn, Color::Black);
    let attack = mv.with_attack(at(6, 0), victim);
    assert_eq!(attack.attack, Some((at(6, 0), victim)));
    assert!(attack.is_in_bounds());
    assert!(!Move::new(p, at(4, 0), Location { file: 8, rank: 0 }).is_in_bounds());
}

#[test]
fn square_states() {
    let board = Board::with_decks(vec![0], vec![0]);
    assert_eq!(board.get_state(None, Color::White), LocationState::Invalid);
    assert_eq!(
        board.get_state(Some(Location { file: 9, rank: 0 }), Color::White),
        LocationState::Invalid
    );
    assert_eq!(board.get_state(Some(at(0, 0)), Color::White), LocationState::Friendly);
    assert_eq!(board.get_state(Some(at(0, 3)), Color::White), LocationState::Empty);
    assert_eq!(
        board.get_state(Some(at(0, 0)), Color::Black),
        LocationState::Opponent(Piece::new(Rook, Color::White))
    );
    assert_eq!(board.piece(at(4, 7)), piece(King, Color::Black));
    assert!(board.is_empty(at(4, 4)));
    assert!(!board.is_empty(at(4, 1)));
}

#[test]
fn pieces_are_listed_in_reading_order() {
    let board = Board::with_decks(vec![0], vec![0]);
    let all = board.iter_locations();
    assert_eq!(all.len(), 64);
    assert_eq!(all[0], (at(0, 0), piece(Rook, Color::White)));
    assert_eq!(all[1], (at(1, 0), piece(Knight, Color::White)));
    assert_eq!(all[8], (at(0, 1), piece(Pawn, Color::White)));
    assert_eq!(all[63], (at(7, 7), piece(Rook, Color::Black)));
    assert_eq!(board.iter_pieces().len(), 32);
    let white = board.iter_pieces_of(Color::White);
    assert_eq!(white.len(), 16);
    assert_eq!(white[4], (at(4, 0), Piece::new(King, Color::White)));
    let black = board.iter_pieces_of(Color::Black);
    assert_eq!(black[0], (at(0, 6), Piece::new(Pawn, Color::Black)));
    assert_eq!(board.iter_active_pieces(), white);
    let empty = board.iter_empty_locations();
    assert_eq!(empty.len(), 32);
    assert_eq!(empty[0], at(0, 2));
    assert_eq!(empty[31], at(7, 5));
}

#[test]
fn rook_rays_stop_at_pieces() {
    let board = board_with(
        Color::White,
        &[
            (3, 3, Rook, Color::White),
            (3, 5, Pawn, Color::Black),
            (5, 3, Pawn, Color::White),
            (4, 0, King, Color::White),
            (4, 7, King, Color::Black),
        ],
    );
    let moves = board.possible_moves(at(3, 3), Piece::new(Rook, Color::White), false);
    assert_eq!(
        targets(&moves),
        vec![(4, 3), (3, 4), (3, 5), (2, 3), (1, 3), (0, 3), (3, 2), (3, 1), (3, 0)]
    );
    let capture = &moves[2];
    assert_eq!(capture.attack, Some((at(3, 5), Piece::new(Pawn, Color::Black))));
    assert_eq!(moves[0].attack, None);
}

#[test]
fn knight_jumps_once_in_each_direction() {
    let board = board_with(
        Color::White,
        &[(1, 0, Knight, Color::White), (3, 1, Pawn, Color::White), (2, 2, Pawn, Color::Black)],
    );
    let moves = board.pseudo_legal_moves(at(1, 0), Piece::new(Knight, Color::White));
    assert_eq!(targets(&moves), vec![(2, 2), (0, 2)]);
    assert_eq!(moves[0].attack, Some((at(2, 2), Piece::new(Pawn, Color::Black))));
}

#[test]
fn moves_to_directions_without_repeat() {
    let board = board_with(Color::White, &[(3, 3, Queen, Color::White)]);
    let q = Piece::new(Queen, Color::White);
    let once = board.moves_to_directions(at(3, 3), q, &[(1, 0), (0, 1)], false);
    assert_eq!(targets(&once), vec![(4, 3), (3, 4)]);
    let far = board.moves_to_directions(at(3, 3), q, &[(1, 0)], true);
    assert_eq!(targets(&far), vec![(4, 3), (5, 3), (6, 3), (7, 3)]);
    let still = board.moves_to_directions(at(3, 3), q, &[(0, 0)], true);
    assert!(still.is_empty());
}

#[test]
fn pawn_advances_and_captures() {
    let board = board_with(
        Color::White,
        &[
            (4, 1, Pawn, Color::White),
            (5, 2, Knight, Color::Black),
            (3, 2, Knight, Color::White),
            (4, 0, King, Color::White),
            (4, 7, King, Color::Black),
        ],
    );
    let moves = board.pseudo_legal_moves(at(4, 1), Piece::new(Pawn, Color::White));
    assert_eq!(targets(&moves), vec![(4, 2), (4, 3), (5, 2)]);
    assert_eq!(moves[2].attack, Some((at(5, 2), Piece::new(Knight, Color::Black))));
    assert!(moves.iter().all(|mv| !mv.is_promotion));
}

#[test]
fn pawn_is_blocked_by_a_piece_ahead() {
    let board = board_with(
        Color::Black,
        &[(4, 6, Pawn, Color::Black), (4, 5, Pawn, Color::White), (0, 6, Pawn, Color::Black), (0, 4, Pawn, Color::White)],
    );
    assert!(board.pseudo_legal_moves(at(4, 6), Piece::new(Pawn, Color::Black)).is_empty());
    let moves = board.pseudo_legal_moves(at(0, 6), Piece::new(Pawn, Color::Black));
    assert_eq!(targets(&moves), vec![(0, 5)]);
}

#[test]
fn pawn_reaching_the_last_rank_is_marked_and_promotes() {
    let mut board = board_with(
        Color::White,
        &[
            (0, 6, Pawn, Color::White),
            (1, 7, Rook, Color::Black),
            (4, 0, King, Color::White),
            (4, 7, King, Color::Black),
        ],
    );
    let moves = legal_from(&board, 0, 6);
    assert_eq!(targets(&moves), vec![(0, 7), (1, 7)]);
    assert!(moves[0].is_promotion);
    assert!(moves[1].is_promotion);
    assert_eq!(moves[0].promote_to, None);
    let mut chosen = moves[1];
    chosen.promote_to = Some(Queen);
    board.move_piece(&chosen);
    assert_eq!(board.pieces[7][1], piece(Queen, Color::White));
    assert_eq!(board.pieces[6][0], None);
    assert_eq!(board.last_move, Some(chosen));
}

#[test]
fn en_passant_is_set_taken_and_cleared() {
    let mut board = Board::with_decks(vec![0, 0], vec![0, 0]);
    play(&mut board, (4, 1), (4, 3));
    assert_eq!(board.en_passant, Some(at(4, 2)));
    play(&mut board, (0, 6), (0, 5));
    assert_eq!(board.en_passant, None);
    play(&mut board, (4, 3), (4, 4));
    play(&mut board, (3, 6), (3, 4));
    assert_eq!(board.en_passant, Some(at(3, 5)));
    let capture = find(&board, (4, 4), (3, 5));
    assert_eq!(capture.attack, Some((at(3, 4), Piece::new(Pawn, Color::Black))));
    board.move_piece(&capture);
    assert_eq!(board.pieces[5][3], piece(Pawn, Color::White));
    assert_eq!(board.pieces[4][3], None);
    assert_eq!(board.pieces[4][4], None);
    assert_eq!(board.en_passant, None);
}

#[test]
fn en_passant_lasts_one_move_only() {
    let mut board = Board::with_decks(vec![0, 0], vec![0, 0]);
    play(&mut board, (4, 1), (4, 3));
    play(&mut board, (0, 6), (0, 5));
    play(&mut board, (4, 3), (4, 4));
    play(&mut board, (3, 6), (3, 4));
    play(&mut board, (0, 1), (0, 2));
    play(&mut board, (0, 5), (0, 4));
    assert_eq!(board.en_passant, None);
    let moves = legal_from(&board, 4, 4);
    assert_eq!(targets(&moves), vec![(4, 5)]);
}

#[test]
fn pinned_piece_may_not_leave_the_line() {
    let board = board_with(
        Color::White,
        &[
            (4, 0, King, Color::White),
            (4, 1, Knight, Color::White),
            (4, 7, Rook, Color::Black),
            (0, 7, King, Color::Black),
        ],
    );
    assert!(legal_from(&board, 4, 1).is_empty());
    assert_eq!(
        board.possible_moves(at(4, 1), Piece::new(Knight, Color::White), false).len(),
        6
    );
    for (_, moves) in board.all_possible_moves() {
        for mv in moves {
            let after = board.piece_moved(&mv);
            assert!(!after.can_attack_king(Color::Black));
        }
    }
}

#[test]
fn check_is_reported_on_the_kings_square() {
    let board = board_with(
        Color::White,
        &[(4, 0, King, Color::White), (4, 7, Rook, Color::Black), (0, 7, King, Color::Black)],
    );
    assert_eq!(board.get_check(), Some(at(4, 0)));
    assert!(board.can_attack_king(Color::Black));
    assert!(!board.can_attack_king(Color::White));
    assert_eq!(board.king_hit(Color::Black), Some(at(4, 0)));
    assert_eq!(board.king_hit(Color::White), None);
    let listing = board.all_possible_moves();
    assert_eq!(listing.len(), 1);
    assert_eq!(targets(&listing[0].1), vec![(5, 1), (3, 1), (5, 0), (3, 0)]);
    assert_eq!(board.game_state(&listing), GameState::Normal);
}

#[test]
fn stalemate_has_no_moves_and_no_check() {
    let board = board_with(
        Color::Black,
        &[(0, 7, King, Color::Black), (1, 5, Queen, Color::White), (2, 5, King, Color::White)],
    );
    let listing = board.all_possible_moves();
    assert!(listing.is_empty());
    assert_eq!(board.get_check(), None);
    assert_eq!(board.game_state(&listing), GameState::Stalemate);
    assert!(board.is_game_over());
}

#[test]
fn checkmate_names_the_side_without_moves() {
    let board = board_with(
        Color::Black,
        &[
            (7, 7, King, Color::Black),
            (6, 6, Pawn, Color::Black),
            (7, 6, Pawn, Color::Black),
            (4, 7, Rook, Color::White),
            (4, 0, King, Color::White),
        ],
    );
    let listing = board.all_possible_moves();
    assert!(listing.is_empty());
    assert_eq!(board.game_state(&listing), GameState::Checkmate(Color::Black));
    assert_eq!(board.get_check(), Some(at(7, 7)));
}

#[test]
fn game_state_goes_by_the_listing_given() {
    let board = Board::with_decks(vec![0], vec![0]);
    assert_eq!(board.game_state(&[]), GameState::Stalemate);
    let listing = board.all_possible_moves();
    assert_eq!(board.game_state(&listing), GameState::Normal);
}

#[test]
fn queenside_castling_needs_three_empty_squares() {
    let mut board = board_with(
        Color::White,
        &[
            (4, 0, King, Color::White),
            (0, 0, Rook, Color::White),
            (1, 0, Knight, Color::White),
            (4, 7, King, Color::Black),
        ],
    );
    board.wq_castle = true;
    let king = Piece::new(King, Color::White);
    let blocked = board.pseudo_legal_moves(at(4, 0), king);
    assert!(blocked.iter().all(|mv| mv.castle.is_none()));
    board.pieces[0][1] = None;
    let free = board.pseudo_legal_moves(at(4, 0), king);
    let castle: Vec<&Move> = free.iter().filter(|mv| mv.castle.is_some()).collect();
    assert_eq!(castle.len(), 1);
    assert_eq!(castle[0].to, at(2, 0));
    assert_eq!(castle[0].castle, Some((at(0, 0), at(3, 0))));
    let mv = *castle[0];
    board.move_piece(&mv);
    assert_eq!(board.pieces[0][2], piece(King, Color::White));
    assert_eq!(board.pieces[0][3], piece(Rook, Color::White));
    assert_eq!(board.pieces[0][0], None);
    assert_eq!(board.pieces[0][4], None);
    assert!(!board.wq_castle && !board.wk_castle);
}

#[test]
fn no_castling_out_of_or_through_check() {
    let mut board = board_with(
        Color::White,
        &[
            (4, 0, King, Color::White),
            (7, 0, Rook, Color::White),
            (5, 7, Rook, Color::Black),
            (0, 7, King, Color::Black),
        ],
    );
    board.wk_castle = true;
    let through: Vec<Move> = legal_from(&board, 4, 0);
    assert!(through.iter().all(|mv| mv.castle.is_none()));
    let king = Piece::new(King, Color::White);
    assert!(board.pseudo_legal_moves(at(4, 0), king).iter().any(|mv| mv.castle.is_some()));
    board.pieces[7][5] = None;
    board.pieces[7][4] = piece(Rook, Color::Black);
    assert!(legal_from(&board, 4, 0).iter().all(|mv| mv.castle.is_none()));
    board.pieces[7][4] = None;
    board.pieces[7][6] = piece(Rook, Color::Black);
    assert!(legal_from(&board, 4, 0).iter().all(|mv| mv.castle.is_none()));
    board.pieces[7][6] = None;
    board.pieces[7][7] = piece(Rook, Color::Black);
    let free = legal_from(&board, 4, 0);
    assert_eq!(free.iter().filter(|mv| mv.castle.is_some()).count(), 1);
}

#[test]
fn castling_rights_go_with_rook_and_king() {
    let mut board = board_with(
        Color::White,
        &[
            (4, 0, King, Color::White),
            (0, 0, Rook, Color::White),
            (7, 0, Rook, Color::White),
            (4, 7, King, Color::Black),
            (0, 7, Rook, Color::Black),
            (7, 7, Rook, Color::Black),
        ],
    );
    board.wk_castle = true;
    board.wq_castle = true;
    board.bk_castle = true;
    board.bq_castle = true;
    play(&mut board, (7, 0), (7, 7));
    assert!(!board.wk_castle);
    assert!(board.wq_castle);
    assert!(!board.bk_castle);
    assert!(board.bq_castle);
    play(&mut board, (4, 7), (4, 6));
    assert!(!board.bq_castle);
    assert!(board.wq_castle);
    board.update_castle(at(0, 0), Color::Black);
    assert!(board.wq_castle);
    board.update_castle(at(0, 0), Color::White);
    assert!(!board.wq_castle);
}

#[test]
fn move_records_enough_to_take_it_back() {
    let mut board = Board::with_decks(vec![0, 0], vec![0, 0]);
    let script = [
        ((4, 1), (4, 3)),
        ((3, 6), (3, 4)),
        ((4, 3), (3, 4)),
        ((3, 7), (3, 4)),
        ((6, 0), (5, 2)),
        ((3, 4), (4, 4)),
        ((5, 0), (4, 1)),
        ((2, 7), (6, 3)),
        ((4, 0), (6, 0)),
    ];
    for (from, to) in script {
        let before = board.pieces;
        let mv = find(&board, from, to);
        board.move_piece(&mv);
        let mut back = board.pieces;
        back[mv.to.rank as usize][mv.to.file as usize] = None;
        if let Some((rook_from, rook_to)) = mv.castle {
            back[rook_to.rank as usize][rook_to.file as usize] = None;
            back[rook_from.rank as usize][rook_from.file as usize] =
                piece(Rook, mv.piece.color);
        }
        if let Some((loc, victim)) = mv.attack {
            back[loc.rank as usize][loc.file as usize] = Some(victim);
        }
        back[mv.from.rank as usize][mv.from.file as usize] = Some(mv.piece);
        assert_eq!(back, before);
        assert_eq!(kings(&board, Color::White), 1);
        assert_eq!(kings(&board, Color::Black), 1);
    }
    assert_eq!(board.half_moves, 9);
}

#[test]
fn piece_moved_leaves_the_board_as_it_was() {
    let board = Board::with_decks(vec![3, 4], vec![5]);
    let mv = find(&board, (6, 0), (5, 2));
    let after = board.piece_moved(&mv);
    assert_eq!(board.pieces[0][6], piece(Knight, Color::White));
    assert_eq!(board.half_moves, 0);
    assert_eq!(after.pieces[0][6], None);
    assert_eq!(after.pieces[2][5], piece(Knight, Color::White));
    assert_eq!(after.active, Color::Black);
    assert_eq!(after.half_moves, 1);
    assert_eq!(after.last_move, Some(mv));
    assert_eq!(after.last_event, None);
    assert_eq!(after.white_cards, vec![3, 4]);
    assert_eq!(after.black_cards, vec![5]);
    let copy = board.clone();
    assert_eq!(copy.pieces, board.pieces);
    assert_eq!(copy.white_cards, board.white_cards);
}

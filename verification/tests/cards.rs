use chess::candidates::pieces_of_kind;
use chess::deck::first_event;
use chess::random::{card_for, generate_cards};
use chess::{Board, Color, Event, Location, Piece, PieceType};

use PieceType::{Bishop, King, Knight, Pawn, Queen, Rook};

fn at(file: i8, rank: i8) -> Location {
    Location::new(file, rank)
}

fn piece(typ: PieceType, color: Color) -> Option<Piece> {
    Some(Piece::new(typ, color))
}

fn start() -> Board {
    Board::with_decks(vec![0, 0], vec![0, 0])
}

fn board_with(active: Color, placed: &[(i8, i8, PieceType, Color)]) -> Board {
    let mut board = start();
    board.pieces = [[None; 8]; 8];
    for (file, rank, typ, color) in placed {
        board.pieces[*rank as usize][*file as usize] = piece(*typ, *color);
    }
    board.active = active;
    board.wk_castle = false;
    board.wq_castle = false;
    board.bk_castle = false;
    board.bq_castle = false;
    board
}

fn kings(board: &Board, color: Color) -> usize {
    let mut n = 0;
    for rank in board.pieces.iter() {
        for cell in rank.iter() {
            if *cell == piece(King, color) {
                n += 1;
            }
        }
    }
    n
}

fn second_rank() -> [Location; 8] {
    [at(0, 1), at(1, 1), at(2, 1), at(3, 1), at(4, 1), at(5, 1), at(6, 1), at(7, 1)]
}

#[test]
fn swap_exchanges_two_pieces_and_costs_the_corner() {
    let board = start();
    let after = board.event_applied(Event::Swap(at(0, 0), at(1, 0)));
    assert_eq!(after.pieces[0][0], piece(Knight, Color::White));
    assert_eq!(after.pieces[0][1], piece(Rook, Color::White));
    assert!(!after.wq_castle);
    assert!(after.wk_castle);
    assert!(after.bq_castle && after.bk_castle);
    assert_eq!(after.active, Color::White);
    assert_eq!(after.half_moves, 0);
    assert_eq!(after.last_event, Some(Event::Swap(at(0, 0), at(1, 0))));
    assert_eq!(board.pieces[0][0], piece(Rook, Color::White));
    assert_eq!(board.last_event, None);
}

#[test]
fn knight_and_bishop_change_kind_in_place() {
    let board = start();
    let after = board.event_applied(Event::KnightToBishop(at(1, 0)));
    assert_eq!(after.pieces[0][1], piece(Bishop, Color::White));
    let after = board.event_applied(Event::BishopToKnight(at(2, 0)));
    assert_eq!(after.pieces[0][2], piece(Knight, Color::White));
    assert_eq!(after.pieces[0][1], piece(Knight, Color::White));
    assert!(after.wk_castle && after.wq_castle);
}

#[test]
fn two_rooks_make_a_queen() {
    let board = start();
    let after = board.event_applied(Event::RooksToQueen(at(0, 0), at(7, 0)));
    assert_eq!(after.pieces[0][0], piece(Queen, Color::White));
    assert_eq!(after.pieces[0][7], None);
    assert!(!after.wk_castle && !after.wq_castle);
    assert!(after.bk_castle && after.bq_castle);
}

#[test]
fn queen_makes_two_rooks() {
    let board = start();
    let after = board.event_applied(Event::QueenToRooks(at(3, 0), at(3, 3)));
    assert_eq!(after.pieces[0][3], piece(Rook, Color::White));
    assert_eq!(after.pieces[3][3], piece(Rook, Color::White));
    assert!(after.wk_castle && after.wq_castle);
}

#[test]
fn pawn_runs_ahead() {
    let board = start();
    let after = board.event_applied(Event::PawnRun(at(4, 1), at(4, 5)));
    assert_eq!(after.pieces[1][4], None);
    assert_eq!(after.pieces[5][4], piece(Pawn, Color::White));
    assert_eq!(after.en_passant, None);
}

#[test]
fn eight_pawns_make_a_queen() {
    let board = start();
    let mut squares = second_rank();
    squares.swap(0, 3);
    let after = board.event_applied(Event::PawnsToQueen(squares));
    for file in 0..8 {
        let want = if file == 3 { piece(Queen, Color::White) } else { None };
        assert_eq!(after.pieces[1][file], want);
    }
    assert_eq!(after.pieces[0], board.pieces[0]);
    assert_eq!(after.pieces[6], board.pieces[6]);
}

#[test]
fn queen_makes_eight_pawns() {
    let board = start();
    let after = board.event_applied(Event::QueenToPawns(at(3, 0), 3));
    assert_eq!(after.pieces[0][3], None);
    assert_eq!(after.pieces[3], [piece(Pawn, Color::White); 8]);
    assert_eq!(after.pieces[1], board.pieces[1]);
}

#[test]
fn queen_on_the_rank_becomes_one_of_the_pawns() {
    let board = board_with(
        Color::Black,
        &[(2, 4, Queen, Color::Black), (4, 7, King, Color::Black), (4, 0, King, Color::White)],
    );
    let after = board.event_applied(Event::QueenToPawns(at(2, 4), 4));
    assert_eq!(after.pieces[4], [piece(Pawn, Color::Black); 8]);
}

#[test]
fn rotation_jumps_to_the_other_edge() {
    let mut board = board_with(
        Color::White,
        &[(0, 0, Rook, Color::White), (4, 0, King, Color::White), (4, 7, King, Color::Black)],
    );
    board.wq_castle = true;
    let after = board.event_applied(Event::Rotate(at(0, 0), at(7, 0)));
    assert_eq!(after.pieces[0][0], None);
    assert_eq!(after.pieces[0][7], piece(Rook, Color::White));
    assert!(!after.wq_castle);
}

#[test]
fn king_slide_costs_both_rights() {
    let mut board = board_with(
        Color::White,
        &[
            (0, 0, Rook, Color::White),
            (7, 0, Rook, Color::White),
            (4, 0, King, Color::White),
            (4, 7, King, Color::Black),
        ],
    );
    board.wq_castle = true;
    board.wk_castle = true;
    board.bk_castle = true;
    let after = board.event_applied(Event::KingMove(at(4, 0), at(1, 0)));
    assert_eq!(after.pieces[0][4], None);
    assert_eq!(after.pieces[0][1], piece(King, Color::White));
    assert!(!after.wq_castle && !after.wk_castle);
    assert!(after.bk_castle);
}

#[test]
fn apply_event_changes_the_board_in_place() {
    let mut board = start();
    board.apply_event(Event::KnightToBishop(at(6, 0)));
    assert_eq!(board.pieces[0][6], piece(Bishop, Color::White));
    assert_eq!(board.last_event, Some(Event::KnightToBishop(at(6, 0))));
    assert_eq!(board.active, Color::White);
}

#[test]
fn candidates_at_the_start() {
    let board = start();
    assert_eq!(
        board.n2b_candidates(),
        vec![Event::KnightToBishop(at(1, 0)), Event::KnightToBishop(at(6, 0))]
    );
    assert_eq!(
        board.b2n_candidates(),
        vec![Event::BishopToKnight(at(2, 0)), Event::BishopToKnight(at(5, 0))]
    );
    assert_eq!(
        board.r2q_candidates(),
        vec![
            Event::RooksToQueen(at(0, 0), at(7, 0)),
            Event::RooksToQueen(at(7, 0), at(0, 0))
        ]
    );
    assert_eq!(
        board.q2p_candidates(),
        vec![
            Event::QueenToPawns(at(3, 0), 2),
            Event::QueenToPawns(at(3, 0), 3),
            Event::QueenToPawns(at(3, 0), 4),
            Event::QueenToPawns(at(3, 0), 5)
        ]
    );
    assert!(board.rotate_candidates().is_empty());
    assert!(board.king_move_candidates().is_empty());
    let runs = board.pawn_run_candidates();
    assert_eq!(runs.len(), 8);
    for file in 0..8 {
        assert_eq!(runs[file as usize], Event::PawnRun(at(file, 1), at(file, 5)));
    }
}

#[test]
fn queen_split_candidates_cover_the_empty_squares() {
    let board = start();
    let splits = board.q2r_candidates();
    assert_eq!(splits.len(), 32);
    assert_eq!(splits[0], Event::QueenToRooks(at(3, 0), at(0, 2)));
    assert_eq!(splits[8], Event::QueenToRooks(at(3, 0), at(0, 3)));
    assert_eq!(splits[31], Event::QueenToRooks(at(3, 0), at(7, 5)));
}

#[test]
fn pawn_fusion_candidates_name_each_pawn_first() {
    let board = start();
    let fusions = board.p2q_candidates();
    assert_eq!(fusions.len(), 8);
    assert_eq!(fusions[0], Event::PawnsToQueen(second_rank()));
    for i in 0..8 {
        let mut want = second_rank();
        want.swap(0, i);
        assert_eq!(fusions[i], Event::PawnsToQueen(want));
    }
}

#[test]
fn pawn_fusion_needs_eight_pawns() {
    let mut board = start();
    board.pieces[1][7] = None;
    assert!(board.p2q_candidates().is_empty());
    assert_eq!(board.make_p2q(), None);
}

#[test]
fn swap_candidates_at_the_start() {
    let board = start();
    let swaps = board.swap_candidates();
    assert_eq!(swaps.len(), 74);
    assert_eq!(swaps[0], Event::Swap(at(1, 0), at(0, 0)));
    assert_eq!(swaps[1], Event::Swap(at(2, 0), at(0, 0)));
    assert_eq!(swaps[2], Event::Swap(at(2, 0), at(1, 0)));
    for swap in swaps {
        if let Event::Swap(a, b) = swap {
            let p = board.piece(a).unwrap();
            let q = board.piece(b).unwrap();
            assert_ne!(p.typ, q.typ);
            assert!(!p.is_king() && !q.is_king());
        } else {
            panic!("not a swap");
        }
    }
}

#[test]
fn swap_keeps_pawns_off_the_furthest_rank() {
    let board = board_with(
        Color::White,
        &[
            (0, 7, Rook, Color::White),
            (1, 1, Pawn, Color::White),
            (2, 2, Knight, Color::White),
            (4, 0, King, Color::White),
            (4, 6, King, Color::Black),
        ],
    );
    assert_eq!(
        board.swap_candidates(),
        vec![Event::Swap(at(2, 2), at(1, 1)), Event::Swap(at(0, 7), at(2, 2))]
    );
    let black = board_with(
        Color::Black,
        &[
            (0, 0, Rook, Color::Black),
            (1, 1, Pawn, Color::Black),
            (4, 0, King, Color::White),
            (4, 6, King, Color::Black),
        ],
    );
    assert!(black.swap_candidates().is_empty());
}

#[test]
fn rotation_needs_an_empty_square_across() {
    let board = board_with(
        Color::White,
        &[
            (0, 0, Rook, Color::White),
            (7, 2, Bishop, Color::White),
            (0, 3, Pawn, Color::White),
            (7, 3, Pawn, Color::Black),
            (3, 3, Queen, Color::White),
            (4, 0, King, Color::White),
            (4, 7, King, Color::Black),
        ],
    );
    assert_eq!(
        board.rotate_candidates(),
        vec![Event::Rotate(at(0, 0), at(7, 0)), Event::Rotate(at(7, 2), at(0, 2))]
    );
}

#[test]
fn pawn_run_stops_before_a_blocker_and_before_the_last_rank() {
    let board = board_with(
        Color::White,
        &[
            (0, 1, Pawn, Color::White),
            (1, 1, Pawn, Color::White),
            (1, 4, Knight, Color::Black),
            (2, 1, Pawn, Color::White),
            (2, 2, Knight, Color::White),
            (3, 6, Pawn, Color::White),
            (4, 0, King, Color::White),
            (4, 7, King, Color::Black),
        ],
    );
    assert_eq!(
        board.pawn_run_candidates(),
        vec![Event::PawnRun(at(0, 1), at(0, 6)), Event::PawnRun(at(1, 1), at(1, 3))]
    );
    let black = board_with(
        Color::Black,
        &[(5, 6, Pawn, Color::Black), (4, 0, King, Color::White), (4, 7, King, Color::Black)],
    );
    assert_eq!(black.pawn_run_candidates(), vec![Event::PawnRun(at(5, 6), at(5, 1))]);
}

#[test]
fn king_slides_away_from_the_nearer_edge() {
    let left = board_with(
        Color::White,
        &[(1, 0, King, Color::White), (5, 0, Knight, Color::White), (4, 7, King, Color::Black)],
    );
    assert_eq!(left.king_move_candidates(), vec![Event::KingMove(at(1, 0), at(4, 0))]);
    let right = board_with(
        Color::White,
        &[(4, 0, King, Color::White), (4, 7, King, Color::Black)],
    );
    assert_eq!(right.king_move_candidates(), vec![Event::KingMove(at(4, 0), at(0, 0))]);
    let none = board_with(Color::White, &[(4, 7, King, Color::Black)]);
    assert!(none.king_move_candidates().is_empty());
}

#[test]
fn glide_and_rank_clear() {
    let board = start();
    assert_eq!(board.glide(at(0, 1), (0, 1), 7), at(0, 5));
    assert_eq!(board.glide(at(0, 1), (0, 1), 4), at(0, 3));
    assert_eq!(board.glide(at(0, 0), (1, 0), -1), at(0, 0));
    assert_eq!(board.glide(at(0, 3), (1, 0), -1), at(7, 3));
    assert_eq!(board.glide(at(0, 3), (0, 0), -1), at(0, 3));
    assert!(board.rank_clear(3, at(0, 0)));
    assert!(!board.rank_clear(0, at(0, 0)));
    let lone = board_with(Color::White, &[(2, 0, Queen, Color::White)]);
    assert!(lone.rank_clear(0, at(2, 0)));
    assert!(!lone.rank_clear(0, at(3, 0)));
}

#[test]
fn pieces_of_one_kind() {
    let board = start();
    let white = board.iter_active_pieces();
    let rooks = pieces_of_kind(&white, Rook);
    assert_eq!(
        rooks,
        vec![(at(0, 0), Piece::new(Rook, Color::White)), (at(7, 0), Piece::new(Rook, Color::White))]
    );
    assert_eq!(pieces_of_kind(&white, Pawn).len(), 8);
    assert_eq!(board.final_rank(), 7);
}

#[test]
fn event_that_bares_the_own_king_is_not_valid() {
    let board = board_with(
        Color::White,
        &[
            (7, 0, King, Color::White),
            (7, 1, Rook, Color::White),
            (7, 7, Rook, Color::Black),
            (0, 7, King, Color::Black),
        ],
    );
    assert_eq!(board.rotate_candidates(), vec![
        Event::Rotate(at(7, 0), at(0, 0)),
        Event::Rotate(at(7, 1), at(0, 1)),
    ]);
    assert!(!board.is_valid_event(Event::Rotate(at(7, 1), at(0, 1))));
    assert!(board.is_valid_event(Event::Rotate(at(7, 0), at(0, 0))));
    let valid = board.valid_events(&board.rotate_candidates());
    assert_eq!(valid, vec![Event::Rotate(at(7, 0), at(0, 0))]);
    for _ in 0..20 {
        assert_eq!(board.make_rotate(), Some(Event::Rotate(at(7, 0), at(0, 0))));
    }
    for event in valid {
        let after = board.event_applied(event);
        assert!(!after.can_attack_king(Color::Black));
        assert!(!after.all_possible_moves().is_empty());
        assert_eq!(kings(&after, Color::White), 1);
        assert_eq!(kings(&after, Color::Black), 1);
    }
}

#[test]
fn event_that_leaves_no_move_is_not_valid() {
    let board = board_with(
        Color::White,
        &[
            (0, 0, King, Color::White),
            (7, 0, Knight, Color::White),
            (6, 1, Pawn, Color::White),
            (6, 2, Pawn, Color::Black),
            (2, 1, Queen, Color::Black),
            (7, 7, King, Color::Black),
        ],
    );
    assert_eq!(board.all_possible_moves().len(), 1);
    assert_eq!(board.get_check(), None);
    let event = Event::KnightToBishop(at(7, 0));
    assert_eq!(board.n2b_candidates(), vec![event]);
    let after = board.event_applied(event);
    assert!(!after.can_attack_king(Color::Black));
    assert!(after.all_possible_moves().is_empty());
    assert!(!board.is_valid_event(event));
    assert!(board.valid_events(&vec![event]).is_empty());
    assert_eq!(board.make_n2b(), None);
    assert_eq!(board.make_event(2), None);
}

#[test]
fn event_may_threaten_the_other_king() {
    let board = board_with(
        Color::Black,
        &[
            (4, 0, King, Color::White),
            (7, 3, Knight, Color::Black),
            (0, 7, King, Color::Black),
        ],
    );
    let event = Event::KnightToBishop(at(7, 3));
    let after = board.event_applied(event);
    assert!(after.can_attack_king(Color::Black));
    assert!(!after.can_attack_king(Color::White));
    assert!(board.is_valid_event(event));
}

#[test]
fn valid_events_never_leave_the_side_to_move_stuck_or_in_check() {
    let mut board = start();
    let script = [((4, 1), (4, 3)), ((4, 6), (4, 4)), ((6, 0), (5, 2)), ((1, 7), (2, 5))];
    for (from, to) in script {
        let mut found = None;
        for (origin, moves) in board.all_possible_moves() {
            for mv in moves {
                if origin == at(from.0, from.1) && mv.to == at(to.0, to.1) {
                    found = Some(mv);
                }
            }
        }
        board.move_piece(&found.unwrap());
    }
    let offers = [
        board.b2n_candidates(),
        board.n2b_candidates(),
        board.r2q_candidates(),
        board.q2r_candidates(),
        board.p2q_candidates(),
        board.q2p_candidates(),
        board.swap_candidates(),
        board.rotate_candidates(),
        board.pawn_run_candidates(),
        board.king_move_candidates(),
    ];
    for cands in offers {
        for event in board.valid_events(&cands) {
            assert!(cands.contains(&event));
            let after = board.event_applied(event);
            assert!(!after.can_attack_king(after.active.other()));
            assert!(!after.is_game_over());
            assert_eq!(kings(&after, Color::White), 1);
            assert_eq!(kings(&after, Color::Black), 1);
        }
        for event in cands {
            let after = board.event_applied(event);
            assert_eq!(kings(&after, Color::White), 1);
            assert_eq!(kings(&after, Color::Black), 1);
        }
    }
}

#[test]
fn first_event_of_a_list() {
    assert_eq!(first_event(&vec![]), None);
    let a = Event::KnightToBishop(at(1, 0));
    let b = Event::KnightToBishop(at(6, 0));
    assert_eq!(first_event(&vec![a, b]), Some(a));
}

#[test]
fn dealing_takes_the_last_card() {
    let mut board = Board::with_decks(vec![4, 7], vec![9]);
    assert_eq!(board.top_card(), 7);
    board.deal(vec![1, 2, 3, 4, 5], None);
    assert_eq!(board.last_card, Some(7));
    assert_eq!(board.white_cards, vec![4]);
    assert_eq!(board.black_cards, vec![9]);
    assert_eq!(board.last_event, None);
    assert_eq!(board.top_card(), 4);
    let event = Event::BishopToKnight(at(2, 0));
    board.deal(vec![1, 2, 3, 4, 5], Some(event));
    assert_eq!(board.last_card, Some(4));
    assert_eq!(board.white_cards, vec![1, 2, 3, 4, 5]);
    assert_eq!(board.black_cards, vec![9]);
    assert_eq!(board.last_event, Some(event));
    assert_eq!(board.pieces[0][2], piece(Knight, Color::White));
    assert_eq!(board.active, Color::White);
    assert_eq!(board.half_moves, 0);
}

#[test]
fn dealing_to_black_leaves_whites_hand() {
    let mut board = Board::with_decks(vec![4, 7], vec![9]);
    board.active = Color::Black;
    assert_eq!(board.top_card(), 9);
    board.deal(vec![0, 0, 0, 0, 10], None);
    assert_eq!(board.last_card, Some(9));
    assert_eq!(board.white_cards, vec![4, 7]);
    assert_eq!(board.black_cards, vec![0, 0, 0, 0, 10]);
}

#[test]
fn card_zero_does_nothing() {
    let mut board = Board::with_decks(vec![0, 0], vec![0, 0]);
    let before = board.pieces;
    board.draw_card();
    assert_eq!(board.last_card, Some(0));
    assert_eq!(board.white_cards, vec![0]);
    assert_eq!(board.black_cards, vec![0, 0]);
    assert_eq!(board.last_event, None);
    assert_eq!(board.pieces, before);
    assert_eq!(board.make_event(0), None);
}

#[test]
fn last_card_brings_five_fresh_ones() {
    for _ in 0..50 {
        let mut board = Board::with_decks(vec![0], vec![0, 0]);
        board.draw_card();
        assert_eq!(board.last_card, Some(0));
        assert_eq!(board.white_cards.len(), 5);
        assert!(board.white_cards.iter().all(|card| *card <= 10));
        assert_eq!(board.black_cards, vec![0, 0]);
    }
}

#[test]
fn drawn_card_plays_one_of_its_events() {
    let a = Event::KnightToBishop(at(1, 0));
    let b = Event::KnightToBishop(at(6, 0));
    let mut seen_a = false;
    let mut seen_b = false;
    for _ in 0..200 {
        let mut board = Board::with_decks(vec![0, 2], vec![0, 0]);
        board.draw_card();
        assert_eq!(board.last_card, Some(2));
        assert_eq!(board.white_cards, vec![0]);
        assert_eq!(board.active, Color::White);
        assert_eq!(board.half_moves, 0);
        if board.last_event == Some(a) {
            seen_a = true;
            assert_eq!(board.pieces[0][1], piece(Bishop, Color::White));
            assert_eq!(board.pieces[0][6], piece(Knight, Color::White));
        } else {
            assert_eq!(board.last_event, Some(b));
            seen_b = true;
            assert_eq!(board.pieces[0][6], piece(Bishop, Color::White));
            assert_eq!(board.pieces[0][1], piece(Knight, Color::White));
        }
    }
    assert!(seen_a && seen_b);
}

#[test]
fn every_card_finds_its_kind_of_event() {
    let board = start();
    assert!(matches!(board.make_event(1), Some(Event::BishopToKnight(_))));
    assert!(matches!(board.make_event(2), Some(Event::KnightToBishop(_))));
    assert!(matches!(board.make_event(3), Some(Event::RooksToQueen(_, _))));
    assert!(matches!(board.make_event(4), Some(Event::QueenToRooks(_, _))));
    assert!(matches!(board.make_event(5), Some(Event::PawnsToQueen(_))));
    assert!(matches!(board.make_event(6), Some(Event::QueenToPawns(_, _))));
    assert!(matches!(board.make_event(7), Some(Event::Swap(_, _))));
    assert_eq!(board.make_event(8), None);
    assert!(matches!(board.make_event(9), Some(Event::PawnRun(_, _))));
    assert_eq!(board.make_event(10), None);
    assert_eq!(board.make_event(11), None);
    assert!(matches!(board.make_b2n(), Some(Event::BishopToKnight(_))));
    assert!(matches!(board.make_n2b(), Some(Event::KnightToBishop(_))));
    assert!(matches!(board.make_r2q(), Some(Event::RooksToQueen(_, _))));
    assert!(matches!(board.make_q2r(), Some(Event::QueenToRooks(_, _))));
    assert!(matches!(board.make_q2p(), Some(Event::QueenToPawns(_, _))));
    assert!(matches!(board.make_swap(), Some(Event::Swap(_, _))));
    assert!(matches!(board.make_pawn_run(), Some(Event::PawnRun(_, _))));
    assert_eq!(board.make_king_move(), None);
}

#[test]
fn chosen_events_come_in_every_order() {
    let board = start();
    let cands = board.n2b_candidates();
    let mut first = 0;
    let mut second = 0;
    for _ in 0..200 {
        match board.gen_events(&cands) {
            Some(e) if e == cands[0] => first += 1,
            Some(e) if e == cands[1] => second += 1,
            other => panic!("unexpected choice {:?}", other),
        }
    }
    assert!(first > 0 && second > 0);
    assert_eq!(board.gen_events(&vec![]), None);
}

#[test]
fn card_of_a_throw() {
    assert_eq!(card_for(true, 7), 0);
    assert_eq!(card_for(false, 7), 7);
    assert_eq!(card_for(false, 0), 0);
    assert_eq!(card_for(true, 0), 0);
}

#[test]
fn fresh_cards_are_in_range_and_vary() {
    let mut zeros = 0;
    let mut others = std::collections::BTreeSet::new();
    for _ in 0..200 {
        let cards = generate_cards(5);
        assert_eq!(cards.len(), 5);
        for card in cards {
            assert!(card <= 10);
            if card == 0 {
                zeros += 1;
            } else {
                others.insert(card);
            }
        }
    }
    assert!(zeros > 300 && zeros < 700);
    assert_eq!(others.len(), 10);
    assert!(generate_cards(0).is_empty());
    assert_eq!(generate_cards(3).len(), 3);
}

#[test]
fn default_board_is_the_initial_position_with_two_hands() {
    let board = Board::default();
    let plain = start();
    assert_eq!(board.pieces, plain.pieces);
    assert_eq!(board.active, Color::White);
    assert!(board.wk_castle && board.wq_castle && board.bk_castle && board.bq_castle);
    assert_eq!(board.en_passant, None);
    assert_eq!(board.half_moves, 0);
    assert_eq!(board.last_move, None);
    assert_eq!(board.last_event, None);
    assert_eq!(board.last_card, None);
    assert_eq!(board.white_cards.len(), 5);
    assert_eq!(board.black_cards.len(), 5);
    assert!(board.white_cards.iter().chain(board.black_cards.iter()).all(|card| *card <= 10));
}

#[test]
fn move_clears_the_last_event() {
    let mut board = start();
    board.apply_event(Event::KnightToBishop(at(1, 0)));
    assert!(board.last_event.is_some());
    let listing = board.all_possible_moves();
    let mv = listing[0].1[0];
    board.move_piece(&mv);
    assert_eq!(board.last_event, None);
    assert_eq!(board.last_move, Some(mv));
}

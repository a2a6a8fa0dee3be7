use tetris::chooser::PieceChooser;
use tetris::tetromino::Tetromino;

#[test]
fn new_queue_holds_as_many_shapes_as_asked() {
    for length in [0usize, 1, 3, 7] {
        let chooser = PieceChooser::new(length);
        assert_eq!(chooser.next_pieces.len(), length);
        assert_eq!(chooser.max_next_pieces(), length);
        assert!(chooser.next_pieces.iter().all(|shape| *shape != Tetromino::E));
    }
}

#[test]
fn next_piece_is_the_oldest_and_the_queue_keeps_its_length() {
    let mut chooser = PieceChooser::new(3);
    for _ in 0..200 {
        let before = chooser.next_pieces.clone();
        let next = chooser.get_next_piece();
        assert_eq!(next, before[2]);
        assert_eq!(chooser.next_pieces.len(), 3);
        assert_eq!(chooser.next_pieces[1], before[0]);
        assert_eq!(chooser.next_pieces[2], before[1]);
        assert_ne!(chooser.next_pieces[0], Tetromino::E);
    }
}

#[test]
fn a_queue_of_one_hands_out_what_it_drew_before() {
    let mut chooser = PieceChooser::new(1);
    for _ in 0..50 {
        let waiting = chooser.next_pieces[0];
        assert_eq!(chooser.get_next_piece(), waiting);
        assert_eq!(chooser.next_pieces.len(), 1);
    }
}

#[test]
fn a_short_queue_hands_out_a_fresh_shape_and_grows() {
    let mut chooser = PieceChooser::new(3);
    chooser.next_pieces.pop();
    let before = chooser.next_pieces.clone();
    let next = chooser.get_next_piece();
    assert_ne!(next, Tetromino::E);
    assert_eq!(chooser.next_pieces.len(), 3);
    assert_eq!(chooser.next_pieces[1..], before[..]);
}

#[test]
fn feed_puts_the_shape_in_front_and_hands_out_the_last() {
    let mut chooser = PieceChooser::new(3);
    chooser.next_pieces = vec![Tetromino::I, Tetromino::O, Tetromino::T];
    assert_eq!(chooser.feed(Tetromino::Z), Some(Tetromino::T));
    assert_eq!(chooser.next_pieces, vec![Tetromino::Z, Tetromino::I, Tetromino::O]);
    assert_eq!(chooser.feed(Tetromino::S), Some(Tetromino::O));
    assert_eq!(chooser.next_pieces, vec![Tetromino::S, Tetromino::Z, Tetromino::I]);
}

#[test]
fn feed_hands_out_nothing_from_a_queue_that_is_not_full() {
    let mut chooser = PieceChooser::new(3);
    chooser.next_pieces = vec![Tetromino::I];
    assert_eq!(chooser.feed(Tetromino::Z), None);
    assert_eq!(chooser.next_pieces, vec![Tetromino::Z, Tetromino::I]);
    assert_eq!(chooser.feed(Tetromino::J), None);
    assert_eq!(chooser.next_pieces, vec![Tetromino::J, Tetromino::Z, Tetromino::I]);
    assert_eq!(chooser.feed(Tetromino::L), Some(Tetromino::I));
}

#[test]
fn random_pieces_are_shapes_and_not_always_the_same() {
    let mut seen = Vec::new();
    for _ in 0..500 {
        let shape = PieceChooser::get_random_piece();
        assert_ne!(shape, Tetromino::E);
        if !seen.contains(&shape) {
            seen.push(shape);
        }
    }
    assert_eq!(seen.len(), 7);
}

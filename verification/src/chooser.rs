//! The queue of the shapes to come.

use vstd::prelude::*;
use crate::tetromino::Tetromino;

verus! {

/// A queue of the shapes to come, of a fixed length. The newest shape is at
/// the front and the next shape to enter the board at the back.
#[derive(Debug)]
pub struct PieceChooser {
    /// The shapes to come, the next one last.
    pub next_pieces: Vec<Tetromino>,
    max_next_pieces: usize,
}

/// The mathematical value of a [`PieceChooser`].
pub struct ChooserView {
    /// The shapes to come, the next one last.
    pub queue: Seq<Tetromino>,
    /// The length that the queue is meant to have.
    pub capacity: nat,
}

impl ChooserView {
    /// The queue has the length it is meant to have.
    pub open spec fn full(self) -> bool {
        self.queue.len() == self.capacity
    }

    /// The queue after `shape` comes in at the front, and the shape that
    /// leaves at the back. No shape leaves a queue that is not full.
    pub open spec fn fed(self, shape: Tetromino) -> (ChooserView, Option<Tetromino>) {
        if self.full() {
            (
                ChooserView { queue: seq![shape] + self.queue.drop_last(), ..self },
                Some(self.queue.last()),
            )
        } else {
            (ChooserView { queue: seq![shape] + self.queue, ..self }, None)
        }
    }
}

/// A full queue that can hold a shape is full again after a shape comes in,
/// and hands out the shape that was at its back.
pub proof fn lemma_fed_keeps_length(chooser: ChooserView, shape: Tetromino)
    requires
        chooser.full(),
        chooser.capacity > 0,
    ensures
        chooser.fed(shape).0.full(),
        chooser.fed(shape).0.capacity == chooser.capacity,
        chooser.fed(shape).0.queue[0] == shape,
        chooser.fed(shape).1 == Some(chooser.queue.last()),
{
}

impl View for PieceChooser {
    type V = ChooserView;

    closed spec fn view(&self) -> ChooserView {
        ChooserView { queue: self.next_pieces@, capacity: self.max_next_pieces as nat }
    }
}

/// Calls `ChooseRandom::choose` of macroquad's `rand` module, which draws an
/// index below the length of the list from the process-wide generator and
/// hands out the entry there. Trusted: for a list of one to 65536 entries the
/// index lies within the list, so an entry of the list comes back.
#[verifier::external_body]
fn choose_shape(shapes: &Vec<Tetromino>) -> (picked: Option<Tetromino>)
    requires
        0 < shapes@.len() <= 0x1_0000,
    ensures
        picked is Some,
        shapes@.contains(picked->0),
{
    macroquad::rand::ChooseRandom::choose(shapes.as_slice()).copied()
}

impl PieceChooser {
    /// A queue of `max_next_pieces` shapes drawn at random.
    pub fn new(max_next_pieces: usize) -> (chooser: PieceChooser)
        ensures
            chooser@.capacity == max_next_pieces,
            chooser@.full(),
            forall|i: int| 0 <= i < chooser@.queue.len() ==> chooser@.queue[i].is_shape(),
    {
        let mut next_pieces: Vec<Tetromino> = Vec::new();
        for i in 0..max_next_pieces
            invariant
                next_pieces@.len() == i,
                forall|k: int| 0 <= k < next_pieces@.len() ==> next_pieces@[k].is_shape(),
        {
            next_pieces.push(PieceChooser::get_random_piece());
        }
        PieceChooser { next_pieces, max_next_pieces }
    }

    /// The length that the queue is meant to have.
    pub fn max_next_pieces(&self) -> (capacity: usize)
        ensures
            capacity == self@.capacity,
    {
        self.max_next_pieces
    }

    /// Puts `shape` at the front of the queue. If the queue is full, the
    /// shape at the back leaves it and is returned, and the queue stays full.
    pub fn feed(&mut self, shape: Tetromino) -> (next: Option<Tetromino>)
        requires
            old(self)@.full() ==> old(self)@.capacity > 0,
        ensures
            (final(self)@, next) == old(self)@.fed(shape),
            old(self)@.full() ==> final(self)@.full() && next is Some,
            final(self)@.capacity == old(self)@.capacity,
    {
        let next = if self.next_pieces.len() == self.max_next_pieces {
            self.next_pieces.pop()
        } else {
            None
        };
        self.next_pieces.insert(0, shape);
        proof {
            if old(self)@.full() {
                assert(self@.queue =~= seq![shape] + old(self)@.queue.drop_last());
            } else {
                assert(self@.queue =~= seq![shape] + old(self)@.queue);
            }
        }
        next
    }

    /// Draws a new shape into the front of the queue and returns the shape
    /// that leaves at the back. Should the queue not be full, no shape
    /// leaves it and a second shape is drawn and returned instead.
    pub fn get_next_piece(&mut self) -> (next: Tetromino)
        requires
            old(self)@.full() ==> old(self)@.capacity > 0,
        ensures
            exists|drawn: Tetromino|
                drawn.is_shape() && final(self)@ == (#[trigger] old(self)@.fed(drawn)).0 && (
                old(self)@.fed(drawn).1 matches Some(last) ==> next == last),
            !old(self)@.full() ==> next.is_shape(),
            old(self)@.full() ==> final(self)@.full() && next == old(self)@.queue.last(),
            final(self)@.capacity == old(self)@.capacity,
    {
        let new_shape = PieceChooser::get_random_piece();
        match self.feed(new_shape) {
            Some(next_shape) => next_shape,
            None => PieceChooser::get_random_piece(),
        }
    }

    /// One of the seven shapes, drawn at random. Which one is for the
    /// generator to say; that it is one of the seven is all that is proved.
    pub fn get_random_piece() -> (shape: Tetromino)
        ensures
            shape.is_shape(),
    {
        let shapes = vec![
            Tetromino::I,
            Tetromino::O,
            Tetromino::T,
            Tetromino::S,
            Tetromino::Z,
            Tetromino::J,
            Tetromino::L,
        ];
        let picked = choose_shape(&shapes);
        proof {
            let i = choose|i: int| 0 <= i < shapes@.len() && shapes@[i] == picked->0;
            assert(shapes@[i].is_shape());
        }
        picked.unwrap()
    }
}

} // verus!

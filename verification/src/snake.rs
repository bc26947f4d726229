//! The snake: an ordered run of grid cells and the direction of travel.

use vstd::prelude::*;
use crate::direction::Direction;

verus! {

/// A grid cell, as `(x, y)`. Cells with `x` in `1..width` and `y` in
/// `1..height` are the playable interior of a board; those around them are
/// wall.
pub type Position = (u16, u16);

/// Whether one step from `cell` in direction `dir` stays within the range of
/// the coordinate type. The board's walls play no part here.
pub open spec fn can_step(cell: Position, dir: Direction) -> bool {
    &&& 0 <= cell.0 + dir.dx() <= u16::MAX
    &&& 0 <= cell.1 + dir.dy() <= u16::MAX
}

/// The cell one step from `cell` in direction `dir`.
pub open spec fn step(cell: Position, dir: Direction) -> Position
    recommends
        can_step(cell, dir),
{
    ((cell.0 + dir.dx()) as u16, (cell.1 + dir.dy()) as u16)
}

/// The body after one constant-length move in direction `dir`: the stepped
/// head in front, every segment shifted back by one, the old tail gone.
pub open spec fn advanced(body: Seq<Position>, dir: Direction) -> Seq<Position>
    recommends
        body.len() >= 1,
{
    seq![step(body[0], dir)] + body.drop_last()
}

/// The body after growing by one segment: the tail cell is repeated at the
/// end.
pub open spec fn grown(body: Seq<Position>) -> Seq<Position>
    recommends
        body.len() >= 1,
{
    body.push(body.last())
}

/// The direction after a request to turn toward `requested`: the request is
/// taken unless it is the exact reverse of `current`.
pub open spec fn turned(current: Direction, requested: Direction) -> Direction {
    if requested == current.opposite() {
        current
    } else {
        requested
    }
}

/// The snake. `body[0]` is the head and the last element is the tail.
pub struct Snake {
    pub body: Vec<Position>,
    pub direction: Direction,
}

impl Snake {
    /// A snake has at least one segment.
    pub open spec fn wf(&self) -> bool {
        self.body@.len() >= 1
    }

    /// The head cell.
    pub open spec fn head(&self) -> Position
        recommends
            self.wf(),
    {
        self.body@[0]
    }

    /// Whether the next move keeps the head within the coordinate range.
    pub open spec fn spec_can_advance(&self) -> bool {
        self.wf() && can_step(self.head(), self.direction)
    }

    /// A snake of three segments in a horizontal line, head at `(x, y)`, the
    /// rest trailing to the left, heading right.
    pub fn new(x: u16, y: u16) -> (snake: Snake)
        requires
            x >= 2,
        ensures
            snake.body@ == seq![(x, y), ((x - 1) as u16, y), ((x - 2) as u16, y)],
            snake.direction == Direction::Right,
            snake.wf(),
    {
        let mut body: Vec<Position> = Vec::new();
        body.push((x, y));
        body.push((x - 1, y));
        body.push((x - 2, y));
        Snake { body, direction: Direction::Right }
    }

    /// Tells whether `move_forward` may be called: the snake has a head and
    /// the step does not leave the coordinate range.
    #[verifier::when_used_as_spec(spec_can_advance)]
    pub fn can_advance(&self) -> (ok: bool)
        ensures
            ok == self.spec_can_advance(),
    {
        if self.body.len() == 0 {
            return false;
        }
        let head = self.body[0];
        match self.direction {
            Direction::Up => head.1 > 0,
            Direction::Down => head.1 < u16::MAX,
            Direction::Left => head.0 > 0,
            Direction::Right => head.0 < u16::MAX,
        }
    }

    /// Returns the cell that the head will enter on the next move.
    pub fn next_head(&self) -> (cell: Position)
        requires
            self.can_advance(),
        ensures
            cell == step(self.head(), self.direction),
    {
        let head = self.body[0];
        match self.direction {
            Direction::Up => (head.0, head.1 - 1),
            Direction::Down => (head.0, head.1 + 1),
            Direction::Left => (head.0 - 1, head.1),
            Direction::Right => (head.0 + 1, head.1),
        }
    }

    /// Moves the snake one cell in its current direction. The length stays
    /// the same: a new head is put in front and the tail is dropped. Walls
    /// are not looked at.
    pub fn move_forward(&mut self)
        requires
            old(self).can_advance(),
        ensures
            final(self).body@ == advanced(old(self).body@, old(self).direction),
            final(self).body@.len() == old(self).body@.len(),
            final(self).head().0 == old(self).head().0 + old(self).direction.dx(),
            final(self).head().1 == old(self).head().1 + old(self).direction.dy(),
            forall|i: int|
                1 <= i < old(self).body@.len() ==> final(self).body@[i] == old(self).body@[i - 1],
            final(self).direction == old(self).direction,
            final(self).wf(),
    {
        let new_head = self.next_head();
        self.body.insert(0, new_head);
        self.body.pop();
        assert(self.body@ =~= advanced(old(self).body@, old(self).direction));
    }

    /// Lengthens the snake by one segment, which lies on the tail's cell.
    pub fn grow(&mut self)
        requires
            old(self).wf(),
        ensures
            final(self).body@ == grown(old(self).body@),
            final(self).body@.len() == old(self).body@.len() + 1,
            final(self).direction == old(self).direction,
            final(self).wf(),
    {
        let tail = self.body[self.body.len() - 1];
        self.body.push(tail);
    }

    /// Turns the snake toward `new_dir`, unless that is the exact reverse of
    /// the current direction, in which case nothing changes.
    pub fn change_direction(&mut self, new_dir: Direction)
        ensures
            final(self).direction == turned(old(self).direction, new_dir),
            new_dir != old(self).direction.opposite() ==> final(self).direction == new_dir,
            new_dir == old(self).direction.opposite() ==> final(self).direction
                == old(self).direction,
            final(self).body == old(self).body,
    {
        if new_dir != self.direction.opposite() {
            self.direction = new_dir;
        }
    }
}

/// A request to turn is taken whenever it does not reverse the snake, and
/// whatever is requested, the snake never ends up reversed.
pub proof fn lemma_turn_never_reverses(current: Direction, requested: Direction)
    ensures
        requested != current.opposite() ==> turned(current, requested) == requested,
        requested == current.opposite() ==> turned(current, requested) == current,
        turned(current, requested) != current.opposite(),
{
}

/// A move vacates no cell but the tail's: every other segment's cell is
/// taken over by the segment behind it, and the length stays the same.
pub proof fn lemma_only_tail_vacated(body: Seq<Position>, dir: Direction)
    requires
        body.len() >= 1,
    ensures
        advanced(body, dir).len() == body.len(),
        advanced(body, dir)[0] == step(body[0], dir),
        forall|i: int| 0 <= i < body.len() - 1 ==> advanced(body, dir)[i + 1] == body[i],
        forall|cell: Position|
            body.contains(cell) ==> advanced(body, dir).contains(cell) || cell == body.last(),
{
    let next = advanced(body, dir);
    assert forall|cell: Position| body.contains(cell) implies next.contains(cell) || cell
        == body.last() by {
        let i = choose|i: int| 0 <= i < body.len() && body[i] == cell;
        if i < body.len() - 1 {
            assert(next[i + 1] == cell);
        }
    }
}

} // verus!

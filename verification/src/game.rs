//! The game state and the rules of a tick.

use vstd::prelude::*;
use crate::direction::Direction;
use crate::food::{
    count_free_cells, free_cells, has_free_cell, is_free, lemma_room_for_food, nth_free_cell,
};
use crate::random::random_below;
use crate::snake::{advanced, can_step, grown, step, Position, Snake};

verus! {

/// Whether `cell` lies on or beyond the wall of a `width` by `height` board.
/// Only cells with `1 <= x < width` and `1 <= y < height` are playable.
pub open spec fn hits_wall(cell: Position, width: u16, height: u16) -> bool {
    cell.0 == 0 || cell.0 >= width || cell.1 == 0 || cell.1 >= height
}

/// Whether the head of `body` shares its cell with another segment.
pub open spec fn hits_self(body: Seq<Position>) -> bool {
    exists|i: int| 1 <= i < body.len() && #[trigger] body[i] == body[0]
}

/// One session of the game: the snake, the food, the score, the board's
/// bounds and the flag that ends the session.
pub struct Game {
    pub snake: Snake,
    pub food: Position,
    pub score: u16,
    pub game_over: bool,
    pub width: u16,
    pub height: u16,
}

impl Game {
    /// A game is well formed when its snake is.
    pub open spec fn wf(&self) -> bool {
        self.snake.wf()
    }

    /// Whether the snake's head is on the wall or on another segment of the
    /// snake.
    pub open spec fn collides(&self) -> bool {
        hits_wall(self.snake.head(), self.width, self.height) || hits_self(self.snake.body@)
    }

    /// Whether the coming tick is a feeding tick: the head's next cell is the
    /// food's.
    pub open spec fn feeds(&self) -> bool {
        step(self.snake.head(), self.snake.direction) == self.food
    }

    /// The snake's body after the coming tick: moved by one cell, and longer
    /// by one segment if the tick is a feeding tick.
    pub open spec fn next_body(&self) -> Seq<Position> {
        let moved = advanced(self.snake.body@, self.snake.direction);
        if self.feeds() {
            grown(moved)
        } else {
            moved
        }
    }

    /// Whether a tick is defined in this state: the head's step stays within
    /// the coordinate range, and if the tick feeds the snake, the score can
    /// still be counted up and a cell is left for the next food.
    pub open spec fn spec_can_update(&self) -> bool {
        &&& self.snake.can_advance()
        &&& self.feeds() ==> {
            &&& self.score < u16::MAX
            &&& has_free_cell(self.next_body(), self.width, self.height)
        }
    }

    /// A fresh game on a `width` by `height` board: the snake of three
    /// segments with its head at the board's centre, no score, and the food
    /// parked at `(0, 0)` until it is first spawned.
    pub fn new(width: u16, height: u16) -> (game: Game)
        requires
            width >= 4,
        ensures
            game.snake.body@ == seq![
                (width / 2, height / 2),
                ((width / 2 - 1) as u16, height / 2),
                ((width / 2 - 2) as u16, height / 2),
            ],
            game.snake.direction == Direction::Right,
            game.food == (0u16, 0u16),
            game.score == 0,
            !game.game_over,
            game.width == width,
            game.height == height,
            game.wf(),
    {
        let mid_x: u16 = width / 2;
        let mid_y: u16 = height / 2;
        Game {
            snake: Snake::new(mid_x, mid_y),
            food: (0, 0),
            score: 0,
            game_over: false,
            width,
            height,
        }
    }

    /// Tells whether the head has run into the wall or into the snake's own
    /// body. The head itself is not counted as a segment it could hit.
    pub fn check_collision(&self) -> (hit: bool)
        requires
            self.wf(),
        ensures
            hit == self.collides(),
    {
        let head = self.snake.body[0];
        if head.0 == 0 || head.0 >= self.width || head.1 == 0 || head.1 >= self.height {
            return true;
        }
        let n: usize = self.snake.body.len();
        let mut i: usize = 1;
        while i < n
            invariant
                1 <= i <= n,
                n == self.snake.body@.len(),
                head == self.snake.body@[0],
                forall|j: int| 1 <= j < i ==> self.snake.body@[j] != head,
            decreases n - i,
        {
            let segment = self.snake.body[i];
            if segment.0 == head.0 && segment.1 == head.1 {
                return true;
            }
            i += 1;
        }
        false
    }

    /// Puts the food on the free cell at index `k` of the list of free cells.
    pub fn place_food(&mut self, k: u64)
        requires
            k < free_cells(old(self).snake.body@, old(self).width, old(self).height).len(),
        ensures
            final(self).food == free_cells(
                old(self).snake.body@,
                old(self).width,
                old(self).height,
            )[k as int],
            is_free(
                final(self).snake.body@,
                final(self).width,
                final(self).height,
                final(self).food,
            ),
            final(self).snake == old(self).snake,
            final(self).score == old(self).score,
            final(self).game_over == old(self).game_over,
            final(self).width == old(self).width,
            final(self).height == old(self).height,
    {
        self.food = nth_free_cell(&self.snake.body, self.width, self.height, k);
    }

    /// Moves the food to a cell drawn at random from those that are playable
    /// and not covered by the snake. Nothing else changes.
    pub fn spawn_food(&mut self)
        requires
            has_free_cell(old(self).snake.body@, old(self).width, old(self).height),
        ensures
            is_free(
                final(self).snake.body@,
                final(self).width,
                final(self).height,
                final(self).food,
            ),
            1 <= final(self).food.0 < final(self).width,
            1 <= final(self).food.1 < final(self).height,
            !final(self).snake.body@.contains(final(self).food),
            final(self).snake == old(self).snake,
            final(self).score == old(self).score,
            final(self).game_over == old(self).game_over,
            final(self).width == old(self).width,
            final(self).height == old(self).height,
    {
        let free: u64 = count_free_cells(&self.snake.body, self.width, self.height);
        let k: u64 = random_below(free);
        self.place_food(k);
    }

    /// Tells whether `update` may be called in this state.
    #[verifier::when_used_as_spec(spec_can_update)]
    pub fn can_update(&self) -> (ok: bool)
        ensures
            ok == self.spec_can_update(),
    {
        if !self.snake.can_advance() {
            return false;
        }
        let new_head = self.snake.next_head();
        if new_head.0 != self.food.0 || new_head.1 != self.food.1 {
            return true;
        }
        if self.score == u16::MAX {
            return false;
        }
        let mut next: Vec<Position> = Vec::new();
        next.push(new_head);
        let n: usize = self.snake.body.len();
        let mut i: usize = 0;
        while i + 1 < n
            invariant
                1 <= n == self.snake.body@.len(),
                i + 1 <= n,
                next@ == seq![new_head] + self.snake.body@.take(i as int),
            decreases n - i,
        {
            next.push(self.snake.body[i]);
            assert(next@ =~= seq![new_head] + self.snake.body@.take(i + 1));
            i += 1;
        }
        assert(self.snake.body@.take(i as int) =~= self.snake.body@.drop_last());
        let tail = next[next.len() - 1];
        next.push(tail);
        count_free_cells(&next, self.width, self.height) > 0
    }

    /// Runs one tick: the snake moves one cell; if its head is then on the
    /// food, the score goes up by one, the snake grows by one segment and the
    /// food is placed anew; last, a collision ends the game.
    pub fn update(&mut self)
        requires
            old(self).can_update(),
        ensures
            final(self).snake.body@ == old(self).next_body(),
            final(self).snake.direction == old(self).snake.direction,
            final(self).width == old(self).width,
            final(self).height == old(self).height,
            old(self).feeds() ==> {
                &&& final(self).snake.body@.len() == old(self).snake.body@.len() + 1
                &&& final(self).score == old(self).score + 1
                &&& is_free(
                    final(self).snake.body@,
                    final(self).width,
                    final(self).height,
                    final(self).food,
                )
                &&& final(self).food != old(self).food
            },
            !old(self).feeds() ==> {
                &&& final(self).snake.body@.len() == old(self).snake.body@.len()
                &&& final(self).score == old(self).score
                &&& final(self).food == old(self).food
            },
            final(self).game_over == (old(self).game_over || final(self).collides()),
            old(self).game_over ==> final(self).game_over,
            final(self).score >= old(self).score,
            final(self).wf(),
    {
        self.snake.move_forward();
        let head = self.snake.body[0];
        if head.0 == self.food.0 && head.1 == self.food.1 {
            self.score += 1;
            self.snake.grow();
            self.spawn_food();
            assert(self.snake.body@[0] == old(self).food);
        }
        if self.check_collision() {
            self.game_over = true;
        }
    }
}

/// From a playable cell a step in any direction stays within the coordinate
/// range: a snake whose head has not hit the wall can always move.
pub proof fn lemma_playable_cell_can_step(cell: Position, width: u16, height: u16, dir: Direction)
    requires
        !hits_wall(cell, width, height),
    ensures
        can_step(cell, dir),
{
}

/// A tick is defined whenever the head is on a playable cell, the score has
/// not reached the top of its range, and the snake, grown by one segment,
/// would still be shorter than the board has playable cells.
pub proof fn lemma_can_update(game: Game)
    requires
        game.wf(),
        !hits_wall(game.snake.head(), game.width, game.height),
        game.score < u16::MAX,
        game.snake.body@.len() + 1 < (game.width - 1) * (game.height - 1),
    ensures
        game.can_update(),
{
    lemma_playable_cell_can_step(game.snake.head(), game.width, game.height, game.snake.direction);
    lemma_room_for_food(game.next_body(), game.width, game.height);
}

/// A snake that covers no cell twice still covers none twice after a move,
/// unless its head has run into its body.
pub proof fn lemma_move_keeps_distinct(body: Seq<Position>, dir: Direction)
    requires
        body.len() >= 1,
        body.no_duplicates(),
        !hits_self(advanced(body, dir)),
    ensures
        advanced(body, dir).no_duplicates(),
{
    let next = advanced(body, dir);
    assert forall|i: int, j: int|
        0 <= i < next.len() && 0 <= j < next.len() && i != j implies next[i] != next[j] by {
        if i == 0 {
            assert(next[j] != next[0]);
        } else if j == 0 {
            assert(next[i] != next[0]);
        } else {
            assert(next[i] == body[i - 1] && next[j] == body[j - 1]);
        }
    }
}

} // verus!

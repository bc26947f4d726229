//! Differential rendering: the cell writes that turn the previous frame on
//! screen into the current one.
//!
//! Nothing here touches a terminal. A frame is a list of writes, each a cell
//! and the glyph to put there; whoever owns the terminal carries them out in
//! order and flushes once at the end.

use vstd::prelude::*;
use crate::food::in_interior;
use crate::game::Game;
use crate::snake::Position;

verus! {

/// What can be shown in one cell.
#[derive(Clone, Copy, Debug, PartialEq, Eq, Structural)]
pub enum Glyph {
    /// An empty cell; writing it erases what was there.
    Blank,
    /// A segment of the snake.
    Body,
    /// The food.
    Food,
    /// A piece of the top or bottom edge.
    Horizontal,
    /// A piece of the left or right edge.
    Vertical,
    TopLeft,
    TopRight,
    BottomLeft,
    BottomRight,
}

/// One write to the screen: put `glyph` at column `x`, row `y`.
#[derive(Clone, Copy, Debug, PartialEq, Eq, Structural)]
pub struct CellWrite {
    pub x: u16,
    pub y: u16,
    pub glyph: Glyph,
}

/// The write that puts `glyph` at `at`.
pub open spec fn put(at: Position, glyph: Glyph) -> CellWrite {
    CellWrite { x: at.0, y: at.1, glyph }
}

/// Erasing the tail of the body drawn last time, if there was one. Only the
/// tail needs this: after a move every other old cell is still occupied.
pub open spec fn tail_erasure(prev_snake: Seq<Position>) -> Seq<CellWrite> {
    if prev_snake.len() == 0 {
        Seq::empty()
    } else {
        seq![put(prev_snake.last(), Glyph::Blank)]
    }
}

/// One body glyph per segment, head first.
pub open spec fn body_writes(body: Seq<Position>) -> Seq<CellWrite> {
    Seq::new(body.len(), |i: int| put(body[i], Glyph::Body))
}

/// Erasing the food drawn last time, then drawing the current one.
pub open spec fn food_writes(prev_food: Position, food: Position) -> Seq<CellWrite> {
    seq![put(prev_food, Glyph::Blank), put(food, Glyph::Food)]
}

/// The number of edge pieces between two corners that are `extent` apart.
pub open spec fn edge_len(extent: u16) -> nat {
    if extent >= 1 {
        (extent - 1) as nat
    } else {
        0
    }
}

/// The top and bottom edges: for each column `x` in `1..width`, from left to
/// right, the piece in row `0` and then the piece in row `height`.
pub open spec fn horizontal_edges(width: u16, height: u16) -> Seq<CellWrite> {
    Seq::new(
        2 * edge_len(width),
        |i: int|
            CellWrite {
                x: (1 + i / 2) as u16,
                y: if i % 2 == 0 { 0 } else { height },
                glyph: Glyph::Horizontal,
            },
    )
}

/// The left and right edges: for each row `y` in `1..height`, from top to
/// bottom, the piece in column `0` and then the piece in column `width`.
pub open spec fn vertical_edges(width: u16, height: u16) -> Seq<CellWrite> {
    Seq::new(
        2 * edge_len(height),
        |i: int|
            CellWrite {
                x: if i % 2 == 0 { 0 } else { width },
                y: (1 + i / 2) as u16,
                glyph: Glyph::Vertical,
            },
    )
}

/// The four corners: top left, top right, bottom left, bottom right.
pub open spec fn corners(width: u16, height: u16) -> Seq<CellWrite> {
    seq![
        put((0, 0), Glyph::TopLeft),
        put((width, 0), Glyph::TopRight),
        put((0, height), Glyph::BottomLeft),
        put((width, height), Glyph::BottomRight),
    ]
}

impl Glyph {
    /// The text that shows this glyph on a terminal. The food is wrapped in
    /// the escape sequences that switch to red and back.
    pub open spec fn spec_text(self) -> Seq<char> {
        match self {
            Glyph::Blank => " "@,
            Glyph::Body => "■"@,
            Glyph::Food => "\x1b[31m●\x1b[0m"@,
            Glyph::Horizontal => "─"@,
            Glyph::Vertical => "│"@,
            Glyph::TopLeft => "┌"@,
            Glyph::TopRight => "┐"@,
            Glyph::BottomLeft => "└"@,
            Glyph::BottomRight => "┘"@,
        }
    }

    /// Returns the text that shows this glyph on a terminal.
    pub fn text(self) -> (s: &'static str)
        ensures
            s@ == self.spec_text(),
    {
        match self {
            Glyph::Blank => " ",
            Glyph::Body => "■",
            Glyph::Food => "\x1b[31m●\x1b[0m",
            Glyph::Horizontal => "─",
            Glyph::Vertical => "│",
            Glyph::TopLeft => "┌",
            Glyph::TopRight => "┐",
            Glyph::BottomLeft => "└",
            Glyph::BottomRight => "┘",
        }
    }
}

impl Game {
    /// The writes of one frame, in the order in which they are carried out:
    /// the old tail is erased, the whole body is drawn, the old food is
    /// erased, the food is drawn, and the border is drawn again in full.
    pub open spec fn frame(
        &self,
        prev_snake: Seq<Position>,
        prev_food: Position,
    ) -> Seq<CellWrite> {
        tail_erasure(prev_snake)
            + body_writes(self.snake.body@)
            + food_writes(prev_food, self.food)
            + horizontal_edges(self.width, self.height)
            + vertical_edges(self.width, self.height)
            + corners(self.width, self.height)
    }

    /// Computes the writes that bring the screen from the frame that showed
    /// `prev_snake` and `prev_food` to the current state of the game.
    pub fn draw(&self, prev_snake: &[Position], prev_food: Position) -> (writes: Vec<CellWrite>)
        ensures
            writes@ == self.frame(prev_snake@, prev_food),
    {
        let mut writes: Vec<CellWrite> = Vec::new();

        let prev_len: usize = prev_snake.len();
        if prev_len > 0 {
            let tail = prev_snake[prev_len - 1];
            writes.push(CellWrite { x: tail.0, y: tail.1, glyph: Glyph::Blank });
        }
        assert(writes@ =~= tail_erasure(prev_snake@));

        let ghost erased = writes@;
        let n: usize = self.snake.body.len();
        let mut i: usize = 0;
        while i < n
            invariant
                i <= n,
                n == self.snake.body@.len(),
                writes@ == erased + body_writes(self.snake.body@.take(i as int)),
            decreases n - i,
        {
            let segment = self.snake.body[i];
            writes.push(CellWrite { x: segment.0, y: segment.1, glyph: Glyph::Body });
            assert(writes@ =~= erased + body_writes(self.snake.body@.take(i + 1)));
            i += 1;
        }
        assert(self.snake.body@.take(n as int) =~= self.snake.body@);

        writes.push(CellWrite { x: prev_food.0, y: prev_food.1, glyph: Glyph::Blank });
        writes.push(CellWrite { x: self.food.0, y: self.food.1, glyph: Glyph::Food });
        let ghost inner = erased + body_writes(self.snake.body@) + food_writes(
            prev_food,
            self.food,
        );
        assert(writes@ =~= inner);

        let mut x: u16 = 1;
        while x < self.width
            invariant
                1 <= x,
                x <= self.width || x == 1,
                writes@ == inner + horizontal_edges(x, self.height),
            decreases self.width - x,
        {
            writes.push(CellWrite { x, y: 0, glyph: Glyph::Horizontal });
            writes.push(CellWrite { x, y: self.height, glyph: Glyph::Horizontal });
            assert(writes@ =~= inner + horizontal_edges((x + 1) as u16, self.height));
            x += 1;
        }
        assert(horizontal_edges(x, self.height) =~= horizontal_edges(self.width, self.height));
        let ghost top = inner + horizontal_edges(self.width, self.height);

        let mut y: u16 = 1;
        while y < self.height
            invariant
                1 <= y,
                y <= self.height || y == 1,
                writes@ == top + vertical_edges(self.width, y),
            decreases self.height - y,
        {
            writes.push(CellWrite { x: 0, y, glyph: Glyph::Vertical });
            writes.push(CellWrite { x: self.width, y, glyph: Glyph::Vertical });
            assert(writes@ =~= top + vertical_edges(self.width, (y + 1) as u16));
            y += 1;
        }
        assert(vertical_edges(self.width, y) =~= vertical_edges(self.width, self.height));
        let ghost sides = top + vertical_edges(self.width, self.height);

        writes.push(CellWrite { x: 0, y: 0, glyph: Glyph::TopLeft });
        writes.push(CellWrite { x: self.width, y: 0, glyph: Glyph::TopRight });
        writes.push(CellWrite { x: 0, y: self.height, glyph: Glyph::BottomLeft });
        writes.push(CellWrite { x: self.width, y: self.height, glyph: Glyph::BottomRight });
        assert(writes@ =~= sides + corners(self.width, self.height));
        writes
    }
}

/// Whether `write` goes to the cell `at`.
pub open spec fn touches(write: CellWrite, at: Position) -> bool {
    write.x == at.0 && write.y == at.1
}

/// What `writes`, carried out in order, leave in the cell `at`: the glyph of
/// the last write that goes there, or `None` if none does and the cell keeps
/// what it showed before.
pub open spec fn shown(writes: Seq<CellWrite>, at: Position) -> Option<Glyph>
    decreases writes.len(),
{
    if writes.len() == 0 {
        None
    } else if touches(writes.last(), at) {
        Some(writes.last().glyph)
    } else {
        shown(writes.drop_last(), at)
    }
}

proof fn lemma_shown_concat(first: Seq<CellWrite>, then: Seq<CellWrite>, at: Position)
    ensures
        shown(first + then, at) == if shown(then, at) is Some {
            shown(then, at)
        } else {
            shown(first, at)
        },
    decreases then.len(),
{
    if then.len() == 0 {
        assert(first + then =~= first);
    } else {
        assert((first + then).drop_last() =~= first + then.drop_last());
        lemma_shown_concat(first, then.drop_last(), at);
    }
}

proof fn lemma_shown_untouched(writes: Seq<CellWrite>, at: Position)
    requires
        forall|i: int| 0 <= i < writes.len() ==> !touches(#[trigger] writes[i], at),
    ensures
        shown(writes, at) is None,
    decreases writes.len(),
{
    if writes.len() > 0 {
        lemma_shown_untouched(writes.drop_last(), at);
    }
}

proof fn lemma_shown_body(body: Seq<Position>, at: Position)
    ensures
        shown(body_writes(body), at) == if body.contains(at) {
            Some(Glyph::Body)
        } else {
            None
        },
    decreases body.len(),
{
    if body.len() > 0 {
        assert(body_writes(body).drop_last() =~= body_writes(body.drop_last()));
        lemma_shown_body(body.drop_last(), at);
        assert(body.drop_last().push(body.last()) =~= body);
        vstd::seq_lib::lemma_seq_contains_after_push(body.drop_last(), body.last(), at);
    }
}

/// What a frame leaves in each playable cell, by precedence: the food; else
/// a blank where the food was before; else the snake; else a blank where the
/// snake's tail was before; else whatever the cell showed already. The
/// border never reaches a playable cell.
pub proof fn lemma_frame_shows(
    game: Game,
    prev_snake: Seq<Position>,
    prev_food: Position,
    at: Position,
)
    requires
        in_interior(at, game.width, game.height),
    ensures
        shown(game.frame(prev_snake, prev_food), at) == if at == game.food {
            Some(Glyph::Food)
        } else if at == prev_food {
            Some(Glyph::Blank)
        } else if game.snake.body@.contains(at) {
            Some(Glyph::Body)
        } else if prev_snake.len() > 0 && at == prev_snake.last() {
            Some(Glyph::Blank)
        } else {
            None
        },
{
    let tail = tail_erasure(prev_snake);
    let body = body_writes(game.snake.body@);
    let food = food_writes(prev_food, game.food);
    let top = horizontal_edges(game.width, game.height);
    let sides = vertical_edges(game.width, game.height);
    let ends = corners(game.width, game.height);

    lemma_shown_untouched(ends, at);
    lemma_shown_untouched(sides, at);
    lemma_shown_untouched(top, at);
    lemma_shown_concat(tail + body + food + top + sides, ends, at);
    lemma_shown_concat(tail + body + food + top, sides, at);
    lemma_shown_concat(tail + body + food, top, at);

    assert(shown(food, at) == if at == game.food {
        Some(Glyph::Food)
    } else if at == prev_food {
        Some(Glyph::Blank)
    } else {
        None
    }) by {
        reveal_with_fuel(shown, 3);
        assert(food.drop_last() =~= seq![put(prev_food, Glyph::Blank)]);
    }
    lemma_shown_concat(tail + body, food, at);

    lemma_shown_body(game.snake.body@, at);
    lemma_shown_concat(tail, body, at);
    assert(shown(tail, at) == if prev_snake.len() > 0 && at == prev_snake.last() {
        Some(Glyph::Blank)
    } else {
        None
    }) by {
        reveal_with_fuel(shown, 2);
    }
}

} // verus!

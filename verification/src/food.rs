//! Where food can go: the free cells of a board, in reading order.
//!
//! Food is placed by drawing an index into the list of free cells, so every
//! free cell is as likely as any other and placing food never has to retry.

use vstd::prelude::*;
use crate::snake::Position;

verus! {

/// Whether `cell` is playable: inside the wall of a `width` by `height` board.
pub open spec fn in_interior(cell: Position, width: u16, height: u16) -> bool {
    1 <= cell.0 < width && 1 <= cell.1 < height
}

/// Whether food may be put at `cell`: it is playable and no segment of `body`
/// lies on it.
pub open spec fn is_free(body: Seq<Position>, width: u16, height: u16, cell: Position) -> bool {
    in_interior(cell, width, height) && !body.contains(cell)
}

/// Whether the board has any cell left for food.
pub open spec fn has_free_cell(body: Seq<Position>, width: u16, height: u16) -> bool {
    exists|cell: Position| is_free(body, width, height, cell)
}

/// The free cells of row `y` in columns `1..x_end`, from left to right.
pub open spec fn free_in_row(body: Seq<Position>, y: u16, x_end: int) -> Seq<Position>
    decreases x_end,
{
    if x_end <= 1 {
        Seq::empty()
    } else {
        let before = free_in_row(body, y, x_end - 1);
        let cell = ((x_end - 1) as u16, y);
        if body.contains(cell) {
            before
        } else {
            before.push(cell)
        }
    }
}

/// The free cells of rows `1..y_end`, each row over columns `1..width`, row
/// after row from the top.
pub open spec fn free_in_rows(body: Seq<Position>, width: u16, y_end: int) -> Seq<Position>
    decreases y_end,
{
    if y_end <= 1 {
        Seq::empty()
    } else {
        free_in_rows(body, width, y_end - 1) + free_in_row(body, (y_end - 1) as u16, width as int)
    }
}

/// All free cells of the board in reading order: top row first, each row
/// from left to right.
pub open spec fn free_cells(body: Seq<Position>, width: u16, height: u16) -> Seq<Position> {
    free_in_rows(body, width, height as int)
}

/// Whether `a` comes before `b` in reading order: in a row above, or in the
/// same row and further left.
pub open spec fn reads_before(a: Position, b: Position) -> bool {
    a.1 < b.1 || (a.1 == b.1 && a.0 < b.0)
}

/// The free cells that come before `(x, y)` in reading order.
pub open spec fn free_before(body: Seq<Position>, width: u16, y: u16, x: u16) -> Seq<Position> {
    free_in_rows(body, width, y as int) + free_in_row(body, y, x as int)
}

proof fn lemma_row_members(body: Seq<Position>, y: u16, x_end: int, cell: Position)
    requires
        x_end <= u16::MAX + 1,
    ensures
        free_in_row(body, y, x_end).contains(cell) <==> {
            &&& cell.1 == y
            &&& 1 <= cell.0 < x_end
            &&& !body.contains(cell)
        },
        free_in_row(body, y, x_end).len() <= if x_end >= 1 { x_end - 1 } else { 0 },
    decreases x_end,
{
    if x_end > 1 {
        lemma_row_members(body, y, x_end - 1, cell);
        let before = free_in_row(body, y, x_end - 1);
        let last = ((x_end - 1) as u16, y);
        if !body.contains(last) {
            vstd::seq_lib::lemma_seq_contains_after_push(before, last, cell);
        }
    }
}

proof fn lemma_rows_members(body: Seq<Position>, width: u16, y_end: int, cell: Position)
    requires
        y_end <= u16::MAX + 1,
    ensures
        free_in_rows(body, width, y_end).contains(cell) <==> {
            &&& 1 <= cell.1 < y_end
            &&& 1 <= cell.0 < width
            &&& !body.contains(cell)
        },
        free_in_rows(body, width, y_end).len() <= if y_end >= 1 {
            (y_end - 1) * u16::MAX
        } else {
            0
        },
    decreases y_end,
{
    if y_end > 1 {
        lemma_rows_members(body, width, y_end - 1, cell);
        lemma_row_members(body, (y_end - 1) as u16, width as int, cell);
        let above = free_in_rows(body, width, y_end - 1);
        let row = free_in_row(body, (y_end - 1) as u16, width as int);
        vstd::seq_lib::lemma_seq_concat_contains_all_elements(above, row, cell);
    }
}

/// The list of free cells holds exactly the cells at which food may be put.
pub proof fn lemma_free_cells_members(body: Seq<Position>, width: u16, height: u16, cell: Position)
    ensures
        free_cells(body, width, height).contains(cell) <==> is_free(body, width, height, cell),
{
    lemma_rows_members(body, width, height as int, cell);
}

/// The list of free cells is empty exactly when no cell is left for food, and
/// never longer than the coordinate range allows.
pub proof fn lemma_free_cells_len(body: Seq<Position>, width: u16, height: u16)
    ensures
        free_cells(body, width, height).len() > 0 <==> has_free_cell(body, width, height),
        free_cells(body, width, height).len() <= u16::MAX * u16::MAX,
{
    let cells = free_cells(body, width, height);
    lemma_rows_members(body, width, height as int, (0, 0));
    if cells.len() > 0 {
        assert(cells.contains(cells[0]));
        lemma_free_cells_members(body, width, height, cells[0]);
    }
    if has_free_cell(body, width, height) {
        let cell = choose|cell: Position| is_free(body, width, height, cell);
        lemma_free_cells_members(body, width, height, cell);
    }
}

proof fn lemma_row_prefix(body: Seq<Position>, y: u16, x1: int, x2: int)
    requires
        x1 <= x2,
    ensures
        free_in_row(body, y, x1).is_prefix_of(free_in_row(body, y, x2)),
    decreases x2,
{
    if x1 < x2 && x2 > 1 {
        lemma_row_prefix(body, y, x1, x2 - 1);
    }
}

proof fn lemma_rows_prefix(body: Seq<Position>, width: u16, y1: int, y2: int)
    requires
        y1 <= y2,
    ensures
        free_in_rows(body, width, y1).is_prefix_of(free_in_rows(body, width, y2)),
    decreases y2,
{
    if y1 < y2 && y2 > 1 {
        lemma_rows_prefix(body, width, y1, y2 - 1);
    }
}

/// The free cells before any playable position are the first ones of the
/// whole list, in the same order.
proof fn lemma_free_before_prefix(body: Seq<Position>, width: u16, height: u16, y: u16, x: u16)
    requires
        1 <= y < height,
        x <= width,
    ensures
        free_before(body, width, y, x).is_prefix_of(free_cells(body, width, height)),
{
    lemma_row_prefix(body, y, x as int, width as int);
    lemma_rows_prefix(body, width, y + 1, height as int);
    assert(free_in_rows(body, width, y + 1) == free_in_rows(body, width, y as int) + free_in_row(
        body,
        y,
        width as int,
    ));
}

proof fn lemma_row_distinct(body: Seq<Position>, y: u16, x_end: int)
    requires
        x_end <= u16::MAX + 1,
    ensures
        free_in_row(body, y, x_end).no_duplicates(),
    decreases x_end,
{
    if x_end > 1 {
        lemma_row_distinct(body, y, x_end - 1);
        lemma_row_members(body, y, x_end - 1, ((x_end - 1) as u16, y));
    }
}

proof fn lemma_rows_distinct(body: Seq<Position>, width: u16, y_end: int)
    requires
        y_end <= u16::MAX + 1,
    ensures
        free_in_rows(body, width, y_end).no_duplicates(),
    decreases y_end,
{
    if y_end > 1 {
        let above = free_in_rows(body, width, y_end - 1);
        let row = free_in_row(body, (y_end - 1) as u16, width as int);
        lemma_rows_distinct(body, width, y_end - 1);
        lemma_row_distinct(body, (y_end - 1) as u16, width as int);
        assert forall|i: int, j: int|
            0 <= i < above.len() && 0 <= j < row.len() implies above[i] != row[j] by {
            assert(above.contains(above[i]));
            assert(row.contains(row[j]));
            lemma_rows_members(body, width, y_end - 1, above[i]);
            lemma_row_members(body, (y_end - 1) as u16, width as int, row[j]);
        }
        vstd::seq_lib::lemma_no_dup_in_concat(above, row);
    }
}

/// No cell is listed twice among the free cells: an index into the list
/// drawn evenly picks each free cell with the same chance.
pub proof fn lemma_free_cells_distinct(body: Seq<Position>, width: u16, height: u16)
    ensures
        free_cells(body, width, height).no_duplicates(),
{
    lemma_rows_distinct(body, width, height as int);
}

proof fn lemma_row_ordered(body: Seq<Position>, y: u16, x_end: int)
    requires
        x_end <= u16::MAX + 1,
    ensures
        forall|i: int, j: int|
            0 <= i < j < free_in_row(body, y, x_end).len() ==> reads_before(
                #[trigger] free_in_row(body, y, x_end)[i],
                #[trigger] free_in_row(body, y, x_end)[j],
            ),
    decreases x_end,
{
    if x_end > 1 {
        let before = free_in_row(body, y, x_end - 1);
        lemma_row_ordered(body, y, x_end - 1);
        assert forall|i: int| 0 <= i < before.len() implies reads_before(
            #[trigger] before[i],
            ((x_end - 1) as u16, y),
        ) by {
            assert(before.contains(before[i]));
            lemma_row_members(body, y, x_end - 1, before[i]);
        }
    }
}

proof fn lemma_rows_ordered(body: Seq<Position>, width: u16, y_end: int)
    requires
        y_end <= u16::MAX + 1,
    ensures
        forall|i: int, j: int|
            0 <= i < j < free_in_rows(body, width, y_end).len() ==> reads_before(
                #[trigger] free_in_rows(body, width, y_end)[i],
                #[trigger] free_in_rows(body, width, y_end)[j],
            ),
    decreases y_end,
{
    if y_end > 1 {
        let above = free_in_rows(body, width, y_end - 1);
        let row = free_in_row(body, (y_end - 1) as u16, width as int);
        lemma_rows_ordered(body, width, y_end - 1);
        lemma_row_ordered(body, (y_end - 1) as u16, width as int);
        assert forall|i: int, j: int| 0 <= i < j < (above + row).len() implies reads_before(
            #[trigger] (above + row)[i],
            #[trigger] (above + row)[j],
        ) by {
            if i < above.len() && j >= above.len() {
                assert(above.contains(above[i]));
                assert(row.contains(row[j - above.len()]));
                lemma_rows_members(body, width, y_end - 1, above[i]);
                lemma_row_members(body, (y_end - 1) as u16, width as int, row[j - above.len()]);
            }
        }
    }
}

/// The free cells are listed in reading order. Together with what the list
/// holds, this fixes the cell at every index.
pub proof fn lemma_free_cells_ordered(body: Seq<Position>, width: u16, height: u16)
    ensures
        forall|i: int, j: int|
            0 <= i < j < free_cells(body, width, height).len() ==> reads_before(
                #[trigger] free_cells(body, width, height)[i],
                #[trigger] free_cells(body, width, height)[j],
            ),
{
    lemma_rows_ordered(body, width, height as int);
}

proof fn lemma_row_without_segment(body: Seq<Position>, segment: Position, y: u16, x_end: int)
    requires
        x_end <= u16::MAX + 1,
    ensures
        free_in_row(body, y, x_end).len() <= free_in_row(body.push(segment), y, x_end).len()
            + if segment.1 == y && 1 <= segment.0 < x_end { 1int } else { 0int },
    decreases x_end,
{
    if x_end > 1 {
        lemma_row_without_segment(body, segment, y, x_end - 1);
        vstd::seq_lib::lemma_seq_contains_after_push(body, segment, ((x_end - 1) as u16, y));
    }
}

proof fn lemma_rows_without_segment(body: Seq<Position>, segment: Position, width: u16, y_end: int)
    requires
        y_end <= u16::MAX + 1,
    ensures
        free_in_rows(body, width, y_end).len() <= free_in_rows(
            body.push(segment),
            width,
            y_end,
        ).len() + if 1 <= segment.1 < y_end && 1 <= segment.0 < width { 1int } else { 0int },
    decreases y_end,
{
    if y_end > 1 {
        lemma_rows_without_segment(body, segment, width, y_end - 1);
        lemma_row_without_segment(body, segment, (y_end - 1) as u16, width as int);
    }
}

proof fn lemma_bare_row(y: u16, x_end: int)
    requires
        1 <= x_end <= u16::MAX + 1,
    ensures
        free_in_row(Seq::empty(), y, x_end).len() == x_end - 1,
    decreases x_end,
{
    if x_end > 1 {
        lemma_bare_row(y, x_end - 1);
    }
}

proof fn lemma_bare_rows(width: u16, y_end: int)
    requires
        1 <= y_end <= u16::MAX + 1,
        1 <= width,
    ensures
        free_in_rows(Seq::empty(), width, y_end).len() == (y_end - 1) * (width - 1),
    decreases y_end,
{
    if y_end > 1 {
        lemma_bare_rows(width, y_end - 1);
        lemma_bare_row((y_end - 1) as u16, width as int);
        assert((y_end - 1) * (width - 1) == (y_end - 2) * (width - 1) + (width - 1))
            by (nonlinear_arith);
    } else {
        assert((y_end - 1) * (width - 1) == 0) by (nonlinear_arith)
            requires
                y_end == 1,
        ;
    }
}

/// Each segment of the snake covers at most one playable cell: the free
/// cells and the segments together number at least the playable cells.
pub proof fn lemma_free_cells_count(body: Seq<Position>, width: u16, height: u16)
    requires
        width >= 1,
        height >= 1,
    ensures
        free_cells(body, width, height).len() + body.len() >= (width - 1) * (height - 1),
    decreases body.len(),
{
    if body.len() == 0 {
        assert(body =~= Seq::empty());
        lemma_bare_rows(width, height as int);
        assert((height - 1) * (width - 1) == (width - 1) * (height - 1)) by (nonlinear_arith);
    } else {
        lemma_free_cells_count(body.drop_last(), width, height);
        lemma_rows_without_segment(body.drop_last(), body.last(), width, height as int);
        assert(body.drop_last().push(body.last()) =~= body);
    }
}

/// A snake with fewer segments than the board has playable cells leaves a
/// cell for food.
pub proof fn lemma_room_for_food(body: Seq<Position>, width: u16, height: u16)
    requires
        width >= 1,
        height >= 1,
        body.len() < (width - 1) * (height - 1),
    ensures
        has_free_cell(body, width, height),
{
    lemma_free_cells_count(body, width, height);
    lemma_free_cells_len(body, width, height);
}

/// Tells whether a segment of `body` lies on `cell`.
pub fn occupies(body: &Vec<Position>, cell: Position) -> (hit: bool)
    ensures
        hit == body@.contains(cell),
{
    let n: usize = body.len();
    let mut i: usize = 0;
    while i < n
        invariant
            i <= n,
            n == body@.len(),
            forall|j: int| 0 <= j < i ==> body@[j] != cell,
        decreases n - i,
    {
        let segment = body[i];
        if segment.0 == cell.0 && segment.1 == cell.1 {
            return true;
        }
        i += 1;
    }
    false
}

/// Counts the cells of the board at which food may be put.
pub fn count_free_cells(body: &Vec<Position>, width: u16, height: u16) -> (count: u64)
    ensures
        count == free_cells(body@, width, height).len(),
        count > 0 <==> has_free_cell(body@, width, height),
{
    let mut count: u64 = 0;
    let mut y: u16 = 1;
    while y < height
        invariant
            1 <= y,
            y <= height || y == 1,
            count == free_in_rows(body@, width, y as int).len(),
        decreases height - y,
    {
        let ghost above = count;
        let mut x: u16 = 1;
        while x < width
            invariant
                1 <= x,
                x <= width || x == 1,
                above == free_in_rows(body@, width, y as int).len(),
                count == above + free_in_row(body@, y, x as int).len(),
            decreases width - x,
        {
            proof {
                lemma_rows_members(body@, width, y as int, (0, 0));
                lemma_row_members(body@, y, x as int, (0, 0));
            }
            if !occupies(body, (x, y)) {
                count += 1;
            }
            x += 1;
        }
        assert(free_in_row(body@, y, x as int) == free_in_row(body@, y, width as int));
        y += 1;
    }
    assert(free_in_rows(body@, width, y as int) == free_in_rows(body@, width, height as int));
    proof {
        lemma_free_cells_len(body@, width, height);
    }
    count
}

/// Finds the free cell at index `k` of the list of free cells: the one with
/// exactly `k` free cells before it in reading order.
pub fn nth_free_cell(body: &Vec<Position>, width: u16, height: u16, k: u64) -> (cell: Position)
    requires
        k < free_cells(body@, width, height).len(),
    ensures
        cell == free_cells(body@, width, height)[k as int],
        is_free(body@, width, height, cell),
{
    let ghost cells = free_cells(body@, width, height);
    let mut seen: u64 = 0;
    let mut y: u16 = 1;
    while y < height
        invariant
            1 <= y,
            y <= height || y == 1,
            cells == free_cells(body@, width, height),
            k < cells.len(),
            seen == free_in_rows(body@, width, y as int).len(),
            seen <= k,
        decreases height - y,
    {
        let mut x: u16 = 1;
        while x < width
            invariant
                1 <= x,
                x <= width || x == 1,
                1 <= y < height,
                cells == free_cells(body@, width, height),
                k < cells.len(),
                seen == free_before(body@, width, y, x).len(),
                seen <= k,
            decreases width - x,
        {
            if !occupies(body, (x, y)) {
                proof {
                    lemma_free_before_prefix(body@, width, height, y, (x + 1) as u16);
                    assert(free_before(body@, width, y, (x + 1) as u16) == free_before(
                        body@,
                        width,
                        y,
                        x,
                    ).push((x, y)));
                }
                if seen == k {
                    proof {
                        let upto = free_before(body@, width, y, (x + 1) as u16);
                        assert(upto[k as int] == (x, y));
                        assert(cells.subrange(0, upto.len() as int)[k as int] == cells[k as int]);
                        lemma_free_cells_members(body@, width, height, (x, y));
                    }
                    return (x, y);
                }
                seen += 1;
            }
            x += 1;
        }
        assert(free_in_row(body@, y, x as int) == free_in_row(body@, y, width as int));
        y += 1;
    }
    // Not reached: the scan has passed every free cell, more than `k` of them.
    assert(free_in_rows(body@, width, y as int) == free_in_rows(body@, width, height as int));
    (0, 0)
}

} // verus!

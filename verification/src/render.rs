//! What drawing a frame asks of the terminal: the cursor moves, colour and
//! weight changes and characters, in order. The terminal itself is driven
//! by the caller.

use vstd::prelude::*;

use crate::config::{FontWeight, MatrixColor};
use crate::matrix::{Block, ColumnView, Matrix, well_shaped};

verus! {

/// The terminal colours the rain is drawn in.
#[derive(Clone, Copy, Debug, PartialEq, Eq, Structural)]
pub enum TermColor {
    White,
    Black,
    DarkGreen,
    Grey,
    DarkRed,
    DarkCyan,
    DarkMagenta,
    DarkBlue,
    DarkYellow,
}

/// The terminal colour of a block: white heads are white, every other block
/// takes the dark shade of its colour (grey for white).
pub open spec fn term_color_of(b: Block) -> TermColor {
    if b.white {
        TermColor::White
    } else {
        match b.color {
            MatrixColor::Black => TermColor::Black,
            MatrixColor::Green => TermColor::DarkGreen,
            MatrixColor::White => TermColor::Grey,
            MatrixColor::Red => TermColor::DarkRed,
            MatrixColor::Cyan => TermColor::DarkCyan,
            MatrixColor::Magenta => TermColor::DarkMagenta,
            MatrixColor::Blue => TermColor::DarkBlue,
            MatrixColor::Yellow => TermColor::DarkYellow,
        }
    }
}

impl Block {
    /// The terminal colour this block is drawn in.
    pub fn term_color(&self) -> (c: TermColor)
        ensures
            c == term_color_of(*self),
    {
        if self.white {
            TermColor::White
        } else {
            match self.color {
                MatrixColor::Black => TermColor::Black,
                MatrixColor::Green => TermColor::DarkGreen,
                MatrixColor::White => TermColor::Grey,
                MatrixColor::Red => TermColor::DarkRed,
                MatrixColor::Cyan => TermColor::DarkCyan,
                MatrixColor::Magenta => TermColor::DarkMagenta,
                MatrixColor::Blue => TermColor::DarkBlue,
                MatrixColor::Yellow => TermColor::DarkYellow,
            }
        }
    }
}

/// One instruction to the terminal.
#[derive(Clone, Copy, Debug, PartialEq, Eq, Structural)]
pub enum DrawOp {
    /// Move the cursor to a column and a row.
    MoveTo(u16, u16),
    SetColor(TermColor),
    Bold,
    NormalIntensity,
    Print(char),
}

/// The colour and weight the terminal is set to.
pub struct Pen {
    pub colour: TermColor,
    pub bold: bool,
}

/// The instructions that draw block `b` at column `x`, row `y`: move there,
/// change the colour if it differs, in the semi-bold mode change the weight
/// if it differs, and print the character.
pub open spec fn cell_ops(pen: Pen, x: int, y: int, b: Block, weight: FontWeight) -> Seq<DrawOp> {
    let c = term_color_of(b);
    seq![DrawOp::MoveTo((2 * x) as u16, y as u16)] + (if c != pen.colour {
        seq![DrawOp::SetColor(c)]
    } else {
        Seq::empty()
    }) + (if weight == FontWeight::SemiBold && pen.bold != b.bold {
        seq![if b.bold { DrawOp::Bold } else { DrawOp::NormalIntensity }]
    } else {
        Seq::empty()
    }) + seq![DrawOp::Print(b.val)]
}

/// The terminal's colour and weight after drawing block `b`.
pub open spec fn pen_after(pen: Pen, b: Block, weight: FontWeight) -> Pen {
    Pen {
        colour: term_color_of(b),
        bold: if weight == FontWeight::SemiBold { b.bold } else { pen.bold },
    }
}

/// The visible cells of column `x`: every row but the hidden head, numbered
/// from 0.
pub open spec fn column_cells(x: int, rows: Seq<Block>) -> Seq<(int, int, Block)> {
    if rows.len() == 0 {
        Seq::empty()
    } else {
        Seq::new((rows.len() - 1) as nat, |y: int| (x, y, rows[y + 1]))
    }
}

/// The visible cells of the screen, column after column.
pub open spec fn grid_cells(cols: Seq<Seq<Block>>) -> Seq<(int, int, Block)>
    decreases cols.len(),
{
    if cols.len() == 0 {
        Seq::empty()
    } else {
        grid_cells(cols.drop_last()) + column_cells(cols.len() - 1, cols.last())
    }
}

/// The instructions that draw `cells` in order from the terminal state
/// `pen`, and the terminal state they leave.
pub open spec fn render(pen: Pen, cells: Seq<(int, int, Block)>, weight: FontWeight) -> (Seq<DrawOp>, Pen)
    decreases cells.len(),
{
    if cells.len() == 0 {
        (Seq::empty(), pen)
    } else {
        let (ops, p) = render(pen, cells.drop_last(), weight);
        let c = cells.last();
        (ops + cell_ops(p, c.0, c.1, c.2, weight), pen_after(p, c.2, weight))
    }
}

/// The instruction that sets the global weight, if the mode has one.
pub open spec fn weight_ops(weight: FontWeight) -> Seq<DrawOp> {
    match weight {
        FontWeight::Bold => seq![DrawOp::Bold],
        FontWeight::Regular => seq![DrawOp::NormalIntensity],
        FontWeight::SemiBold => Seq::empty(),
    }
}

/// The rows of each column.
pub open spec fn rows_of(cols: Seq<ColumnView>) -> Seq<Seq<Block>> {
    cols.map_values(|c: ColumnView| c.rows)
}

/// The instructions that draw a frame: the colour of the first column's
/// head block, the global weight, then every visible cell.
pub open spec fn frame_ops(cols: Seq<Seq<Block>>, weight: FontWeight) -> Seq<DrawOp> {
    let first = cols[0][0];
    let pen = Pen { colour: term_color_of(first), bold: first.bold };
    seq![DrawOp::SetColor(pen.colour)] + weight_ops(weight) + render(pen, grid_cells(cols), weight).0
}

/// Drawing one more cell extends the instructions by that cell's.
proof fn lemma_render_push(pen: Pen, cells: Seq<(int, int, Block)>, c: (int, int, Block), weight: FontWeight)
    ensures
        render(pen, cells.push(c), weight) == ({
            let (ops, p) = render(pen, cells, weight);
            (ops + cell_ops(p, c.0, c.1, c.2, weight), pen_after(p, c.2, weight))
        }),
{
    assert(cells.push(c).drop_last() =~= cells);
}

/// Append the instructions that draw `block` at column `x`, row `y`.
fn draw_cell(
    ops: &mut Vec<DrawOp>,
    last_colour: &mut TermColor,
    last_bold: &mut bool,
    x: usize,
    y: usize,
    block: Block,
    weight: FontWeight,
)
    requires
        x < 32768,
        y < 65536,
    ensures
        final(ops)@ == old(ops)@ + cell_ops(
            Pen { colour: *old(last_colour), bold: *old(last_bold) },
            x as int,
            y as int,
            block,
            weight,
        ),
        (Pen { colour: *final(last_colour), bold: *final(last_bold) }) == pen_after(
            Pen { colour: *old(last_colour), bold: *old(last_bold) },
            block,
            weight,
        ),
{
    let colour = block.term_color();
    let xx = x as u16;
    let yy = y as u16;
    ops.push(DrawOp::MoveTo(2 * xx, yy));  // Move the cursor
    if colour != *last_colour {
        ops.push(DrawOp::SetColor(colour));
        *last_colour = colour;
    }
    match weight {
        FontWeight::SemiBold => {
            if *last_bold != block.bold {
                if block.bold {
                    ops.push(DrawOp::Bold);
                } else {
                    ops.push(DrawOp::NormalIntensity);
                }
                *last_bold = block.bold;
            }
        },
        _ => {},
    }
    // Draw the character.
    ops.push(DrawOp::Print(block.val));
    proof {
        let pen = Pen { colour: *old(last_colour), bold: *old(last_bold) };
        assert(final(ops)@ =~= old(ops)@ + cell_ops(pen, x as int, y as int, block, weight));
    }
}

impl Matrix {
    /// The instructions that draw the matrix on the screen.
    pub fn frame(&self, weight: FontWeight) -> (ops: Vec<DrawOp>)
        requires
            well_shaped(self@),
        ensures
            ops@ == frame_ops(rows_of(self@.columns), weight),
    {
        let ghost cols = rows_of(self@.columns);
        let columns = self.columns();
        proof {
            assert(self@.columns[0].rows.len() == self@.lines);
        }
        let first_block = columns[0].rows()[0];
        let mut last_bold = first_block.bold;
        let mut last_colour = first_block.term_color();
        let ghost pen0 = Pen { colour: last_colour, bold: last_bold };
        let mut ops: Vec<DrawOp> = Vec::new();
        // Clear last_color of previous frame
        ops.push(DrawOp::SetColor(last_colour));
        // Global bold/no-bold
        match weight {
            FontWeight::Bold => ops.push(DrawOp::Bold),
            FontWeight::Regular => ops.push(DrawOp::NormalIntensity),
            _ => {},
        }
        let ghost prelude = ops@;
        assert(prelude =~= seq![DrawOp::SetColor(pen0.colour)] + weight_ops(weight));
        let ncols = columns.len();
        let mut x: usize = 0;
        while x < ncols
            invariant
                x <= ncols,
                ncols == cols.len(),
                columns@.len() == ncols,
                well_shaped(self@),
                cols == rows_of(self@.columns),
                forall|k: int| 0 <= k < ncols ==> #[trigger] columns@[k]@.rows == cols[k],
                1 <= ncols <= 32768,
                forall|k: int| 0 <= k < ncols ==> 1 <= #[trigger] cols[k].len() <= 65536,
                ops@ == prelude + render(pen0, grid_cells(cols.take(x as int)), weight).0,
                render(pen0, grid_cells(cols.take(x as int)), weight).1 == (Pen {
                    colour: last_colour,
                    bold: last_bold,
                }),
            decreases ncols - x,
        {
            let rows = columns[x].rows();
            let nrows = rows.len();
            let ghost done = grid_cells(cols.take(x as int));
            let ghost col_cells = column_cells(x as int, cols[x as int]);
            let mut k: usize = 1;
            while k < nrows
                invariant
                    1 <= k <= nrows,
                    x < ncols <= 32768,
                    nrows == cols[x as int].len(),
                    nrows <= 65536,
                    rows@ == cols[x as int],
                    col_cells == column_cells(x as int, cols[x as int]),
                    ops@ == prelude + render(pen0, done + col_cells.take(k - 1), weight).0,
                    render(pen0, done + col_cells.take(k - 1), weight).1 == (Pen {
                        colour: last_colour,
                        bold: last_bold,
                    }),
                decreases nrows - k,
            {
                let block = rows[k];
                let ghost cells_before = done + col_cells.take(k - 1);
                draw_cell(&mut ops, &mut last_colour, &mut last_bold, x, k - 1, block, weight);
                proof {
                    let cell = col_cells[k - 1];
                    assert(cell == (x as int, (k - 1) as int, block));
                    assert(done + col_cells.take(k as int) =~= cells_before.push(cell));
                    lemma_render_push(pen0, cells_before, cell, weight);
                }
                k = k + 1;
            }
            proof {
                assert(col_cells.take(nrows - 1) =~= col_cells);
                assert(cols.take(x + 1).drop_last() =~= cols.take(x as int));
                assert(cols.take(x + 1).last() == cols[x as int]);
            }
            x = x + 1;
        }
        proof {
            assert(cols.take(ncols as int) =~= cols);
        }
        ops
    }
}

} // verus!

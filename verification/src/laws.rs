//! Properties of the library that span its functions or hold of all inputs.

use vstd::prelude::*;

use crate::config::{after_key, colour_key, quits, weight_of, Config, FontWeight, MatrixColor};
use crate::matrix::{
    advanced, dimensions, head_updated, is_rainbow_color, moved, rainbow_color_spec, ColumnView,
    blank, next_ticker, painted_rows, shifted_down, streams_moved, sweep_at, Block, MAX_DELAY,
};
use crate::net::{growth, not_below, NetStats};
use crate::random::is_rain_char;
use crate::render::{term_color_of, TermColor, cell_ops, column_cells, frame_ops, grid_cells, pen_after, render, weight_ops, DrawOp, Pen};

verus! {

/// In screensaver mode every key ends the program.
pub proof fn screensaver_quits_on_any_key(c: Config, key: char)
    requires
        c.screensaver,
    ensures
        quits(c, key),
{
}

/// Pressing the pause key twice restores the settings.
pub proof fn pause_twice_restores(c: Config)
    requires
        !c.screensaver,
    ensures
        after_key(after_key(c, 'p'), 'p') == c,
        after_key(c, 'p').pause != c.pause,
{
}

/// A colour key selects its colour and ends rainbow mode, and changes
/// nothing else.
pub proof fn colour_key_ends_rainbow(c: Config, key: char)
    requires
        colour_key(key) is Some,
    ensures
        after_key(c, key).colour == colour_key(key)->Some_0,
        !after_key(c, key).rainbow,
        after_key(c, key) == (Config { colour: after_key(c, key).colour, rainbow: false, ..c }),
{
}

/// A digit key sets the update delay to the digit's value, and changes
/// nothing else.
pub proof fn digit_key_sets_delay(c: Config, key: char)
    requires
        '0' <= key <= '9',
    ensures
        after_key(c, key).update == (key as u32) - 48,
        after_key(c, key) == (Config { update: after_key(c, key).update, ..c }),
{
}

/// No key changes the mode of the program or its network settings.
pub proof fn keys_keep_modes(c: Config, key: char)
    ensures
        after_key(c, key).screensaver == c.screensaver,
        after_key(c, key).oldstyle == c.oldstyle,
        after_key(c, key).asynch == c.asynch,
        after_key(c, key).console == c.console,
        after_key(c, key).xwindow == c.xwindow,
        after_key(c, key).net_interface == c.net_interface,
        after_key(c, key).net_threshold == c.net_threshold,
        after_key(c, key).tx_color == c.tx_color,
        after_key(c, key).rx_color == c.rx_color,
{
}

/// The asynchronous ticker runs through 1 to `MAX_DELAY + 1`.
pub proof fn ticker_stays_in_cycle(t: u8)
    ensures
        1 <= next_ticker(t) <= MAX_DELAY + 1,
        1 <= t <= MAX_DELAY ==> next_ticker(t) == t + 1,
        t == MAX_DELAY + 1 ==> next_ticker(t) == 1,
{
}

/// No character of the rain is a space, so a written head is never empty.
pub proof fn rain_chars_are_not_spaces(c: char)
    requires
        is_rain_char(c),
    ensures
        c != ' ',
{
}

/// Both ways of moving a column down keep its height.
pub proof fn moving_down_keeps_height(old: Seq<Block>, new: Seq<Block>)
    requires
        old.len() > 0,
    ensures
        shifted_down(old).len() == old.len(),
        shifted_down(old)[0] == blank(),
        forall|k: int| 0 <= k < old.len() - 1 ==> shifted_down(old)[k + 1] == old[k],
        streams_moved(old, new) ==> new.len() == old.len(),
{
}

/// Painting packets changes only colours and weights: every character and
/// every whiteness stays, and at most `packets` blocks change.
pub proof fn painting_keeps_characters(rows: Seq<Block>, y: int, packets: u64, color: crate::config::MatrixColor)
    ensures
        painted_rows(rows, y, packets, color).len() == rows.len(),
        forall|k: int|
            0 <= k < rows.len() ==> (#[trigger] painted_rows(rows, y, packets, color)[k]).val
                == rows[k].val && painted_rows(rows, y, packets, color)[k].white == rows[k].white,
        forall|k: int|
            0 <= k < rows.len() && !(y <= k < y + packets) ==> #[trigger] painted_rows(
                rows,
                y,
                packets,
                color,
            )[k] == rows[k],
{
}

/// The growth reported by two successive readings adds up to the growth
/// from the first reading to the last.
pub proof fn readings_add_up(a: NetStats, b: NetStats, c: NetStats)
    requires
        not_below(b, a),
        not_below(c, b),
    ensures
        not_below(c, a),
        growth(c, b).tx_packets + growth(b, a).tx_packets == growth(c, a).tx_packets,
        growth(c, b).rx_packets + growth(b, a).rx_packets == growth(c, a).rx_packets,
{
}

/// The characters that a run of instructions prints, in order.
pub open spec fn printed(ops: Seq<DrawOp>) -> Seq<char>
    decreases ops.len(),
{
    if ops.len() == 0 {
        Seq::empty()
    } else {
        printed(ops.drop_last()) + match ops.last() {
            DrawOp::Print(c) => seq![c],
            _ => Seq::empty(),
        }
    }
}

/// What two runs of instructions print together.
pub proof fn printed_concat(a: Seq<DrawOp>, b: Seq<DrawOp>)
    ensures
        printed(a + b) == printed(a) + printed(b),
    decreases b.len(),
{
    if b.len() == 0 {
        assert(a + b =~= a);
        assert(printed(b) =~= Seq::<char>::empty());
        assert(printed(a) + printed(b) =~= printed(a));
    } else {
        printed_concat(a, b.drop_last());
        assert((a + b).drop_last() =~= a + b.drop_last());
        assert(printed(a) + printed(b) =~= printed(a) + printed(b.drop_last()) + match b.last() {
            DrawOp::Print(c) => seq![c],
            _ => Seq::empty(),
        });
    }
}

/// What a single instruction prints.
pub proof fn printed_one(op: DrawOp)
    ensures
        printed(seq![op]) == match op {
            DrawOp::Print(c) => seq![c],
            _ => Seq::<char>::empty(),
        },
{
    let e = seq![op].drop_last();
    assert(e =~= Seq::<DrawOp>::empty());
    assert(printed(e) =~= Seq::<char>::empty());
    assert(seq![op].last() == op);
}

/// Drawing a frame prints every cell's character exactly once, in the
/// order of the cells.
pub proof fn drawing_prints_every_cell(pen: Pen, cells: Seq<(int, int, Block)>, weight: FontWeight)
    ensures
        printed(render(pen, cells, weight).0) == cells.map_values(|c: (int, int, Block)| c.2.val),
    decreases cells.len(),
{
    if cells.len() == 0 {
        assert(cells.map_values(|c: (int, int, Block)| c.2.val) =~= Seq::<char>::empty());
    } else {
        let init = cells.drop_last();
        let c = cells.last();
        drawing_prints_every_cell(pen, init, weight);
        let (ops, p) = render(pen, init, weight);
        let cell = cell_ops(p, c.0, c.1, c.2, weight);
        printed_concat(ops, cell);
        let mv = seq![DrawOp::MoveTo((2 * c.0) as u16, c.1 as u16)];
        let colour = if term_colour_changes(p, c.2) {
            seq![DrawOp::SetColor(crate::render::term_color_of(c.2))]
        } else {
            Seq::empty()
        };
        let weight_op = if weight == FontWeight::SemiBold && p.bold != c.2.bold {
            seq![if c.2.bold { DrawOp::Bold } else { DrawOp::NormalIntensity }]
        } else {
            Seq::empty()
        };
        assert(cell =~= mv + colour + weight_op + seq![DrawOp::Print(c.2.val)]);
        printed_concat(mv + colour + weight_op, seq![DrawOp::Print(c.2.val)]);
        printed_concat(mv + colour, weight_op);
        printed_concat(mv, colour);
        printed_one(mv[0]);
        assert(mv =~= seq![mv[0]]);
        if colour.len() > 0 {
            printed_one(colour[0]);
            assert(colour =~= seq![colour[0]]);
        } else {
            assert(printed(colour) =~= Seq::<char>::empty());
        }
        if weight_op.len() > 0 {
            printed_one(weight_op[0]);
            assert(weight_op =~= seq![weight_op[0]]);
        } else {
            assert(printed(weight_op) =~= Seq::<char>::empty());
        }
        printed_one(DrawOp::Print(c.2.val));
        assert(cells.map_values(|c: (int, int, Block)| c.2.val) =~= init.map_values(
            |c: (int, int, Block)| c.2.val,
        ).push(c.2.val));
    }
}

/// Whether drawing block `b` changes the terminal's colour.
pub open spec fn term_colour_changes(p: Pen, b: Block) -> bool {
    crate::render::term_color_of(b) != p.colour
}

/// In the regular and the bold mode the weight set at the start of a frame
/// holds for all of it: no cell switches the weight.
pub proof fn fixed_weight_never_switches(pen: Pen, cells: Seq<(int, int, Block)>, weight: FontWeight)
    requires
        weight != FontWeight::SemiBold,
    ensures
        forall|i: int|
            0 <= i < render(pen, cells, weight).0.len() ==> {
                let op = #[trigger] render(pen, cells, weight).0[i];
                op != DrawOp::Bold && op != DrawOp::NormalIntensity
            },
        render(pen, cells, weight).1.bold == pen.bold,
    decreases cells.len(),
{
    if cells.len() > 0 {
        let init = cells.drop_last();
        let c = cells.last();
        fixed_weight_never_switches(pen, init, weight);
        let (ops, p) = render(pen, init, weight);
        let cell = cell_ops(p, c.0, c.1, c.2, weight);
        let all = ops + cell;
        assert forall|i: int| 0 <= i < all.len() implies all[i] != DrawOp::Bold && all[i]
            != DrawOp::NormalIntensity by {
            if i >= ops.len() {
                assert(all[i] == cell[i - ops.len()]);
            }
        }
        assert(pen_after(p, c.2, weight).bold == p.bold);
    }
}

/// A frame prints the character of every visible cell once, column after
/// column, top to bottom, and nothing else.
pub proof fn frame_prints_every_cell(cols: Seq<Seq<Block>>, weight: FontWeight)
    requires
        cols.len() > 0,
        cols[0].len() > 0,
    ensures
        printed(frame_ops(cols, weight)) == grid_cells(cols).map_values(|c: (int, int, Block)| c.2.val),
{
    let first = cols[0][0];
    let pen = Pen { colour: crate::render::term_color_of(first), bold: first.bold };
    let head = seq![DrawOp::SetColor(pen.colour)];
    let w = weight_ops(weight);
    printed_one(DrawOp::SetColor(pen.colour));
    if w.len() > 0 {
        printed_one(w[0]);
        assert(w =~= seq![w[0]]);
    } else {
        assert(printed(w) =~= Seq::<char>::empty());
    }
    printed_concat(head, w);
    printed_concat(head + w, render(pen, grid_cells(cols), weight).0);
    drawing_prints_every_cell(pen, grid_cells(cols), weight);
    assert(printed(head + w) =~= Seq::<char>::empty());
    assert(printed(frame_ops(cols, weight)) =~= printed(render(pen, grid_cells(cols), weight).0));
}

/// A screen of `n` columns of `h` rows has `n * (h - 1)` visible cells.
pub proof fn grid_cell_count(cols: Seq<Seq<Block>>, h: int)
    requires
        h >= 1,
        forall|i: int| 0 <= i < cols.len() ==> #[trigger] cols[i].len() == h,
    ensures
        grid_cells(cols).len() == cols.len() * (h - 1),
    decreases cols.len(),
{
    if cols.len() > 0 {
        grid_cell_count(cols.drop_last(), h);
        assert(column_cells(cols.len() - 1, cols.last()).len() == h - 1);
        assert(cols.len() * (h - 1) == (cols.len() - 1) * (h - 1) + (h - 1)) by (nonlinear_arith);
    }
}

/// Along a column holding a single stream in rows `a` to `b - 1`, the
/// sweep is inside the stream exactly after passing its first block and
/// until passing the space below it.
pub proof fn sweep_of_single_stream(rows: Seq<Block>, a: int, b: int, k: int)
    requires
        0 <= a < b < rows.len(),
        forall|i: int| 0 <= i < rows.len() ==> ((a <= i < b) <==> #[trigger] rows[i].val != ' '),
        0 <= k <= rows.len(),
    ensures
        sweep_at(rows, k).in_stream == (a < k <= b),
    decreases k,
{
    if k > 0 {
        sweep_of_single_stream(rows, a, b, k - 1);
        assert(rows[k - 1].val != ' ' <==> (a <= k - 1 < b));
    }
}

/// The rain falls: moving a column whose only stream fills rows `a` to
/// `b - 1` leaves the stream in rows `a + 1` to `b`, every other row empty.
pub proof fn single_stream_falls_one_row(old: Seq<Block>, new: Seq<Block>, a: int, b: int)
    requires
        0 <= a < b < old.len(),
        forall|i: int| 0 <= i < old.len() ==> ((a <= i < b) <==> #[trigger] old[i].val != ' '),
        streams_moved(old, new),
    ensures
        new.len() == old.len(),
        forall|i: int| 0 <= i < new.len() ==> ((a + 1 <= i < b + 1) <==> #[trigger] new[i].val != ' '),
        forall|i: int| a + 1 <= i < b ==> #[trigger] new[i].val == old[i].val,
{
    assert forall|i: int| 0 <= i < new.len() implies ((a + 1 <= i < b + 1) <==> #[trigger] new[i].val
        != ' ') by {
        sweep_of_single_stream(old, a, b, i);
        assert(crate::matrix::swept(sweep_at(old, i), old[i], new[i]));
        assert(old[i].val != ' ' <==> (a <= i < b));
    }
    assert forall|i: int| a + 1 <= i < b implies #[trigger] new[i].val == old[i].val by {
        sweep_of_single_stream(old, a, b, i);
        assert(crate::matrix::swept(sweep_at(old, i), old[i], new[i]));
        assert(old[i].val != ' ');
    }
}

/// The rainbow key turns rainbow mode on, never off: pressing it twice is
/// pressing it once.
pub proof fn rainbow_key_turns_rainbow_on(c: Config)
    ensures
        after_key(c, 'r').rainbow,
        after_key(after_key(c, 'r'), 'r') == after_key(c, 'r'),
        after_key(c, 'r') == (Config { rainbow: true, ..c }),
{
}

/// A frame of a column whose stream has characters left to come continues
/// the stream and counts its remaining length down by one; a column whose
/// stream is used up shows a space at its head and its length stays 0; a
/// column waiting for a stream counts its spaces down by one. So a stream
/// started with length `L` gives exactly `L` more characters.
pub proof fn stream_length_counts_down(old: ColumnView, new: ColumnView, config: Config, ticker: u8, lines: usize)
    requires
        advanced(old, new, config, ticker, lines),
        !(config.asynch && ticker <= old.update_rate),
        old.rows.len() >= 2,
    ensures
        old.rows[1].val != ' ' && old.length > 0 ==> new.length == old.length - 1 && new.spaces
            == old.spaces,
        old.rows[1].val != ' ' && old.length == 0 ==> new.length == 0 && new.spaces == old.spaces
            && new.rows[0].val == ' ',
        old.rows[1].val == ' ' && old.spaces > 0 ==> new.spaces == old.spaces - 1 && new.length
            == old.length,
        new.update_rate == old.update_rate,
{
    let mid = choose|mid: ColumnView| head_updated(old, mid, config, lines) && #[trigger] moved(mid, new, config.oldstyle);
    assert(head_updated(old, mid, config, lines) && moved(mid, new, config.oldstyle));
    if old.rows[1].val != ' ' && old.length == 0 {
        if !config.oldstyle {
            assert(crate::matrix::swept(sweep_at(mid.rows, 0), mid.rows[0], new.rows[0]));
        }
    }
}

/// The dimensions of a terminal `w` cells wide and `h` high: one row per
/// line plus the hidden head row, and a column for every two cells, the
/// last one also covering a single leftover cell; sizes under 10 count
/// as 10. There is no upper limit.
pub proof fn dimensions_cover_the_terminal(w: u16, h: u16)
    ensures
        w >= 10 && h >= 10 ==> dimensions(Some((w, h))) == (h + 1, w / 2 + w % 2),
        w >= 10 ==> 2 * dimensions(Some((w, h))).1 - 1 <= w <= 2 * dimensions(Some((w, h))).1,
        w < 10 ==> dimensions(Some((w, h))).1 == 5,
        h < 10 ==> dimensions(Some((w, h))).0 == 11,
        dimensions(None) == (10int, 10int),
{
}

/// The colour the terminal prints in after a run of instructions, starting
/// from `init`: the last colour set, or `init` when none is set.
pub open spec fn colour_in_force(init: TermColor, ops: Seq<DrawOp>) -> TermColor
    decreases ops.len(),
{
    if ops.len() == 0 {
        init
    } else {
        match ops.last() {
            DrawOp::SetColor(c) => c,
            _ => colour_in_force(init, ops.drop_last()),
        }
    }
}

/// One more instruction sets the colour or leaves it.
pub proof fn colour_in_force_push(init: TermColor, ops: Seq<DrawOp>, op: DrawOp)
    ensures
        colour_in_force(init, ops.push(op)) == match op {
            DrawOp::SetColor(c) => c,
            _ => colour_in_force(init, ops),
        },
{
    assert(ops.push(op).drop_last() =~= ops);
}

/// The colour after two runs of instructions is that of the second run
/// started from the colour the first left.
pub proof fn colour_in_force_concat(init: TermColor, a: Seq<DrawOp>, b: Seq<DrawOp>)
    ensures
        colour_in_force(init, a + b) == colour_in_force(colour_in_force(init, a), b),
    decreases b.len(),
{
    if b.len() == 0 {
        assert(a + b =~= a);
    } else {
        colour_in_force_concat(init, a, b.drop_last());
        assert((a + b).drop_last() =~= a + b.drop_last());
        assert((a + b).last() == b.last());
    }
}

/// The colour the drawing of cells keeps track of is the colour in force
/// on the terminal, and it is the last drawn block's colour.
pub proof fn render_tracks_colour(pen: Pen, cells: Seq<(int, int, Block)>, weight: FontWeight)
    ensures
        render(pen, cells, weight).1.colour == colour_in_force(pen.colour, render(pen, cells, weight).0),
        cells.len() > 0 ==> render(pen, cells, weight).1.colour == term_color_of(cells.last().2),
    decreases cells.len(),
{
    if cells.len() > 0 {
        let init = cells.drop_last();
        let c = cells.last();
        render_tracks_colour(pen, init, weight);
        let (ops, p) = render(pen, init, weight);
        let tc = term_color_of(c.2);
        let mv = DrawOp::MoveTo((2 * c.0) as u16, c.1 as u16);
        let pr = DrawOp::Print(c.2.val);
        let with_colour = if tc != p.colour {
            ops.push(mv).push(DrawOp::SetColor(tc))
        } else {
            ops.push(mv)
        };
        let with_weight = if weight == FontWeight::SemiBold && p.bold != c.2.bold {
            with_colour.push(if c.2.bold { DrawOp::Bold } else { DrawOp::NormalIntensity })
        } else {
            with_colour
        };
        assert(ops + cell_ops(p, c.0, c.1, c.2, weight) =~= with_weight.push(pr));
        colour_in_force_push(pen.colour, ops, mv);
        if tc != p.colour {
            colour_in_force_push(pen.colour, ops.push(mv), DrawOp::SetColor(tc));
        }
        if weight == FontWeight::SemiBold && p.bold != c.2.bold {
            colour_in_force_push(
                pen.colour,
                with_colour,
                if c.2.bold { DrawOp::Bold } else { DrawOp::NormalIntensity },
            );
        }
        colour_in_force_push(pen.colour, with_weight, pr);
    }
}

/// Drawing a prefix of the cells gives a prefix of the instructions.
pub proof fn render_prefix(pen: Pen, cells: Seq<(int, int, Block)>, j: int, weight: FontWeight)
    requires
        0 <= j <= cells.len(),
    ensures
        render(pen, cells.take(j), weight).0.len() <= render(pen, cells, weight).0.len(),
        render(pen, cells, weight).0.take(render(pen, cells.take(j), weight).0.len() as int)
            == render(pen, cells.take(j), weight).0,
    decreases cells.len(),
{
    if j == cells.len() {
        assert(cells.take(j) =~= cells);
        assert(render(pen, cells, weight).0.take(render(pen, cells, weight).0.len() as int)
            =~= render(pen, cells, weight).0);
    } else {
        let init = cells.drop_last();
        render_prefix(pen, init, j, weight);
        assert(init.take(j) =~= cells.take(j));
        let (ops, p) = render(pen, init, weight);
        let c = cells.last();
        let all = ops + cell_ops(p, c.0, c.1, c.2, weight);
        let n = render(pen, cells.take(j), weight).0.len() as int;
        assert(all.take(n) =~= ops.take(n));
    }
}

/// In every weight mode, when a frame prints a cell's character the colour
/// last set on the terminal is that cell's colour: the part of the frame up
/// to the cell ends with printing its character, and the colour in force
/// there, whatever the terminal showed before the frame, is the cell's.
pub proof fn frame_prints_cells_in_their_colour(cols: Seq<Seq<Block>>, weight: FontWeight, before: TermColor, k: int)
    requires
        cols.len() > 0,
        cols[0].len() > 0,
        0 <= k < grid_cells(cols).len(),
    ensures
        ({
            let cells = grid_cells(cols);
            let first = cols[0][0];
            let pen = Pen { colour: term_color_of(first), bold: first.bold };
            let n = 1 + weight_ops(weight).len() + render(pen, cells.take(k + 1), weight).0.len();
            let part = frame_ops(cols, weight).take(n as int);
            &&& n <= frame_ops(cols, weight).len()
            &&& part.last() == DrawOp::Print(cells[k].2.val)
            &&& colour_in_force(before, part) == term_color_of(cells[k].2)
        }),
{
    let cells = grid_cells(cols);
    let first = cols[0][0];
    let pen = Pen { colour: term_color_of(first), bold: first.bold };
    let head = seq![DrawOp::SetColor(pen.colour)] + weight_ops(weight);
    let pre = cells.take(k + 1);
    let r = render(pen, pre, weight).0;
    render_prefix(pen, cells, k + 1, weight);
    render_tracks_colour(pen, pre, weight);
    assert(pre.last() == cells[k]);
    assert(pre.drop_last() =~= cells.take(k));
    let n = head.len() + r.len();
    assert(frame_ops(cols, weight).take(n as int) =~= head + r);
    // the cell's instructions end with printing its character
    let (ops0, p0) = render(pen, cells.take(k), weight);
    let c = cells[k];
    assert(r == ops0 + cell_ops(p0, c.0, c.1, c.2, weight));
    assert((head + r).last() == DrawOp::Print(c.2.val));
    // the head sets the first block's colour
    colour_in_force_concat(before, head, r);
    colour_in_force_concat(before, seq![DrawOp::SetColor(pen.colour)], weight_ops(weight));
    colour_in_force_push(before, Seq::empty(), DrawOp::SetColor(pen.colour));
    assert(Seq::<DrawOp>::empty().push(DrawOp::SetColor(pen.colour)) =~= seq![DrawOp::SetColor(pen.colour)]);
    if weight_ops(weight).len() > 0 {
        colour_in_force_push(pen.colour, Seq::empty(), weight_ops(weight)[0]);
        assert(Seq::<DrawOp>::empty().push(weight_ops(weight)[0]) =~= weight_ops(weight));
    }
    assert(colour_in_force(before, head) == pen.colour);
}

/// The keys and what they do: `q` quits; `b`, `B` and `n` select the
/// semi-bold, bold and regular weights; `!`, `@`, `#`, `$`, `%`, `^` and
/// `&` select red, green, yellow, blue, magenta, cyan and white.
pub proof fn key_bindings(c: Config)
    requires
        !c.screensaver,
    ensures
        quits(c, 'q'),
        !quits(c, 'b') && weight_of(after_key(c, 'b').bold) == FontWeight::SemiBold,
        !quits(c, 'B') && weight_of(after_key(c, 'B').bold) == FontWeight::Bold,
        !quits(c, 'n') && weight_of(after_key(c, 'n').bold) == FontWeight::Regular,
        after_key(c, '!').colour == MatrixColor::Red,
        after_key(c, '@').colour == MatrixColor::Green,
        after_key(c, '#').colour == MatrixColor::Yellow,
        after_key(c, '$').colour == MatrixColor::Blue,
        after_key(c, '%').colour == MatrixColor::Magenta,
        after_key(c, '^').colour == MatrixColor::Cyan,
        after_key(c, '&').colour == MatrixColor::White,
        after_key(c, 'z') == c,
{
}

/// Rainbow mode draws from every colour but black and red, each of them
/// for one of the six draws.
pub proof fn rainbow_colours(c: MatrixColor)
    ensures
        is_rainbow_color(c) <==> (c != MatrixColor::Black && c != MatrixColor::Red),
        is_rainbow_color(c) ==> exists|i: int| 0 <= i < 6 && #[trigger] rainbow_color_spec(i) == c,
        forall|i: int, j: int| 0 <= i < j < 6 ==> #[trigger] rainbow_color_spec(i) != #[trigger] rainbow_color_spec(j),
{
    if c == MatrixColor::Green {
        assert(rainbow_color_spec(0) == c);
    } else if c == MatrixColor::Blue {
        assert(rainbow_color_spec(1) == c);
    } else if c == MatrixColor::White {
        assert(rainbow_color_spec(2) == c);
    } else if c == MatrixColor::Yellow {
        assert(rainbow_color_spec(3) == c);
    } else if c == MatrixColor::Cyan {
        assert(rainbow_color_spec(4) == c);
    } else if c == MatrixColor::Magenta {
        assert(rainbow_color_spec(5) == c);
    }
}

/// White blocks are drawn white; every other block in the dark shade of
/// its colour, white ones in grey; no two colours share a shade.
pub proof fn term_colours(b: Block, d: Block)
    ensures
        b.white ==> term_color_of(b) == TermColor::White,
        !b.white && b.color == MatrixColor::Green ==> term_color_of(b) == TermColor::DarkGreen,
        !b.white && b.color == MatrixColor::Red ==> term_color_of(b) == TermColor::DarkRed,
        !b.white && b.color == MatrixColor::White ==> term_color_of(b) == TermColor::Grey,
        !b.white && b.color == MatrixColor::Black ==> term_color_of(b) == TermColor::Black,
        !b.white && b.color == MatrixColor::Cyan ==> term_color_of(b) == TermColor::DarkCyan,
        !b.white && b.color == MatrixColor::Magenta ==> term_color_of(b) == TermColor::DarkMagenta,
        !b.white && b.color == MatrixColor::Blue ==> term_color_of(b) == TermColor::DarkBlue,
        !b.white && b.color == MatrixColor::Yellow ==> term_color_of(b) == TermColor::DarkYellow,
        !b.white && !d.white && b.color != d.color ==> term_color_of(b) != term_color_of(d),
        !b.white ==> term_color_of(b) != TermColor::White,
{
}

/// A new stream starts when a column has waited all its spaces: its head is
/// a rain character in the configured colour (a rainbow colour in rainbow
/// mode), it has between 2 and `lines - 2` characters still to come, and
/// between 1 and `lines` spaces to follow it.
pub proof fn new_streams_start_in_range(old: ColumnView, mid: ColumnView, config: Config, lines: usize)
    requires
        head_updated(old, mid, config, lines),
        old.rows.len() >= 2,
        old.rows[1].val == ' ',
        old.spaces == 0,
    ensures
        2 <= mid.length <= lines - 2,
        1 <= mid.spaces <= lines,
        is_rain_char(mid.rows[0].val),
        mid.rows[0].val != ' ',
        !config.rainbow ==> mid.rows[0].color == config.colour,
        config.rainbow ==> mid.rows[0].color != MatrixColor::Black && mid.rows[0].color != MatrixColor::Red,
{
}

/// Painting gives every block of the run the colour, in bold.
pub proof fn painting_colours_the_run(rows: Seq<Block>, y: int, packets: u64, color: MatrixColor, k: int)
    requires
        0 <= k < rows.len(),
        y <= k < y + packets,
    ensures
        painted_rows(rows, y, packets, color)[k].color == color,
        painted_rows(rows, y, packets, color)[k].bold,
{
}

} // verus!

//! The screen as columns of blocks, and the rules that advance it.

use std::collections::VecDeque;
use std::ops::Range;

use rand::rngs::SmallRng;
use vstd::prelude::*;

use crate::config::{Config, MatrixColor};
use crate::net::{growth, not_below, NetState, NetStats};
use crate::random::{coin_flip, is_rain_char, new_rng, rand_char, random_range};

verus! {

/// The largest number of frames a column of the asynchronous mode waits
/// between two of its updates, plus one.
pub const MAX_DELAY: u8 = 3;

/// One cell of a column.
#[derive(Clone, Copy, Debug)]
pub struct Block {
    pub val: char,
    pub white: bool,
    pub color: MatrixColor,
    pub bold: bool,
}

/// The empty cell.
pub open spec fn blank() -> Block {
    Block { val: ' ', white: false, color: MatrixColor::Red, bold: false }
}

impl Block {
    /// Whether the cell shows nothing.
    pub fn is_space(&self) -> (r: bool)
        ensures
            r == (self.val == ' '),
    {
        self.val == ' '
    }
}

impl Default for Block {
    fn default() -> (b: Self)
        ensures
            b == blank(),
    {
        Block { val: ' ', white: false, color: MatrixColor::Red, bold: false }
    }
}

/// The colours that rainbow mode picks a new stream's colour from.
pub open spec fn is_rainbow_color(c: MatrixColor) -> bool {
    ||| c == MatrixColor::Green
    ||| c == MatrixColor::Blue
    ||| c == MatrixColor::White
    ||| c == MatrixColor::Yellow
    ||| c == MatrixColor::Cyan
    ||| c == MatrixColor::Magenta
}

/// The rainbow colour that a draw from `0..6` selects.
pub open spec fn rainbow_color_spec(i: int) -> MatrixColor {
    if i == 0 {
        MatrixColor::Green
    } else if i == 1 {
        MatrixColor::Blue
    } else if i == 2 {
        MatrixColor::White
    } else if i == 3 {
        MatrixColor::Yellow
    } else if i == 4 {
        MatrixColor::Cyan
    } else {
        MatrixColor::Magenta
    }
}

/// The rainbow colour numbered `i`.
pub fn rainbow_color(i: usize) -> (c: MatrixColor)
    requires
        i < 6,
    ensures
        c == rainbow_color_spec(i as int),
        is_rainbow_color(c),
{
    match i {
        0 => MatrixColor::Green,
        1 => MatrixColor::Blue,
        2 => MatrixColor::White,
        3 => MatrixColor::Yellow,
        4 => MatrixColor::Cyan,
        _ => MatrixColor::Magenta,
    }
}

/// The colour a new stream's head takes under the given settings.
pub open spec fn head_color_ok(config: Config, c: MatrixColor) -> bool {
    if config.rainbow {
        is_rainbow_color(c)
    } else {
        c == config.colour
    }
}

/// The state carried down a column while it moves one row.
pub struct Sweep {
    pub in_stream: bool,
    pub last_white: bool,
    pub running: MatrixColor,
}

/// The state at the top of a column.
pub open spec fn sweep_start() -> Sweep {
    Sweep { in_stream: false, last_white: false, running: MatrixColor::Cyan }
}

/// The state after passing the block `b`.
pub open spec fn sweep_next(s: Sweep, b: Block) -> Sweep {
    if !s.in_stream {
        if b.val != ' ' {
            Sweep { in_stream: true, last_white: b.white, running: b.color }
        } else {
            Sweep { last_white: b.white, ..s }
        }
    } else if b.val == ' ' {
        Sweep { in_stream: false, ..s }
    } else {
        Sweep { last_white: b.white, ..s }
    }
}

/// The state before the block at index `i`.
pub open spec fn sweep_at(rows: Seq<Block>, i: int) -> Sweep
    decreases i,
{
    if i <= 0 {
        sweep_start()
    } else {
        sweep_next(sweep_at(rows, i - 1), rows[i - 1])
    }
}

/// How one block changes as the column moves down: the first block of a
/// stream is erased, the space below a stream gets a new random character
/// in the stream's colour, and whiteness passes one block down.
pub open spec fn swept(s: Sweep, old: Block, new: Block) -> bool {
    &&& new.white == s.last_white
    &&& if !s.in_stream && old.val != ' ' {
        &&& new.val == ' '
        &&& new.color == old.color
        &&& new.bold == old.bold
    } else if s.in_stream && old.val == ' ' {
        &&& is_rain_char(new.val)
        &&& new.color == s.running
    } else {
        &&& new.val == old.val
        &&& new.color == old.color
        &&& new.bold == old.bold
    }
}

/// The rows after moving every stream down one block.
pub open spec fn streams_moved(old: Seq<Block>, new: Seq<Block>) -> bool {
    &&& new.len() == old.len()
    &&& forall|i: int| 0 <= i < old.len() ==> #[trigger] swept(sweep_at(old, i), old[i], new[i])
}

/// The rows after shifting the whole column down one block.
pub open spec fn shifted_down(old: Seq<Block>) -> Seq<Block> {
    if old.len() == 0 {
        seq![blank()]
    } else {
        seq![blank()] + old.drop_last()
    }
}

/// The column after the step that writes its hidden head: while no stream
/// passes the first visible row, the spaces count down and, when they are
/// used up, a new stream starts with random length and spacing; inside a
/// stream its characters continue until its length is used up, and spaces
/// follow.
pub open spec fn head_updated(old: ColumnView, mid: ColumnView, config: Config, lines: usize) -> bool {
    let r = old.rows;
    let m = mid.rows;
    &&& m.len() == r.len()
    &&& mid.update_rate == old.update_rate
    &&& forall|k: int| 1 <= k < r.len() ==> m[k] == r[k]
    &&& m[0].bold == r[0].bold
    &&& if r[1].val == ' ' {
        if old.spaces > 0 {
            &&& mid.spaces == old.spaces - 1
            &&& mid.length == old.length
            &&& m[0] == r[0]
        } else {
            &&& 2 <= mid.length < lines - 1
            &&& 1 <= mid.spaces <= lines
            &&& is_rain_char(m[0].val)
            &&& head_color_ok(config, m[0].color)
        }
    } else if old.length > 0 {
        &&& mid.length == old.length - 1
        &&& mid.spaces == old.spaces
        &&& is_rain_char(m[0].val)
        &&& m[0].color == r[1].color
        &&& m[0].white == r[0].white
    } else {
        &&& mid.length == old.length
        &&& mid.spaces == old.spaces
        &&& m[0].val == ' '
        &&& m[0].color == config.colour
        &&& m[0].white == r[0].white
    }
}

/// The column after the step that moves it down, in the old or the new style.
pub open spec fn moved(mid: ColumnView, new: ColumnView, oldstyle: bool) -> bool {
    &&& new.length == mid.length
    &&& new.spaces == mid.spaces
    &&& new.update_rate == mid.update_rate
    &&& if oldstyle {
        new.rows == shifted_down(mid.rows)
    } else {
        streams_moved(mid.rows, new.rows)
    }
}

/// The column after one frame: in asynchronous mode a column whose rate
/// exceeds the ticker waits; otherwise its head is written and it moves
/// down.
pub open spec fn advanced(old: ColumnView, new: ColumnView, config: Config, ticker: u8, lines: usize) -> bool {
    if config.asynch && ticker <= old.update_rate {
        new == old
    } else {
        exists|mid: ColumnView| head_updated(old, mid, config, lines) && #[trigger] moved(mid, new, config.oldstyle)
    }
}

/// The rows after painting up to `packets` blocks from row `y` on in
/// `color`, in bold.
pub open spec fn painted_rows(rows: Seq<Block>, y: int, packets: u64, color: MatrixColor) -> Seq<Block> {
    Seq::new(
        rows.len(),
        |k: int|
            if y <= k && k - y < packets {
                Block { color: color, bold: true, ..rows[k] }
            } else {
                rows[k]
            },
    )
}

/// The columns after painting column `x` from row `y` on.
pub open spec fn painted_at(cols: Seq<ColumnView>, x: int, y: int, packets: u64, color: MatrixColor) -> Seq<ColumnView> {
    cols.update(x, ColumnView { rows: painted_rows(cols[x].rows, y, packets, color), ..cols[x] })
}

/// The columns after painting, when there is anything to paint.
pub open spec fn paint_if(cols: Seq<ColumnView>, x: int, y: int, packets: u64, color: MatrixColor) -> Seq<ColumnView> {
    if packets > 0 {
        painted_at(cols, x, y, packets, color)
    } else {
        cols
    }
}

/// Where a packet burst may land: any column, any visible row but the last.
pub open spec fn paint_spot(m: MatrixView, x: int, y: int) -> bool {
    0 <= x < m.columns.len() && 1 <= y < m.lines - 1
}

/// A column of the screen: a queue of blocks whose row 0 is the hidden
/// head where new characters enter.
pub struct Column {
    /// The length of the stream
    length: usize,
    /// The spaces between streams
    spaces: usize,
    /// The steps between updates (only enabled in async)
    update_rate: u8,
    /// The actual column
    rows: VecDeque<Block>,
}

/// What a column holds.
pub struct ColumnView {
    pub length: usize,
    pub spaces: usize,
    pub update_rate: u8,
    pub rows: Seq<Block>,
}

impl View for Column {
    type V = ColumnView;

    closed spec fn view(&self) -> ColumnView {
        ColumnView {
            length: self.length,
            spaces: self.spaces,
            update_rate: self.update_rate,
            rows: self.rows@,
        }
    }
}

impl Column {
    /// Return a column of `lines` empty blocks with random stream settings.
    pub fn new(lines: usize, rng: &mut SmallRng) -> (c: Self)
        requires
            3 < lines < usize::MAX,
        ensures
            c@.rows == Seq::new(lines as nat, |i: int| blank()),
            3 <= c@.length < lines,
            1 <= c@.spaces <= lines,
            1 <= c@.update_rate < MAX_DELAY,
    {
        let length = random_range(rng, Range { start: 3, end: lines });
        let spaces = random_range(rng, Range { start: 1, end: lines + 1 });
        let rate = random_range(rng, Range { start: 1, end: MAX_DELAY as usize });
        let mut rows: VecDeque<Block> = VecDeque::new();
        let mut i: usize = 0;
        while i < lines
            invariant
                i <= lines,
                rows@ == Seq::new(i as nat, |k: int| blank()),
            decreases lines - i,
        {
            rows.push_back(Block::default());
            i = i + 1;
            assert(rows@ =~= Seq::new(i as nat, |k: int| blank()));
        }
        Column { length, spaces, update_rate: rate as u8, rows }
    }

    /// A column with the given blocks and stream settings.
    pub fn from_parts(length: usize, spaces: usize, update_rate: u8, rows: VecDeque<Block>) -> (c: Self)
        ensures
            c@ == (ColumnView { length, spaces, update_rate, rows: rows@ }),
    {
        Column { length, spaces, update_rate, rows }
    }

    /// The blocks of the column, the hidden head first.
    pub fn rows(&self) -> (r: &VecDeque<Block>)
        ensures
            r@ == self@.rows,
    {
        &self.rows
    }

    /// The number of blocks still to come in the current stream.
    pub fn length(&self) -> (r: usize)
        ensures
            r == self@.length,
    {
        self.length
    }

    /// The number of spaces still to come before the next stream.
    pub fn spaces(&self) -> (r: usize)
        ensures
            r == self@.spaces,
    {
        self.spaces
    }

    /// The number of frames this column skips in asynchronous mode.
    pub fn update_rate(&self) -> (r: u8)
        ensures
            r == self@.update_rate,
    {
        self.update_rate
    }

    /// Whether no stream passes the first visible row.
    pub fn head_is_empty(&self) -> (r: bool)
        requires
            self@.rows.len() >= 2,
        ensures
            r == (self@.rows[1].val == ' '),
    {
        self.rows[1].val == ' '
    }

    /// Continue the stream: a new random character in the stream's colour.
    pub fn new_rand_char(&mut self, rng: &mut SmallRng)
        requires
            old(self)@.rows.len() >= 2,
        ensures
            final(self)@.length == old(self)@.length,
            final(self)@.spaces == old(self)@.spaces,
            final(self)@.update_rate == old(self)@.update_rate,
            final(self)@.rows.len() == old(self)@.rows.len(),
            forall|k: int| 1 <= k < old(self)@.rows.len() ==> final(self)@.rows[k] == old(self)@.rows[k],
            is_rain_char(final(self)@.rows[0].val),
            final(self)@.rows[0].color == old(self)@.rows[1].color,
            final(self)@.rows[0].white == old(self)@.rows[0].white,
            final(self)@.rows[0].bold == old(self)@.rows[0].bold,
    {
        let c = rand_char(rng);
        let colour = self.rows[1].color;
        let mut head = self.rows.pop_front().unwrap();
        head.val = c;
        head.color = colour;
        self.rows.push_front(head);
        assert(self.rows@ =~= seq![head] + old(self).rows@.drop_first());
    }

    /// Start a new stream: a random character, in the configured colour
    /// (a random one of the rainbow in rainbow mode), white half the time.
    pub fn new_rand_head(&mut self, config: &Config, rng: &mut SmallRng)
        requires
            old(self)@.rows.len() >= 1,
        ensures
            final(self)@.length == old(self)@.length,
            final(self)@.spaces == old(self)@.spaces,
            final(self)@.update_rate == old(self)@.update_rate,
            final(self)@.rows.len() == old(self)@.rows.len(),
            forall|k: int| 1 <= k < old(self)@.rows.len() ==> final(self)@.rows[k] == old(self)@.rows[k],
            is_rain_char(final(self)@.rows[0].val),
            head_color_ok(*config, final(self)@.rows[0].color),
            final(self)@.rows[0].bold == old(self)@.rows[0].bold,
    {
        let c = rand_char(rng);
        let colour = if config.rainbow {
            let i = random_range(rng, Range { start: 0, end: 6 });
            rainbow_color(i)
        } else {
            config.colour
        };
        // 50/50 chance the head is white
        let white = coin_flip(rng);
        let mut head = self.rows.pop_front().unwrap();
        head.val = c;
        head.color = colour;
        head.white = white;
        self.rows.push_front(head);
        assert(self.rows@ =~= seq![head] + old(self).rows@.drop_first());
    }

    /// Move the whole column down one block, an empty block entering at the
    /// head.
    pub fn old_move_down(&mut self)
        ensures
            final(self)@.rows == shifted_down(old(self)@.rows),
            final(self)@.length == old(self)@.length,
            final(self)@.spaces == old(self)@.spaces,
            final(self)@.update_rate == old(self)@.update_rate,
    {
        self.rows.pop_back();
        self.rows.push_front(Block::default());  // Put a blank space at the head.
    }

    /// Move every stream down one block: its first block is erased and the
    /// space below its last block gets a new random character.
    pub fn new_move_down(&mut self, rng: &mut SmallRng)
        ensures
            streams_moved(old(self)@.rows, final(self)@.rows),
            final(self)@.length == old(self)@.length,
            final(self)@.spaces == old(self)@.spaces,
            final(self)@.update_rate == old(self)@.update_rate,
    {
        let ghost old_rows = self.rows@;
        let n = self.rows.len();
        let mut in_stream = false;  // Reset for each column
        let mut last_was_white = false;  // Keep track of white heads
        let mut running_color = MatrixColor::Cyan;
        let mut i: usize = 0;
        while i < n
            invariant
                0 <= i <= n,
                n == old_rows.len(),
                self.length == old(self).length,
                self.spaces == old(self).spaces,
                self.update_rate == old(self).update_rate,
                self.rows@.len() == n,
                forall|k: int| 0 <= k < n - i ==> self.rows@[k] == old_rows[i + k],
                forall|k: int|
                    0 <= k < i ==> #[trigger] swept(
                        sweep_at(old_rows, k),
                        old_rows[k],
                        self.rows@[n - i + k],
                    ),
                sweep_at(old_rows, i as int) == (Sweep {
                    in_stream,
                    last_white: last_was_white,
                    running: running_color,
                }),
            decreases n - i,
        {
            let ghost before = self.rows@;
            let mut block = self.rows.pop_front().unwrap();
            if !in_stream {
                if !block.is_space() {
                    block.val = ' ';
                    in_stream = true;  // We're now in a stream
                    running_color = block.color;
                }
            } else if block.is_space() {
                // New rand char for head of stream
                block.val = rand_char(rng);
                block.white = last_was_white;
                block.bold = coin_flip(rng);
                block.color = running_color;
                in_stream = false;  // now out of stream
            }
            // Swapped to "pass on" whiteness and prepare the variable for the next iteration
            std::mem::swap(&mut last_was_white, &mut block.white);
            self.rows.push_back(block);
            assert(self.rows@ =~= before.drop_first().push(block));
            proof {
                assert(swept(sweep_at(old_rows, i as int), old_rows[i as int], block));
                assert forall|k: int| 0 <= k < i + 1 implies #[trigger] swept(
                    sweep_at(old_rows, k),
                    old_rows[k],
                    self.rows@[n - (i + 1) + k],
                ) by {
                    if k < i {
                        assert(self.rows@[n - (i + 1) + k] == before[n - i + k]);
                    }
                }
            }
            i = i + 1;
        }
        assert forall|k: int| 0 <= k < n implies #[trigger] swept(
            sweep_at(old_rows, k),
            old_rows[k],
            self.rows@[k],
        ) by {
            assert(self.rows@[n - n + k] == self.rows@[k]);
        }
    }

    /// Paint up to `packets` blocks from row `y` on in `color`, in bold.
    pub fn paint(&mut self, y: usize, packets: u64, color: MatrixColor)
        ensures
            final(self)@ == (ColumnView { rows: painted_rows(old(self)@.rows, y as int, packets, color), ..old(self)@ }),
    {
        let n = self.rows.len();
        let mut k: usize = 0;
        while k < n
            invariant
                k <= n,
                n == old(self).rows@.len(),
                self.length == old(self).length,
                self.spaces == old(self).spaces,
                self.update_rate == old(self).update_rate,
                self.rows@.len() == n,
                forall|j: int| 0 <= j < n - k ==> self.rows@[j] == old(self).rows@[k + j],
                forall|j: int|
                    0 <= j < k ==> self.rows@[n - k + j] == painted_rows(
                        old(self).rows@,
                        y as int,
                        packets,
                        color,
                    )[j],
            decreases n - k,
        {
            let ghost before = self.rows@;
            let mut block = self.rows.pop_front().unwrap();
            if y <= k && ((k - y) as u64) < packets {
                block.color = color;
                block.bold = true;
            }
            self.rows.push_back(block);
            assert(self.rows@ =~= before.drop_first().push(block));
            proof {
                assert forall|j: int| 0 <= j < k + 1 implies self.rows@[n - (k + 1) + j] == painted_rows(
                    old(self).rows@,
                    y as int,
                    packets,
                    color,
                )[j] by {
                    if j < k {
                        assert(self.rows@[n - (k + 1) + j] == before[n - k + j]);
                    }
                }
            }
            k = k + 1;
        }
        assert(self.rows@ =~= painted_rows(old(self).rows@, y as int, packets, color));
    }

    /// Advance the column by one frame.
    pub fn advance(&mut self, config: &Config, ticker: u8, lines: usize, rng: &mut SmallRng)
        requires
            old(self)@.rows.len() == lines,
            4 <= lines < usize::MAX,
        ensures
            advanced(old(self)@, final(self)@, *config, ticker, lines),
            final(self)@.rows.len() == lines,
    {
        if config.asynch && ticker <= self.update_rate {
            // skip this column for asynchronous effect
            return;
        }
        if self.head_is_empty() {
            // Not in stream
            if self.spaces > 0 {
                // Decrement the spaces until the next stream starts
                self.spaces = self.spaces - 1;
            } else {
                // Start a new stream
                self.new_rand_head(config, rng);
                self.length = random_range(rng, Range { start: 3, end: lines });
                // Decrement length of stream
                self.length = self.length - 1;
                // Reset number of spaces until next stream
                self.spaces = random_range(rng, Range { start: 1, end: lines + 1 });
            }
        } else {
            // In stream
            if self.length > 0 {
                // Continue producing stream
                self.new_rand_char(rng);
                self.length = self.length - 1;
            } else {
                // Display spaces until next stream
                let mut head = self.rows.pop_front().unwrap();
                head.val = ' ';
                head.color = config.colour;
                self.rows.push_front(head);
                assert(self.rows@ =~= seq![head] + old(self).rows@.drop_first());
            }
        }
        let ghost mid = self@;
        if config.oldstyle {
            self.old_move_down();
        } else {
            self.new_move_down(rng);
        }
        assert(moved(mid, self@, config.oldstyle));
    }
}

/// The number of rows (the hidden head row included) and of columns for a
/// terminal of the given size; each column takes two character cells. A
/// terminal whose size cannot be read counts as 10 by 10.
pub open spec fn dimensions(size: Option<(u16, u16)>) -> (int, int) {
    match size {
        Some((width0, height0)) => {
            // Minimum size for terminal
            let width: int = if width0 < 10 { 10 } else { width0 as int };
            let height: int = if height0 < 10 { 10 } else { height0 as int };
            if width % 2 != 0 {
                (height + 1, width / 2 + 1)
            } else {
                (height + 1, width / 2)
            }
        },
        None => (10, 10),
    }
}

/// Whether a size can be turned into dimensions: the height plus one must
/// fit a `u16`.
pub open spec fn size_ok(size: Option<(u16, u16)>) -> bool {
    size matches Some((w, h)) ==> h < u16::MAX
}

/// The number of rows and of columns for a terminal of the given size.
pub fn term_dimensions(size: Option<(u16, u16)>) -> (d: (usize, usize))
    requires
        size_ok(size),
    ensures
        d.0 == dimensions(size).0,
        d.1 == dimensions(size).1,
        size matches Some((w, h)) ==> d.0 == (if h < 10 { 11 } else { h + 1 }),
        size matches Some((w, h)) ==> d.1 == (if w < 10 { 5 } else { w / 2 + w % 2 }),
        size is None ==> d.0 == 10 && d.1 == 10,
        10 <= d.0 <= 65536,
        5 <= d.1 <= 32768,
{
    match size {
        Some((w, h)) => {
            let mut width = w;
            let mut height = h;
            if width < 10 {
                width = 10
            }
            if height < 10 {
                height = 10
            }
            if width % 2 != 0 {
                // Makes odd-columned screens print on the rightmost edge
                ((height + 1) as usize, (width / 2 + 1) as usize)
            } else {
                ((height + 1) as usize, (width / 2) as usize)
            }
        },
        None => (10, 10),
    }
}

/// What the screen holds.
pub struct MatrixView {
    pub columns: Seq<ColumnView>,
    pub update_ticker: u8,
    pub net_ticker: u8,
    pub lines: usize,
    /// The watched device's name and last reading.
    pub net: Option<(Seq<char>, NetStats)>,
}

/// The screen: its columns, the tickers of the asynchronous mode and of
/// the network readings, and the generator of its random choices.
pub struct Matrix {
    columns: Vec<Column>,
    update_ticker: u8,  // ticker for async scroll
    net_ticker: u8,  // ticker for network check
    lines: usize,
    net_state: Option<NetState>,
    rng: SmallRng,
}

/// The view of a device watch.
pub open spec fn net_view(n: Option<NetState>) -> Option<(Seq<char>, NetStats)> {
    match n {
        Some(s) => Some((s.interface(), s.last())),
        None => None,
    }
}

impl View for Matrix {
    type V = MatrixView;

    closed spec fn view(&self) -> MatrixView {
        MatrixView {
            columns: self.columns@.map_values(|c: Column| c@),
            update_ticker: self.update_ticker,
            net_ticker: self.net_ticker,
            lines: self.lines,
            net: net_view(self.net_state),
        }
    }
}

/// The shape every screen keeps: at least four rows, at most 65536 (the
/// rows a terminal can address, plus the head), between one and 32768
/// columns, and every column as long as the screen is high.
pub open spec fn well_shaped(m: MatrixView) -> bool {
    &&& 4 <= m.lines <= 65536
    &&& 1 <= m.columns.len() <= 32768
    &&& forall|i: int| 0 <= i < m.columns.len() ==> #[trigger] m.columns[i].rows.len() == m.lines
}

/// The async ticker's next value.
pub open spec fn next_ticker(t: u8) -> u8 {
    if t <= MAX_DELAY {
        (t + 1) as u8
    } else {
        1
    }
}

impl Matrix {
    /// Create a new matrix with the dimensions of a terminal of size
    /// `term_size`; when the settings name a network device, it is watched
    /// from the reading `net_stats` on.
    pub fn new(config: &Config, term_size: Option<(u16, u16)>, net_stats: NetStats) -> (m: Self)
        requires
            size_ok(term_size),
        ensures
            well_shaped(m@),
            m@.lines == dimensions(term_size).0,
            m@.columns.len() == dimensions(term_size).1,
            forall|i: int| 0 <= i < m@.columns.len() ==> {
                &&& #[trigger] m@.columns[i].rows == Seq::new(m@.lines as nat, |k: int| blank())
                &&& 3 <= m@.columns[i].length < m@.lines
                &&& 1 <= m@.columns[i].spaces <= m@.lines
                &&& 1 <= m@.columns[i].update_rate < MAX_DELAY
            },
            m@.update_ticker == 0,
            m@.net_ticker == 0,
            m@.net == match config.net_interface {
                Some(nic) => Some((nic@, net_stats)),
                None => None,
            },
    {
        // Get the screen dimensions
        let (lines, cols) = term_dimensions(term_size);
        let mut rng = new_rng();
        let mut columns: Vec<Column> = Vec::new();
        let mut i: usize = 0;
        while i < cols
            invariant
                i <= cols,
                10 <= lines <= 65536,
                columns@.len() == i,
                forall|k: int| 0 <= k < i ==> {
                    &&& #[trigger] columns@[k]@.rows == Seq::new(lines as nat, |j: int| blank())
                    &&& 3 <= columns@[k]@.length < lines
                    &&& 1 <= columns@[k]@.spaces <= lines
                    &&& 1 <= columns@[k]@.update_rate < MAX_DELAY
                },
            decreases cols - i,
        {
            let c = Column::new(lines, &mut rng);
            columns.push(c);
            i = i + 1;
        }
        let net_state = match &config.net_interface {
            Some(nic) => Some(NetState::new(nic.clone(), net_stats)),
            None => None,
        };
        let m = Matrix { columns, update_ticker: 0, net_ticker: 0, lines, net_state, rng };
        assert(m@.columns =~= columns@.map_values(|c: Column| c@));
        m
    }

    /// The columns, left to right.
    pub fn columns(&self) -> (r: &Vec<Column>)
        ensures
            r@.len() == self@.columns.len(),
            forall|i: int| 0 <= i < r@.len() ==> #[trigger] r@[i]@ == self@.columns[i],
    {
        &self.columns
    }

    /// The number of rows of every column, the hidden head included.
    pub fn lines(&self) -> (r: usize)
        ensures
            r == self@.lines,
    {
        self.lines
    }

    /// The ticker of the asynchronous mode.
    pub fn update_ticker(&self) -> (r: u8)
        ensures
            r == self@.update_ticker,
    {
        self.update_ticker
    }

    /// The ticker of the network readings.
    pub fn net_ticker(&self) -> (r: u8)
        ensures
            r == self@.net_ticker,
    {
        self.net_ticker
    }

    /// The watched network device, if any.
    pub fn net_state(&self) -> (r: &Option<NetState>)
        ensures
            net_view(*r) == self@.net,
    {
        &self.net_state
    }

    /// Make the next iteration of the matrix.
    pub fn arrange(&mut self, config: &Config)
        requires
            well_shaped(old(self)@),
        ensures
            well_shaped(final(self)@),
            final(self)@.update_ticker == next_ticker(old(self)@.update_ticker),
            final(self)@.lines == old(self)@.lines,
            final(self)@.net_ticker == old(self)@.net_ticker,
            final(self)@.net == old(self)@.net,
            final(self)@.columns.len() == old(self)@.columns.len(),
            forall|i: int|
                0 <= i < old(self)@.columns.len() ==> #[trigger] advanced(
                    old(self)@.columns[i],
                    final(self)@.columns[i],
                    *config,
                    final(self)@.update_ticker,
                    old(self)@.lines,
                ),
    {
        proof {
            assert forall|k: int| 0 <= k < self.columns@.len() implies #[trigger] self.columns@[k]@.rows.len() == self.lines by {
                assert(self@.columns[k] == self.columns@[k]@);
            }
        }
        if self.update_ticker <= MAX_DELAY {
            self.update_ticker = self.update_ticker + 1;
        } else {
            self.update_ticker = 1;
        }
        let n = self.columns.len();
        let ticker = self.update_ticker;
        let lines = self.lines;
        let mut i: usize = 0;
        while i < n
            invariant
                i <= n,
                n == old(self)@.columns.len(),
                self.columns@.len() == n,
                self.lines == lines,
                lines == old(self)@.lines,
                4 <= lines <= 65536,
                self.update_ticker == ticker,
                ticker == next_ticker(old(self)@.update_ticker),
                self.net_ticker == old(self)@.net_ticker,
                self.net_state == old(self).net_state,
                forall|k: int| 0 <= k < n ==> #[trigger] self.columns@[k]@.rows.len() == lines,
                forall|k: int| i <= k < n ==> #[trigger] self.columns@[k]@ == old(self)@.columns[k],
                forall|k: int|
                    0 <= k < i ==> #[trigger] advanced(
                        old(self)@.columns[k],
                        self.columns@[k]@,
                        *config,
                        ticker,
                        lines,
                    ),
            decreases n - i,
        {
            self.columns[i].advance(config, ticker, lines, &mut self.rng);
            i = i + 1;
        }
        assert(self@.columns =~= self.columns@.map_values(|c: Column| c@));
    }
    /// Paint up to `packets` blocks of column `x` from row `y` on.
    pub fn paint_packets_at(&mut self, x: usize, y: usize, packets: u64, color: MatrixColor)
        requires
            well_shaped(old(self)@),
            x < old(self)@.columns.len(),
        ensures
            well_shaped(final(self)@),
            final(self)@ == (MatrixView { columns: painted_at(old(self)@.columns, x as int, y as int, packets, color), ..old(self)@ }),
    {
        proof {
            assert(self@.columns[x as int] == self.columns@[x as int]@);
        }
        self.columns[x].paint(y, packets, color);
        proof {
            assert(self@.columns =~= painted_at(old(self)@.columns, x as int, y as int, packets, color));
            assert forall|i: int| 0 <= i < self@.columns.len() implies #[trigger] self@.columns[i].rows.len() == self@.lines by {
                assert(old(self)@.columns[i].rows.len() == old(self)@.lines);
            }
        }
    }

    /// Paint a burst of `packets` blocks in `color` at a random spot.
    pub fn paint_packets(&mut self, packets: u64, color: MatrixColor)
        requires
            well_shaped(old(self)@),
        ensures
            well_shaped(final(self)@),
            exists|x: int, y: int|
                paint_spot(old(self)@, x, y) && final(self)@ == (MatrixView {
                    columns: painted_at(old(self)@.columns, x, y, packets, color),
                    ..old(self)@
                }),
    {
        // Nothing here guarantees we're painting an actual stream.
        let x = random_range(&mut self.rng, Range { start: 0, end: self.columns.len() });
        proof {
            assert(self@.columns[x as int] == self.columns@[x as int]@);
            assert(self@.columns[x as int].rows.len() == self@.lines);
        }
        let len = self.columns[x].rows.len();
        let y = random_range(&mut self.rng, Range { start: 1, end: len - 1 });
        self.paint_packets_at(x, y, packets, color);
        assert(paint_spot(old(self)@, x as int, y as int));
    }

    /// One frame of the network ticker: whether the watched device's
    /// counters are due to be read. Nothing is read in rainbow mode or when
    /// no device is watched; otherwise a reading falls due once every
    /// `net_threshold + 2` frames.
    pub fn net_tick(&mut self, config: &Config) -> (due: bool)
        requires
            config.net_threshold < u8::MAX,
        ensures
            due == (!config.rainbow && old(self)@.net is Some && old(self)@.net_ticker > config.net_threshold),
            final(self)@.net_ticker == if config.rainbow || old(self)@.net is None {
                old(self)@.net_ticker
            } else if old(self)@.net_ticker <= config.net_threshold {
                (old(self)@.net_ticker + 1) as u8
            } else {
                0
            },
            final(self)@ == (MatrixView { net_ticker: final(self)@.net_ticker, ..old(self)@ }),
    {
        if config.rainbow || self.net_state.is_none() {
            return false;
        }
        if self.net_ticker <= config.net_threshold {
            self.net_ticker = self.net_ticker + 1;
            false
        } else {
            self.net_ticker = 0;
            true
        }
    }

    /// Take the new reading `current` of the watched device's counters and
    /// paint the packets sent since the last reading in the send colour,
    /// then those received in the receive colour, each burst at a random
    /// spot.
    pub fn apply_net_reading(&mut self, config: &Config, current: NetStats)
        requires
            well_shaped(old(self)@),
            old(self)@.net is Some,
            not_below(current, old(self)@.net->Some_0.1),
        ensures
            well_shaped(final(self)@),
            final(self)@.net == Some((old(self)@.net->Some_0.0, current)),
            final(self)@.lines == old(self)@.lines,
            final(self)@.update_ticker == old(self)@.update_ticker,
            final(self)@.net_ticker == old(self)@.net_ticker,
            ({
                let d = growth(current, old(self)@.net->Some_0.1);
                exists|x1: int, y1: int, x2: int, y2: int|
                    paint_spot(old(self)@, x1, y1) && paint_spot(old(self)@, x2, y2)
                        && final(self)@.columns == paint_if(
                        paint_if(old(self)@.columns, x1, y1, d.tx_packets, config.tx_color),
                        x2,
                        y2,
                        d.rx_packets,
                        config.rx_color,
                    )
            }),
    {
        let stats = match &mut self.net_state {
            Some(net) => net.poll(current),
            None => NetStats { tx_packets: 0, rx_packets: 0 },
        };
        let ghost after_poll = self@;
        if stats.tx_packets > 0 {
            self.paint_packets(stats.tx_packets, config.tx_color);
        }
        let ghost after_tx = self@;
        if stats.rx_packets > 0 {
            self.paint_packets(stats.rx_packets, config.rx_color);
        }
        proof {
            let (x1, y1) = if stats.tx_packets > 0 {
                choose|x: int, y: int|
                    paint_spot(after_poll, x, y) && after_tx == (MatrixView {
                        columns: painted_at(after_poll.columns, x, y, stats.tx_packets, config.tx_color),
                        ..after_poll
                    })
            } else {
                (0, 1)
            };
            let (x2, y2) = if stats.rx_packets > 0 {
                choose|x: int, y: int|
                    paint_spot(after_tx, x, y) && self@ == (MatrixView {
                        columns: painted_at(after_tx.columns, x, y, stats.rx_packets, config.rx_color),
                        ..after_tx
                    })
            } else {
                (0, 1)
            };
            assert(self@.columns == paint_if(
                paint_if(old(self)@.columns, x1, y1, stats.tx_packets, config.tx_color),
                x2,
                y2,
                stats.rx_packets,
                config.rx_color,
            ));
            let tx = stats.tx_packets;
            let rx = stats.rx_packets;
            assert(exists|a: int, b: int, c: int, d: int|
                paint_spot(old(self)@, a, b) && paint_spot(old(self)@, c, d)
                    && self@.columns == paint_if(
                    paint_if(old(self)@.columns, a, b, tx, config.tx_color),
                    c,
                    d,
                    rx,
                    config.rx_color,
                ));
        }
    }
}

} // verus!

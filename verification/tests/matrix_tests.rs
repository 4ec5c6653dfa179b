use std::collections::VecDeque;

use rand::rngs::SmallRng;

use cmatrix::config::{Config, MatrixColor, Opts};
use cmatrix::matrix::{rainbow_color, term_dimensions, Block, Column, Matrix, MAX_DELAY};
use cmatrix::net::NetStats;
use cmatrix::random::rain_char_of;

fn config() -> Config {
    Config::from_opts(Opts {
        bold: 0,
        console: false,
        oldstyle: false,
        screensaver: false,
        xwindow: false,
        update: 4,
        colour: MatrixColor::Green,
        rainbow: false,
        asynch: false,
        net_interface: None,
        net_threshold: 10,
        tx_color: MatrixColor::Red,
        rx_color: MatrixColor::Blue,
    })
}

fn rng() -> SmallRng {
    rand::make_rng()
}

fn block(val: char, white: bool, color: MatrixColor, bold: bool) -> Block {
    Block { val, white, color, bold }
}

fn column(rows: &[Block]) -> Column {
    Column::from_parts(5, 2, 1, rows.iter().copied().collect::<VecDeque<Block>>())
}

fn rows_of(c: &Column) -> Vec<Block> {
    c.rows().iter().copied().collect()
}

fn is_rain_char(c: char) -> bool {
    ('!'..='}').contains(&c)
}

#[test]
fn dimensions_of_even_and_odd_terminals() {
    assert_eq!(term_dimensions(Some((80, 24))), (25, 40));
    assert_eq!(term_dimensions(Some((81, 24))), (25, 41));
}

#[test]
fn dimensions_have_a_minimum() {
    assert_eq!(term_dimensions(Some((5, 3))), (11, 5));
    assert_eq!(term_dimensions(Some((0, 0))), (11, 5));
}

#[test]
fn dimensions_of_an_unknown_terminal() {
    assert_eq!(term_dimensions(None), (10, 10));
}

#[test]
fn new_matrix_is_blank() {
    let m = Matrix::new(&config(), Some((80, 24)), NetStats::default());
    assert_eq!(m.lines(), 25);
    assert_eq!(m.columns().len(), 40);
    assert_eq!(m.update_ticker(), 0);
    assert_eq!(m.net_ticker(), 0);
    assert!(m.net_state().is_none());
    for col in m.columns() {
        assert_eq!(col.rows().len(), 25);
        assert!(col.rows().iter().all(|b| b.val == ' ' && !b.white && !b.bold && b.color == MatrixColor::Red));
        assert!(3 <= col.length() && col.length() < 25);
        assert!(1 <= col.spaces() && col.spaces() <= 25);
        assert!(1 <= col.update_rate() && col.update_rate() < MAX_DELAY);
    }
}

#[test]
fn new_matrix_watches_the_configured_device() {
    let mut c = config();
    c.net_interface = Some("eth0".to_string());
    let stats = NetStats { tx_packets: 7, rx_packets: 9 };
    let m = Matrix::new(&c, Some((20, 10)), stats);
    let net = m.net_state().as_ref().unwrap();
    assert_eq!(net.net_interface(), "eth0");
    assert_eq!(net.stats().tx_packets, 7);
    assert_eq!(net.stats().rx_packets, 9);
}

#[test]
fn arrange_keeps_the_shape_and_cycles_the_ticker() {
    let c = config();
    let mut m = Matrix::new(&c, Some((40, 20)), NetStats::default());
    let expected = [1u8, 2, 3, 4, 1, 2, 3, 4, 1];
    for t in expected {
        m.arrange(&c);
        assert_eq!(m.update_ticker(), t);
        assert_eq!(m.columns().len(), 20);
        for col in m.columns() {
            assert_eq!(col.rows().len(), 21);
        }
    }
}

#[test]
fn rain_is_made_of_rain_characters() {
    let mut c = config();
    for oldstyle in [false, true] {
        c.oldstyle = oldstyle;
        let mut m = Matrix::new(&c, Some((40, 20)), NetStats::default());
        let mut seen = false;
        for _ in 0..100 {
            m.arrange(&c);
            for col in m.columns() {
                for b in col.rows().iter() {
                    assert!(b.val == ' ' || is_rain_char(b.val));
                    if b.val != ' ' {
                        seen = true;
                    }
                }
            }
        }
        assert!(seen);
    }
}

#[test]
fn rainbow_streams_take_rainbow_colours() {
    let mut c = config();
    c.rainbow = true;
    c.colour = MatrixColor::Black;
    let mut m = Matrix::new(&c, Some((40, 20)), NetStats::default());
    for _ in 0..60 {
        m.arrange(&c);
        for col in m.columns() {
            for b in col.rows().iter() {
                if b.val != ' ' {
                    assert!(b.color != MatrixColor::Black && b.color != MatrixColor::Red);
                }
            }
        }
    }
}

#[test]
fn asynchronous_columns_wait_their_turn() {
    let mut c = config();
    c.asynch = true;
    let mut m = Matrix::new(&c, Some((40, 20)), NetStats::default());
    for _ in 0..30 {
        let before: Vec<Vec<Block>> = m.columns().iter().map(rows_of).collect();
        let rates: Vec<u8> = m.columns().iter().map(|col| col.update_rate()).collect();
        m.arrange(&c);
        let ticker = m.update_ticker();
        for (i, col) in m.columns().iter().enumerate() {
            if ticker <= rates[i] {
                let after = rows_of(col);
                for (a, b) in after.iter().zip(before[i].iter()) {
                    assert_eq!(a.val, b.val);
                    assert_eq!(a.color, b.color);
                }
            }
        }
    }
}

#[test]
fn head_is_empty_reads_the_first_visible_row() {
    let r = MatrixColor::Red;
    let c = column(&[block('x', false, r, false), block(' ', false, r, false), block('y', false, r, false)]);
    assert!(c.head_is_empty());
    let c = column(&[block(' ', false, r, false), block('y', false, r, false), block(' ', false, r, false)]);
    assert!(!c.head_is_empty());
}

#[test]
fn old_move_down_shifts_the_column() {
    let g = MatrixColor::Green;
    let mut c = column(&[
        block('a', true, g, true),
        block('b', false, g, false),
        block('c', false, g, true),
    ]);
    c.old_move_down();
    let rows = rows_of(&c);
    assert_eq!(rows.len(), 3);
    assert_eq!(rows[0].val, ' ');
    assert_eq!(rows[0].color, MatrixColor::Red);
    assert!(!rows[0].white && !rows[0].bold);
    assert_eq!(rows[1].val, 'a');
    assert!(rows[1].white && rows[1].bold);
    assert_eq!(rows[2].val, 'b');
    assert_eq!(c.length(), 5);
    assert_eq!(c.spaces(), 2);
}

#[test]
fn new_move_down_moves_a_stream() {
    let g = MatrixColor::Green;
    let b = MatrixColor::Blue;
    let mut c = column(&[
        block(' ', false, b, false),
        block('a', true, g, false),
        block('b', false, g, true),
        block(' ', false, b, false),
        block(' ', false, b, false),
    ]);
    let mut rng = rng();
    c.new_move_down(&mut rng);
    let rows = rows_of(&c);
    // The first block of the stream is erased.
    assert_eq!(rows[1].val, ' ');
    // The rest of the stream stays.
    assert_eq!(rows[2].val, 'b');
    assert!(rows[2].bold);
    // The space below the stream gets a character in the stream's colour.
    assert!(is_rain_char(rows[3].val));
    assert_eq!(rows[3].color, g);
    // Below that nothing changes.
    assert_eq!(rows[4].val, ' ');
    assert_eq!(rows[4].color, b);
    // Whiteness passes one block down.
    assert!(!rows[1].white);
    assert!(rows[2].white);
    assert!(!rows[3].white);
}

#[test]
fn new_rand_char_continues_the_stream() {
    let g = MatrixColor::Green;
    let mut c = column(&[block(' ', true, MatrixColor::Red, true), block('a', false, g, false), block(' ', false, g, false)]);
    let mut rng = rng();
    c.new_rand_char(&mut rng);
    let rows = rows_of(&c);
    assert!(is_rain_char(rows[0].val));
    assert_eq!(rows[0].color, g);
    assert!(rows[0].white && rows[0].bold);
    assert_eq!(rows[1].val, 'a');
}

#[test]
fn paint_packets_at_paints_a_run() {
    let c = config();
    let mut m = Matrix::new(&c, Some((20, 10)), NetStats::default());
    m.paint_packets_at(3, 2, 4, MatrixColor::Yellow);
    let rows = rows_of(&m.columns()[3]);
    for (k, b) in rows.iter().enumerate() {
        let painted = (2..6).contains(&k);
        assert_eq!(b.bold, painted);
        assert_eq!(b.color, if painted { MatrixColor::Yellow } else { MatrixColor::Red });
        assert_eq!(b.val, ' ');
    }
    for (x, col) in m.columns().iter().enumerate() {
        if x != 3 {
            assert!(col.rows().iter().all(|b| !b.bold));
        }
    }
}

#[test]
fn paint_packets_at_stops_at_the_bottom() {
    let c = config();
    let mut m = Matrix::new(&c, Some((20, 10)), NetStats::default());
    m.paint_packets_at(0, 9, u64::MAX, MatrixColor::Cyan);
    let rows = rows_of(&m.columns()[0]);
    assert_eq!(rows.len(), 11);
    assert!(rows[..9].iter().all(|b| !b.bold));
    assert!(rows[9..].iter().all(|b| b.bold && b.color == MatrixColor::Cyan));
}

#[test]
fn paint_packets_paints_one_burst() {
    let c = config();
    let mut m = Matrix::new(&c, Some((20, 10)), NetStats::default());
    m.paint_packets(3, MatrixColor::Magenta);
    let painted: Vec<(usize, usize)> = m
        .columns()
        .iter()
        .enumerate()
        .flat_map(|(x, col)| {
            col.rows().iter().enumerate().filter(|(_, b)| b.bold).map(move |(y, _)| (x, y)).collect::<Vec<_>>()
        })
        .collect();
    assert_eq!(painted.len(), 3);
    let (x0, y0) = painted[0];
    assert!(y0 >= 1);
    assert_eq!(painted, vec![(x0, y0), (x0, y0 + 1), (x0, y0 + 2)]);
}

#[test]
fn rainbow_colours_in_order() {
    assert_eq!(rainbow_color(0), MatrixColor::Green);
    assert_eq!(rainbow_color(1), MatrixColor::Blue);
    assert_eq!(rainbow_color(2), MatrixColor::White);
    assert_eq!(rainbow_color(3), MatrixColor::Yellow);
    assert_eq!(rainbow_color(4), MatrixColor::Cyan);
    assert_eq!(rainbow_color(5), MatrixColor::Magenta);
}

#[test]
fn rain_characters_from_bytes() {
    assert_eq!(rain_char_of(0), '!');
    assert_eq!(rain_char_of(92), '}');
    assert_eq!(rain_char_of(93), '!');
    assert_eq!(rain_char_of(255), (255u8 % 93 + 33) as char);
}

#[test]
fn block_default_is_a_blank_red_space() {
    let b = Block::default();
    assert!(b.is_space());
    assert_eq!(b.color, MatrixColor::Red);
    assert!(!b.white && !b.bold);
}

#[test]
fn new_rand_head_starts_a_stream() {
    let mut c = config();
    c.colour = MatrixColor::Yellow;
    let mut rng = rng();
    for rainbow in [false, true] {
        c.rainbow = rainbow;
        let mut col = column(&[Block::default(), Block::default(), Block::default()]);
        col.new_rand_head(&c, &mut rng);
        let rows = rows_of(&col);
        assert!(is_rain_char(rows[0].val));
        if rainbow {
            assert!(rows[0].color != MatrixColor::Red && rows[0].color != MatrixColor::Black);
        } else {
            assert_eq!(rows[0].color, MatrixColor::Yellow);
        }
        assert!(!rows[0].bold);
        assert_eq!(rows[1].val, ' ');
    }
}

#[test]
fn new_columns_draw_their_settings_from_the_ranges() {
    let mut rng = rng();
    for _ in 0..50 {
        let col = Column::new(6, &mut rng);
        assert_eq!(col.rows().len(), 6);
        assert!(3 <= col.length() && col.length() < 6);
        assert!(1 <= col.spaces() && col.spaces() <= 6);
        assert!(col.update_rate() == 1 || col.update_rate() == 2);
    }
}

#[test]
fn a_column_ends_its_stream_with_spaces() {
    let c = config();
    let mut rng = rng();
    let g = MatrixColor::Green;
    // in a stream whose length is used up
    let mut col = Column::from_parts(0, 3, 1, [block('z', false, g, false), block('a', false, g, false), block(' ', false, g, false), block(' ', false, g, false)].into_iter().collect());
    col.advance(&c, 1, 4, &mut rng);
    let rows = rows_of(&col);
    // the head row was set to a space and then erased the stream's first block
    assert_eq!(rows[0].val, ' ');
    assert_eq!(rows[1].val, ' ');
    assert!(is_rain_char(rows[2].val));
    assert_eq!(rows[3].val, ' ');
    assert_eq!(col.length(), 0);
    assert_eq!(col.spaces(), 3);
}

#[test]
fn waiting_spaces_count_down() {
    let c = config();
    let mut rng = rng();
    let mut col = Column::from_parts(4, 3, 1, [Block::default(); 5].into_iter().collect());
    col.advance(&c, 1, 5, &mut rng);
    assert_eq!(col.spaces(), 2);
    assert_eq!(col.length(), 4);
    assert!(col.rows().iter().all(|b| b.val == ' '));
}

#[test]
fn a_new_stream_starts_when_the_spaces_run_out() {
    let c = config();
    let mut rng = rng();
    let mut col = Column::from_parts(0, 0, 1, [Block::default(); 8].into_iter().collect());
    col.advance(&c, 1, 8, &mut rng);
    assert!(2 <= col.length() && col.length() < 7);
    assert!(1 <= col.spaces() && col.spaces() <= 8);
    let rows = rows_of(&col);
    // the new head entered row 0 and moved down into the first visible row
    assert_eq!(rows[0].val, ' ');
    assert!(is_rain_char(rows[1].val));
    assert_eq!(rows[1].color, MatrixColor::Green);
    assert!(rows[2..].iter().all(|b| b.val == ' '));
}

#[test]
fn heads_are_white_about_half_the_time() {
    let c = config();
    let mut rng = rng();
    let mut whites = 0;
    for _ in 0..400 {
        let mut col = column(&[Block::default(), Block::default()]);
        col.new_rand_head(&c, &mut rng);
        if rows_of(&col)[0].white {
            whites += 1;
        }
    }
    assert!(whites > 100 && whites < 300);
}

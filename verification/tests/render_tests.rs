use cmatrix::config::{Config, FontWeight, MatrixColor, Opts};
use cmatrix::matrix::{Block, Matrix};
use cmatrix::net::NetStats;
use cmatrix::render::{DrawOp, TermColor};

fn config() -> Config {
    Config::from_opts(Opts {
        bold: 0,
        console: false,
        oldstyle: false,
        screensaver: false,
        xwindow: false,
        update: 4,
        colour: MatrixColor::Green,
        rainbow: false,
        asynch: false,
        net_interface: None,
        net_threshold: 10,
        tx_color: MatrixColor::Red,
        rx_color: MatrixColor::Blue,
    })
}

#[test]
fn term_colours_of_blocks() {
    let cases = [
        (MatrixColor::Black, TermColor::Black),
        (MatrixColor::Green, TermColor::DarkGreen),
        (MatrixColor::White, TermColor::Grey),
        (MatrixColor::Red, TermColor::DarkRed),
        (MatrixColor::Cyan, TermColor::DarkCyan),
        (MatrixColor::Magenta, TermColor::DarkMagenta),
        (MatrixColor::Blue, TermColor::DarkBlue),
        (MatrixColor::Yellow, TermColor::DarkYellow),
    ];
    for (colour, term) in cases {
        let b = Block { val: 'x', white: false, color: colour, bold: false };
        assert_eq!(b.term_color(), term);
        let w = Block { white: true, ..b };
        assert_eq!(w.term_color(), TermColor::White);
    }
}

#[test]
fn frame_of_a_blank_screen() {
    let m = Matrix::new(&config(), Some((4, 2)), NetStats::default());
    // 11 rows, 5 columns
    let ops = m.frame(FontWeight::Regular);
    let mut expected = vec![DrawOp::SetColor(TermColor::DarkRed), DrawOp::NormalIntensity];
    for x in 0..5u16 {
        for y in 0..10u16 {
            expected.push(DrawOp::MoveTo(2 * x, y));
            expected.push(DrawOp::Print(' '));
        }
    }
    assert_eq!(ops, expected);
}

#[test]
fn frame_in_bold_mode_starts_bold() {
    let m = Matrix::new(&config(), Some((4, 2)), NetStats::default());
    let ops = m.frame(FontWeight::Bold);
    assert_eq!(ops[0], DrawOp::SetColor(TermColor::DarkRed));
    assert_eq!(ops[1], DrawOp::Bold);
    assert_eq!(ops.len(), 2 + 5 * 10 * 2);
}

#[test]
fn frame_in_semibold_mode_switches_weight_and_colour_as_needed() {
    let c = config();
    let mut m = Matrix::new(&c, Some((4, 2)), NetStats::default());
    // paint rows 1 and 2 of column 0 yellow and bold
    m.paint_packets_at(0, 1, 2, MatrixColor::Yellow);
    let ops = m.frame(FontWeight::SemiBold);
    assert_eq!(&ops[..1], &[DrawOp::SetColor(TermColor::DarkRed)]);
    assert_eq!(
        &ops[1..9],
        &[
            DrawOp::MoveTo(0, 0),
            DrawOp::SetColor(TermColor::DarkYellow),
            DrawOp::Bold,
            DrawOp::Print(' '),
            DrawOp::MoveTo(0, 1),
            DrawOp::Print(' '),
            DrawOp::MoveTo(0, 2),
            DrawOp::SetColor(TermColor::DarkRed),
        ]
    );
    assert_eq!(&ops[9..11], &[DrawOp::NormalIntensity, DrawOp::Print(' ')]);
    let prints = ops.iter().filter(|op| matches!(op, DrawOp::Print(_))).count();
    assert_eq!(prints, 50);
}

#[test]
fn fixed_weights_never_switch_within_a_frame() {
    let c = config();
    let mut m = Matrix::new(&c, Some((10, 10)), NetStats::default());
    m.paint_packets_at(1, 1, 3, MatrixColor::Cyan);
    m.paint_packets_at(2, 4, 2, MatrixColor::Blue);
    for weight in [FontWeight::Regular, FontWeight::Bold] {
        let ops = m.frame(weight);
        assert!(ops[2..].iter().all(|op| *op != DrawOp::Bold && *op != DrawOp::NormalIntensity));
    }
    let ops = m.frame(FontWeight::SemiBold);
    assert!(ops.iter().any(|op| *op == DrawOp::Bold));
}

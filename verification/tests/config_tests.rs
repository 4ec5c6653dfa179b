use cmatrix::config::{Config, FontWeight, MatrixColor, Opts};

fn opts() -> Opts {
    Opts {
        bold: 0,
        console: false,
        oldstyle: false,
        screensaver: false,
        xwindow: false,
        update: 4,
        colour: MatrixColor::Green,
        rainbow: false,
        asynch: false,
        net_interface: None,
        net_threshold: 10,
        tx_color: MatrixColor::Red,
        rx_color: MatrixColor::Blue,
    }
}

fn config() -> Config {
    Config::from_opts(opts())
}

#[test]
fn from_opts_copies_options_and_starts_unpaused() {
    let mut o = opts();
    o.bold = 2;
    o.oldstyle = true;
    o.update = 7;
    o.colour = MatrixColor::Cyan;
    o.net_interface = Some("eth0".to_string());
    let c = Config::from_opts(o);
    assert_eq!(c.bold, 2);
    assert!(c.oldstyle);
    assert_eq!(c.update, 7);
    assert_eq!(c.colour, MatrixColor::Cyan);
    assert_eq!(c.net_interface.as_deref(), Some("eth0"));
    assert!(!c.pause);
}

#[test]
fn q_quits_and_changes_nothing() {
    let mut c = config();
    assert!(c.handle_keypress('q'));
    assert_eq!(c.bold, 0);
    assert!(!c.pause);
}

#[test]
fn screensaver_quits_on_any_key() {
    let mut o = opts();
    o.screensaver = true;
    let mut c = Config::from_opts(o);
    assert!(c.handle_keypress('p'));
    assert!(!c.pause);
    assert!(c.handle_keypress('x'));
}

#[test]
fn bold_keys() {
    let mut c = config();
    assert!(!c.handle_keypress('b'));
    assert_eq!(c.bold, 1);
    assert_eq!(c.font_weight(), FontWeight::SemiBold);
    assert!(!c.handle_keypress('B'));
    assert_eq!(c.bold, 2);
    assert_eq!(c.font_weight(), FontWeight::Bold);
    assert!(!c.handle_keypress('n'));
    assert_eq!(c.bold, 0);
    assert_eq!(c.font_weight(), FontWeight::Regular);
}

#[test]
fn colour_keys_end_rainbow() {
    let cases = [
        ('!', MatrixColor::Red),
        ('@', MatrixColor::Green),
        ('#', MatrixColor::Yellow),
        ('$', MatrixColor::Blue),
        ('%', MatrixColor::Magenta),
        ('^', MatrixColor::Cyan),
        ('&', MatrixColor::White),
    ];
    for (key, colour) in cases {
        let mut c = config();
        assert!(!c.handle_keypress('r'));
        assert!(c.rainbow);
        assert!(!c.handle_keypress(key));
        assert_eq!(c.colour, colour);
        assert!(!c.rainbow);
    }
}

#[test]
fn pause_twice_restores() {
    let mut c = config();
    assert!(!c.handle_keypress('p'));
    assert!(c.pause);
    assert!(!c.handle_keypress('P'));
    assert!(!c.pause);
}

#[test]
fn digit_keys_set_the_delay() {
    for (i, key) in "0123456789".chars().enumerate() {
        let mut c = config();
        assert!(!c.handle_keypress(key));
        assert_eq!(c.update as usize, i);
    }
}

#[test]
fn other_keys_change_nothing() {
    let mut c = config();
    assert!(!c.handle_keypress('z'));
    assert!(!c.handle_keypress(' '));
    assert_eq!(c.bold, 0);
    assert_eq!(c.update, 4);
    assert_eq!(c.colour, MatrixColor::Green);
    assert!(!c.rainbow);
    assert!(!c.pause);
}

#[test]
fn keys_never_change_the_mode() {
    let mut o = opts();
    o.oldstyle = true;
    o.asynch = true;
    o.net_interface = Some("lo".to_string());
    let mut c = Config::from_opts(o);
    for key in "bBn!@#$%^&rpP0123456789zx ".chars() {
        assert!(!c.handle_keypress(key));
        assert!(c.oldstyle && c.asynch && !c.screensaver);
        assert_eq!(c.net_interface.as_deref(), Some("lo"));
        assert_eq!(c.net_threshold, 10);
    }
}

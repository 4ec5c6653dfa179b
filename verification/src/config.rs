//! The settings of the rain and the keyboard commands that change them.

use vstd::prelude::*;

verus! {

/// The colours a stream of characters can be drawn in.
#[derive(Clone, Copy, Debug, PartialEq, Eq, Structural)]
pub enum MatrixColor {
    Black,
    Green,
    White,
    Red,
    Cyan,
    Magenta,
    Blue,
    Yellow,
}

/// How bold the characters are drawn.
#[derive(Clone, Copy, Debug, PartialEq, Eq, Structural)]
pub enum FontWeight {
    Regular,
    /// Each character keeps a bold state of its own.
    SemiBold,
    Bold,
}

/// The options as the command line gave them.
#[derive(Debug)]
pub struct Opts {
    pub bold: u8,
    pub console: bool,
    pub oldstyle: bool,
    pub screensaver: bool,
    pub xwindow: bool,
    pub update: u8,
    pub colour: MatrixColor,
    pub rainbow: bool,
    pub asynch: bool,
    pub net_interface: Option<String>,
    pub net_threshold: u8,
    pub tx_color: MatrixColor,
    pub rx_color: MatrixColor,
}

/// The global state object.
#[derive(Debug)]
pub struct Config {
    /// 0: regular, 1: each character's own bold state, 2 or more: bold.
    pub bold: u8,
    pub console: bool,
    pub oldstyle: bool,
    pub screensaver: bool,
    pub xwindow: bool,
    /// The delay between screen updates.
    pub update: u8,
    pub colour: MatrixColor,
    pub rainbow: bool,
    pub pause: bool,
    /// Columns advance at a rate of their own.
    pub asynch: bool,
    /// The network device whose packets are painted into the rain.
    pub net_interface: Option<String>,
    /// The number of frames between two readings of the device's counters.
    pub net_threshold: u8,
    pub tx_color: MatrixColor,
    pub rx_color: MatrixColor,
}

/// The font weight that a `bold` setting stands for.
pub open spec fn weight_of(bold: u8) -> FontWeight {
    if bold == 0 {
        FontWeight::Regular
    } else if bold == 1 {
        FontWeight::SemiBold
    } else {
        FontWeight::Bold
    }
}

/// The colour keys: each one selects a single colour and ends rainbow mode.
pub open spec fn colour_key(key: char) -> Option<MatrixColor> {
    if key == '!' {
        Some(MatrixColor::Red)
    } else if key == '@' {
        Some(MatrixColor::Green)
    } else if key == '#' {
        Some(MatrixColor::Yellow)
    } else if key == '$' {
        Some(MatrixColor::Blue)
    } else if key == '%' {
        Some(MatrixColor::Magenta)
    } else if key == '^' {
        Some(MatrixColor::Cyan)
    } else if key == '&' {
        Some(MatrixColor::White)
    } else {
        None
    }
}

/// Whether a key ends the program.
pub open spec fn quits(c: Config, key: char) -> bool {
    c.screensaver || key == 'q'
}

/// The settings after a key that does not end the program.
pub open spec fn after_key(c: Config, key: char) -> Config {
    if key == 'b' {
        Config { bold: 1, ..c }
    } else if key == 'B' {
        Config { bold: 2, ..c }
    } else if key == 'n' {
        Config { bold: 0, ..c }
    } else if colour_key(key) is Some {
        Config { colour: colour_key(key)->Some_0, rainbow: false, ..c }
    } else if key == 'r' {
        Config { rainbow: true, ..c }
    } else if key == 'p' || key == 'P' {
        Config { pause: !c.pause, ..c }
    } else if '0' <= key <= '9' {
        Config { update: ((key as u32) - 48) as u8, ..c }
    } else {
        c
    }
}

impl Config {
    /// Get the new config object based on command line arguments.
    pub fn from_opts(opt: Opts) -> (c: Self)
        ensures
            c.bold == opt.bold,
            c.console == opt.console,
            c.oldstyle == opt.oldstyle,
            c.screensaver == opt.screensaver,
            c.xwindow == opt.xwindow,
            c.update == opt.update,
            c.rainbow == opt.rainbow,
            c.colour == opt.colour,
            c.pause == false,
            c.asynch == opt.asynch,
            c.net_interface == opt.net_interface,
            c.net_threshold == opt.net_threshold,
            c.tx_color == opt.tx_color,
            c.rx_color == opt.rx_color,
    {
        Config {
            bold: opt.bold,
            console: opt.console,
            oldstyle: opt.oldstyle,
            screensaver: opt.screensaver,
            xwindow: opt.xwindow,
            update: opt.update,
            rainbow: opt.rainbow,
            colour: opt.colour,
            pause: false,
            asynch: opt.asynch,
            net_interface: opt.net_interface,
            net_threshold: opt.net_threshold,
            tx_color: opt.tx_color,
            rx_color: opt.rx_color,
        }
    }

    /// The font weight the `bold` setting stands for.
    pub fn font_weight(&self) -> (w: FontWeight)
        ensures
            w == weight_of(self.bold),
    {
        if self.bold == 0 {
            FontWeight::Regular
        } else if self.bold == 1 {
            FontWeight::SemiBold
        } else {
            FontWeight::Bold
        }
    }

    /// Update the config based on any keypress; returns whether the program
    /// should exit.
    pub fn handle_keypress(&mut self, keypress: char) -> (exit: bool)
        ensures
            exit == quits(*old(self), keypress),
            exit ==> *final(self) == *old(self),
            !exit ==> *final(self) == after_key(*old(self), keypress),
    {
        // Exit if in screensaver mode
        if self.screensaver {
            return true;
        }
        match keypress {
            'q' => return true,
            'b' => self.bold = 1,
            'B' => self.bold = 2,
            'n' => self.bold = 0,
            '!' => {
                self.colour = MatrixColor::Red;
                self.rainbow = false;
            },
            '@' => {
                self.colour = MatrixColor::Green;
                self.rainbow = false;
            },
            '#' => {
                self.colour = MatrixColor::Yellow;
                self.rainbow = false;
            },
            '$' => {
                self.colour = MatrixColor::Blue;
                self.rainbow = false;
            },
            '%' => {
                self.colour = MatrixColor::Magenta;
                self.rainbow = false;
            },
            'r' => {
                self.rainbow = true;
            },
            '^' => {
                self.colour = MatrixColor::Cyan;
                self.rainbow = false;
            },
            '&' => {
                self.colour = MatrixColor::White;
                self.rainbow = false;
            },
            'p' | 'P' => self.pause = !self.pause,
            '0' | '1' | '2' | '3' | '4' | '5' | '6' | '7' | '8' | '9' => {
                self.update = keypress as u8 - 48  // Sneaky way to avoid parsing
            },
            _ => {},
        }
        false
    }
}

} // verus!

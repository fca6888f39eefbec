//! Severity levels: their order, the threshold rule that decides whether a
//! record is emitted, their names, labels and colours.

use crate::ansi::within;
use crate::padding::{pad_to_width, padded, Alignment};
use crate::style::{paint, styled_as, Colour};
use crate::text::{chars_of, same_chars};
use vstd::prelude::*;

verus! {

/// How severe a record is. `Fatal` is the most severe, `Silly` the least.
#[derive(Clone, Copy, Debug, PartialEq, Eq, Structural)]
pub enum LogLevel {
    Fatal,
    Error,
    Warn,
    Info,
    Debug,
    Silly,
}

/// The width that every level label is padded to.
pub const LABEL_WIDTH: usize = 6;

/// The lower-case form of an ASCII capital letter; any other character is
/// returned as it is.
pub open spec fn lowered(c: char) -> char {
    if within(c, 'A', 'Z') {
        ((c as u8) + 32) as char
    } else {
        c
    }
}

/// `name` with its ASCII capital letters in lower case.
pub open spec fn lowered_text(name: Seq<char>) -> Seq<char> {
    Seq::new(name.len(), |i: int| lowered(name[i]))
}

/// The level that a setting names, without regard to the case of its letters:
/// the level's name or its number. `None` for any other text.
pub open spec fn level_named(name: Seq<char>) -> Option<LogLevel> {
    let low = lowered_text(name);
    if low == seq!['s', 'i', 'l', 'l', 'y'] || low == seq!['5'] {
        Some(LogLevel::Silly)
    } else if low == seq!['d', 'e', 'b', 'u', 'g'] || low == seq!['4'] {
        Some(LogLevel::Debug)
    } else if low == seq!['i', 'n', 'f', 'o'] || low == seq!['3'] {
        Some(LogLevel::Info)
    } else if low == seq!['w', 'a', 'r', 'n'] || low == seq!['2'] {
        Some(LogLevel::Warn)
    } else if low == seq!['e', 'r', 'r', 'o', 'r'] || low == seq!['1'] {
        Some(LogLevel::Error)
    } else if low == seq!['f', 'a', 't', 'a', 'l'] || low == seq!['0'] {
        Some(LogLevel::Fatal)
    } else {
        None
    }
}

/// The threshold that a setting asks for: the level it names, and `Info`
/// where the setting is absent or names no level.
pub open spec fn threshold_for(setting: Option<Seq<char>>) -> LogLevel {
    match setting {
        Some(name) => match level_named(name) {
            Some(level) => level,
            None => LogLevel::Info,
        },
        None => LogLevel::Info,
    }
}

fn lower_char(c: char) -> (low: char)
    ensures
        low == lowered(c),
{
    if 'A' <= c && c <= 'Z' {
        ((c as u8) + 32) as char
    } else {
        c
    }
}

fn lower_chars(name: &str) -> (low: Vec<char>)
    ensures
        low@ == lowered_text(name@),
{
    let v = chars_of(name);
    let mut low: Vec<char> = Vec::new();
    let mut i: usize = 0;
    while i < v.len()
        invariant
            i <= v.len(),
            v@ == name@,
            low.len() == i,
            forall|k: int| 0 <= k < i ==> low@[k] == lowered(name@[k]),
        decreases v.len() - i,
    {
        low.push(lower_char(v[i]));
        i = i + 1;
    }
    assert(low@ =~= lowered_text(name@));
    low
}

impl LogLevel {
    /// The numeric value of the level: 0 for `Fatal` up to 5 for `Silly`.
    /// A lower number is a higher severity.
    pub open spec fn rank(self) -> int {
        match self {
            LogLevel::Fatal => 0,
            LogLevel::Error => 1,
            LogLevel::Warn => 2,
            LogLevel::Info => 3,
            LogLevel::Debug => 4,
            LogLevel::Silly => 5,
        }
    }

    /// Whether a record at this level passes a logger whose threshold is
    /// `threshold`: it must be at least as severe as the threshold.
    pub open spec fn passes(self, threshold: LogLevel) -> bool {
        self.rank() <= threshold.rank()
    }

    /// The label of the level as it stands in a record, before padding.
    pub open spec fn label(self) -> Seq<char> {
        match self {
            LogLevel::Fatal => seq!['f', 'a', 't', 'a', 'l', ':'],
            LogLevel::Error => seq!['e', 'r', 'r', 'o', 'r', ':'],
            LogLevel::Warn => seq!['w', 'a', 'r', 'n', ':'],
            LogLevel::Info => seq!['i', 'n', 'f', 'o', ':'],
            LogLevel::Debug => seq!['d', 'e', 'b', 'u', 'g', ':'],
            LogLevel::Silly => seq!['s', 'i', 'l', 'l', 'y', ':'],
        }
    }

    /// The label with spaces behind it up to the common width.
    pub open spec fn padded_label(self) -> Seq<char> {
        padded(self.label(), LABEL_WIDTH as nat, Alignment::Left)
    }

    /// The colour that records of the level are drawn in.
    pub open spec fn colour(self) -> Colour {
        match self {
            LogLevel::Fatal => Colour::Red,
            LogLevel::Error => Colour::BrightRed,
            LogLevel::Warn => Colour::BrightYellow,
            LogLevel::Info => Colour::BrightGreen,
            LogLevel::Debug => Colour::BrightBlue,
            LogLevel::Silly => Colour::BrightMagenta,
        }
    }

    /// The numeric value of the level.
    pub fn severity(self) -> (n: u8)
        ensures
            n == self.rank(),
    {
        match self {
            LogLevel::Fatal => 0,
            LogLevel::Error => 1,
            LogLevel::Warn => 2,
            LogLevel::Info => 3,
            LogLevel::Debug => 4,
            LogLevel::Silly => 5,
        }
    }

    /// Whether a record at this level is emitted by a logger with the given
    /// threshold.
    pub fn is_emitted_at(self, threshold: LogLevel) -> (emitted: bool)
        ensures
            emitted == self.passes(threshold),
    {
        self.severity() <= threshold.severity()
    }

    /// The level that `name` names, whatever the case of its letters.
    pub fn parse(name: &str) -> (level: Option<LogLevel>)
        ensures
            level == level_named(name@),
    {
        let low = lower_chars(name);
        proof {
            reveal_strlit("silly");
            reveal_strlit("debug");
            reveal_strlit("info");
            reveal_strlit("warn");
            reveal_strlit("error");
            reveal_strlit("fatal");
            reveal_strlit("0");
            reveal_strlit("1");
            reveal_strlit("2");
            reveal_strlit("3");
            reveal_strlit("4");
            reveal_strlit("5");
            assert("silly"@ =~= seq!['s', 'i', 'l', 'l', 'y']);
            assert("debug"@ =~= seq!['d', 'e', 'b', 'u', 'g']);
            assert("info"@ =~= seq!['i', 'n', 'f', 'o']);
            assert("warn"@ =~= seq!['w', 'a', 'r', 'n']);
            assert("error"@ =~= seq!['e', 'r', 'r', 'o', 'r']);
            assert("fatal"@ =~= seq!['f', 'a', 't', 'a', 'l']);
            assert("0"@ =~= seq!['0']);
            assert("1"@ =~= seq!['1']);
            assert("2"@ =~= seq!['2']);
            assert("3"@ =~= seq!['3']);
            assert("4"@ =~= seq!['4']);
            assert("5"@ =~= seq!['5']);
        }
        if same_chars(&low, "silly") || same_chars(&low, "5") {
            Some(LogLevel::Silly)
        } else if same_chars(&low, "debug") || same_chars(&low, "4") {
            Some(LogLevel::Debug)
        } else if same_chars(&low, "info") || same_chars(&low, "3") {
            Some(LogLevel::Info)
        } else if same_chars(&low, "warn") || same_chars(&low, "2") {
            Some(LogLevel::Warn)
        } else if same_chars(&low, "error") || same_chars(&low, "1") {
            Some(LogLevel::Error)
        } else if same_chars(&low, "fatal") || same_chars(&low, "0") {
            Some(LogLevel::Fatal)
        } else {
            None
        }
    }

    /// The threshold that a setting asks for; `Info` where there is no
    /// setting or it names no level.
    pub fn from_setting(setting: Option<&str>) -> (level: LogLevel)
        ensures
            level == threshold_for(
                match setting {
                    Some(name) => Some(name@),
                    None => None,
                },
            ),
    {
        match setting {
            Some(name) => match LogLevel::parse(name) {
                Some(level) => level,
                None => LogLevel::Info,
            },
            None => LogLevel::Info,
        }
    }

    /// The label of the level.
    pub fn name(self) -> (text: &'static str)
        ensures
            text@ == self.label(),
    {
        proof {
            reveal_strlit("fatal:");
            reveal_strlit("error:");
            reveal_strlit("warn:");
            reveal_strlit("info:");
            reveal_strlit("debug:");
            reveal_strlit("silly:");
        }
        let text = match self {
            LogLevel::Fatal => "fatal:",
            LogLevel::Error => "error:",
            LogLevel::Warn => "warn:",
            LogLevel::Info => "info:",
            LogLevel::Debug => "debug:",
            LogLevel::Silly => "silly:",
        };
        assert(text@ =~= self.label());
        text
    }

    /// The colour of the level.
    pub fn get_colour(self) -> (colour: Colour)
        ensures
            colour == self.colour(),
    {
        match self {
            LogLevel::Fatal => Colour::Red,
            LogLevel::Error => Colour::BrightRed,
            LogLevel::Warn => Colour::BrightYellow,
            LogLevel::Info => Colour::BrightGreen,
            LogLevel::Debug => Colour::BrightBlue,
            LogLevel::Silly => Colour::BrightMagenta,
        }
    }

    /// The padded label of the level in the level's colour, as far as colours
    /// are switched on.
    pub fn get_tag(self) -> (tag: String)
        ensures
            styled_as(tag@, self.padded_label(), self.colour().code()),
    {
        let label = self.name();
        let wide = pad_to_width(label, LABEL_WIDTH, Alignment::Left);
        paint(wide.as_str(), self.get_colour())
    }
}

} // verus!

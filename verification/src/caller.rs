//! Where a logging call came from: what a stack frame tells of it, and how
//! that is written into a record.

use crate::style::{italic, italic_code, styled_as};
use crate::text::push_char;
use vstd::prelude::*;

verus! {

/// The stack frame that is taken to be the place of a logging call. Frame 0
/// is the capture itself, frame 1 is `CallerSource::locate`, frame 2 is the
/// logging function that asks for the place, and frame 3 is where that
/// function was called from. None of the three is ever inlined.
pub const CALLER_FRAME: usize = 3;

/// What a stack frame tells of a place in the program. Each part may be
/// missing.
#[derive(Clone, Debug)]
pub struct CallSite {
    /// The name of the source file, without its directories.
    pub file: Option<String>,
    /// The line in that file.
    pub line: Option<u32>,
    /// The column in that line.
    pub column: Option<u32>,
    /// The name of the function.
    pub function: Option<String>,
}

/// The means by which the place of a logging call is found.
#[derive(Clone, Copy, Debug, PartialEq, Eq, Structural)]
pub enum CallerSource {
    /// The call stack is inspected.
    Stack,
    /// Nothing is inspected: the place is always unknown.
    Unavailable,
}

/// The text that stands for a place that could not be found.
pub open spec fn unknown_text() -> Seq<char> {
    seq!['u', 'n', 'k', 'n', 'o', 'w', 'n']
}

/// The text that stands for a function without a name.
pub open spec fn top_level_text() -> Seq<char> {
    seq!['t', 'o', 'p', ' ', 'l', 'e', 'v', 'e', 'l']
}

/// The character of the decimal digit `d`.
pub open spec fn digit(d: nat) -> char {
    (48 + d) as char
}

/// `n` in decimal digits, without leading zeros.
pub open spec fn decimal(n: nat) -> Seq<char>
    decreases n,
{
    if n < 10 {
        seq![digit(n)]
    } else {
        decimal(n / 10).push(digit(n % 10))
    }
}

/// `name` without the slash that it may begin with.
pub open spec fn without_leading_slash(name: Seq<char>) -> Seq<char> {
    if name.len() > 0 && name[0] == '/' {
        name.skip(1)
    } else {
        name
    }
}

impl CallSite {
    /// The file name as it is written: without a leading slash, and
    /// "unknown" where the frame names no file.
    pub open spec fn file_text(self) -> Seq<char> {
        match self.file {
            Some(name) => without_leading_slash(name@),
            None => unknown_text(),
        }
    }

    /// The line as it is written: 0 where the frame gives none.
    pub open spec fn line_number(self) -> nat {
        match self.line {
            Some(n) => n as nat,
            None => 0,
        }
    }

    /// The column as it is written: 0 where the frame gives none.
    pub open spec fn column_number(self) -> nat {
        match self.column {
            Some(n) => n as nat,
            None => 0,
        }
    }

    /// The function name as it is written: "top level" where the frame
    /// names no function.
    pub open spec fn function_text(self) -> Seq<char> {
        match self.function {
            Some(name) => name@,
            None => top_level_text(),
        }
    }

    /// The place in words: `at <file>:<line>:<column> [<function>]`.
    pub open spec fn description(self) -> Seq<char> {
        seq!['a', 't', ' '] + self.file_text() + seq![':'] + decimal(self.line_number()) + seq![
            ':',
        ] + decimal(self.column_number()) + seq![' ', '['] + self.function_text() + seq![']']
    }

    /// Writes the place out in words.
    pub fn describe(&self) -> (text: String)
        ensures
            text@ == self.description(),
    {
        proof {
            reveal_strlit("at ");
            reveal_strlit(":");
            reveal_strlit(" [");
            reveal_strlit("]");
            reveal_strlit("unknown");
            reveal_strlit("top level");
            assert("unknown"@ =~= unknown_text());
            assert("top level"@ =~= top_level_text());
        }
        let mut text = String::new();
        text.append("at ");
        match &self.file {
            Some(name) => {
                let shown = strip_leading_slash(name.as_str());
                text.append(shown);
            },
            None => {
                text.append("unknown");
            },
        }
        text.append(":");
        append_decimal(
            &mut text,
            match self.line {
                Some(n) => n,
                None => 0,
            },
        );
        text.append(":");
        append_decimal(
            &mut text,
            match self.column {
                Some(n) => n,
                None => 0,
            },
        );
        text.append(" [");
        match &self.function {
            Some(name) => {
                text.append(name.as_str());
            },
            None => {
                text.append("top level");
            },
        }
        text.append("]");
        assert(text@ =~= self.description());
        text
    }
}

/// The note on the place of a call as it goes into a record: the place in
/// words and in italics, as far as colours are switched on, or the word
/// "unknown", which is never in italics.
pub open spec fn is_callee_note(note: Seq<char>, site: Option<CallSite>) -> bool {
    match site {
        Some(place) => styled_as(note, place.description(), italic_code()),
        None => note == unknown_text(),
    }
}

/// `name` without the slash that it may begin with.
pub fn strip_leading_slash(name: &str) -> (rest: &str)
    ensures
        rest@ == without_leading_slash(name@),
{
    let n = name.unicode_len();
    if n > 0 && name.get_char(0) == '/' {
        let rest = name.substring_char(1, n);
        assert(rest@ =~= name@.skip(1));
        rest
    } else {
        name
    }
}

/// Appends `n` in decimal digits.
pub fn append_decimal(out: &mut String, n: u32)
    ensures
        final(out)@ == old(out)@ + decimal(n as nat),
    decreases n,
{
    if n >= 10 {
        append_decimal(out, n / 10);
    }
    let d: u8 = (n % 10) as u8;
    push_char(out, (48u8 + d) as char);
    assert(final(out)@ =~= old(out)@ + decimal(n as nat));
}

/// `Backtrace::new` of the `backtrace` crate, read at frame `depth`: the
/// first symbol of that frame, with the last part of its file name, its line,
/// its column and its function name as the crate gives them. What comes back
/// depends on the program, its build and the machine, so nothing is stated
/// of it. The one depth that the library reads at is required.
#[inline(never)]
#[verifier::external_body]
pub(crate) fn capture_symbol(depth: usize) -> Option<CallSite>
    requires
        depth == CALLER_FRAME,
{
    let trace = backtrace::Backtrace::new();
    let symbol = trace.frames().get(depth)?.symbols().first()?;
    Some(
        CallSite {
            file: symbol.filename().and_then(|p| p.file_name()).and_then(|f| f.to_str()).map(
                String::from,
            ),
            line: symbol.lineno(),
            column: symbol.colno(),
            function: symbol.name().map(|n| n.to_string()),
        },
    )
}

impl CallerSource {
    /// Looks for the place from which the function that calls `locate` was
    /// called itself: a logging function asks here for the place of its own
    /// call. Without the means to inspect the stack there is none.
    #[inline(never)]
    pub fn locate(self) -> (site: Option<CallSite>)
        ensures
            self is Unavailable ==> site is None,
    {
        match self {
            CallerSource::Stack => capture_symbol(CALLER_FRAME),
            CallerSource::Unavailable => None,
        }
    }
}

/// The note on the place of a call for a record.
pub fn get_callee(site: &Option<CallSite>) -> (note: String)
    ensures
        is_callee_note(note@, *site),
{
    match site {
        Some(place) => {
            let words = place.describe();
            italic(words.as_str())
        },
        None => {
            proof {
                reveal_strlit("unknown");
                assert("unknown"@ =~= unknown_text());
            }
            "unknown".to_string()
        },
    }
}

} // verus!

//! The lines of a record: the head line, the line on the place of the call
//! and the line of the payload, joined by the framing glyphs.

use crate::ansi::stripped;
use crate::caller::{is_callee_note, unknown_text, CallSite};
use crate::level::{LogLevel, LABEL_WIDTH};
use crate::padding::{pad_to_width, spaces, Alignment};
use crate::payload::index_label;
use crate::style::{dim_code, styled_as};
use vstd::prelude::*;

verus! {

/// The width of the time of a record, brackets included.
pub const STAMP_WIDTH: usize = 21;

/// The glyphs that frame the lines of a record.
#[derive(Clone, Copy, Debug)]
pub struct Connectors {
    /// Marks a record of one line.
    pub single_line: &'static str,
    /// Marks the first line of a record of several lines.
    pub start_line: &'static str,
    /// Marks a line that another line follows.
    pub line: &'static str,
    /// Marks the last line of a record of several lines.
    pub end_line: &'static str,
}

/// The glyph of a record of one line.
pub open spec fn single_glyph() -> Seq<char> {
    seq!['▪']
}

/// The glyph of the first line of several.
pub open spec fn start_glyph() -> Seq<char> {
    seq!['┏']
}

/// The glyph of a line that another line follows.
pub open spec fn line_glyph() -> Seq<char> {
    seq!['┃']
}

/// The glyph of the last line of several.
pub open spec fn end_glyph() -> Seq<char> {
    seq!['┗']
}

impl Default for Connectors {
    fn default() -> (glyphs: Self)
        ensures
            glyphs.single_line@ == single_glyph(),
            glyphs.start_line@ == start_glyph(),
            glyphs.line@ == line_glyph(),
            glyphs.end_line@ == end_glyph(),
    {
        proof {
            reveal_strlit("▪");
            reveal_strlit("┏");
            reveal_strlit("┃");
            reveal_strlit("┗");
            assert("▪"@ =~= single_glyph());
            assert("┏"@ =~= start_glyph());
            assert("┃"@ =~= line_glyph());
            assert("┗"@ =~= end_glyph());
        }
        Connectors { single_line: "▪", start_line: "┏", line: "┃", end_line: "┗" }
    }
}

/// The texts that a record is put together from, each in the form in which
/// it is shown.
pub struct Pieces {
    /// The time.
    pub stamp: String,
    /// The padded label of the level.
    pub level: String,
    /// The tag, without its brackets.
    pub tag: String,
    /// The message.
    pub message: String,
    /// The note on the place of the call, if the record has one.
    pub site: Option<String>,
    /// The number and the text of the payload, if the record has one.
    pub payload: Option<(String, String)>,
}

/// The texts of a record as sequences of characters.
pub struct Parts {
    pub stamp: Seq<char>,
    pub level: Seq<char>,
    pub tag: Seq<char>,
    pub message: Seq<char>,
    pub site: Option<Seq<char>>,
    pub payload: Option<(Seq<char>, Seq<char>)>,
}

impl View for Pieces {
    type V = Parts;

    open spec fn view(&self) -> Parts {
        Parts {
            stamp: self.stamp@,
            level: self.level@,
            tag: self.tag@,
            message: self.message@,
            site: match self.site {
                Some(note) => Some(note@),
                None => None,
            },
            payload: match self.payload {
                Some((index, body)) => Some((index@, body@)),
                None => None,
            },
        }
    }
}

/// The head line: `<time> <level> <glyph> [<tag>] <message>`.
pub open spec fn head_line(parts: Parts, glyph: Seq<char>) -> Seq<char> {
    parts.stamp + seq![' '] + parts.level + seq![' '] + glyph + seq![' ', '['] + parts.tag + seq![
        ']',
        ' ',
    ] + parts.message
}

/// A line that follows the head line: a line break, blanks as wide as the
/// time and the level, the glyph and the text of the line.
pub open spec fn continuation(glyph: Seq<char>, body: Seq<char>) -> Seq<char> {
    seq!['\n'] + spaces(STAMP_WIDTH as nat) + seq![' '] + spaces(LABEL_WIDTH as nat) + seq![' ']
        + glyph + seq![' '] + body
}

/// The line on the place of the call, where the record has one. Its glyph
/// tells whether the payload follows.
pub open spec fn site_line(parts: Parts) -> Seq<char> {
    match parts.site {
        Some(note) => continuation(
            if parts.payload is Some {
                line_glyph()
            } else {
                end_glyph()
            },
            note,
        ),
        None => Seq::empty(),
    }
}

/// The line of the payload, where the record has one: always the last.
pub open spec fn payload_line(parts: Parts) -> Seq<char> {
    match parts.payload {
        Some((index, body)) => continuation(end_glyph(), index + seq![' '] + body),
        None => Seq::empty(),
    }
}

/// The whole record. The head line bears the glyph of a single line where
/// nothing follows it, and the start glyph where something does.
pub open spec fn record_text(parts: Parts) -> Seq<char> {
    head_line(
        parts,
        if parts.site is Some || parts.payload is Some {
            start_glyph()
        } else {
            single_glyph()
        },
    ) + site_line(parts) + payload_line(parts)
}

/// A record as it is asked for and as it is observed when it is made: the
/// level, the tag, the message and the payload come from the call, the time
/// from the clock, and the place of the call from the stack. `site` is `None`
/// where the call asks for no note on its place, and holds `None` where it
/// asks for one and the place could not be found.
pub struct Record {
    pub level: LogLevel,
    pub tag: Seq<char>,
    pub message: Seq<char>,
    pub stamp: Seq<char>,
    pub site: Option<Option<CallSite>>,
    pub payload: Option<Seq<char>>,
}

/// The words on the place of a call: its description, or "unknown".
pub open spec fn site_words(site: Option<CallSite>) -> Seq<char> {
    match site {
        Some(place) => place.description(),
        None => unknown_text(),
    }
}

/// Whether `note` is a way in which the note on the place `site` can be
/// shown: the callee note, dimmed.
pub open spec fn is_site_note(note: Seq<char>, site: Option<CallSite>) -> bool {
    exists|inner: Seq<char>| #[trigger]
        is_callee_note(inner, site) && styled_as(note, inner, dim_code())
}

impl Record {
    /// The texts of the record without any styling.
    pub open spec fn plain(self) -> Parts {
        Parts {
            stamp: self.stamp,
            level: self.level.padded_label(),
            tag: self.tag,
            message: self.message,
            site: match self.site {
                Some(site) => Some(site_words(site)),
                None => None,
            },
            payload: match self.payload {
                Some(text) => Some((index_label(), text)),
                None => None,
            },
        }
    }

    /// Whether `shown` is a way in which the texts of the record can be
    /// shown: the time dimmed, the label, the tag and the message in the
    /// colour of the level, the note on the place of the call in italics and
    /// dimmed, the payload and its number dimmed. Where colours are switched
    /// off, a styled text is the text itself.
    pub open spec fn is_shown_as(self, shown: Parts) -> bool {
        let colour = self.level.colour().code();
        &&& styled_as(shown.stamp, self.stamp, dim_code())
        &&& styled_as(shown.level, self.level.padded_label(), colour)
        &&& styled_as(shown.tag, self.tag, colour)
        &&& styled_as(shown.message, self.message, colour)
        &&& match self.site {
            Some(site) => shown.site matches Some(note) && is_site_note(note, site),
            None => shown.site is None,
        }
        &&& match self.payload {
            Some(text) => shown.payload matches Some((index, body)) && styled_as(
                index,
                index_label(),
                dim_code(),
            ) && styled_as(body, text, dim_code()),
            None => shown.payload is None,
        }
    }
}

/// Whether `text` is what is emitted for `record`: the record put together
/// from its texts as they are shown, and stripped of every escape sequence
/// where it goes to a file.
pub open spec fn is_emitted_text(text: Seq<char>, to_file: bool, record: Record) -> bool {
    exists|shown: Parts| #[trigger]
        record.is_shown_as(shown) && text == if to_file {
            stripped(record_text(shown))
        } else {
            record_text(shown)
        }
}

/// The number of line breaks in `s`. A text has one line more than it has
/// line breaks.
pub open spec fn line_breaks(s: Seq<char>) -> nat
    decreases s.len(),
{
    if s.len() == 0 {
        0
    } else {
        line_breaks(s.drop_last()) + if s.last() == '\n' {
            1nat
        } else {
            0nat
        }
    }
}

/// Whether `s` holds no line break.
pub open spec fn is_one_line(s: Seq<char>) -> bool {
    forall|i: int| 0 <= i < s.len() ==> s[i] != '\n'
}

/// The text of a log file with the content `content` after the records with
/// the texts `records` were appended to it one after another, each followed
/// by a line break.
pub open spec fn file_after(content: Seq<char>, records: Seq<Seq<char>>) -> Seq<char>
    decreases records.len(),
{
    if records.len() == 0 {
        content
    } else {
        file_after(content, records.drop_last()) + records.last().push('\n')
    }
}

/// Appends a line that follows the head line.
fn append_continuation(text: &mut String, glyph: &str, body: &str)
    ensures
        final(text)@ == old(text)@ + continuation(glyph@, body@),
{
    proof {
        reveal_strlit("\n");
        reveal_strlit(" ");
    }
    let under_stamp = pad_to_width(" ", STAMP_WIDTH, Alignment::Middle);
    let under_level = pad_to_width(" ", LABEL_WIDTH, Alignment::Middle);
    assert(under_stamp@ =~= spaces(STAMP_WIDTH as nat));
    assert(under_level@ =~= spaces(LABEL_WIDTH as nat));
    text.append("\n");
    text.append(under_stamp.as_str());
    text.append(" ");
    text.append(under_level.as_str());
    text.append(" ");
    text.append(glyph);
    text.append(" ");
    text.append(body);
    assert(final(text)@ =~= old(text)@ + continuation(glyph@, body@));
}

/// Puts a record together from its pieces.
pub fn compose(pieces: &Pieces) -> (text: String)
    ensures
        text@ == record_text(pieces@),
{
    proof {
        reveal_strlit(" ");
        reveal_strlit(" [");
        reveal_strlit("] ");
    }
    let glyphs = Connectors::default();
    let several = pieces.site.is_some() || pieces.payload.is_some();
    let mut text = String::new();
    text.append(pieces.stamp.as_str());
    text.append(" ");
    text.append(pieces.level.as_str());
    text.append(" ");
    text.append(
        if several {
            glyphs.start_line
        } else {
            glyphs.single_line
        },
    );
    text.append(" [");
    text.append(pieces.tag.as_str());
    text.append("] ");
    text.append(pieces.message.as_str());
    assert(text@ =~= head_line(
        pieces@,
        if several {
            start_glyph()
        } else {
            single_glyph()
        },
    ));
    match &pieces.site {
        Some(note) => {
            let glyph = if pieces.payload.is_some() {
                glyphs.line
            } else {
                glyphs.end_line
            };
            append_continuation(&mut text, glyph, note.as_str());
        },
        None => {
            assert(text@ + site_line(pieces@) =~= text@);
        },
    }
    match &pieces.payload {
        Some((index, body)) => {
            proof {
                reveal_strlit(" ");
            }
            let mut line = String::new();
            line.append(index.as_str());
            line.append(" ");
            line.append(body.as_str());
            assert(line@ =~= index@ + seq![' '] + body@);
            append_continuation(&mut text, glyphs.end_line, line.as_str());
        },
        None => {
            assert(text@ + payload_line(pieces@) =~= text@);
        },
    }
    text
}

} // verus!

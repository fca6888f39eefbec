//! What holds of every record: the threshold rule, the routing, and that no
//! styling reaches a log file.

use crate::ansi::{
    escape_free, escape_len, escapes_closed, lemma_closed_concat, lemma_escape_shape,
    lemma_free_is_closed, stripped,
    stripping_closed_text_leaves_no_escape, stripping_distributes,
    stripping_keeps_escape_free_text, ESC,
};
use crate::caller::{is_callee_note, unknown_text, CallSite};
use crate::clock::{is_digit, is_stamp};
use crate::level::LogLevel;
use crate::logger::{Emission, Settings};
use crate::padding::spaces;
use crate::payload::index_label;
use crate::record::{
    continuation, end_glyph, file_after, head_line, is_emitted_text, is_one_line, is_site_note,
    line_breaks, line_glyph, payload_line, record_text, single_glyph, site_line, site_words,
    start_glyph, Parts, Record,
};
use crate::style::{
    dim_code, is_parameter_text, italic_code, reapplied, starts_with, style_off, style_on,
    styled_as, styling_is_stripped_away,
};
use vstd::prelude::*;

verus! {

/// Whether two texts have closed escapes and are the same once stripped.
pub open spec fn alike(a: Seq<char>, b: Seq<char>) -> bool {
    escapes_closed(a) && escapes_closed(b) && stripped(a) == stripped(b)
}

/// Texts that are alike stay alike when alike texts are put behind them.
proof fn lemma_alike_join(a: Seq<char>, a2: Seq<char>, b: Seq<char>, b2: Seq<char>)
    requires
        alike(a, a2),
        alike(b, b2),
    ensures
        alike(a + b, a2 + b2),
{
    lemma_closed_concat(a, b);
    lemma_closed_concat(a2, b2);
    stripping_distributes(a, b);
    stripping_distributes(a2, b2);
}

/// A text without escape characters is alike to itself.
proof fn lemma_alike_plain(s: Seq<char>)
    requires
        escape_free(s),
    ensures
        alike(s, s),
{
    lemma_free_is_closed(s);
}

/// A styled text is alike to the text that was styled.
proof fn lemma_alike_styled(out: Seq<char>, text: Seq<char>, code: Seq<char>)
    requires
        styled_as(out, text, code),
        is_parameter_text(code),
        escapes_closed(text),
    ensures
        alike(out, text),
{
    styling_is_stripped_away(out, text, code);
}

/// The codes of the colours and styles are parameter texts.
proof fn lemma_codes_are_parameters(level: LogLevel)
    ensures
        is_parameter_text(level.colour().code()),
        is_parameter_text(dim_code()),
        is_parameter_text(italic_code()),
{
}

/// The padded label of a level holds no escape character.
proof fn lemma_label_is_plain(level: LogLevel)
    ensures
        escape_free(level.padded_label()),
{
}

/// The time of a record holds no escape character.
proof fn lemma_stamp_is_plain(stamp: Seq<char>)
    requires
        is_stamp(stamp),
    ensures
        escape_free(stamp),
{
    let n = stamp.len() as int;
    let year = stamp.subrange(1, n - 16);
    let tail = stamp.subrange(n - 16, n);
    assert forall|i: int| 0 <= i < n implies stamp[i] != ESC by {
        if 1 <= i < n - 16 {
            assert(stamp[i] == year[i - 1]);
            if i > 1 || !(year[0] == '+' || year[0] == '-') {
                assert(is_digit(year[i - 1]));
            }
        } else if i >= n - 16 {
            assert(stamp[i] == tail[i - (n - 16)]);
        }
    }
}

impl Record {
    /// Whether every escape character in the texts that come from outside
    /// the library (the tag, the message, the payload and the description
    /// of the place of the call) begins an escape sequence that ends within
    /// the same text.
    pub open spec fn has_closed_escapes(self) -> bool {
        &&& escapes_closed(self.tag)
        &&& escapes_closed(self.message)
        &&& self.site matches Some(Some(place)) ==> escapes_closed(place.description())
        &&& self.payload matches Some(text) ==> escapes_closed(text)
    }

    /// Whether the texts that come from outside the library hold no escape
    /// character at all.
    pub open spec fn is_escape_free(self) -> bool {
        &&& escape_free(self.tag)
        &&& escape_free(self.message)
        &&& self.site matches Some(Some(place)) ==> escape_free(place.description())
        &&& self.payload matches Some(text) ==> escape_free(text)
    }
}

/// The head line as it is shown is alike to the plain head line.
proof fn lemma_head_alike(record: Record, shown: Parts, glyph: Seq<char>)
    requires
        record.is_shown_as(shown),
        is_stamp(record.stamp),
        escapes_closed(record.tag),
        escapes_closed(record.message),
        escape_free(glyph),
    ensures
        alike(head_line(shown, glyph), head_line(record.plain(), glyph)),
{
    let plain = record.plain();
    let colour = record.level.colour().code();
    let gap = seq![' '];
    let open = seq![' ', '['];
    let close = seq![']', ' '];
    lemma_codes_are_parameters(record.level);
    lemma_stamp_is_plain(record.stamp);
    lemma_label_is_plain(record.level);
    lemma_free_is_closed(record.stamp);
    lemma_free_is_closed(record.level.padded_label());
    lemma_alike_styled(shown.stamp, plain.stamp, dim_code());
    lemma_alike_styled(shown.level, plain.level, colour);
    lemma_alike_styled(shown.tag, plain.tag, colour);
    lemma_alike_styled(shown.message, plain.message, colour);
    lemma_alike_plain(gap);
    lemma_alike_plain(open);
    lemma_alike_plain(close);
    lemma_alike_plain(glyph);
    lemma_alike_join(shown.stamp, plain.stamp, gap, gap);
    lemma_alike_join(shown.stamp + gap, plain.stamp + gap, shown.level, plain.level);
    lemma_alike_join(shown.stamp + gap + shown.level, plain.stamp + gap + plain.level, gap, gap);
    lemma_alike_join(
        shown.stamp + gap + shown.level + gap,
        plain.stamp + gap + plain.level + gap,
        glyph,
        glyph,
    );
    lemma_alike_join(
        shown.stamp + gap + shown.level + gap + glyph,
        plain.stamp + gap + plain.level + gap + glyph,
        open,
        open,
    );
    lemma_alike_join(
        shown.stamp + gap + shown.level + gap + glyph + open,
        plain.stamp + gap + plain.level + gap + glyph + open,
        shown.tag,
        plain.tag,
    );
    lemma_alike_join(
        shown.stamp + gap + shown.level + gap + glyph + open + shown.tag,
        plain.stamp + gap + plain.level + gap + glyph + open + plain.tag,
        close,
        close,
    );
    lemma_alike_join(
        shown.stamp + gap + shown.level + gap + glyph + open + shown.tag + close,
        plain.stamp + gap + plain.level + gap + glyph + open + plain.tag + close,
        shown.message,
        plain.message,
    );
}

/// A following line as it is shown is alike to the plain line, where their
/// texts are alike.
proof fn lemma_continuation_alike(glyph: Seq<char>, body: Seq<char>, body2: Seq<char>)
    requires
        escape_free(glyph),
        alike(body, body2),
    ensures
        alike(continuation(glyph, body), continuation(glyph, body2)),
{
    let gap = seq![' '];
    let margin = seq!['\n'] + spaces(crate::record::STAMP_WIDTH as nat) + gap + spaces(
        crate::level::LABEL_WIDTH as nat,
    ) + gap + glyph + gap;
    assert(escape_free(margin));
    lemma_alike_plain(margin);
    lemma_alike_join(margin, margin, body, body2);
}

/// The note on the place of a call as it is shown is alike to its words.
proof fn lemma_site_alike(note: Seq<char>, site: Option<CallSite>)
    requires
        is_site_note(note, site),
        site matches Some(place) ==> escapes_closed(place.description()),
    ensures
        alike(note, site_words(site)),
{
    let inner = choose|inner: Seq<char>| #[trigger]
        is_callee_note(inner, site) && styled_as(note, inner, dim_code());
    match site {
        Some(place) => {
            styling_is_stripped_away(inner, place.description(), italic_code());
        },
        None => {
            lemma_free_is_closed(unknown_text());
        },
    }
    styling_is_stripped_away(note, inner, dim_code());
}

/// No styling reaches a log file. Whichever way the texts of a record are
/// shown, what stripping leaves of the record is what it leaves of the record
/// without any styling, and that holds no escape character. This is stated of
/// the records in which every escape character of a text from outside begins
/// an escape sequence that ends within that text: a lone escape character in a
/// tag can form a sequence with the characters that follow the tag.
pub proof fn file_text_is_free_of_styling(record: Record, shown: Parts)
    requires
        record.is_shown_as(shown),
        is_stamp(record.stamp),
        record.has_closed_escapes(),
    ensures
        stripped(record_text(shown)) == stripped(record_text(record.plain())),
        escape_free(stripped(record_text(shown))),
{
    let plain = record.plain();
    let glyph = if shown.site is Some || shown.payload is Some {
        start_glyph()
    } else {
        single_glyph()
    };
    let none = Seq::<char>::empty();
    lemma_head_alike(record, shown, glyph);
    lemma_alike_plain(none);
    match record.site {
        Some(site) => {
            lemma_site_alike(shown.site->0, site);
            lemma_continuation_alike(
                if shown.payload is Some {
                    line_glyph()
                } else {
                    end_glyph()
                },
                shown.site->0,
                site_words(site),
            );
        },
        None => {},
    }
    assert(alike(site_line(shown), site_line(plain)));
    match record.payload {
        Some(text) => {
            let (index, body) = shown.payload->0;
            let gap = seq![' '];
            lemma_codes_are_parameters(record.level);
            lemma_free_is_closed(index_label());
            lemma_alike_styled(index, index_label(), dim_code());
            lemma_alike_styled(body, text, dim_code());
            lemma_alike_plain(gap);
            lemma_alike_join(index, index_label(), gap, gap);
            lemma_alike_join(index + gap, index_label() + gap, body, text);
            lemma_continuation_alike(end_glyph(), index + gap + body, index_label() + gap + text);
        },
        None => {},
    }
    assert(alike(payload_line(shown), payload_line(plain)));
    lemma_alike_join(
        head_line(shown, glyph),
        head_line(plain, glyph),
        site_line(shown),
        site_line(plain),
    );
    lemma_alike_join(
        head_line(shown, glyph) + site_line(shown),
        head_line(plain, glyph) + site_line(plain),
        payload_line(shown),
        payload_line(plain),
    );
    stripping_closed_text_leaves_no_escape(record_text(shown));
}

/// The plain record holds no escape character where the texts from outside
/// hold none.
proof fn lemma_plain_record_is_free(record: Record)
    requires
        is_stamp(record.stamp),
        record.is_escape_free(),
    ensures
        escape_free(record_text(record.plain())),
{
    lemma_stamp_is_plain(record.stamp);
    lemma_label_is_plain(record.level);
}

/// Where the texts from outside hold no escape character, the text that goes
/// to a log file is exactly the record without any styling.
pub proof fn file_text_of_plain_record(record: Record, shown: Parts)
    requires
        record.is_shown_as(shown),
        is_stamp(record.stamp),
        record.is_escape_free(),
    ensures
        stripped(record_text(shown)) == record_text(record.plain()),
{
    lemma_free_is_closed(record.tag);
    lemma_free_is_closed(record.message);
    if let Some(Some(place)) = record.site {
        lemma_free_is_closed(place.description());
    }
    if let Some(text) = record.payload {
        lemma_free_is_closed(text);
    }
    file_text_is_free_of_styling(record, shown);
    lemma_plain_record_is_free(record);
    stripping_keeps_escape_free_text(record_text(record.plain()));
}

/// What a logger with a log file makes of a record holds no escape
/// character, whatever colours are switched on. This is stated of the
/// records whose tag, message, payload and place of call have closed escapes.
pub proof fn file_rendering_has_no_escape(
    settings: Settings,
    out: Option<Emission>,
    level: LogLevel,
    tag: Seq<char>,
    message: Seq<char>,
    site: Option<Option<CallSite>>,
    payload: Option<Seq<char>>,
)
    requires
        settings.is_rendering(out, level, tag, message, site, payload),
        settings.destination() is Some,
        escapes_closed(tag),
        escapes_closed(message),
        payload matches Some(text) ==> escapes_closed(text),
        site matches Some(Some(place)) ==> escapes_closed(place.description()),
    ensures
        out matches Some(emission) ==> escape_free(emission.text@),
{
    if let Some(emission) = out {
        let stamp = choose|stamp: Seq<char>|
            {
                &&& is_stamp(stamp)
                &&& is_emitted_text(
                    emission.text@,
                    settings.destination() is Some,
                    #[trigger] Settings::observed(level, tag, message, site, payload, stamp),
                )
            };
        let record = Settings::observed(level, tag, message, site, payload, stamp);
        let shown = choose|shown: Parts| #[trigger]
            record.is_shown_as(shown) && emission.text@ == stripped(record_text(shown));
        file_text_is_free_of_styling(record, shown);
    }
}

/// What a logging call hands over for a log file holds no escape character,
/// whatever colours are switched on. This is stated of the calls whose tag,
/// message and payload have closed escapes. Where the call asks for a note on
/// its place, the same is asked of every place that the record may have been
/// made for: what a stack frame names is not in the caller's hands.
pub proof fn file_output_has_no_escape(
    settings: Settings,
    out: Option<Emission>,
    level: LogLevel,
    tag: Seq<char>,
    message: Seq<char>,
    at: bool,
    payload: Option<Seq<char>>,
)
    requires
        settings.is_outcome(out, level, tag, message, at, payload),
        settings.destination() is Some,
        escapes_closed(tag),
        escapes_closed(message),
        payload matches Some(text) ==> escapes_closed(text),
        at ==> forall|place: CallSite| #[trigger]
            settings.is_rendering(out, level, tag, message, Some(Some(place)), payload)
                ==> escapes_closed(place.description()),
    ensures
        out matches Some(emission) ==> escape_free(emission.text@),
{
    if at {
        let site = choose|site: Option<CallSite>|
            {
                &&& #[trigger] settings.is_rendering(
                    out,
                    level,
                    tag,
                    message,
                    Some(site),
                    payload,
                )
                &&& settings.caller_source is Unavailable ==> site is None
            };
        file_rendering_has_no_escape(settings, out, level, tag, message, Some(site), payload);
    } else {
        file_rendering_has_no_escape(settings, out, level, tag, message, None, payload);
    }
}

/// Where the logger has no means to look for the place of a call, what a
/// logging call hands over for a log file holds no escape character as soon
/// as its tag, message and payload have closed escapes.
pub proof fn file_output_without_the_stack_has_no_escape(
    settings: Settings,
    out: Option<Emission>,
    level: LogLevel,
    tag: Seq<char>,
    message: Seq<char>,
    at: bool,
    payload: Option<Seq<char>>,
)
    requires
        settings.is_outcome(out, level, tag, message, at, payload),
        settings.destination() is Some,
        escapes_closed(tag),
        escapes_closed(message),
        payload matches Some(text) ==> escapes_closed(text),
        !at || settings.caller_source is Unavailable,
    ensures
        out matches Some(emission) ==> escape_free(emission.text@),
{
    if at {
        let site = choose|site: Option<CallSite>|
            {
                &&& #[trigger] settings.is_rendering(
                    out,
                    level,
                    tag,
                    message,
                    Some(site),
                    payload,
                )
                &&& settings.caller_source is Unavailable ==> site is None
            };
        file_rendering_has_no_escape(settings, out, level, tag, message, Some(site), payload);
    } else {
        file_rendering_has_no_escape(settings, out, level, tag, message, None, payload);
    }
}

/// A record is emitted if and only if its level is at least as severe as
/// the threshold: its number is not above the threshold's.
pub proof fn emitted_iff_severe_enough(
    settings: Settings,
    out: Option<Emission>,
    level: LogLevel,
    tag: Seq<char>,
    message: Seq<char>,
    at: bool,
    payload: Option<Seq<char>>,
)
    requires
        settings.is_outcome(out, level, tag, message, at, payload),
    ensures
        out is Some <==> level.rank() <= settings.threshold.rank(),
{
}

/// Setting a log file and then removing it sends the records that follow to
/// standard output again, and leaves the logger as if the file had been
/// removed without ever being set.
pub proof fn removing_the_file_restores_stdout(settings: Settings, path: Seq<char>)
    ensures
        settings.with_file(path).without_file().destination() is None,
        settings.with_file(path).without_file() == settings.without_file(),
        settings.with_file(path).without_file().threshold == settings.threshold,
{
}

/// The line breaks of two texts, one after the other, are those of both.
proof fn lemma_breaks_concat(a: Seq<char>, b: Seq<char>)
    ensures
        line_breaks(a + b) == line_breaks(a) + line_breaks(b),
    decreases b.len(),
{
    if b.len() == 0 {
        assert(a + b =~= a);
    } else {
        assert((a + b).drop_last() =~= a + b.drop_last());
        lemma_breaks_concat(a, b.drop_last());
    }
}

/// A text of one line has no line break.
proof fn lemma_one_line(s: Seq<char>)
    requires
        is_one_line(s),
    ensures
        line_breaks(s) == 0,
    decreases s.len(),
{
    if s.len() > 0 {
        lemma_one_line(s.drop_last());
    }
}

/// The line breaks of a text are those of its first `n` characters and those
/// of the rest.
proof fn lemma_breaks_split(s: Seq<char>, n: int)
    requires
        0 <= n <= s.len(),
    ensures
        line_breaks(s) == line_breaks(s.take(n)) + line_breaks(s.skip(n)),
{
    assert(s.take(n) + s.skip(n) =~= s);
    lemma_breaks_concat(s.take(n), s.skip(n));
}

/// Stripping removes no line break: no escape sequence holds one.
pub proof fn stripping_keeps_line_breaks(s: Seq<char>)
    ensures
        line_breaks(stripped(s)) == line_breaks(s),
    decreases s.len(),
{
    if s.len() > 0 {
        let n = escape_len(s);
        if n > 0 {
            lemma_escape_shape(s);
            lemma_breaks_split(s, n as int);
            lemma_one_line(s.take(n as int));
            stripping_keeps_line_breaks(s.skip(n as int));
        } else {
            lemma_breaks_split(s, 1);
            assert(s.take(1) =~= seq![s[0]]);
            lemma_breaks_concat(seq![s[0]], stripped(s.skip(1)));
            stripping_keeps_line_breaks(s.skip(1));
        }
    }
}

/// Putting a style in again inside a text adds no line break.
proof fn lemma_reapplied_keeps_breaks(t: Seq<char>, style: Seq<char>)
    requires
        line_breaks(style) == 0,
    ensures
        line_breaks(reapplied(t, style)) == line_breaks(t),
    decreases t.len(),
{
    if t.len() == 0 {
    } else if starts_with(t, style_off()) {
        let rest = reapplied(t.skip(4), style);
        lemma_reapplied_keeps_breaks(t.skip(4), style);
        lemma_breaks_split(t, 4);
        lemma_one_line(style_off());
        lemma_breaks_concat(style_off(), style);
        lemma_breaks_concat(style_off() + style, rest);
    } else {
        lemma_reapplied_keeps_breaks(t.skip(1), style);
        lemma_breaks_split(t, 1);
        assert(t.take(1) =~= seq![t[0]]);
        lemma_breaks_concat(seq![t[0]], reapplied(t.skip(1), style));
    }
}

/// Styling adds no line break.
proof fn lemma_styled_keeps_breaks(out: Seq<char>, text: Seq<char>, code: Seq<char>)
    requires
        styled_as(out, text, code),
        is_parameter_text(code),
    ensures
        line_breaks(out) == line_breaks(text),
{
    if out != text {
        let on = style_on(code);
        let inner = reapplied(text, on);
        assert(is_one_line(on)) by {
            assert forall|i: int| 0 <= i < on.len() implies on[i] != '\n' by {
                if 2 <= i < on.len() - 1 {
                    assert(on[i] == code[i - 2]);
                }
            }
        }
        lemma_one_line(on);
        lemma_one_line(style_off());
        lemma_reapplied_keeps_breaks(text, on);
        lemma_breaks_concat(on, inner);
        lemma_breaks_concat(on + inner, style_off());
    }
}

/// A following line has one line break more than its text.
proof fn lemma_continuation_breaks(glyph: Seq<char>, body: Seq<char>)
    requires
        is_one_line(glyph),
    ensures
        line_breaks(continuation(glyph, body)) == 1 + line_breaks(body),
{
    let gap = seq![' '];
    let margin = spaces(crate::record::STAMP_WIDTH as nat) + gap + spaces(
        crate::level::LABEL_WIDTH as nat,
    ) + gap + glyph + gap;
    let br = seq!['\n'];
    assert(is_one_line(margin));
    lemma_one_line(margin);
    assert(line_breaks(br) == 1) by {
        assert(br.drop_last() =~= Seq::<char>::empty());
        assert(line_breaks(br.drop_last()) == 0);
    }
    assert(continuation(glyph, body) =~= br + margin + body);
    lemma_breaks_concat(br, margin);
    lemma_breaks_concat(br + margin, body);
}

impl Record {
    /// Whether none of the texts that come from outside the library (the
    /// tag, the message, the payload and the description of the place of the
    /// call) holds a line break.
    pub open spec fn has_no_line_break(self) -> bool {
        &&& is_one_line(self.tag)
        &&& is_one_line(self.message)
        &&& self.site matches Some(Some(place)) ==> is_one_line(place.description())
        &&& self.payload matches Some(text) ==> is_one_line(text)
    }

    /// The number of lines that follow the head line: one for the place of
    /// the call and one for the payload, where the record has them.
    pub open spec fn following_lines(self) -> nat {
        (if self.site is Some {
            1nat
        } else {
            0nat
        }) + (if self.payload is Some {
            1nat
        } else {
            0nat
        })
    }
}

/// The head line as it is shown has no line break.
proof fn lemma_head_is_one_line(record: Record, shown: Parts, glyph: Seq<char>)
    requires
        record.is_shown_as(shown),
        is_stamp(record.stamp),
        is_one_line(record.tag),
        is_one_line(record.message),
        is_one_line(glyph),
    ensures
        line_breaks(head_line(shown, glyph)) == 0,
{
    let colour = record.level.colour().code();
    let gap = seq![' '];
    let open = seq![' ', '['];
    let close = seq![']', ' '];
    lemma_codes_are_parameters(record.level);
    lemma_stamp_is_plain(record.stamp);
    assert(is_one_line(record.stamp)) by {
        let n = record.stamp.len() as int;
        let year = record.stamp.subrange(1, n - 16);
        let tail = record.stamp.subrange(n - 16, n);
        assert forall|i: int| 0 <= i < n implies record.stamp[i] != '\n' by {
            if 1 <= i < n - 16 {
                assert(record.stamp[i] == year[i - 1]);
                if i > 1 || !(year[0] == '+' || year[0] == '-') {
                    assert(is_digit(year[i - 1]));
                }
            } else if i >= n - 16 {
                assert(record.stamp[i] == tail[i - (n - 16)]);
            }
        }
    }
    assert(is_one_line(record.level.padded_label()));
    lemma_one_line(record.stamp);
    lemma_one_line(record.level.padded_label());
    lemma_one_line(record.tag);
    lemma_one_line(record.message);
    lemma_one_line(gap);
    lemma_one_line(open);
    lemma_one_line(close);
    lemma_one_line(glyph);
    lemma_styled_keeps_breaks(shown.stamp, record.stamp, dim_code());
    lemma_styled_keeps_breaks(shown.level, record.level.padded_label(), colour);
    lemma_styled_keeps_breaks(shown.tag, record.tag, colour);
    lemma_styled_keeps_breaks(shown.message, record.message, colour);
    lemma_breaks_concat(shown.stamp, gap);
    lemma_breaks_concat(shown.stamp + gap, shown.level);
    lemma_breaks_concat(shown.stamp + gap + shown.level, gap);
    lemma_breaks_concat(shown.stamp + gap + shown.level + gap, glyph);
    lemma_breaks_concat(shown.stamp + gap + shown.level + gap + glyph, open);
    lemma_breaks_concat(shown.stamp + gap + shown.level + gap + glyph + open, shown.tag);
    lemma_breaks_concat(
        shown.stamp + gap + shown.level + gap + glyph + open + shown.tag,
        close,
    );
    lemma_breaks_concat(
        shown.stamp + gap + shown.level + gap + glyph + open + shown.tag + close,
        shown.message,
    );
}

/// A record has one line for each of its parts: the head line, one line for
/// the place of the call and one for the payload, whichever way it is shown,
/// and stripped or not. This is stated of the records whose texts from outside
/// hold no line break.
pub proof fn a_record_has_one_line_for_each_part(record: Record, shown: Parts)
    requires
        record.is_shown_as(shown),
        is_stamp(record.stamp),
        record.has_no_line_break(),
    ensures
        line_breaks(record_text(shown)) == record.following_lines(),
        line_breaks(stripped(record_text(shown))) == record.following_lines(),
{
    let glyph = if shown.site is Some || shown.payload is Some {
        start_glyph()
    } else {
        single_glyph()
    };
    lemma_head_is_one_line(record, shown, glyph);
    lemma_codes_are_parameters(record.level);
    match record.site {
        Some(site) => {
            let note = shown.site->0;
            let inner = choose|inner: Seq<char>| #[trigger]
                is_callee_note(inner, site) && styled_as(note, inner, dim_code());
            lemma_styled_keeps_breaks(note, inner, dim_code());
            match site {
                Some(place) => {
                    lemma_styled_keeps_breaks(inner, place.description(), italic_code());
                    lemma_one_line(place.description());
                },
                None => {
                    lemma_one_line(unknown_text());
                },
            }
            lemma_continuation_breaks(
                if shown.payload is Some {
                    line_glyph()
                } else {
                    end_glyph()
                },
                note,
            );
        },
        None => {},
    }
    match record.payload {
        Some(text) => {
            let (index, body) = shown.payload->0;
            let gap = seq![' '];
            lemma_styled_keeps_breaks(index, index_label(), dim_code());
            lemma_styled_keeps_breaks(body, text, dim_code());
            lemma_one_line(index_label());
            lemma_one_line(text);
            lemma_one_line(gap);
            lemma_breaks_concat(index, gap);
            lemma_breaks_concat(index + gap, body);
            lemma_continuation_breaks(end_glyph(), index + gap + body);
        },
        None => {},
    }
    lemma_breaks_concat(head_line(shown, glyph), site_line(shown));
    lemma_breaks_concat(head_line(shown, glyph) + site_line(shown), payload_line(shown));
    stripping_keeps_line_breaks(record_text(shown));
}

/// What a logger makes of a record has one line for each part of the record,
/// on standard output and in a log file alike. This is stated of the records
/// whose tag, message, payload and place of call hold no line break.
pub proof fn rendering_has_one_line_for_each_part(
    settings: Settings,
    out: Option<Emission>,
    level: LogLevel,
    tag: Seq<char>,
    message: Seq<char>,
    site: Option<Option<CallSite>>,
    payload: Option<Seq<char>>,
)
    requires
        settings.is_rendering(out, level, tag, message, site, payload),
        is_one_line(tag),
        is_one_line(message),
        payload matches Some(text) ==> is_one_line(text),
        site matches Some(Some(place)) ==> is_one_line(place.description()),
    ensures
        out matches Some(emission) ==> line_breaks(emission.text@) == (if site is Some {
            1nat
        } else {
            0nat
        }) + (if payload is Some {
            1nat
        } else {
            0nat
        }),
{
    if let Some(emission) = out {
        let stamp = choose|stamp: Seq<char>|
            {
                &&& is_stamp(stamp)
                &&& is_emitted_text(
                    emission.text@,
                    settings.destination() is Some,
                    #[trigger] Settings::observed(level, tag, message, site, payload, stamp),
                )
            };
        let record = Settings::observed(level, tag, message, site, payload, stamp);
        let shown = choose|shown: Parts| #[trigger]
            record.is_shown_as(shown) && emission.text@ == if settings.destination() is Some {
                stripped(record_text(shown))
            } else {
                record_text(shown)
            };
        a_record_has_one_line_for_each_part(record, shown);
    }
}

/// What a logging call hands over has one line for the head, one for the
/// place of the call where the call asks for it, and one for the payload
/// where there is one. This is stated of the calls whose tag, message and
/// payload hold no line break; where the call asks for a note on its place,
/// the same is asked of every place that the record may have been made for.
pub proof fn output_has_one_line_for_each_part(
    settings: Settings,
    out: Option<Emission>,
    level: LogLevel,
    tag: Seq<char>,
    message: Seq<char>,
    at: bool,
    payload: Option<Seq<char>>,
)
    requires
        settings.is_outcome(out, level, tag, message, at, payload),
        is_one_line(tag),
        is_one_line(message),
        payload matches Some(text) ==> is_one_line(text),
        at ==> forall|place: CallSite| #[trigger]
            settings.is_rendering(out, level, tag, message, Some(Some(place)), payload)
                ==> is_one_line(place.description()),
    ensures
        out matches Some(emission) ==> line_breaks(emission.text@) == (if at {
            1nat
        } else {
            0nat
        }) + (if payload is Some {
            1nat
        } else {
            0nat
        }),
{
    if at {
        let site = choose|site: Option<CallSite>|
            {
                &&& #[trigger] settings.is_rendering(
                    out,
                    level,
                    tag,
                    message,
                    Some(site),
                    payload,
                )
                &&& settings.caller_source is Unavailable ==> site is None
            };
        rendering_has_one_line_for_each_part(
            settings,
            out,
            level,
            tag,
            message,
            Some(site),
            payload,
        );
    } else {
        rendering_has_one_line_for_each_part(settings, out, level, tag, message, None, payload);
    }
}

/// In a log file the payload line is the last: a line break, 29 blanks, the
/// end glyph, the number of the payload and the payload as stripping leaves
/// it, which is the payload itself where it holds no escape character. This
/// is stated of the records whose texts from outside have closed escapes.
pub proof fn file_text_ends_with_the_payload_line(record: Record, shown: Parts)
    requires
        record.is_shown_as(shown),
        is_stamp(record.stamp),
        record.has_closed_escapes(),
        record.payload is Some,
    ensures
        stripped(record_text(shown)) == stripped(
            head_line(record.plain(), start_glyph()) + site_line(record.plain()),
        ) + continuation(
            end_glyph(),
            index_label() + seq![' '] + stripped(record.payload->0),
        ),
        escape_free(record.payload->0) ==> stripped(record.payload->0) == record.payload->0,
{
    let plain = record.plain();
    let text = record.payload->0;
    let gap = seq![' '];
    let front = head_line(plain, start_glyph()) + site_line(plain);
    file_text_is_free_of_styling(record, shown);
    // The front of the plain record has closed escapes.
    let none = Seq::<char>::empty();
    lemma_stamp_is_plain(record.stamp);
    lemma_label_is_plain(record.level);
    let head_parts = Parts { tag: none, message: none, site: None, payload: None, ..plain };
    assert(escape_free(head_line(head_parts, start_glyph())));
    lemma_free_is_closed(head_line(head_parts, start_glyph()));
    lemma_closed_concat(head_line(head_parts, start_glyph()), none);
    let h1 = plain.stamp + seq![' '] + plain.level + seq![' '] + start_glyph() + seq![' ', '['];
    assert(escape_free(h1));
    lemma_free_is_closed(h1);
    lemma_closed_concat(h1, plain.tag);
    let close = seq![']', ' '];
    lemma_free_is_closed(close);
    lemma_closed_concat(h1 + plain.tag, close);
    lemma_closed_concat(h1 + plain.tag + close, plain.message);
    assert(head_line(plain, start_glyph()) =~= h1 + plain.tag + close + plain.message);
    match record.site {
        Some(site) => {
            let words = site_words(site);
            if site is None {
                lemma_free_is_closed(unknown_text());
            }
            lemma_alike_plain_closed(words);
            lemma_continuation_alike(line_glyph(), words, words);
        },
        None => {
            lemma_free_is_closed(none);
        },
    }
    lemma_closed_concat(head_line(plain, start_glyph()), site_line(plain));
    stripping_distributes(front, payload_line(plain));
    // The payload line, stripped.
    let margin = seq!['\n'] + spaces(crate::record::STAMP_WIDTH as nat) + gap + spaces(
        crate::level::LABEL_WIDTH as nat,
    ) + gap + end_glyph() + gap + index_label() + gap;
    assert(escape_free(margin));
    lemma_free_is_closed(margin);
    stripping_keeps_escape_free_text(margin);
    stripping_distributes(margin, text);
    assert(payload_line(plain) =~= margin + text);
    assert(continuation(end_glyph(), index_label() + gap + stripped(text)) =~= margin + stripped(
        text,
    ));
    if escape_free(text) {
        stripping_keeps_escape_free_text(text);
    }
}

/// A text with closed escapes is alike to itself.
proof fn lemma_alike_plain_closed(s: Seq<char>)
    requires
        escapes_closed(s),
    ensures
        alike(s, s),
{
}

/// Records that are appended one after another stand in the file in the
/// order of their calls, after what the file held before: appending one more
/// record changes nothing of what stands before it, and puts its text and a
/// line break at the end.
pub proof fn records_are_appended_in_call_order(
    content: Seq<char>,
    records: Seq<Seq<char>>,
    next: Seq<char>,
)
    ensures
        file_after(content, records.push(next)) == file_after(content, records) + next.push(
            '\n',
        ),
        file_after(content, records).len() >= content.len(),
        file_after(content, records).take(content.len() as int) == content,
        file_after(content, records.push(next)).take(file_after(content, records).len() as int)
            == file_after(content, records),
        file_after(content, records.push(next)).skip(file_after(content, records).len() as int)
            == next.push('\n'),
    decreases records.len(),
{
    assert(records.push(next).drop_last() =~= records);
    let before = file_after(content, records);
    assert((before + next.push('\n')).take(before.len() as int) =~= before);
    assert((before + next.push('\n')).skip(before.len() as int) =~= next.push('\n'));
    if records.len() == 0 {
        assert(content.take(content.len() as int) =~= content);
    } else {
        let earlier = records.drop_last();
        assert(earlier.push(records.last()) =~= records);
        records_are_appended_in_call_order(content, earlier, records.last());
        assert(before.take(content.len() as int) =~= file_after(content, earlier).take(
            content.len() as int,
        ));
    }
}

} // verus!

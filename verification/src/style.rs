//! Terminal styling: colours, dimming and italics, as the `colored` crate
//! applies them, and why none of it survives the stripping of escape sequences.

use crate::ansi::{
    escape_len, escapes_closed, lemma_closed_concat, lemma_closed_skip,
    lemma_escape_append, lemma_escape_shape, lemma_free_is_closed, lemma_run_len_bound, run_len,
    stripped, stripping_distributes, within, ESC,
};
use vstd::prelude::*;

verus! {

/// The foreground colours that records are drawn in.
#[derive(Clone, Copy, Debug, PartialEq, Eq, Structural)]
pub enum Colour {
    Red,
    BrightRed,
    BrightYellow,
    BrightGreen,
    BrightBlue,
    BrightMagenta,
}

impl Colour {
    /// The parameter of the escape sequence that selects this colour.
    pub open spec fn code(self) -> Seq<char> {
        match self {
            Colour::Red => seq!['3', '1'],
            Colour::BrightRed => seq!['9', '1'],
            Colour::BrightYellow => seq!['9', '3'],
            Colour::BrightGreen => seq!['9', '2'],
            Colour::BrightBlue => seq!['9', '4'],
            Colour::BrightMagenta => seq!['9', '5'],
        }
    }
}

/// The parameter of the escape sequence that dims text.
pub open spec fn dim_code() -> Seq<char> {
    seq!['2']
}

/// The parameter of the escape sequence that sets text in italics.
pub open spec fn italic_code() -> Seq<char> {
    seq!['3']
}

/// The escape sequence that switches on the style with parameter `code`.
pub open spec fn style_on(code: Seq<char>) -> Seq<char> {
    seq![ESC, '['] + code + seq!['m']
}

/// The escape sequence that switches every style off.
pub open spec fn style_off() -> Seq<char> {
    seq![ESC, '[', '0', 'm']
}

/// Whether `s` begins with `prefix`.
pub open spec fn starts_with(s: Seq<char>, prefix: Seq<char>) -> bool {
    prefix.len() <= s.len() && s.take(prefix.len() as int) == prefix
}

/// `text` with `style` put in again behind every place where `text` itself
/// switches all styles off, so that a styled text can hold styled parts.
pub open spec fn reapplied(text: Seq<char>, style: Seq<char>) -> Seq<char>
    decreases text.len(),
{
    if text.len() == 0 {
        text
    } else if starts_with(text, style_off()) {
        style_off() + style + reapplied(text.skip(4), style)
    } else {
        seq![text[0]] + reapplied(text.skip(1), style)
    }
}

/// `text` as it is shown in the style with parameter `code`.
pub open spec fn wrapped(text: Seq<char>, code: Seq<char>) -> Seq<char> {
    style_on(code) + reapplied(text, style_on(code)) + style_off()
}

/// Whether `out` is one of the two things that styling `text` can give: the
/// text itself, where colours are switched off, or the text wrapped in the
/// style's escape sequences.
pub open spec fn styled_as(out: Seq<char>, text: Seq<char>, code: Seq<char>) -> bool {
    out == text || out == wrapped(text, code)
}

/// Whether every character of `code` is a parameter character of an escape
/// sequence: a digit or one of `:;<=>?`.
pub open spec fn is_parameter_text(code: Seq<char>) -> bool {
    forall|i: int| 0 <= i < code.len() ==> within(#[trigger] code[i], '0', '?')
}

/// Whether `s` is exactly one escape sequence.
pub open spec fn is_one_escape(s: Seq<char>) -> bool {
    s.len() > 0 && escape_len(s) == s.len()
}

/// A run whose characters are followed by one outside the class ends there.
proof fn lemma_run_of_class(c: Seq<char>, rest: Seq<char>, lo: char, hi: char)
    requires
        forall|i: int| 0 <= i < c.len() ==> within(#[trigger] c[i], lo, hi),
        rest.len() > 0,
        !within(rest[0], lo, hi),
    ensures
        run_len(c + rest, lo, hi) == c.len(),
    decreases c.len(),
{
    if c.len() == 0 {
        assert(c + rest =~= rest);
    } else {
        assert((c + rest)[0] == c[0]);
        assert((c + rest).skip(1) =~= c.skip(1) + rest);
        lemma_run_of_class(c.skip(1), rest, lo, hi);
    }
}

/// The sequence that switches a style on is one escape sequence.
pub proof fn lemma_style_on_is_escape(code: Seq<char>)
    requires
        is_parameter_text(code),
    ensures
        is_one_escape(style_on(code)),
        style_on(code)[0] == ESC,
{
    let s = style_on(code);
    let m = seq!['m'];
    assert(s.skip(2) =~= code + m);
    lemma_run_of_class(code, m, '0', '?');
    let p = 2 + code.len();
    assert(s.skip(p as int) =~= m);
    assert(run_len(m, ' ', '/') == 0);
    assert(s[p as int] == 'm');
}

/// The sequence that switches all styles off is one escape sequence.
pub proof fn lemma_style_off_is_escape()
    ensures
        is_one_escape(style_off()),
        style_off() == style_on(seq!['0']),
{
    assert(style_off() =~= style_on(seq!['0']));
    lemma_style_on_is_escape(seq!['0']);
}

/// One escape sequence has closed escapes, and nothing is left of it after
/// stripping.
pub proof fn lemma_one_escape_vanishes(e: Seq<char>)
    requires
        is_one_escape(e),
    ensures
        escapes_closed(e),
        stripped(e) == Seq::<char>::empty(),
{
    lemma_escape_shape(e);
    assert(e.skip(0) =~= e);
    assert(e.skip(e.len() as int) =~= Seq::<char>::empty());
    assert(stripped(Seq::<char>::empty()) == Seq::<char>::empty());
    assert(stripped(e) == stripped(e.skip(escape_len(e) as int)));
    assert forall|i: int| 0 <= i < e.len() && e[i] == ESC implies escape_len(
        #[trigger] e.skip(i),
    ) > 0 by {
        assert(i == 0);
    }
}

/// A text that begins with an escape sequence begins with that sequence
/// alone: its first characters, taken by themselves, are one escape sequence.
proof fn lemma_escape_prefix(t: Seq<char>)
    requires
        escape_len(t) > 0,
    ensures
        is_one_escape(t.take(escape_len(t) as int)),
{
    let n = escape_len(t);
    lemma_escape_shape(t);
    let a = t.take(n as int);
    let b = t.skip(n as int);
    assert(a + b =~= t);
    let p = 2 + run_len(t.skip(2), '0', '?');
    let q = p + run_len(t.skip(p as int), ' ', '/');
    lemma_run_len_bound(t.skip(2), '0', '?');
    assert(t.skip(2) =~= a.skip(2) + b);
    lemma_run_prefix(a.skip(2), b, '0', '?');
    assert(t.skip(p as int) =~= a.skip(p as int) + b);
    lemma_run_prefix(a.skip(p as int), b, ' ', '/');
    assert(a[q as int] == t[q as int]);
}

/// A run of the whole that ends inside the first part is the run of the first
/// part.
proof fn lemma_run_prefix(a: Seq<char>, b: Seq<char>, lo: char, hi: char)
    requires
        run_len(a + b, lo, hi) < a.len(),
    ensures
        run_len(a, lo, hi) == run_len(a + b, lo, hi),
    decreases a.len(),
{
    assert((a + b)[0] == a[0]);
    if within(a[0], lo, hi) {
        assert((a + b).skip(1) =~= a.skip(1) + b);
        lemma_run_prefix(a.skip(1), b, lo, hi);
    }
}

/// Where the first `k` characters of a text hold no escape character, they
/// are unchanged by `reapplied`.
proof fn lemma_reapplied_passes_plain(x: Seq<char>, k: int, style: Seq<char>)
    requires
        0 <= k <= x.len(),
        forall|i: int| 0 <= i < k ==> #[trigger] x[i] != ESC,
    ensures
        reapplied(x, style) == x.take(k) + reapplied(x.skip(k), style),
    decreases k,
{
    if k == 0 {
        assert(x.skip(0) =~= x);
        assert(x.take(0) + reapplied(x, style) =~= reapplied(x, style));
    } else {
        assert(x[0] != ESC);
        if starts_with(x, style_off()) {
            assert(x.take(4)[0] == x[0]);
        }
        let y = x.skip(1);
        assert forall|i: int| 0 <= i < k - 1 implies #[trigger] y[i] != ESC by {
            assert(y[i] == x[i + 1]);
        }
        lemma_reapplied_passes_plain(y, k - 1, style);
        assert(y.skip(k - 1) =~= x.skip(k));
        assert(seq![x[0]] + (y.take(k - 1) + reapplied(x.skip(k), style)) =~= x.take(k)
            + reapplied(x.skip(k), style));
    }
}

/// `reapplied` on a text that begins by switching all styles off, given what
/// it does to the rest of the text.
proof fn lemma_reapplied_after_reset(t: Seq<char>, style: Seq<char>)
    requires
        starts_with(t, style_off()),
        is_one_escape(style),
        escapes_closed(reapplied(t.skip(4), style)),
        stripped(reapplied(t.skip(4), style)) == stripped(t.skip(4)),
    ensures
        escapes_closed(reapplied(t, style)),
        stripped(reapplied(t, style)) == stripped(t),
{
    let none = Seq::<char>::empty();
    let off = style_off();
    let rb = reapplied(t.skip(4), style);
    lemma_style_off_is_escape();
    assert(off + t.skip(4) =~= t);
    lemma_escape_append(off, t.skip(4));
    assert(stripped(t) == stripped(t.skip(4)));
    lemma_one_escape_vanishes(off);
    lemma_one_escape_vanishes(style);
    lemma_closed_concat(style, rb);
    lemma_closed_concat(off, style + rb);
    stripping_distributes(style, rb);
    stripping_distributes(off, style + rb);
    assert(reapplied(t, style) =~= off + (style + rb));
    assert(none + (none + stripped(rb)) =~= stripped(rb));
}

/// `reapplied` on a text that begins with an escape sequence other than the
/// one that switches all styles off, given what it does to the text behind
/// that sequence.
proof fn lemma_reapplied_after_escape(t: Seq<char>, style: Seq<char>)
    requires
        escape_len(t) > 0,
        !starts_with(t, style_off()),
        escapes_closed(reapplied(t.skip(escape_len(t) as int), style)),
        stripped(reapplied(t.skip(escape_len(t) as int), style)) == stripped(
            t.skip(escape_len(t) as int),
        ),
    ensures
        escapes_closed(reapplied(t, style)),
        stripped(reapplied(t, style)) == stripped(t),
{
    let none = Seq::<char>::empty();
    let n = escape_len(t);
    lemma_escape_shape(t);
    let a = t.take(n as int);
    let b = t.skip(n as int);
    let rb = reapplied(b, style);
    lemma_escape_prefix(t);
    lemma_one_escape_vanishes(a);
    let x = t.skip(1);
    assert forall|i: int| 0 <= i < n - 1 implies #[trigger] x[i] != ESC by {
        assert(x[i] == t[i + 1]);
    }
    lemma_reapplied_passes_plain(x, n - 1, style);
    assert(x.skip(n - 1) =~= b);
    assert(seq![t[0]] + x.take(n - 1) =~= a);
    assert(reapplied(t, style) =~= a + rb);
    lemma_closed_concat(a, rb);
    stripping_distributes(a, rb);
    assert(none + stripped(rb) =~= stripped(rb));
}

/// `reapplied` on a text that begins with a character other than the escape
/// character, given what it does to the rest of the text.
proof fn lemma_reapplied_after_plain(t: Seq<char>, style: Seq<char>)
    requires
        t.len() > 0,
        t[0] != ESC,
        escapes_closed(reapplied(t.skip(1), style)),
        stripped(reapplied(t.skip(1), style)) == stripped(t.skip(1)),
    ensures
        escapes_closed(reapplied(t, style)),
        stripped(reapplied(t, style)) == stripped(t),
{
    if starts_with(t, style_off()) {
        assert(t.take(4)[0] == t[0]);
    }
    let head = seq![t[0]];
    let rest = reapplied(t.skip(1), style);
    lemma_free_is_closed(head);
    lemma_closed_concat(head, rest);
    stripping_distributes(head, rest);
    assert(head.skip(1) =~= Seq::<char>::empty());
    assert(stripped(head.skip(1)) == Seq::<char>::empty());
    assert(stripped(head) =~= head);
}

/// Putting a style in again inside a text with closed escapes leaves its
/// escapes closed and changes nothing of what stripping leaves of it.
pub proof fn lemma_reapplied_is_invisible(t: Seq<char>, style: Seq<char>)
    requires
        escapes_closed(t),
        is_one_escape(style),
    ensures
        escapes_closed(reapplied(t, style)),
        stripped(reapplied(t, style)) == stripped(t),
    decreases t.len(),
{
    if t.len() == 0 {
    } else if t[0] == ESC {
        assert(t.skip(0) =~= t);
        let n = escape_len(t);
        lemma_escape_shape(t);
        lemma_closed_skip(t, n as int);
        lemma_reapplied_is_invisible(t.skip(n as int), style);
        if starts_with(t, style_off()) {
            lemma_style_off_is_escape();
            assert(style_off() + t.skip(4) =~= t);
            lemma_escape_append(style_off(), t.skip(4));
            lemma_reapplied_after_reset(t, style);
        } else {
            lemma_reapplied_after_escape(t, style);
        }
    } else {
        lemma_closed_skip(t, 1);
        lemma_reapplied_is_invisible(t.skip(1), style);
        lemma_reapplied_after_plain(t, style);
    }
}

/// Styling cannot be seen after stripping: whichever way the styling of a
/// text with closed escapes came out, its escapes are closed, and stripping
/// leaves of it what it leaves of the text.
pub proof fn styling_is_stripped_away(out: Seq<char>, text: Seq<char>, code: Seq<char>)
    requires
        styled_as(out, text, code),
        is_parameter_text(code),
        escapes_closed(text),
    ensures
        escapes_closed(out),
        stripped(out) == stripped(text),
{
    if out != text {
        let none = Seq::<char>::empty();
        let on = style_on(code);
        let off = style_off();
        let inner = reapplied(text, on);
        lemma_style_on_is_escape(code);
        lemma_style_off_is_escape();
        lemma_one_escape_vanishes(on);
        lemma_one_escape_vanishes(off);
        lemma_reapplied_is_invisible(text, on);
        lemma_closed_concat(on, inner);
        lemma_closed_concat(on + inner, off);
        stripping_distributes(on, inner);
        stripping_distributes(on + inner, off);
        assert((none + stripped(text)) + none =~= stripped(text));
    }
}

/// `Colorize::color` of the `colored` crate, followed by the conversion of the
/// coloured string to a `String`. Whether colours are on is read from the
/// environment and the terminal, so either outcome is allowed for.
#[verifier::external_body]
pub(crate) fn paint(text: &str, colour: Colour) -> (out: String)
    ensures
        styled_as(out@, text@, colour.code()),
{
    let foreground = match colour {
        Colour::Red => colored::Color::Red,
        Colour::BrightRed => colored::Color::BrightRed,
        Colour::BrightYellow => colored::Color::BrightYellow,
        Colour::BrightGreen => colored::Color::BrightGreen,
        Colour::BrightBlue => colored::Color::BrightBlue,
        Colour::BrightMagenta => colored::Color::BrightMagenta,
    };
    colored::Colorize::color(text, foreground).to_string()
}

/// `Colorize::dimmed` of the `colored` crate, followed by the conversion to a
/// `String`: the text itself, or the text wrapped in the dimming sequences.
#[verifier::external_body]
pub(crate) fn dim(text: &str) -> (out: String)
    ensures
        styled_as(out@, text@, dim_code()),
{
    colored::Colorize::dimmed(text).to_string()
}

/// `Colorize::italic` of the `colored` crate, followed by the conversion to a
/// `String`: the text itself, or the text wrapped in the italic sequences.
#[verifier::external_body]
pub(crate) fn italic(text: &str) -> (out: String)
    ensures
        styled_as(out@, text@, italic_code()),
{
    colored::Colorize::italic(text).to_string()
}

} // verus!

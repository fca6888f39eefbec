//! ANSI escape sequences: which runs of characters form one, and how a text is
//! freed of them before it goes to a log file.
//!
//! An escape sequence is the escape character, one character from `@` to `_`,
//! any number of parameter characters (`0` to `?`), any number of intermediate
//! characters (space to `/`) and one final character (`@` to `~`). The three
//! classes that follow the introducer do not overlap, so a sequence that starts
//! at a given escape character has exactly one possible end.

use crate::text::{chars_of, push_char};
use vstd::prelude::*;

verus! {

/// The escape character, U+001B.
pub const ESC: char = '\u{1b}';

/// Whether `c` lies between `lo` and `hi`, both included.
pub open spec fn within(c: char, lo: char, hi: char) -> bool {
    lo <= c <= hi
}

/// The number of characters at the start of `s` that lie between `lo` and `hi`.
pub open spec fn run_len(s: Seq<char>, lo: char, hi: char) -> nat
    decreases s.len(),
{
    if s.len() > 0 && within(s[0], lo, hi) {
        1 + run_len(s.skip(1), lo, hi)
    } else {
        0
    }
}

/// The length of the escape sequence that `s` starts with, or 0 if `s` does not
/// start with one.
pub open spec fn escape_len(s: Seq<char>) -> nat {
    if s.len() >= 2 && s[0] == ESC && within(s[1], '@', '_') {
        let p = 2 + run_len(s.skip(2), '0', '?');
        let q = p + run_len(s.skip(p as int), ' ', '/');
        if q < s.len() && within(s[q as int], '@', '~') {
            q + 1
        } else {
            0
        }
    } else {
        0
    }
}

/// `s` without its escape sequences: the text is read from the left, every
/// escape sequence met is dropped whole, and every other character is kept.
pub open spec fn stripped(s: Seq<char>) -> Seq<char>
    decreases s.len(),
{
    if s.len() == 0 {
        s
    } else if escape_len(s) > 0 {
        stripped(s.skip(escape_len(s) as int))
    } else {
        seq![s[0]] + stripped(s.skip(1))
    }
}

/// Whether `s` holds no escape character at all.
pub open spec fn escape_free(s: Seq<char>) -> bool {
    forall|i: int| 0 <= i < s.len() ==> s[i] != ESC
}

/// A run never reaches past the end of the text.
pub proof fn lemma_run_len_bound(s: Seq<char>, lo: char, hi: char)
    ensures
        run_len(s, lo, hi) <= s.len(),
    decreases s.len(),
{
    if s.len() > 0 && within(s[0], lo, hi) {
        lemma_run_len_bound(s.skip(1), lo, hi);
    }
}

/// Every character of a run lies in its class, and the character after the
/// run, if there is one, does not.
pub proof fn lemma_run_chars(s: Seq<char>, lo: char, hi: char)
    ensures
        forall|k: int| 0 <= k < run_len(s, lo, hi) ==> within(#[trigger] s[k], lo, hi),
        run_len(s, lo, hi) < s.len() ==> !within(s[run_len(s, lo, hi) as int], lo, hi),
    decreases s.len(),
{
    if s.len() > 0 && within(s[0], lo, hi) {
        let t = s.skip(1);
        lemma_run_chars(t, lo, hi);
        lemma_run_len_bound(t, lo, hi);
        assert forall|k: int| 0 <= k < run_len(s, lo, hi) implies within(
            #[trigger] s[k],
            lo,
            hi,
        ) by {
            if k > 0 {
                assert(s[k] == t[k - 1]);
            }
        }
        if run_len(s, lo, hi) < s.len() {
            assert(s[run_len(s, lo, hi) as int] == t[run_len(t, lo, hi) as int]);
        }
    }
}

/// A run that ends inside `a` is the same run when more text follows `a`.
pub proof fn lemma_run_append(a: Seq<char>, b: Seq<char>, lo: char, hi: char)
    requires
        run_len(a, lo, hi) < a.len(),
    ensures
        run_len(a + b, lo, hi) == run_len(a, lo, hi),
    decreases a.len(),
{
    assert((a + b)[0] == a[0]);
    if within(a[0], lo, hi) {
        assert((a + b).skip(1) =~= a.skip(1) + b);
        lemma_run_append(a.skip(1), b, lo, hi);
    }
}

/// An escape sequence lies within the text, begins with the escape character
/// and holds no other escape character.
pub proof fn lemma_escape_shape(s: Seq<char>)
    requires
        escape_len(s) > 0,
    ensures
        3 <= escape_len(s) <= s.len(),
        s[0] == ESC,
        forall|k: int| 1 <= k < escape_len(s) ==> #[trigger] s[k] != ESC,
        forall|k: int| 1 <= k < escape_len(s) ==> within(#[trigger] s[k], ' ', '~'),
{
    let p = 2 + run_len(s.skip(2), '0', '?');
    let q = p + run_len(s.skip(p as int), ' ', '/');
    lemma_run_len_bound(s.skip(2), '0', '?');
    lemma_run_chars(s.skip(2), '0', '?');
    lemma_run_chars(s.skip(p as int), ' ', '/');
    assert forall|k: int| 1 <= k < escape_len(s) implies within(#[trigger] s[k], ' ', '~') by {
        if 2 <= k < p {
            assert(s[k] == s.skip(2)[k - 2]);
        } else if p <= k < q {
            assert(s[k] == s.skip(p as int)[k - p]);
        }
    }
}

/// An escape sequence at the start of `a` is the same sequence when more text
/// follows `a`.
pub proof fn lemma_escape_append(a: Seq<char>, b: Seq<char>)
    requires
        escape_len(a) > 0,
    ensures
        escape_len(a + b) == escape_len(a),
{
    let p = 2 + run_len(a.skip(2), '0', '?');
    let q = p + run_len(a.skip(p as int), ' ', '/');
    lemma_run_len_bound(a.skip(2), '0', '?');
    lemma_run_len_bound(a.skip(p as int), ' ', '/');
    assert((a + b)[0] == a[0]);
    assert((a + b)[1] == a[1]);
    assert((a + b).skip(2) =~= a.skip(2) + b);
    lemma_run_append(a.skip(2), b, '0', '?');
    assert((a + b).skip(p as int) =~= a.skip(p as int) + b);
    lemma_run_append(a.skip(p as int), b, ' ', '/');
    assert((a + b)[q as int] == a[q as int]);
}

/// Whether every escape character of `s` begins an escape sequence that ends
/// within `s`.
pub open spec fn escapes_closed(s: Seq<char>) -> bool {
    forall|i: int| 0 <= i < s.len() && s[i] == ESC ==> escape_len(#[trigger] s.skip(i)) > 0
}

/// What is left of a text with closed escapes, after some of its characters
/// were read up to the start or the end of a sequence, has closed escapes too.
pub proof fn lemma_closed_skip(s: Seq<char>, n: int)
    requires
        escapes_closed(s),
        0 <= n <= s.len(),
    ensures
        escapes_closed(s.skip(n)),
{
    let t = s.skip(n);
    assert forall|i: int| 0 <= i < t.len() && t[i] == ESC implies escape_len(
        #[trigger] t.skip(i),
    ) > 0 by {
        assert(t.skip(i) =~= s.skip(n + i));
        assert(s[n + i] == ESC);
    }
}

/// A text without any escape character has closed escapes.
pub proof fn lemma_free_is_closed(s: Seq<char>)
    requires
        escape_free(s),
    ensures
        escapes_closed(s),
{
}

/// Two texts with closed escapes, one after the other, form a text with closed
/// escapes.
pub proof fn lemma_closed_concat(a: Seq<char>, b: Seq<char>)
    requires
        escapes_closed(a),
        escapes_closed(b),
    ensures
        escapes_closed(a + b),
{
    let s = a + b;
    assert forall|i: int| 0 <= i < s.len() && s[i] == ESC implies escape_len(
        #[trigger] s.skip(i),
    ) > 0 by {
        if i < a.len() {
            assert(s.skip(i) =~= a.skip(i) + b);
            assert(a[i] == ESC);
            lemma_escape_append(a.skip(i), b);
        } else {
            assert(s.skip(i) =~= b.skip(i - a.len()));
            assert(b[i - a.len()] == ESC);
        }
    }
}

/// Stripping leaves a text without escape characters as it is.
pub proof fn stripping_keeps_escape_free_text(s: Seq<char>)
    requires
        escape_free(s),
    ensures
        stripped(s) == s,
    decreases s.len(),
{
    if s.len() > 0 {
        assert(s[0] != ESC);
        stripping_keeps_escape_free_text(s.skip(1));
        assert(seq![s[0]] + s.skip(1) =~= s);
    }
}

/// Stripping goes through a concatenation whose first part has closed
/// escapes: no sequence of the whole reaches from the first part into the
/// second.
pub proof fn stripping_distributes(a: Seq<char>, b: Seq<char>)
    requires
        escapes_closed(a),
    ensures
        stripped(a + b) == stripped(a) + stripped(b),
    decreases a.len(),
{
    let s = a + b;
    if a.len() == 0 {
        assert(s =~= b);
        assert(stripped(a) + stripped(b) =~= stripped(b));
    } else if a[0] == ESC {
        assert(a.skip(0) =~= a);
        let n = escape_len(a);
        lemma_escape_shape(a);
        lemma_escape_append(a, b);
        assert(s.skip(n as int) =~= a.skip(n as int) + b);
        lemma_closed_skip(a, n as int);
        stripping_distributes(a.skip(n as int), b);
    } else {
        assert(s[0] == a[0]);
        assert(s.skip(1) =~= a.skip(1) + b);
        lemma_closed_skip(a, 1);
        stripping_distributes(a.skip(1), b);
        assert(seq![a[0]] + (stripped(a.skip(1)) + stripped(b)) =~= (seq![a[0]] + stripped(
            a.skip(1),
        )) + stripped(b));
    }
}

/// What stripping leaves of a text with closed escapes holds no escape
/// character, so it holds no escape sequence either.
pub proof fn stripping_closed_text_leaves_no_escape(s: Seq<char>)
    requires
        escapes_closed(s),
    ensures
        escape_free(stripped(s)),
    decreases s.len(),
{
    if s.len() > 0 {
        if s[0] == ESC {
            assert(s.skip(0) =~= s);
            lemma_escape_shape(s);
            lemma_closed_skip(s, escape_len(s) as int);
            stripping_closed_text_leaves_no_escape(s.skip(escape_len(s) as int));
        } else {
            lemma_closed_skip(s, 1);
            stripping_closed_text_leaves_no_escape(s.skip(1));
        }
    }
}

/// Where the run of `[lo, hi]` that starts at `from` ends.
fn run_end(v: &Vec<char>, from: usize, lo: char, hi: char) -> (end: usize)
    requires
        from <= v.len(),
    ensures
        from <= end <= v.len(),
        end - from == run_len(v@.skip(from as int), lo, hi),
{
    let mut j: usize = from;
    while j < v.len() && lo <= v[j] && v[j] <= hi
        invariant
            from <= j <= v.len(),
            run_len(v@.skip(from as int), lo, hi) == (j - from) + run_len(
                v@.skip(j as int),
                lo,
                hi,
            ),
        decreases v.len() - j,
    {
        assert(v@.skip(j as int).skip(1) =~= v@.skip(j + 1));
        j = j + 1;
    }
    j
}

/// The length of the escape sequence that starts at `i`, or 0 if none does.
fn escape_at(v: &Vec<char>, i: usize) -> (n: usize)
    requires
        i < v.len(),
    ensures
        n == escape_len(v@.skip(i as int)),
        i + n <= v.len(),
{
    let ghost s = v@.skip(i as int);
    if v.len() - i < 2 || v[i] != ESC || !('@' <= v[i + 1] && v[i + 1] <= '_') {
        return 0;
    }
    let p = run_end(v, i + 2, '0', '?');
    assert(s.skip(2) =~= v@.skip(i + 2));
    let q = run_end(v, p, ' ', '/');
    assert(s.skip(p - i) =~= v@.skip(p as int));
    if q < v.len() && '@' <= v[q] && v[q] <= '~' {
        q + 1 - i
    } else {
        0
    }
}

/// Removes every escape sequence from `message`.
pub fn remove_ansi(message: &str) -> (plain: String)
    ensures
        plain@ == stripped(message@),
{
    let v = chars_of(message);
    let mut plain = String::new();
    let mut i: usize = 0;
    assert(v@.skip(0) =~= v@);
    while i < v.len()
        invariant
            i <= v.len(),
            v@ == message@,
            plain@ + stripped(v@.skip(i as int)) == stripped(v@),
        decreases v.len() - i,
    {
        let ghost rest = v@.skip(i as int);
        let n = escape_at(&v, i);
        if n > 0 {
            assert(rest.skip(n as int) =~= v@.skip(i + n));
            i = i + n;
        } else {
            assert(rest.skip(1) =~= v@.skip(i + 1));
            assert(plain@.push(v@[i as int]) + stripped(rest.skip(1)) =~= plain@ + (seq![rest[0]]
                + stripped(rest.skip(1))));
            push_char(&mut plain, v[i]);
            i = i + 1;
        }
    }
    assert(plain@ + stripped(v@.skip(i as int)) =~= plain@);
    plain
}

} // verus!

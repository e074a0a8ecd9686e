//! The text of a report line: a tag, the label in a column of 26 characters,
//! and the elapsed milliseconds in a column of 9.

use vstd::prelude::*;
use vstd::string::*;
use crate::fixed::{millis_text, push_millis};

verus! {

/// Width of the column that holds the label.
pub const LABEL_WIDTH: usize = 26;

/// Width of the column that holds the milliseconds.
pub const MILLIS_WIDTH: usize = 9;

/// `n` spaces.
pub open spec fn spaces(n: nat) -> Seq<char> {
    Seq::new(n, |i: int| ' ')
}

/// `s` left-aligned in a column of `width` characters: spaces follow a
/// shorter text, a longer one is kept whole.
pub open spec fn pad_right(s: Seq<char>, width: nat) -> Seq<char> {
    if s.len() >= width {
        s
    } else {
        s + spaces((width - s.len()) as nat)
    }
}

/// `s` right-aligned in a column of `width` characters: spaces precede a
/// shorter text, a longer one is kept whole.
pub open spec fn pad_left(s: Seq<char>, width: nat) -> Seq<char> {
    if s.len() >= width {
        s
    } else {
        spaces((width - s.len()) as nat) + s
    }
}

/// The tag that opens the line of a timed block.
pub open spec fn block_tag() -> Seq<char> {
    seq!['[', 't', 'i', 'm', 'e', 'd', ']']
}

/// The tag that opens the line of a timer's mark, tab included.
pub open spec fn mark_tag() -> Seq<char> {
    seq!['\t', '[', 't', 'i', 'm', 'e', 'r', ']']
}

/// What follows the tag on every line: a space, the label column, a space,
/// the milliseconds column, and the unit.
pub open spec fn columns(label: Seq<char>, ns: nat) -> Seq<char> {
    seq![' '] + pad_right(label, LABEL_WIDTH as nat) + seq![' '] + pad_left(
        millis_text(ns),
        MILLIS_WIDTH as nat,
    ) + seq!['m', 's']
}

/// The line of a block that took `ns` nanoseconds, without a line break.
pub open spec fn timed_text(label: Seq<char>, ns: nat) -> Seq<char> {
    block_tag() + columns(label, ns)
}

/// The line of a mark that came `ns` nanoseconds after the one before it,
/// without a line break.
pub open spec fn timer_text(label: Seq<char>, ns: nat) -> Seq<char> {
    mark_tag() + columns(label, ns)
}

/// A left-aligned column holds the text first and then only spaces, as many
/// as the text falls short of the width: none for a text as long as the
/// column or longer, which is kept whole.
pub proof fn pad_right_layout(s: Seq<char>, width: nat)
    ensures
        pad_right(s, width).len() == if s.len() >= width { s.len() } else { width },
        pad_right(s, width).subrange(0, s.len() as int) == s,
        forall|i: int|
            s.len() <= i < pad_right(s, width).len() ==> #[trigger] pad_right(s, width)[i] == ' ',
{
    assert(pad_right(s, width).subrange(0, s.len() as int) =~= s);
}

/// A right-aligned column holds only spaces first, as many as the text falls
/// short of the width, and then the text: no space for a text as long as the
/// column or longer, which is kept whole.
pub proof fn pad_left_layout(s: Seq<char>, width: nat)
    ensures
        pad_left(s, width).len() == if s.len() >= width { s.len() } else { width },
        pad_left(s, width).subrange(
            pad_left(s, width).len() - s.len(),
            pad_left(s, width).len() as int,
        ) == s,
        forall|i: int|
            0 <= i < pad_left(s, width).len() - s.len() ==> #[trigger] pad_left(s, width)[i]
                == ' ',
{
    let p = pad_left(s, width);
    assert(p.subrange(p.len() - s.len(), p.len() as int) =~= s);
}

/// The width that the label takes on a line: that of its column, or its own
/// where it is longer.
pub open spec fn label_span(label: Seq<char>) -> nat {
    if label.len() >= LABEL_WIDTH {
        label.len()
    } else {
        LABEL_WIDTH as nat
    }
}

/// After the tag come a space, the label, spaces up to the end of the label's
/// column (none after a label of 26 characters or more), one more space, the
/// milliseconds column, and the unit. So the milliseconds column begins 28
/// characters after the tag wherever the label fits its column.
pub proof fn columns_layout(label: Seq<char>, ns: nat)
    ensures
        columns(label, ns).len() == label_span(label) + 4 + pad_left(
            millis_text(ns),
            MILLIS_WIDTH as nat,
        ).len(),
        columns(label, ns)[0] == ' ',
        columns(label, ns).subrange(1, label.len() as int + 1) == label,
        forall|i: int|
            label.len() + 1 <= i < label_span(label) + 2 ==> #[trigger] columns(label, ns)[i]
                == ' ',
        columns(label, ns).subrange(
            label_span(label) as int + 2,
            columns(label, ns).len() - 2,
        ) == pad_left(millis_text(ns), MILLIS_WIDTH as nat),
        columns(label, ns).subrange(columns(label, ns).len() - 2, columns(label, ns).len() as int)
            == seq!['m', 's'],
{
    let c = columns(label, ns);
    let field = pad_left(millis_text(ns), MILLIS_WIDTH as nat);
    let span = label_span(label);
    pad_right_layout(label, LABEL_WIDTH as nat);
    let padded = pad_right(label, LABEL_WIDTH as nat);
    assert(padded.len() == span);
    assert(c.len() == span + 4 + field.len());
    assert(c.subrange(1, label.len() as int + 1) =~= label) by {
        assert forall|i: int| 0 <= i < label.len() implies c[1 + i] == label[i] by {
            assert(c[1 + i] == padded[i]);
            assert(padded.subrange(0, label.len() as int)[i] == padded[i]);
        }
    }
    assert forall|i: int| label.len() + 1 <= i < span + 2 implies #[trigger] c[i] == ' ' by {
        if i < span + 1 {
            assert(c[i] == padded[i - 1]);
        }
    }
    assert(c.subrange(span as int + 2, c.len() - 2) =~= field);
    assert(c.subrange(c.len() - 2, c.len() as int) =~= seq!['m', 's']);
}

/// Appends `n` spaces to `out`.
fn push_spaces(out: &mut String, n: usize)
    ensures
        final(out)@ == old(out)@ + spaces(n as nat),
{
    let mut i: usize = 0;
    proof {
        reveal_strlit(" ");
        assert(out@ =~= old(out)@ + spaces(0));
    }
    while i < n
        invariant
            i <= n,
            out@ == old(out)@ + spaces(i as nat),
            " "@.len() == 1,
            " "@[0] == ' ',
        decreases n - i,
    {
        out.append(" ");
        i = i + 1;
        assert(out@ =~= old(out)@ + spaces(i as nat));
    }
}

/// Appends the columns for `label` and `ns` nanoseconds to `out`.
fn push_columns(out: &mut String, label: &str, ns: u64)
    ensures
        final(out)@ == old(out)@ + columns(label@, ns as nat),
{
    proof {
        reveal_strlit(" ");
        reveal_strlit("ms");
        assert(" "@ =~= seq![' ']);
        assert("ms"@ =~= seq!['m', 's']);
    }
    out.append(" ");
    out.append(label);
    let used: usize = label.unicode_len();
    if used < LABEL_WIDTH {
        push_spaces(out, LABEL_WIDTH - used);
    }
    out.append(" ");
    let mut millis = String::new();
    push_millis(&mut millis, ns);
    let digits: usize = millis.as_str().unicode_len();
    if digits < MILLIS_WIDTH {
        push_spaces(out, MILLIS_WIDTH - digits);
    }
    out.append(millis.as_str());
    out.append("ms");
    proof {
        assert(millis@ =~= millis_text(ns as nat));
        assert(final(out)@ =~= old(out)@ + columns(label@, ns as nat));
    }
}

/// The line that reports a block named `label` that took `ns` nanoseconds.
/// The line carries no line break.
pub fn timed_line(label: &str, ns: u64) -> (line: String)
    ensures
        line@ == timed_text(label@, ns as nat),
{
    proof {
        reveal_strlit("[timed]");
        assert("[timed]"@ =~= block_tag());
    }
    let mut line = String::from_str("[timed]");
    push_columns(&mut line, label, ns);
    line
}

/// The line that reports a mark named `label` that came `ns` nanoseconds
/// after the one before it. The line carries no line break.
pub fn timer_line(label: &str, ns: u64) -> (line: String)
    ensures
        line@ == timer_text(label@, ns as nat),
{
    proof {
        reveal_strlit("\t[timer]");
        assert("\t[timer]"@ =~= mark_tag());
    }
    let mut line = String::from_str("\t[timer]");
    push_columns(&mut line, label, ns);
    line
}

} // verus!

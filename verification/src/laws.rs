//! Properties of the trace, stated and proved once for all inputs.

use vstd::prelude::*;

use crate::events::ParseEvent;
use crate::render::{
    bare_line, indent_chars, indent_width, lemma_trace_from_snoc, level_after, line_at,
    print_level, trace_of, well_nested, MAX_INDENT,
};

verus! {

/// Law: the printed depths form a balanced bracket structure.  In a
/// well-nested event sequence, a start tag prints with the indentation of
/// the level it is seen at — two characters per open ancestor, up to the
/// cap — and the end tag that closes that element, arriving one level
/// higher and closing it first, prints with the same indentation.
pub proof fn lemma_matching_tags_share_indent(evs: Seq<ParseEvent>, i: int, j: int)
    requires
        well_nested(evs),
        0 <= i < j < evs.len(),
        evs[i] is StartTag,
        evs[j] is EndTag,
        level_after(evs.take(j), 0) == level_after(evs.take(i), 0) + 1,
    ensures
        line_at(evs[i], level_after(evs.take(i), 0)) == indent_chars(level_after(evs.take(i), 0))
            + bare_line(evs[i]),
        line_at(evs[j], level_after(evs.take(j), 0)) == indent_chars(level_after(evs.take(i), 0))
            + bare_line(evs[j]),
        indent_chars(level_after(evs.take(i), 0)).len() == indent_width(
            level_after(evs.take(i), 0),
        ),
        2 * level_after(evs.take(i), 0) <= MAX_INDENT ==> indent_chars(
            level_after(evs.take(i), 0),
        ).len() == 2 * level_after(evs.take(i), 0),
{
}

/// Leading spaces of a line, removed.
pub open spec fn strip_leading_spaces(s: Seq<char>) -> Seq<char>
    decreases s.len(),
{
    if s.len() > 0 && s[0] == ' ' {
        strip_leading_spaces(s.drop_first())
    } else {
        s
    }
}

/// Stripping spaces from an all-space prefix followed by text that does not
/// begin with a space leaves exactly that text.
proof fn lemma_strip_spaces_prefix(n: nat, s: Seq<char>)
    requires
        s.len() > 0,
        s[0] != ' ',
    ensures
        strip_leading_spaces(Seq::new(n, |i: int| ' ') + s) == s,
    decreases n,
{
    if n == 0 {
        assert(Seq::new(0, |i: int| ' ') + s =~= s);
    } else {
        assert((Seq::new(n, |i: int| ' ') + s).drop_first() =~= Seq::new(
            (n - 1) as nat,
            |i: int| ' ',
        ) + s);
        lemma_strip_spaces_prefix((n - 1) as nat, s);
    }
}

/// Law: indentation round-trips.  A tag line is its indentation followed by
/// the bare tag text, the bare text never begins with a space, and so
/// stripping the leading spaces of any printed tag line recovers the bare
/// tag text exactly.  Concatenating the bare texts in document order is
/// therefore the document's tag and attribute structure, indentation gone.
pub proof fn lemma_strip_indent_recovers_tag(ev: ParseEvent, level: nat)
    requires
        ev is StartTag || ev is EmptyTag || ev is EndTag,
    ensures
        line_at(ev, level) == indent_chars(print_level(ev, level)) + bare_line(ev),
        strip_leading_spaces(line_at(ev, level)) == bare_line(ev),
{
    reveal_strlit("<");
    reveal_strlit("</");
    assert(bare_line(ev).len() > 0 && bare_line(ev)[0] == '<');
    lemma_strip_spaces_prefix(indent_width(print_level(ev, level)), bare_line(ev));
}

/// Law: the trace is the in-order concatenation of one line per event.
/// Each event appends exactly its own line, printed at the level the
/// earlier events left behind, so the lines keep the document's order.
pub proof fn lemma_trace_grows_line_by_line(evs: Seq<ParseEvent>, k: int)
    requires
        0 <= k < evs.len(),
    ensures
        trace_of(evs.take(k + 1)) == trace_of(evs.take(k)) + line_at(
            evs[k],
            level_after(evs.take(k), 0),
        ),
{
    assert(evs.take(k + 1) =~= evs.take(k).push(evs[k]));
    lemma_trace_from_snoc(evs.take(k), evs[k], 0);
}

/// Law: the trace is a function of the event sequence alone.  Two renderings
/// of the same events are byte-for-byte identical; there is no hidden
/// nondeterminism in the printing.
pub proof fn lemma_trace_deterministic(evs: Seq<ParseEvent>, a: Seq<char>, b: Seq<char>)
    requires
        a == trace_of(evs),
        b == trace_of(evs),
    ensures
        a == b,
{
}

/// Law: the indentation saturates.  Once two levels both ask for at least
/// the cap, their indentation is identical; nesting beyond the cap neither
/// fails nor grows the prefix.
pub proof fn lemma_indent_saturates(l1: nat, l2: nat)
    requires
        2 * l1 >= MAX_INDENT,
        2 * l2 >= MAX_INDENT,
    ensures
        indent_chars(l1) == indent_chars(l2),
{
    assert(indent_chars(l1) =~= indent_chars(l2));
}

} // verus!

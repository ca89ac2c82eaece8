//! Rendering of parse events as an indented trace.
//!
//! Every function here is a pure computation over the library's own event
//! model: given a sequence of events, the trace is fully determined.  The
//! specification functions say, character for character, what each line
//! holds and how the nesting level moves from event to event.

use vstd::prelude::*;

use crate::events::{Attr, ParseEvent};

verus! {

/// The widest indentation the trace ever shows, in characters.
///
/// Indentation grows by two spaces per level of nesting until it reaches
/// this cap; deeper nesting shares the same maximal indent.
pub const MAX_INDENT: usize = 146;

/// The indentation width for a nesting level: two characters per level,
/// capped at `MAX_INDENT`.
pub open spec fn indent_width(level: nat) -> nat {
    if 2 * level > MAX_INDENT { MAX_INDENT as nat } else { 2 * level }
}

/// The indentation prefix for a nesting level.
pub open spec fn indent_chars(level: nat) -> Seq<char> {
    Seq::new(indent_width(level), |i: int| ' ')
}

/// How one attribute appears inside a tag line: ` key="value"`.
pub open spec fn attr_text(a: Attr) -> Seq<char> {
    " "@ + a.key@ + "=\""@ + a.value@ + "\""@
}

/// How a whole attribute list appears, in document order.
pub open spec fn attrs_text(attrs: Seq<Attr>) -> Seq<char>
    decreases attrs.len(),
{
    if attrs.len() == 0 {
        Seq::empty()
    } else {
        attrs_text(attrs.drop_last()) + attr_text(attrs.last())
    }
}

/// The text of one event's line without any indentation.  `EndOfInput`
/// prints nothing at all.
pub open spec fn bare_line(ev: ParseEvent) -> Seq<char> {
    match ev {
        ParseEvent::Declaration { version, encoding } => "xml version "@ + version@
            + " encoding "@ + encoding@ + "\n"@,
        ParseEvent::StartTag { name, attrs } => "<"@ + name@ + attrs_text(attrs@) + ">\n"@,
        ParseEvent::EndTag { name } => "</"@ + name@ + ">\n"@,
        ParseEvent::EmptyTag { name, attrs } => "<"@ + name@ + attrs_text(attrs@) + "/>\n"@,
        ParseEvent::Other { text } => text@ + "\n"@,
        ParseEvent::EndOfInput => Seq::empty(),
    }
}

/// Whether an event prints with indentation: only tags do.  The declaration
/// and generic events print flush left.
pub open spec fn is_tag(ev: ParseEvent) -> bool {
    ev is StartTag || ev is EndTag || ev is EmptyTag
}

/// The level whose indentation an event's line shows.  An end tag closes
/// its element first and prints one level shallower.
pub open spec fn print_level(ev: ParseEvent, level: nat) -> nat {
    if ev is EndTag {
        if level > 0 { (level - 1) as nat } else { 0 }
    } else {
        level
    }
}

/// One event's full line, as printed at the given nesting level.
pub open spec fn line_at(ev: ParseEvent, level: nat) -> Seq<char> {
    if is_tag(ev) {
        indent_chars(print_level(ev, level)) + bare_line(ev)
    } else {
        bare_line(ev)
    }
}

/// The nesting level after an event: a start tag opens an element, an end
/// tag closes one, nothing else moves the level.
pub open spec fn next_level(ev: ParseEvent, level: nat) -> nat {
    match ev {
        ParseEvent::StartTag { .. } => level + 1,
        ParseEvent::EndTag { .. } => if level > 0 { (level - 1) as nat } else { 0 },
        _ => level,
    }
}

/// The nesting level after a whole sequence of events, starting from `level`.
pub open spec fn level_after(evs: Seq<ParseEvent>, level: nat) -> nat
    decreases evs.len(),
{
    if evs.len() == 0 {
        level
    } else {
        level_after(evs.drop_first(), next_level(evs.first(), level))
    }
}

/// No end tag arrives while no element is open: the level never underflows.
pub open spec fn well_nested_from(evs: Seq<ParseEvent>, level: nat) -> bool
    decreases evs.len(),
{
    if evs.len() == 0 {
        true
    } else {
        (evs.first() is EndTag ==> level > 0) && well_nested_from(
            evs.drop_first(),
            next_level(evs.first(), level),
        )
    }
}

/// A whole event sequence is well nested when, starting from level zero,
/// every end tag finds an open element to close.
pub open spec fn well_nested(evs: Seq<ParseEvent>) -> bool {
    well_nested_from(evs, 0)
}

/// The full trace of an event sequence from a starting level: the lines of
/// the events, in order.
pub open spec fn trace_from(evs: Seq<ParseEvent>, level: nat) -> Seq<char>
    decreases evs.len(),
{
    if evs.len() == 0 {
        Seq::empty()
    } else {
        line_at(evs.first(), level) + trace_from(evs.drop_first(), next_level(evs.first(), level))
    }
}

/// The full trace of a document's events, starting at level zero.
pub open spec fn trace_of(evs: Seq<ParseEvent>) -> Seq<char> {
    trace_from(evs, 0)
}

/// Appending one event to a sequence moves the final level by that event's
/// own step.
proof fn lemma_level_after_snoc(s: Seq<ParseEvent>, e: ParseEvent, l0: nat)
    ensures
        level_after(s.push(e), l0) == next_level(e, level_after(s, l0)),
    decreases s.len(),
{
    if s.len() == 0 {
        assert(s.push(e).first() == e);
        assert(s.push(e).drop_first() =~= Seq::<ParseEvent>::empty());
        assert(level_after(s.push(e), l0) == level_after(
            s.push(e).drop_first(),
            next_level(s.push(e).first(), l0),
        ));
        assert(level_after(s.push(e).drop_first(), next_level(e, l0)) == next_level(e, l0));
        assert(level_after(s, l0) == l0);
    } else {
        assert(s.push(e).first() == s.first());
        assert(s.push(e).drop_first() =~= s.drop_first().push(e));
        lemma_level_after_snoc(s.drop_first(), e, next_level(s.first(), l0));
    }
}

/// Appending one event appends exactly that event's line to the trace,
/// printed at the level the earlier events left behind.
pub proof fn lemma_trace_from_snoc(s: Seq<ParseEvent>, e: ParseEvent, l0: nat)
    ensures
        trace_from(s.push(e), l0) == trace_from(s, l0) + line_at(e, level_after(s, l0)),
    decreases s.len(),
{
    if s.len() == 0 {
        assert(s.push(e).first() == e);
        assert(s.push(e).drop_first() =~= Seq::<ParseEvent>::empty());
        assert(trace_from(s.push(e), l0) == line_at(s.push(e).first(), l0) + trace_from(
            s.push(e).drop_first(),
            next_level(s.push(e).first(), l0),
        ));
        assert(trace_from(s.push(e).drop_first(), next_level(e, l0)) == Seq::<char>::empty());
        assert(trace_from(s, l0) == Seq::<char>::empty());
        assert(level_after(s, l0) == l0);
        assert(Seq::<char>::empty() + line_at(e, l0) =~= line_at(e, l0));
        assert(line_at(e, l0) + Seq::<char>::empty() =~= line_at(e, l0));
    } else {
        assert(s.push(e).first() == s.first());
        assert(s.push(e).drop_first() =~= s.drop_first().push(e));
        lemma_trace_from_snoc(s.drop_first(), e, next_level(s.first(), l0));
        assert(line_at(s.first(), l0) + (trace_from(s.drop_first(), next_level(s.first(), l0))
            + line_at(e, level_after(s, l0))) =~= trace_from(s, l0) + line_at(
            e,
            level_after(s, l0),
        ));
    }
}

/// A sequence with one more event is well nested exactly when the earlier
/// events are and the new event does not underflow the level they reach.
proof fn lemma_well_nested_snoc(s: Seq<ParseEvent>, e: ParseEvent, l0: nat)
    ensures
        well_nested_from(s.push(e), l0) == (well_nested_from(s, l0) && (e is EndTag
            ==> level_after(s, l0) > 0)),
    decreases s.len(),
{
    if s.len() == 0 {
        assert(s.push(e).first() == e);
        assert(s.push(e).drop_first() =~= Seq::<ParseEvent>::empty());
        assert(well_nested_from(s.push(e), l0) == ((s.push(e).first() is EndTag ==> l0 > 0)
            && well_nested_from(s.push(e).drop_first(), next_level(s.push(e).first(), l0))));
        assert(well_nested_from(s.push(e).drop_first(), next_level(e, l0)));
        assert(well_nested_from(s, l0));
        assert(level_after(s, l0) == l0);
    } else {
        assert(s.push(e).first() == s.first());
        assert(s.push(e).drop_first() =~= s.drop_first().push(e));
        lemma_well_nested_snoc(s.drop_first(), e, next_level(s.first(), l0));
    }
}

/// Every prefix of a well-nested stretch is well nested.
proof fn lemma_well_nested_prefix(s: Seq<ParseEvent>, l0: nat, i: int)
    requires
        well_nested_from(s, l0),
        0 <= i <= s.len(),
    ensures
        well_nested_from(s.take(i), l0),
    decreases s.len(),
{
    if s.len() == 0 || i == 0 {
        assert(s.take(i) =~= Seq::<ParseEvent>::empty());
    } else {
        assert(s.take(i).drop_first() =~= s.drop_first().take(i - 1));
        lemma_well_nested_prefix(s.drop_first(), next_level(s.first(), l0), i - 1);
    }
}

/// The level can grow by at most one per event.
proof fn lemma_level_after_bound(s: Seq<ParseEvent>, l0: nat)
    ensures
        level_after(s, l0) <= l0 + s.len(),
    decreases s.len(),
{
    if s.len() > 0 {
        lemma_level_after_bound(s.drop_first(), next_level(s.first(), l0));
    }
}

/// The indentation prefix for a nesting level: `2 * level` spaces, capped
/// at `MAX_INDENT` characters.  Saturation is silent: the function never
/// fails, however deep the nesting.
pub fn spaces_for_level(level: usize) -> (r: String)
    ensures
        r@ == indent_chars(level as nat),
{
    let width: usize = if level >= MAX_INDENT / 2 {
        MAX_INDENT
    } else {
        2 * level
    };
    let mut out = String::new();
    let mut i: usize = 0;
    while i < width
        invariant
            i <= width,
            width as nat == indent_width(level as nat),
            out@.len() == i,
            forall|j: int| 0 <= j < i ==> out@[j] == ' ',
        decreases width - i,
    {
        proof {
            reveal_strlit(" ");
        }
        out.append(" ");
        i = i + 1;
    }
    proof {
        assert(out@ =~= indent_chars(level as nat));
    }
    out
}

/// Append the attribute list of a tag, each as ` key="value"`, in order.
fn push_attrs(out: &mut String, attrs: &Vec<Attr>)
    ensures
        final(out)@ == old(out)@ + attrs_text(attrs@),
{
    let ghost start = old(out)@;
    let mut i: usize = 0;
    while i < attrs.len()
        invariant
            i <= attrs@.len(),
            out@ == start + attrs_text(attrs@.take(i as int)),
        decreases attrs@.len() - i,
    {
        let a = &attrs[i];
        out.append(" ");
        out.append(a.key.as_str());
        out.append("=\"");
        out.append(a.value.as_str());
        out.append("\"");
        proof {
            assert(attrs@.take(i + 1).drop_last() =~= attrs@.take(i as int));
            assert(attrs@.take(i + 1).last() == attrs@[i as int]);
            assert(out@ =~= start + attrs_text(attrs@.take(i + 1)));
        }
        i = i + 1;
    }
    proof {
        assert(attrs@.take(attrs@.len() as int) =~= attrs@);
    }
}

/// Append one event's line to the trace, printed at the given level.  An
/// end tag must find an open element: its line shows the level after the
/// close.
fn push_line(out: &mut String, ev: &ParseEvent, level: usize)
    requires
        ev is EndTag ==> level > 0,
    ensures
        final(out)@ == old(out)@ + line_at(*ev, level as nat),
{
    let ghost start = old(out)@;
    match ev {
        ParseEvent::Declaration { version, encoding } => {
            out.append("xml version ");
            out.append(version.as_str());
            out.append(" encoding ");
            out.append(encoding.as_str());
            out.append("\n");
            proof {
                assert(out@ =~= start + line_at(*ev, level as nat));
            }
        },
        ParseEvent::StartTag { name, attrs } => {
            let ind = spaces_for_level(level);
            out.append(ind.as_str());
            out.append("<");
            out.append(name.as_str());
            push_attrs(out, attrs);
            out.append(">\n");
            proof {
                assert(out@ =~= start + line_at(*ev, level as nat));
            }
        },
        ParseEvent::EndTag { name } => {
            let ind = spaces_for_level(level - 1);
            out.append(ind.as_str());
            out.append("</");
            out.append(name.as_str());
            out.append(">\n");
            proof {
                assert(out@ =~= start + line_at(*ev, level as nat));
            }
        },
        ParseEvent::EmptyTag { name, attrs } => {
            let ind = spaces_for_level(level);
            out.append(ind.as_str());
            out.append("<");
            out.append(name.as_str());
            push_attrs(out, attrs);
            out.append("/>\n");
            proof {
                assert(out@ =~= start + line_at(*ev, level as nat));
            }
        },
        ParseEvent::Other { text } => {
            out.append(text.as_str());
            out.append("\n");
            proof {
                assert(out@ =~= start + line_at(*ev, level as nat));
            }
        },
        ParseEvent::EndOfInput => {
            proof {
                assert(out@ =~= start + line_at(*ev, level as nat));
            }
        },
    }
}

/// Render the trace of a well-nested event sequence: every event's line, in
/// document order, indented by the nesting level it is seen at.
pub fn tokens_trace(events: &Vec<ParseEvent>) -> (r: String)
    requires
        well_nested(events@),
    ensures
        r@ == trace_of(events@),
{
    let mut out = String::new();
    let mut level: usize = 0;
    let mut i: usize = 0;
    while i < events.len()
        invariant
            well_nested(events@),
            i <= events@.len(),
            level as nat == level_after(events@.take(i as int), 0),
            out@ == trace_of(events@.take(i as int)),
        decreases events@.len() - i,
    {
        proof {
            assert(events@.take(i + 1) =~= events@.take(i as int).push(events@[i as int]));
            lemma_well_nested_prefix(events@, 0, i + 1);
            lemma_well_nested_snoc(events@.take(i as int), events@[i as int], 0);
            lemma_trace_from_snoc(events@.take(i as int), events@[i as int], 0);
            lemma_level_after_snoc(events@.take(i as int), events@[i as int], 0);
            lemma_level_after_bound(events@.take(i as int), 0);
        }
        let ev = &events[i];
        push_line(&mut out, ev, level);
        match ev {
            ParseEvent::StartTag { .. } => {
                level = level + 1;
            },
            ParseEvent::EndTag { .. } => {
                level = level - 1;
            },
            _ => {},
        }
        i = i + 1;
    }
    proof {
        assert(events@.take(events@.len() as int) =~= events@);
    }
    out
}

/// Find the first end tag that no open element matches: the index at which
/// the nesting level would underflow.  `None` means the events are well
/// nested.
pub fn first_underflow(events: &Vec<ParseEvent>) -> (r: Option<usize>)
    ensures
        r is None ==> well_nested(events@),
        r matches Some(i) ==> i < events@.len() && events@[i as int] is EndTag && well_nested(
            events@.take(i as int),
        ) && level_after(events@.take(i as int), 0) == 0 && !well_nested(events@),
{
    let mut level: usize = 0;
    let mut i: usize = 0;
    while i < events.len()
        invariant
            i <= events@.len(),
            level as nat == level_after(events@.take(i as int), 0),
            well_nested_from(events@.take(i as int), 0),
        decreases events@.len() - i,
    {
        proof {
            assert(events@.take(i + 1) =~= events@.take(i as int).push(events@[i as int]));
            lemma_well_nested_snoc(events@.take(i as int), events@[i as int], 0);
            lemma_level_after_snoc(events@.take(i as int), events@[i as int], 0);
            lemma_level_after_bound(events@.take(i as int), 0);
        }
        let ev = &events[i];
        match ev {
            ParseEvent::StartTag { .. } => {
                level = level + 1;
            },
            ParseEvent::EndTag { .. } => {
                if level == 0 {
                    proof {
                        if well_nested(events@) {
                            lemma_well_nested_prefix(events@, 0, i + 1);
                        }
                    }
                    return Some(i);
                }
                level = level - 1;
            },
            _ => {},
        }
        i = i + 1;
    }
    proof {
        assert(events@.take(events@.len() as int) =~= events@);
    }
    None
}

} // verus!

//! The boundary to the `quick_xml` parser, and the whole print pass.
//!
//! The parser is consumed as a black box, but not an unspecified one: for
//! a fixed document text, under the trim-text configuration this library
//! always sets, the sequence of steps it yields is a function of the text
//! alone, and `step_at` names it.  A reader carries the document and its
//! position as ghost state, one trusted step function ties what comes back
//! to `step_at`, and everything decided about the steps — which decode,
//! what event each becomes, how the trace renders — is verified.

use vstd::prelude::*;

use crate::events::{Attr, ParseEvent, TraceError};
use crate::render::{first_underflow, level_after, tokens_trace, trace_of, well_nested};

verus! {

#[verifier::external_type_specification]
#[verifier::external_body]
#[verifier::reject_recursive_types(R)]
pub struct ExReader<R>(quick_xml::Reader<R>);

#[verifier::external_type_specification]
#[verifier::external_body]
pub struct ExBytesStart<'i>(quick_xml::events::BytesStart<'i>);

#[verifier::external_type_specification]
#[verifier::external_body]
pub struct ExBytesDecl<'i>(quick_xml::events::BytesDecl<'i>);

#[verifier::external_type_specification]
#[verifier::external_body]
pub struct ExEscapeError(quick_xml::escape::EscapeError);

/// One parser step, as plain values: what the parser and its field
/// accessors hand back for one event, before any decode decision.  A
/// `Result` or `Option` error side carries the error's own text.
enum Step {
    DeclStep { version: Result<String, String>, encoding: Option<Result<String, String>> },
    StartStep { name: String, attrs: Vec<(String, String)>, attr_error: Option<String> },
    EndStep { name: String },
    EmptyStep { name: String, attrs: Vec<(String, String)>, attr_error: Option<String> },
    OtherStep { text: String },
    EofStep,
    FailStep { message: String },
}

/// The ghost form of one parser step: the same data, over sequences of
/// characters.
pub enum RawStep {
    RawDecl { version: Result<Seq<char>, Seq<char>>, encoding: Option<Result<Seq<char>, Seq<char>>> },
    RawStart { name: Seq<char>, attrs: Seq<(Seq<char>, Seq<char>)>, attr_error: Option<Seq<char>> },
    RawEnd { name: Seq<char> },
    RawEmpty { name: Seq<char>, attrs: Seq<(Seq<char>, Seq<char>)>, attr_error: Option<Seq<char>> },
    RawOther { text: Seq<char> },
    RawEof,
    RawFail { message: Seq<char> },
}

/// What the parser yields at step `k` of a document, counting from zero:
/// a function of the document text alone, under trim-text configuration.
pub uninterp spec fn step_at(doc: Seq<char>, k: nat) -> RawStep;

spec fn field_view(f: Result<String, String>) -> Result<Seq<char>, Seq<char>> {
    match f {
        Ok(v) => Ok(v@),
        Err(m) => Err(m@),
    }
}

spec fn attr_views(attrs: Seq<(String, String)>) -> Seq<(Seq<char>, Seq<char>)> {
    attrs.map_values(|p: (String, String)| (p.0@, p.1@))
}

/// The ghost form of an exec step.
spec fn step_view(s: Step) -> RawStep {
    match s {
        Step::DeclStep { version, encoding } => RawStep::RawDecl {
            version: field_view(version),
            encoding: match encoding {
                None => None,
                Some(f) => Some(field_view(f)),
            },
        },
        Step::StartStep { name, attrs, attr_error } => RawStep::RawStart {
            name: name@,
            attrs: attr_views(attrs@),
            attr_error: match attr_error {
                None => None,
                Some(m) => Some(m@),
            },
        },
        Step::EndStep { name } => RawStep::RawEnd { name: name@ },
        Step::EmptyStep { name, attrs, attr_error } => RawStep::RawEmpty {
            name: name@,
            attrs: attr_views(attrs@),
            attr_error: match attr_error {
                None => None,
                Some(m) => Some(m@),
            },
        },
        Step::OtherStep { text } => RawStep::RawOther { text: text@ },
        Step::EofStep => RawStep::RawEof,
        Step::FailStep { message } => RawStep::RawFail { message: message@ },
    }
}

/// What quick_xml::escape::unescape yields on a text — the text with its
/// XML escape sequences replaced, or nothing when an escape is malformed:
/// a function of the text alone.
pub uninterp spec fn unescape_result(raw: Seq<char>) -> Option<Seq<char>>;

/// A step that yields an event decodes to it: the name and the keys carry
/// over, a start tag's attribute values are unescaped, a self-closing
/// tag's keep their raw text, and a declaration's missing encoding reads
/// as empty text.  A parser failure yields no event.
pub open spec fn decodes_to(step: RawStep, ev: ParseEvent) -> bool {
    match step {
        RawStep::RawDecl { version, encoding } => ev matches ParseEvent::Declaration {
            version: dv,
            encoding: de,
        } && version matches Ok(v) && dv@ == v && (match encoding {
            None => de@ == Seq::<char>::empty(),
            Some(Ok(es)) => de@ == es,
            Some(Err(_)) => false,
        }),
        RawStep::RawStart { name, attrs, attr_error } => ev matches ParseEvent::StartTag {
            name: n,
            attrs: a,
        } && n@ == name && attr_error is None && a@.len() == attrs.len() && (forall|i: int|
            0 <= i < attrs.len() ==> a@[i].key@ == (#[trigger] attrs[i]).0 && unescape_result(
                attrs[i].1,
            ) == Some(a@[i].value@)),
        RawStep::RawEnd { name } => ev matches ParseEvent::EndTag { name: n } && n@ == name,
        RawStep::RawEmpty { name, attrs, attr_error } => ev matches ParseEvent::EmptyTag {
            name: n,
            attrs: a,
        } && n@ == name && attr_error is None && a@.len() == attrs.len() && (forall|i: int|
            0 <= i < attrs.len() ==> a@[i].key@ == (#[trigger] attrs[i]).0 && a@[i].value@
                == attrs[i].1),
        RawStep::RawOther { text } => ev matches ParseEvent::Other { text: t } && t@ == text,
        RawStep::RawEof => ev is EndOfInput,
        RawStep::RawFail { .. } => false,
    }
}

/// Whether a step decodes without error: its fields are all there, and a
/// start tag's attribute values all unescape.  A parser failure does not
/// decode; the end of input does.
pub open spec fn step_event_ok(step: RawStep) -> bool {
    match step {
        RawStep::RawDecl { version, encoding } => version is Ok && !(encoding matches Some(
            Err(_),
        )),
        RawStep::RawStart { attrs, attr_error, .. } => attr_error is None && (forall|i: int|
            0 <= i < attrs.len() ==> unescape_result((#[trigger] attrs[i]).1) is Some),
        RawStep::RawEmpty { attr_error, .. } => attr_error is None,
        RawStep::RawEnd { .. } => true,
        RawStep::RawOther { .. } => true,
        RawStep::RawEof => true,
        RawStep::RawFail { .. } => false,
    }
}

/// How many steps one pass is prepared to pull for a document of this
/// length.  The parser consumes input before every step but the last, so
/// the budget is never reached in fact; the contracts carry it so that
/// nothing need be assumed of the parser's progress.
pub open spec fn pull_budget(len: nat) -> nat {
    if len >= usize::MAX - 2 {
        usize::MAX as nat
    } else {
        len + 2
    }
}

/// Every step before the `n`-th decodes cleanly, and none is the end of
/// input.
pub open spec fn clean_before(doc: Seq<char>, n: nat) -> bool {
    forall|k: nat|
        k < n ==> step_event_ok(#[trigger] step_at(doc, k)) && !(step_at(doc, k) is RawEof)
}

/// Relies on quick_xml::Reader::from_str: a streaming parser over the
/// document text.
#[verifier::external_body]
fn reader_from_str<'a>(s: &'a str) -> quick_xml::Reader<&'a [u8]> {
    quick_xml::Reader::from_str(s)
}

/// Relies on quick_xml::reader::Config::trim_text, reached through
/// Reader::config_mut: the parser drops text nodes that are only
/// whitespace.
#[verifier::external_body]
fn reader_trim_text(r: &mut quick_xml::Reader<&[u8]>) {
    r.config_mut().trim_text(true);
}

/// Relies on quick_xml::events::BytesDecl::version and
/// quick_xml::events::BytesDecl::encoding, with each error's Display text:
/// the declaration's fields, as plain values for `next_step`.
#[verifier::external_body]
fn decl_step(d: &quick_xml::events::BytesDecl) -> Step {
    Step::DeclStep {
        version: d.version().map(|v| v.into_owned()).map_err(|e| format!("{}", e)),
        encoding: d.encoding().map(|r| r.map(|v| v.into_owned()).map_err(|e| format!("{}", e))),
    }
}

/// Relies on quick_xml::events::BytesStart::name, QName::into_inner,
/// BytesStart::attributes and the Attributes iterator, with the attribute
/// error's Display text: the tag's name and its attributes in document
/// order, keys and raw values as text, for `next_step`.
#[verifier::external_body]
fn tag_step(s: &quick_xml::events::BytesStart, empty: bool) -> Step {
    let name = String::from(s.name().into_inner());
    let mut attrs: Vec<(String, String)> = Vec::new();
    let mut attr_error: Option<String> = None;
    for a in s.attributes() {
        match a {
            Ok(a) => attrs.push((String::from(a.key.into_inner()), a.value.into_owned())),
            Err(e) => { attr_error = Some(format!("{}", e)); break; },
        }
    }
    if empty { Step::EmptyStep { name, attrs, attr_error } }
    else { Step::StartStep { name, attrs, attr_error } }
}

/// A parser over one document, carrying as ghost state the document's text
/// and how many steps were already pulled.
struct TokenReader<'a> {
    inner: quick_xml::Reader<&'a [u8]>,
    text: Ghost<Seq<char>>,
    steps: Ghost<nat>,
}

impl<'a> TokenReader<'a> {
    /// The document this reader parses.
    spec fn doc(&self) -> Seq<char> {
        self.text@
    }

    /// How many steps were already pulled.
    spec fn pos(&self) -> nat {
        self.steps@
    }

    /// Open a reader over the text, in trim-text mode, before the first
    /// step.
    fn new(s: &'a str) -> (r: TokenReader<'a>)
        ensures
            r.doc() == s@,
            r.pos() == 0,
    {
        let mut inner = reader_from_str(s);
        reader_trim_text(&mut inner);
        TokenReader { inner, text: Ghost(s@), steps: Ghost(0nat) }
    }

    /// Relies on quick_xml::Reader::read_event, with the helpers above for
    /// the event's fields, the Debug text of other events and of the
    /// parser's error: the document's next parse step, in order, `Eof`
    /// steps after the last one.  For a fixed text and configuration the
    /// parse is deterministic, so the step is exactly `step_at` of the
    /// document and of how many steps were already pulled.
    #[verifier::external_body]
    fn next_step(&mut self) -> (s: Step)
        ensures
            final(self).doc() == old(self).doc(),
            final(self).pos() == old(self).pos() + 1,
            step_view(s) == step_at(old(self).doc(), old(self).pos()),
    {
        match self.inner.read_event() {
            Ok(quick_xml::events::Event::Decl(d)) => decl_step(&d),
            Ok(quick_xml::events::Event::Start(s)) => tag_step(&s, false),
            Ok(quick_xml::events::Event::End(e)) => Step::EndStep {
                name: String::from(e.name().into_inner()),
            },
            Ok(quick_xml::events::Event::Empty(s)) => tag_step(&s, true),
            Ok(quick_xml::events::Event::Eof) => Step::EofStep,
            Ok(other) => Step::OtherStep { text: format!("{:?}", other) },
            Err(e) => Step::FailStep { message: format!("{:?}", e) },
        }
    }
}

/// Relies on quick_xml::escape::unescape: the XML escape sequences of the
/// text replaced by the characters they stand for, or an error when an
/// escape is malformed; which of the two comes is a function of the text
/// alone.
#[verifier::external_body]
fn unescape_text(raw: &str) -> (r: Result<String, quick_xml::escape::EscapeError>)
    ensures
        (r is Ok) == (unescape_result(raw@) is Some),
        r matches Ok(t) ==> unescape_result(raw@) == Some(t@),
{
    quick_xml::escape::unescape(raw).map(|v| v.into_owned())
}

/// Relies on the Display rendering of quick_xml::escape::EscapeError.
#[verifier::external_body]
fn escape_error_display(e: &quick_xml::escape::EscapeError) -> String {
    format!("{}", e)
}

/// Unescape a start tag's attribute values, keeping keys and order; used
/// by `decode_step` for the one step kind whose values are decoded.
fn unescape_attrs(attrs: &Vec<(String, String)>) -> (r: Result<Vec<Attr>, TraceError>)
    ensures
        (r is Ok) == (forall|i: int|
            0 <= i < attrs@.len() ==> unescape_result((#[trigger] attrs@[i]).1@) is Some),
        r matches Ok(a) ==> a@.len() == attrs@.len() && (forall|i: int|
            0 <= i < attrs@.len() ==> a@[i].key@ == (#[trigger] attrs@[i]).0@ && unescape_result(
                attrs@[i].1@,
            ) == Some(a@[i].value@)),
        r matches Err(e) ==> e is DecodeFailed,
{
    let mut out: Vec<Attr> = Vec::new();
    let mut i: usize = 0;
    while i < attrs.len()
        invariant
            i <= attrs@.len(),
            out@.len() == i,
            forall|k: int|
                0 <= k < i ==> out@[k].key@ == (#[trigger] attrs@[k]).0@ && unescape_result(
                    attrs@[k].1@,
                ) == Some(out@[k].value@),
        decreases attrs@.len() - i,
    {
        let key = attrs[i].0.clone();
        match unescape_text(attrs[i].1.as_str()) {
            Ok(v) => out.push(Attr { key, value: v }),
            Err(e) => {
                return Err(TraceError::DecodeFailed { message: escape_error_display(&e) });
            },
        }
        i = i + 1;
    }
    Ok(out)
}

/// Convert a tag's raw attributes as they stand, keys and raw values in
/// order; used by `decode_step` for self-closing tags.
fn raw_attrs(attrs: &Vec<(String, String)>) -> (r: Vec<Attr>)
    ensures
        r@.len() == attrs@.len(),
        forall|i: int|
            0 <= i < attrs@.len() ==> r@[i].key@ == (#[trigger] attrs@[i]).0@ && r@[i].value@
                == attrs@[i].1@,
{
    let mut out: Vec<Attr> = Vec::new();
    let mut i: usize = 0;
    while i < attrs.len()
        invariant
            i <= attrs@.len(),
            out@.len() == i,
            forall|k: int|
                0 <= k < i ==> out@[k].key@ == (#[trigger] attrs@[k]).0@ && out@[k].value@
                    == attrs@[k].1@,
        decreases attrs@.len() - i,
    {
        out.push(Attr { key: attrs[i].0.clone(), value: attrs[i].1.clone() });
        i = i + 1;
    }
    out
}

/// Decode one parser step into the event it stands for: succeeds exactly
/// when the step decodes cleanly, and the event is then the step's
/// decoding.  A parser failure becomes `ParseFailed` with the parser's own
/// text; every missing or malformed field becomes `DecodeFailed`.
fn decode_step(step: Step) -> (r: Result<ParseEvent, TraceError>)
    ensures
        (r is Ok) == step_event_ok(step_view(step)),
        r matches Ok(ev) ==> decodes_to(step_view(step), ev),
        r matches Err(e) ==> (step_view(step) is RawFail ==> e is ParseFailed) && (!(step_view(
            step,
        ) is RawFail) ==> e is DecodeFailed),
        r matches Err(e) ==> (step_view(step) matches RawStep::RawFail { message } ==> e
            matches TraceError::ParseFailed { message: t } && t@ == message),
{
    match step {
        Step::DeclStep { version, encoding } => {
            let v = match version {
                Ok(v) => v,
                Err(m) => {
                    return Err(TraceError::DecodeFailed { message: m });
                },
            };
            let enc = match encoding {
                None => String::new(),
                Some(Ok(t)) => t,
                Some(Err(m)) => {
                    return Err(TraceError::DecodeFailed { message: m });
                },
            };
            Ok(ParseEvent::Declaration { version: v, encoding: enc })
        },
        Step::StartStep { name, attrs, attr_error } => {
            if let Some(m) = attr_error {
                return Err(TraceError::DecodeFailed { message: m });
            }
            match unescape_attrs(&attrs) {
                Ok(a) => {
                    proof {
                        let raw = attr_views(attrs@);
                        assert forall|i: int| 0 <= i < raw.len() implies a@[i].key@ == (
                        #[trigger] raw[i]).0 && unescape_result(raw[i].1) == Some(a@[i].value@)
                            && unescape_result(raw[i].1) is Some by {
                            assert(raw[i] == (attrs@[i].0@, attrs@[i].1@));
                        }
                    }
                    Ok(ParseEvent::StartTag { name, attrs: a })
                },
                Err(e) => {
                    proof {
                        let i0 = choose|i: int|
                            0 <= i < attrs@.len() && !(unescape_result(
                                (#[trigger] attrs@[i]).1@,
                            ) is Some);
                        assert(attr_views(attrs@)[i0] == (attrs@[i0].0@, attrs@[i0].1@));
                        assert(!step_event_ok(step_view(step)));
                    }
                    Err(e)
                },
            }
        },
        Step::EndStep { name } => Ok(ParseEvent::EndTag { name }),
        Step::EmptyStep { name, attrs, attr_error } => {
            if let Some(m) = attr_error {
                return Err(TraceError::DecodeFailed { message: m });
            }
            let a = raw_attrs(&attrs);
            proof {
                let raw = attr_views(attrs@);
                assert forall|i: int| 0 <= i < raw.len() implies a@[i].key@ == (
                #[trigger] raw[i]).0 && a@[i].value@ == raw[i].1 by {
                    assert(raw[i] == (attrs@[i].0@, attrs@[i].1@));
                }
            }
            Ok(ParseEvent::EmptyTag { name, attrs: a })
        },
        Step::OtherStep { text } => Ok(ParseEvent::Other { text }),
        Step::EofStep => Ok(ParseEvent::EndOfInput),
        Step::FailStep { message } => Err(TraceError::ParseFailed { message }),
    }
}

/// Pull and decode every event of one document, in order, until the end
/// of input, the parser's first error, or the first field that cannot be
/// decoded.
///
/// The events are the decodings of the document's own parse steps, in
/// order from the first; exactly the successful runs end with
/// `EndOfInput`, and success comes if and only if the parse reaches its
/// end of input with every step on the way decoding cleanly.  On an
/// error, the error's kind and text name the step that stopped the pass.
pub fn read_events(xml: &str) -> (r: (Vec<ParseEvent>, Option<TraceError>))
    ensures
        (r.1 is None) == (r.0@.len() > 0 && r.0@.last() is EndOfInput),
        forall|k: int| 0 <= k < r.0@.len() - 1 ==> !(r.0@[k] is EndOfInput),
        forall|k: int|
            0 <= k < r.0@.len() ==> decodes_to(step_at(xml@, k as nat), #[trigger] r.0@[k]),
        r.1 matches Some(e) ==> !(e is UnbalancedEnd),
        r.1 matches Some(e) ==> (e is DecodeFailed ==> !step_event_ok(
            step_at(xml@, r.0@.len() as nat),
        ) && !(step_at(xml@, r.0@.len() as nat) is RawFail)),
        r.1 matches Some(e) ==> (e matches TraceError::ParseFailed { message } ==> (step_at(
            xml@,
            r.0@.len() as nat,
        ) matches RawStep::RawFail { message: t } && message@ == t) || r.0@.len() == pull_budget(
            xml@.len(),
        )),
        forall|n: nat|
            (n < pull_budget(xml@.len()) && #[trigger] step_at(xml@, n) is RawEof && clean_before(
                xml@,
                n,
            )) ==> r.1 is None,
{
    let ghost doc = xml@;
    let mut tr = TokenReader::new(xml);
    let mut events: Vec<ParseEvent> = Vec::new();
    let mut error: Option<TraceError> = None;
    let mut done = false;
    let n = xml.unicode_len();
    let mut fuel: usize = if n >= usize::MAX - 2 {
        usize::MAX
    } else {
        n + 2
    };
    while fuel > 0 && !done
        invariant
            tr.doc() == doc,
            doc == xml@,
            fuel + tr.pos() == pull_budget(doc.len()),
            !done ==> error is None && tr.pos() == events@.len() && clean_before(
                doc,
                events@.len() as nat,
            ),
            done && error is None ==> tr.pos() == events@.len() && events@.len() > 0
                && events@.last() is EndOfInput && step_at(
                doc,
                (events@.len() - 1) as nat,
            ) is RawEof && clean_before(doc, (events@.len() - 1) as nat),
            done && error is Some ==> tr.pos() == events@.len() + 1 && clean_before(
                doc,
                events@.len() as nat,
            ),
            forall|k: int|
                0 <= k < events@.len() ==> decodes_to(step_at(doc, k as nat), #[trigger] events@[k]),
            forall|k: int|
                0 <= k < events@.len() ==> ((#[trigger] events@[k]) is EndOfInput <==> (done
                    && error is None && k == events@.len() - 1)),
            error matches Some(e) ==> done && !(e is UnbalancedEnd),
            error matches Some(e) ==> (e is DecodeFailed ==> !step_event_ok(
                step_at(doc, events@.len() as nat),
            ) && !(step_at(doc, events@.len() as nat) is RawFail)),
            error matches Some(e) ==> (e matches TraceError::ParseFailed { message } ==> step_at(
                doc,
                events@.len() as nat,
            ) matches RawStep::RawFail { message: t } && message@ == t),
        decreases fuel,
    {
        fuel = fuel - 1;
        let step = tr.next_step();
        match decode_step(step) {
            Ok(ev) => {
                let at_end = matches!(&ev, ParseEvent::EndOfInput);
                events.push(ev);
                if at_end {
                    done = true;
                }
            },
            Err(e) => {
                error = Some(e);
                done = true;
            },
        }
    }
    if !done {
        error = Some(
            TraceError::ParseFailed { message: String::from_str("event stream did not end") },
        );
    }
    proof {
        assert forall|m: nat|
            (m < pull_budget(doc.len()) && #[trigger] step_at(doc, m) is RawEof && clean_before(
                doc,
                m,
            )) implies error is None by {
            if error is Some {
                let len = events@.len() as nat;
                if m < len {
                    assert(!(step_at(doc, m) is RawEof));
                } else if m > len {
                    assert(step_event_ok(step_at(doc, len)) && !(step_at(doc, len) is RawEof));
                }
            }
        }
    }
    (events, error)
}

/// The outcome of one print pass: the decoded events, the trace — exactly
/// the rendering of those events, which are always well nested — and the
/// error that stopped the pass, if one did.  On an error, the events and
/// the trace gathered up to it stand as partial output.
pub struct TraceReport {
    pub events: Vec<ParseEvent>,
    pub trace: String,
    pub error: Option<TraceError>,
}

/// One whole print pass over a document's text: pull every event, decode
/// it, and render the indented trace, two spaces per level of nesting.
///
/// The events are the decodings of the document's own parse steps, in
/// order from the first.  An end tag that no open element matches stops
/// the pass with `UnbalancedEnd`; the parser's and the decoder's errors
/// stop it with their kind and the step that caused them.  No error is
/// recovered.
pub fn print_tokens(xml: &str) -> (r: TraceReport)
    ensures
        well_nested(r.events@),
        r.trace@ == trace_of(r.events@),
        (r.error is None) == (r.events@.len() > 0 && r.events@.last() is EndOfInput),
        forall|k: int| 0 <= k < r.events@.len() - 1 ==> !(r.events@[k] is EndOfInput),
        forall|k: int|
            0 <= k < r.events@.len() ==> decodes_to(step_at(xml@, k as nat), #[trigger] r.events@[k]),
        r.error matches Some(e) ==> (e is UnbalancedEnd ==> step_at(
            xml@,
            r.events@.len() as nat,
        ) is RawEnd && level_after(r.events@, 0) == 0),
        r.error matches Some(e) ==> (e is DecodeFailed ==> !step_event_ok(
            step_at(xml@, r.events@.len() as nat),
        ) && !(step_at(xml@, r.events@.len() as nat) is RawFail)),
        r.error matches Some(e) ==> (e matches TraceError::ParseFailed { message } ==> (step_at(
            xml@,
            r.events@.len() as nat,
        ) matches RawStep::RawFail { message: t } && message@ == t) || r.events@.len()
            == pull_budget(xml@.len())),
{
    let (mut events, read_error) = read_events(xml);
    let mut error = read_error;
    match first_underflow(&events) {
        Some(i) => {
            proof {
                assert(events@.subrange(0, i as int) =~= events@.take(i as int));
                assert(i > 0 ==> !(events@[i - 1] is EndOfInput));
                assert(decodes_to(step_at(xml@, i as nat), events@[i as int]));
                assert(forall|k: int|
                    0 <= k < i ==> decodes_to(step_at(xml@, k as nat), #[trigger] events@.take(
                        i as int,
                    )[k]));
            }
            events.truncate(i);
            error = Some(TraceError::UnbalancedEnd);
        },
        None => {},
    }
    let trace = tokens_trace(&events);
    TraceReport { events, trace, error }
}

} // verus!

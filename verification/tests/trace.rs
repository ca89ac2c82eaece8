use glif_print::events::{Attr, ParseEvent, TraceError};
use glif_print::render::{first_underflow, spaces_for_level, tokens_trace};
use glif_print::xml::print_tokens;

#[test]
fn declaration_without_encoding_prints_empty_encoding() {
    let report = print_tokens("<?xml version=\"1.0\"?>");
    assert!(report.error.is_none());
    assert_eq!(report.trace, "xml version 1.0 encoding \n");
}

#[test]
fn declaration_with_encoding_prints_it() {
    let report = print_tokens("<?xml version=\"1.0\" encoding=\"UTF-8\"?>");
    assert!(report.error.is_none());
    assert_eq!(report.trace, "xml version 1.0 encoding UTF-8\n");
}

#[test]
fn start_tag_attribute_is_unescaped() {
    let report = print_tokens("<a b=\"x&amp;y\"></a>");
    assert!(report.error.is_none());
    assert_eq!(report.trace, "<a b=\"x&y\">\n</a>\n");
}

#[test]
fn empty_tag_attribute_keeps_raw_text() {
    let report = print_tokens("<a b=\"x&amp;y\"/>");
    assert!(report.error.is_none());
    assert_eq!(report.trace, "<a b=\"x&amp;y\"/>\n");
}

#[test]
fn nesting_indents_two_spaces_per_level() {
    let report = print_tokens("<a><b c=\"1\"><d/></b></a>");
    assert!(report.error.is_none());
    assert_eq!(report.trace, "<a>\n  <b c=\"1\">\n    <d/>\n  </b>\n</a>\n");
}

#[test]
fn matching_tags_share_their_indent() {
    let report = print_tokens("<a><b><c></c></b></a>");
    assert!(report.error.is_none());
    let lines: Vec<&str> = report.trace.lines().collect();
    assert_eq!(lines.len(), 6);
    for depth in 0..3 {
        let open = lines[depth];
        let close = lines[5 - depth];
        let open_indent = open.len() - open.trim_start_matches(' ').len();
        let close_indent = close.len() - close.trim_start_matches(' ').len();
        assert_eq!(open_indent, 2 * depth);
        assert_eq!(close_indent, 2 * depth);
    }
}

#[test]
fn stripping_indent_recovers_tag_structure() {
    let input = "<a><b c=\"1\"><d/></b></a>";
    let report = print_tokens(input);
    assert!(report.error.is_none());
    let bare: Vec<String> = report
        .trace
        .lines()
        .map(|l| l.trim_start_matches(' ').to_string())
        .collect();
    assert_eq!(bare, vec!["<a>", "<b c=\"1\">", "<d/>", "</b>", "</a>"]);
}

#[test]
fn printing_twice_is_identical() {
    let input = "<?xml version=\"1.0\"?><a b=\"x&amp;y\"><c/>text</a>";
    let first = print_tokens(input);
    let second = print_tokens(input);
    assert_eq!(first.trace, second.trace);
    assert_eq!(first.events, second.events);
    assert_eq!(first.error, second.error);
}

#[test]
fn deep_nesting_saturates_without_failing() {
    let mut input = String::new();
    for _ in 0..100 {
        input.push_str("<d>");
    }
    for _ in 0..100 {
        input.push_str("</d>");
    }
    let report = print_tokens(&input);
    assert!(report.error.is_none());
    let mut max_indent = 0;
    for line in report.trace.lines() {
        let indent = line.len() - line.trim_start_matches(' ').len();
        assert!(indent <= 146);
        if indent > max_indent {
            max_indent = indent;
        }
    }
    assert_eq!(max_indent, 146);
    let lines: Vec<&str> = report.trace.lines().collect();
    assert_eq!(lines[80], format!("{}<d>", " ".repeat(146)));
    assert_eq!(lines[90], format!("{}<d>", " ".repeat(146)));
}

#[test]
fn empty_input_succeeds_with_empty_trace() {
    let report = print_tokens("");
    assert!(report.error.is_none());
    assert_eq!(report.trace, "");
    assert_eq!(report.events, vec![ParseEvent::EndOfInput]);
}

#[test]
fn events_mirror_the_document_structure() {
    let report = print_tokens("<a b=\"1\"><c/></a>");
    assert!(report.error.is_none());
    assert_eq!(
        report.events,
        vec![
            ParseEvent::StartTag {
                name: "a".to_string(),
                attrs: vec![Attr { key: "b".to_string(), value: "1".to_string() }],
            },
            ParseEvent::EmptyTag { name: "c".to_string(), attrs: vec![] },
            ParseEvent::EndTag { name: "a".to_string() },
            ParseEvent::EndOfInput,
        ]
    );
}

#[test]
fn text_nodes_print_unindented_generic_lines() {
    let report = print_tokens("<a>hi</a>");
    assert!(report.error.is_none());
    let lines: Vec<&str> = report.trace.lines().collect();
    assert_eq!(lines.len(), 3);
    assert_eq!(lines[0], "<a>");
    assert!(lines[1].contains("hi"));
    assert!(!lines[1].starts_with(' '));
    assert_eq!(lines[2], "</a>");
}

#[test]
fn whitespace_only_text_is_dropped() {
    let report = print_tokens("<a>\n   \n</a>");
    assert!(report.error.is_none());
    assert_eq!(report.trace, "<a>\n</a>\n");
    assert_eq!(report.events.len(), 3);
}

#[test]
fn truncated_document_reports_parse_error() {
    let report = print_tokens("<a");
    assert!(matches!(report.error, Some(TraceError::ParseFailed { .. })));
}

#[test]
fn unmatched_end_tag_reports_parse_error() {
    let report = print_tokens("</a>");
    assert!(matches!(report.error, Some(TraceError::ParseFailed { .. })));
    assert_eq!(report.trace, "");
}

#[test]
fn declaration_without_version_reports_decode_error() {
    let report = print_tokens("<?xml encoding=\"utf-8\"?>");
    assert!(matches!(report.error, Some(TraceError::DecodeFailed { .. })));
}

#[test]
fn bad_escape_in_start_tag_reports_decode_error() {
    let report = print_tokens("<a b=\"&bad;\"></a>");
    assert!(matches!(report.error, Some(TraceError::DecodeFailed { .. })));
}

#[test]
fn bad_escape_in_empty_tag_is_kept_raw() {
    let report = print_tokens("<a b=\"&bad;\"/>");
    assert!(report.error.is_none());
    assert_eq!(report.trace, "<a b=\"&bad;\"/>\n");
}

#[test]
fn error_keeps_partial_trace() {
    let report = print_tokens("<a><b></b><a");
    assert!(matches!(report.error, Some(TraceError::ParseFailed { .. })));
    assert_eq!(report.trace, "<a>\n  <b>\n  </b>\n");
}

#[test]
fn spaces_for_level_doubles_until_the_cap() {
    assert_eq!(spaces_for_level(0), "");
    assert_eq!(spaces_for_level(1), "  ");
    assert_eq!(spaces_for_level(5), " ".repeat(10));
    assert_eq!(spaces_for_level(73), " ".repeat(146));
    assert_eq!(spaces_for_level(74), " ".repeat(146));
    assert_eq!(spaces_for_level(10_000), " ".repeat(146));
    assert_eq!(spaces_for_level(usize::MAX), " ".repeat(146));
}

#[test]
fn tokens_trace_renders_hand_built_events() {
    let events = vec![
        ParseEvent::StartTag {
            name: "root".to_string(),
            attrs: vec![Attr { key: "k".to_string(), value: "v".to_string() }],
        },
        ParseEvent::EmptyTag { name: "leaf".to_string(), attrs: vec![] },
        ParseEvent::EndTag { name: "root".to_string() },
        ParseEvent::EndOfInput,
    ];
    let trace = tokens_trace(&events);
    assert_eq!(trace, "<root k=\"v\">\n  <leaf/>\n</root>\n");
}

#[test]
fn error_messages_carry_their_account() {
    let report = print_tokens("<a");
    match report.error {
        Some(e @ TraceError::ParseFailed { .. }) => {
            assert!(!e.message().is_empty());
        }
        other => panic!("expected a parse failure, got {:?}", other),
    }
    assert_eq!(
        TraceError::UnbalancedEnd.message(),
        "end tag with no open element"
    );
}

#[test]
fn first_underflow_finds_the_extra_end_tag() {
    let bad = vec![
        ParseEvent::StartTag { name: "a".to_string(), attrs: vec![] },
        ParseEvent::EndTag { name: "a".to_string() },
        ParseEvent::EndTag { name: "a".to_string() },
    ];
    assert_eq!(first_underflow(&bad), Some(2));
    let good = vec![
        ParseEvent::StartTag { name: "a".to_string(), attrs: vec![] },
        ParseEvent::EndTag { name: "a".to_string() },
        ParseEvent::EndOfInput,
    ];
    assert_eq!(first_underflow(&good), None);
}

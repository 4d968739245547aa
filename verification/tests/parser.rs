use vtt_clips::models::VttCue;
use vtt_clips::services::vtt_parser::{ParseError, VttParser};

fn cue(start: &str, end: &str, text: &str) -> VttCue {
    VttCue {
        start_timestamp: start.to_string(),
        end_timestamp: end.to_string(),
        text: text.to_string(),
    }
}

fn strings(lines: &[&str]) -> Vec<String> {
    lines.iter().map(|l| l.to_string()).collect()
}

fn range(start: &str, end: &str) -> Option<(String, String)> {
    Some((start.to_string(), end.to_string()))
}

#[test]
fn parses_a_single_cue() {
    let cues = VttParser::parse("WEBVTT\n\n00:00:01.000 --> 00:00:05.000\nHello world\n").unwrap();
    assert_eq!(cues, vec![cue("00:00:01.000", "00:00:05.000", "Hello world")]);
}

#[test]
fn rejects_a_text_without_signature() {
    assert_eq!(
        VttParser::parse("00:00:01.000 --> 00:00:05.000\nHello\n"),
        Err(ParseError::InvalidFormat)
    );
    assert_eq!(VttParser::parse(""), Err(ParseError::InvalidFormat));
    assert_eq!(VttParser::parse(" WEBVTT\n"), Err(ParseError::InvalidFormat));
    assert_eq!(VttParser::parse("WEBVT"), Err(ParseError::InvalidFormat));
    assert_eq!(VttParser::parse("webvtt\n"), Err(ParseError::InvalidFormat));
}

#[test]
fn says_errors_in_words() {
    assert_eq!(ParseError::InvalidFormat.message(), "Invalid VTT file: missing WEBVTT header");
    assert_eq!(
        ParseError::PatternRejected.message(),
        "Invalid VTT pattern: range lines cannot be read"
    );
}

#[test]
fn accepts_a_bare_signature() {
    assert_eq!(VttParser::parse("WEBVTT"), Ok(vec![]));
    assert_eq!(VttParser::parse("WEBVTT\n"), Ok(vec![]));
    assert_eq!(VttParser::parse("WEBVTT - a title\n\nno cues here\n"), Ok(vec![]));
}

#[test]
fn passes_over_a_malformed_block() {
    let text = "WEBVTT\n\n1\n00:00:01.000 --> 00:00:05.000\nHello world\n\n2\n00:00:06.000 00:00:09.000\nLost\n";
    let cues = VttParser::parse(text).unwrap();
    assert_eq!(cues, vec![cue("00:00:01.000", "00:00:05.000", "Hello world")]);
}

#[test]
fn passes_over_a_malformed_block_before_a_good_one() {
    let text = "WEBVTT\n\n00:00:01.00 --> 00:00:05.000\nShort fraction\n\n00:00:06.000 --> 00:00:09.000\nKept\n";
    let cues = VttParser::parse(text).unwrap();
    assert_eq!(cues, vec![cue("00:00:06.000", "00:00:09.000", "Kept")]);
}

#[test]
fn keeps_cues_in_source_order() {
    let text = "WEBVTT\n\n1\n00:00:09.000 --> 00:00:12.000\nLate first\n\n2\n00:00:01.000 --> 00:00:05.000\nEarly second\n\n3\n00:00:05.000 --> 00:00:07.000\nThird\n";
    let cues = VttParser::parse(text).unwrap();
    assert_eq!(
        cues,
        vec![
            cue("00:00:09.000", "00:00:12.000", "Late first"),
            cue("00:00:01.000", "00:00:05.000", "Early second"),
            cue("00:00:05.000", "00:00:07.000", "Third"),
        ]
    );
}

#[test]
fn joins_text_lines_with_one_space() {
    let text = "WEBVTT\n\n00:00:01.000 --> 00:00:05.000\n  first line  \n\tsecond line\nthird\n\nnot text\n";
    let cues = VttParser::parse(text).unwrap();
    assert_eq!(cues, vec![cue("00:00:01.000", "00:00:05.000", "first line second line third")]);
}

#[test]
fn ends_text_at_the_next_range_line() {
    let text = "WEBVTT\n00:00:01.000 --> 00:00:02.000\none\n00:00:02.000 --> 00:00:03.000\ntwo\n00:00:03.000 --> 00:00:04.000\n00:00:04.000 --> 00:00:05.000\nfour";
    let cues = VttParser::parse(text).unwrap();
    assert_eq!(
        cues,
        vec![
            cue("00:00:01.000", "00:00:02.000", "one"),
            cue("00:00:02.000", "00:00:03.000", "two"),
            cue("00:00:03.000", "00:00:04.000", ""),
            cue("00:00:04.000", "00:00:05.000", "four"),
        ]
    );
}

#[test]
fn keeps_a_number_inside_the_text() {
    let text = "WEBVTT\n\n7\n00:00:01.000 --> 00:00:05.000\nThe answer is\n42\n\n8\n";
    let cues = VttParser::parse(text).unwrap();
    assert_eq!(cues, vec![cue("00:00:01.000", "00:00:05.000", "The answer is 42")]);
}

#[test]
fn reads_carriage_returns_as_whitespace() {
    let text = "WEBVTT\r\n\r\n1\r\n00:00:01.000 --> 00:00:05.000\r\nHello\r\nworld\r\n\r\n";
    let cues = VttParser::parse(text).unwrap();
    assert_eq!(cues, vec![cue("00:00:01.000", "00:00:05.000", "Hello world")]);
}

#[test]
fn tolerates_whitespace_around_the_arrow() {
    let text = "WEBVTT\n\n00:00:01.000-->00:00:05.000\ntight\n\n   00:00:06.000   -->\t00:00:09.000 align:start\nloose\n";
    let cues = VttParser::parse(text).unwrap();
    assert_eq!(
        cues,
        vec![
            cue("00:00:01.000", "00:00:05.000", "tight"),
            cue("00:00:06.000", "00:00:09.000", "loose"),
        ]
    );
}

#[test]
fn asks_for_the_range_at_the_start_of_the_line() {
    let text = "WEBVTT\n\nat 00:00:01.000 --> 00:00:05.000\nnot a cue\n";
    assert_eq!(VttParser::parse(text), Ok(vec![]));
}

#[test]
fn does_not_ask_that_a_cue_ends_after_it_starts() {
    let text = "WEBVTT\n\n00:00:09.000 --> 00:00:01.000\nbackwards\n";
    let cues = VttParser::parse(text).unwrap();
    assert_eq!(cues, vec![cue("00:00:09.000", "00:00:01.000", "backwards")]);
}

#[test]
fn assembles_cues_from_lines_and_ranges() {
    let lines = strings(&["WEBVTT", "", "1", "a --> b", "Hello", "world", "", "c --> d", "e --> f", "x"]);
    let ranges = vec![
        None,
        None,
        None,
        range("a", "b"),
        None,
        None,
        None,
        range("c", "d"),
        range("e", "f"),
        None,
    ];
    let cues = VttParser::assemble_cues(&lines, &ranges);
    assert_eq!(cues, vec![cue("a", "b", "Hello world"), cue("c", "d", ""), cue("e", "f", "x")]);
}

#[test]
fn assembles_no_cue_from_a_blank_or_numbered_range() {
    let lines = strings(&["", "12", "+3", "text", "after"]);
    let ranges =
        vec![range("a", "b"), range("c", "d"), range("e", "f"), range("g", "h"), None];
    let cues = VttParser::assemble_cues(&lines, &ranges);
    assert_eq!(cues, vec![cue("g", "h", "after")]);
}

#[test]
fn assembles_nothing_from_nothing() {
    assert_eq!(VttParser::assemble_cues(&vec![], &vec![]), vec![]);
}

#[test]
fn reads_a_long_transcript() {
    let mut text = String::from("WEBVTT\n\n");
    let mut expected = Vec::new();
    for i in 0..2000u32 {
        let start = VttParser::seconds_to_timestamp(i * 2) + ".000";
        let end = VttParser::seconds_to_timestamp(i * 2 + 2) + ".000";
        text.push_str(&format!("{}\n{} --> {}\nline {}\n\n", i + 1, start, end, i));
        expected.push(cue(&start, &end, &format!("line {}", i)));
    }
    assert_eq!(VttParser::parse(&text), Ok(expected));
}

use vtt_clips::commands::{reconcile, sanitize_filename, validate_and_map_clip, validate_clips};
use vtt_clips::models::{ClipSuggestion, VttCue};
use vtt_clips::services::VttParser;

fn cue(start: &str, end: &str, text: &str) -> VttCue {
    VttCue {
        start_timestamp: start.to_string(),
        end_timestamp: end.to_string(),
        text: text.to_string(),
    }
}

fn suggestion(title: &str, start: &str, end: &str) -> ClipSuggestion {
    ClipSuggestion {
        title: title.to_string(),
        start_time: start.to_string(),
        end_time: end.to_string(),
    }
}

fn span(start: &str, end: &str) -> Option<(String, String)> {
    Some((start.to_string(), end.to_string()))
}

fn talk() -> Vec<VttCue> {
    vec![
        cue("00:00:01.000", "00:00:05.500", "Welcome"),
        cue("00:00:10.250", "00:00:15.750", "First point"),
        cue("00:00:20.000", "00:00:25.999", "Second point"),
        cue("00:00:30.000", "00:00:35.000", "Goodbye"),
    ]
}

#[test]
fn sanitizes_a_title() {
    assert_eq!(sanitize_filename("Budget: Q4/Q1"), "Budget_ Q4_Q1");
}

#[test]
fn replaces_each_reserved_character() {
    assert_eq!(sanitize_filename("a/b\\c:d*e?f\"g<h>i|j"), "a_b_c_d_e_f_g_h_i_j");
    assert_eq!(sanitize_filename("///"), "___");
    assert_eq!(sanitize_filename("plain title"), "plain title");
    assert_eq!(sanitize_filename("dots. and, commas; stay!"), "dots. and, commas; stay!");
}

#[test]
fn trims_a_title_after_replacing() {
    assert_eq!(sanitize_filename("  spaced out \t\n"), "spaced out");
    assert_eq!(sanitize_filename(" : "), "_");
    assert_eq!(sanitize_filename("inner   spaces"), "inner   spaces");
}

#[test]
fn lets_an_empty_title_through() {
    assert_eq!(sanitize_filename(""), "");
    assert_eq!(sanitize_filename("   "), "");
    assert_eq!(sanitize_filename("\u{3000}\u{a0}"), "");
}

#[test]
fn moves_a_proposal_to_cue_boundaries() {
    let cues = talk();
    assert_eq!(
        reconcile(&suggestion("x", "00:00:09", "00:00:21"), &cues),
        span("00:00:10", "00:00:25")
    );
    assert_eq!(
        reconcile(&suggestion("x", "00:00:01", "00:00:30"), &cues),
        span("00:00:01", "00:00:35")
    );
    assert_eq!(
        reconcile(&suggestion("x", "00:00:00", "00:59:59"), &cues),
        span("00:00:01", "00:00:35")
    );
}

#[test]
fn looks_up_the_end_by_the_start_of_cues() {
    let cues = talk();
    // 00:00:16 is one second behind the end of the second cue, but nearer to
    // the start of the third: the end of the third is taken.
    assert_eq!(
        reconcile(&suggestion("x", "00:00:10", "00:00:16"), &cues),
        span("00:00:10", "00:00:25")
    );
    assert_eq!(
        reconcile(&suggestion("x", "00:00:10", "00:00:15"), &cues),
        span("00:00:10", "00:00:15")
    );
}

#[test]
fn drops_a_proposal_of_one_instant_inside_a_short_cue() {
    let cues = vec![
        cue("00:00:01.000", "00:00:01.900", "blink"),
        cue("00:00:10.000", "00:00:15.000", "later"),
    ];
    assert_eq!(validate_and_map_clip(suggestion("X", "00:00:01", "00:00:01"), &cues), None);
    assert_eq!(validate_and_map_clip(suggestion("X", "00:00:01", "00:00:01"), &[]), None);
}

#[test]
fn keeps_a_proposal_of_one_instant_inside_a_longer_cue() {
    let cues = vec![cue("00:00:01.000", "00:00:05.000", "Hello world")];
    let clip = validate_and_map_clip(suggestion("X", "00:00:01", "00:00:01"), &cues).unwrap();
    assert_eq!(clip.start_time, "00:00:01");
    assert_eq!(clip.end_time, "00:00:05");
}

#[test]
fn drops_an_inverted_proposal() {
    let cues = talk();
    assert_eq!(validate_and_map_clip(suggestion("X", "00:10:00", "00:00:00"), &cues), None);
    assert_eq!(reconcile(&suggestion("X", "00:10:00", "00:00:00"), &cues), None);
    // Each half finds its cue when it is asked alone.
    assert_eq!(VttParser::find_closest_cue(&cues, "00:10:00"), Some(&cues[3]));
    assert_eq!(VttParser::find_closest_cue(&cues, "00:00:00"), Some(&cues[0]));
}

#[test]
fn drops_a_proposal_that_cannot_be_read() {
    let cues = talk();
    assert_eq!(validate_and_map_clip(suggestion("X", "soon", "00:00:21"), &cues), None);
    assert_eq!(validate_and_map_clip(suggestion("X", "00:00:09", "later"), &cues), None);
    assert_eq!(validate_and_map_clip(suggestion("X", "09", "21"), &cues), None);
    assert_eq!(validate_and_map_clip(suggestion("X", "00:09", "00:21"), &cues), None);
}

#[test]
fn drops_every_proposal_without_cues() {
    assert_eq!(validate_and_map_clip(suggestion("X", "00:00:09", "00:00:21"), &[]), None);
    assert_eq!(reconcile(&suggestion("X", "00:00:09", "00:00:21"), &[]), None);
}

#[test]
fn drops_a_proposal_whose_cue_cannot_be_read() {
    let cues = vec![cue("whenever", "00:00:05.000", "start unreadable")];
    assert_eq!(reconcile(&suggestion("X", "00:00:00", "00:00:05"), &cues), None);
    let cues = vec![cue("00:00:01.000", "never", "end unreadable")];
    assert_eq!(reconcile(&suggestion("X", "00:00:00", "00:00:05"), &cues), None);
}

#[test]
fn drops_a_proposal_that_ends_where_it_starts() {
    let cues = vec![
        cue("00:00:05.000", "00:00:09.000", "first"),
        cue("00:00:01.000", "00:00:05.900", "second, earlier"),
    ];
    assert_eq!(reconcile(&suggestion("X", "00:00:05", "00:00:01"), &cues), None);
}

#[test]
fn builds_the_clip_of_a_proposal() {
    let cues = talk();
    let clip =
        validate_and_map_clip(suggestion(" Budget: Q4/Q1 ", "00:00:09", "00:00:21"), &cues)
            .unwrap();
    assert_eq!(clip.title, " Budget: Q4/Q1 ");
    assert_eq!(clip.sanitized_filename, "Budget_ Q4_Q1");
    assert_eq!(clip.start_time, "00:00:10");
    assert_eq!(clip.end_time, "00:00:25");
    assert!(clip.is_selected);
    assert!(
        VttParser::timestamp_to_seconds(&clip.end_time).unwrap()
            > VttParser::timestamp_to_seconds(&clip.start_time).unwrap()
    );
}

#[test]
fn lets_a_clip_with_an_empty_title_through() {
    let cues = talk();
    let clip = validate_and_map_clip(suggestion("  ", "00:00:09", "00:00:21"), &cues).unwrap();
    assert_eq!(clip.title, "  ");
    assert_eq!(clip.sanitized_filename, "");
    let clip = validate_and_map_clip(suggestion("", "00:00:09", "00:00:21"), &cues).unwrap();
    assert_eq!(clip.sanitized_filename, "");
}

#[test]
fn gives_each_clip_an_identifier_of_its_own() {
    let cues = talk();
    let first = validate_and_map_clip(suggestion("a", "00:00:09", "00:00:21"), &cues).unwrap();
    let second = validate_and_map_clip(suggestion("a", "00:00:09", "00:00:21"), &cues).unwrap();
    assert_eq!(first.id.chars().count(), 36);
    assert_eq!(second.id.chars().count(), 36);
    assert_ne!(first.id, second.id);
    for (i, c) in first.id.chars().enumerate() {
        if i == 8 || i == 13 || i == 18 || i == 23 {
            assert_eq!(c, '-');
        } else {
            assert!(c.is_ascii_hexdigit());
        }
    }
}

#[test]
fn keeps_the_clips_that_stand_in_their_order() {
    let cues = talk();
    let proposals = vec![
        suggestion("opening", "00:00:01", "00:00:04"),
        suggestion("unreadable", "one", "two"),
        suggestion("inverted", "00:00:30", "00:00:01"),
        suggestion("middle", "00:00:11", "00:00:19"),
        suggestion("instant", "00:00:20", "00:00:20"),
        suggestion("all of it", "00:00:00", "00:01:00"),
    ];
    let clips = validate_clips(&proposals, &cues);
    let seen: Vec<(&str, &str, &str)> = clips
        .iter()
        .map(|c| (c.title.as_str(), c.start_time.as_str(), c.end_time.as_str()))
        .collect();
    assert_eq!(
        seen,
        vec![
            ("opening", "00:00:01", "00:00:05"),
            ("middle", "00:00:10", "00:00:25"),
            ("instant", "00:00:20", "00:00:25"),
            ("all of it", "00:00:01", "00:00:35"),
        ]
    );
    for clip in &clips {
        assert!(clip.is_selected);
        assert!(
            VttParser::timestamp_to_seconds(&clip.end_time).unwrap()
                > VttParser::timestamp_to_seconds(&clip.start_time).unwrap()
        );
    }
}

#[test]
fn keeps_no_clip_of_no_proposal() {
    assert_eq!(validate_clips(&[], &talk()), vec![]);
    assert_eq!(validate_clips(&[suggestion("a", "00:00:01", "00:00:09")], &[]), vec![]);
}

#[test]
fn reconciles_against_a_parsed_transcript() {
    let text = "WEBVTT\n\n1\n00:00:01.000 --> 00:00:05.000\nHello world\n\n2\n00:00:06.000 --> 00:00:09.500\nAnd more\n";
    let cues = VttParser::parse(text).unwrap();
    let clip = validate_and_map_clip(suggestion("Both", "00:00:02", "00:00:07"), &cues).unwrap();
    assert_eq!(clip.start_time, "00:00:01");
    assert_eq!(clip.end_time, "00:00:09");
}

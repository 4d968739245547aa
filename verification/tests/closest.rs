use vtt_clips::models::VttCue;
use vtt_clips::services::VttParser;

fn cue(start: &str, end: &str, text: &str) -> VttCue {
    VttCue {
        start_timestamp: start.to_string(),
        end_timestamp: end.to_string(),
        text: text.to_string(),
    }
}

fn three() -> Vec<VttCue> {
    vec![
        cue("00:00:01.000", "00:00:05.000", "one"),
        cue("00:00:10.000", "00:00:15.000", "two"),
        cue("00:00:20.900", "00:00:25.000", "three"),
    ]
}

#[test]
fn finds_the_cue_that_starts_nearest() {
    let cues = three();
    assert_eq!(VttParser::find_closest_cue(&cues, "00:00:00"), Some(&cues[0]));
    assert_eq!(VttParser::find_closest_cue(&cues, "00:00:01"), Some(&cues[0]));
    assert_eq!(VttParser::find_closest_cue(&cues, "00:00:05"), Some(&cues[0]));
    assert_eq!(VttParser::find_closest_cue(&cues, "00:00:06"), Some(&cues[1]));
    assert_eq!(VttParser::find_closest_cue(&cues, "00:00:14"), Some(&cues[1]));
    assert_eq!(VttParser::find_closest_cue(&cues, "00:00:16"), Some(&cues[2]));
    assert_eq!(VttParser::find_closest_cue(&cues, "09:00:00"), Some(&cues[2]));
}

#[test]
fn counts_in_whole_seconds() {
    let cues = three();
    assert_eq!(VttParser::find_closest_cue(&cues, "00:00:15.999"), Some(&cues[1]));
    assert_eq!(VttParser::find_closest_cue(&cues, "00:00:15"), Some(&cues[1]));
}

#[test]
fn takes_the_first_of_cues_equally_near() {
    let cues = vec![
        cue("00:00:10.000", "00:00:11.000", "before"),
        cue("00:00:20.000", "00:00:21.000", "after"),
        cue("00:00:10.500", "00:00:12.000", "same second as the first"),
    ];
    assert_eq!(VttParser::find_closest_cue(&cues, "00:00:15"), Some(&cues[0]));
    assert_eq!(VttParser::find_closest_cue(&cues, "00:00:10"), Some(&cues[0]));
    let turned = vec![cues[1].clone(), cues[0].clone()];
    assert_eq!(VttParser::find_closest_cue(&turned, "00:00:15"), Some(&turned[0]));
}

#[test]
fn finds_nothing_without_cues_or_without_a_time() {
    let cues = three();
    assert_eq!(VttParser::find_closest_cue(&[], "00:00:01"), None);
    assert_eq!(VttParser::find_closest_cue(&cues, "soon"), None);
    assert_eq!(VttParser::find_closest_cue(&cues, "01:14"), None);
    assert_eq!(VttParser::find_closest_cue(&cues, ""), None);
    assert_eq!(VttParser::find_closest_cue(&[], "soon"), None);
}

#[test]
fn counts_an_unreadable_start_as_zero() {
    let cues = vec![
        cue("00:00:10.000", "00:00:15.000", "readable"),
        cue("whenever", "00:00:25.000", "unreadable"),
    ];
    assert_eq!(VttParser::find_closest_cue(&cues, "00:00:04"), Some(&cues[1]));
    assert_eq!(VttParser::find_closest_cue(&cues, "00:00:05"), Some(&cues[0]));
    assert_eq!(VttParser::find_closest_cue(&cues, "00:00:06"), Some(&cues[0]));
}

#[test]
fn measures_far_distances() {
    let cues = vec![
        cue("0:0:0", "0:0:1", "first"),
        cue("1193046:28:15", "1193046:28:15", "last"),
    ];
    assert_eq!(VttParser::find_closest_cue(&cues, "0:0:2147483647"), Some(&cues[0]));
    assert_eq!(VttParser::find_closest_cue(&cues, "0:0:2147483648"), Some(&cues[1]));
    assert_eq!(VttParser::find_closest_cue(&cues, "0:0:4294967295"), Some(&cues[1]));
}

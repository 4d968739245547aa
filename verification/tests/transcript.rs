use vtt_clips::models::VttCue;
use vtt_clips::services::VttParser;

fn cue(start: &str, end: &str, text: &str) -> VttCue {
    VttCue {
        start_timestamp: start.to_string(),
        end_timestamp: end.to_string(),
        text: text.to_string(),
    }
}

fn talk() -> Vec<VttCue> {
    vec![
        cue("00:00:01.000", "00:00:05.500", "Welcome"),
        cue("00:00:10.250", "00:00:15.750", "First point"),
        cue("00:00:20.000", "00:00:25.999", ""),
    ]
}

#[test]
fn writes_one_line_for_each_cue() {
    assert_eq!(
        VttParser::get_full_transcript(&talk()),
        "[00:00:01.000] Welcome\n[00:00:10.250] First point\n[00:00:20.000] "
    );
    assert_eq!(
        VttParser::get_full_transcript(&talk()[..1]),
        "[00:00:01.000] Welcome"
    );
    assert_eq!(VttParser::get_full_transcript(&[]), "");
}

#[test]
fn writes_the_lines_in_the_order_of_the_cues() {
    let mut cues = talk();
    cues.reverse();
    let text = VttParser::get_full_transcript(&cues);
    let lines: Vec<&str> = text.split('\n').collect();
    assert_eq!(lines, vec!["[00:00:20.000] ", "[00:00:10.250] First point", "[00:00:01.000] Welcome"]);
}

#[test]
fn writes_one_block_for_each_cue() {
    assert_eq!(
        VttParser::get_formatted_vtt(&talk()),
        "1\n00:00:01.000 --> 00:00:05.500\nWelcome\n\n2\n00:00:10.250 --> 00:00:15.750\nFirst point\n\n3\n00:00:20.000 --> 00:00:25.999\n"
    );
    assert_eq!(VttParser::get_formatted_vtt(&[]), "");
}

#[test]
fn numbers_the_blocks_from_one() {
    let cues: Vec<VttCue> =
        (0..12).map(|i| cue("00:00:00.000", "00:00:01.000", &format!("cue {}", i))).collect();
    let text = VttParser::get_formatted_vtt(&cues);
    let blocks: Vec<&str> = text.split("\n\n").collect();
    assert_eq!(blocks.len(), 12);
    for (i, block) in blocks.iter().enumerate() {
        assert_eq!(
            *block,
            format!("{}\n00:00:00.000 --> 00:00:01.000\ncue {}", i + 1, i)
        );
    }
}

#[test]
fn writes_one_line_for_each_cue_of_a_parsed_transcript() {
    let text = "WEBVTT\n\n1\n00:00:01.000 --> 00:00:05.000\nHello\nworld\n\n2\n00:00:06.000 --> 00:00:09.500\n\n3\n00:00:10.000 --> 00:00:12.000\nlast";
    let cues = VttParser::parse(text).unwrap();
    assert_eq!(cues.len(), 3);
    let flat = VttParser::get_full_transcript(&cues);
    let lines: Vec<&str> = flat.split('\n').collect();
    assert_eq!(lines, vec!["[00:00:01.000] Hello world", "[00:00:06.000] ", "[00:00:10.000] last"]);
}

#[test]
fn reads_its_own_blocks_back() {
    let cues = vec![
        cue("00:00:01.000", "00:00:05.500", "Welcome"),
        cue("00:00:10.250", "00:00:15.750", "First point"),
    ];
    let text = format!("WEBVTT\n\n{}", VttParser::get_formatted_vtt(&cues));
    assert_eq!(VttParser::parse(&text), Ok(cues));
}

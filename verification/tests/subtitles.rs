use video_player_console_r::playback::frame_is_late;
use video_player_console_r::srtreader::{time_range_fields, ScanStep, Subtitles};

const SRT: &str = "1\n00:00:01,000 --> 00:00:04,500\nHello there\n\n2\n00:00:05,000 --> 00:00:07,250\nTwo\nlines\n\n";

#[test]
fn lines_are_the_pieces_between_newlines() {
    let s = Subtitles::from_contents(SRT);
    let expected: Vec<&str> = SRT.split("\n").collect();
    assert_eq!(s.len(), expected.len());
    for (i, l) in expected.iter().enumerate() {
        assert_eq!(s.line(i), *l);
    }
}

#[test]
fn carriage_returns_stay_in_the_line() {
    let s = Subtitles::from_contents("1\r\nx\r\n");
    assert_eq!(s.line(0), "1\r");
    assert_eq!(s.len(), 3);
}

#[test]
fn next_range_finds_the_line_after_each_number() {
    let s = Subtitles::from_contents(SRT);
    assert_eq!(s.next_range(0), Some(1));
    assert_eq!(s.line(1), "00:00:01,000 --> 00:00:04,500");
    assert_eq!(s.next_range(2), Some(5));
    assert_eq!(s.line(5), "00:00:05,000 --> 00:00:07,250");
    assert_eq!(s.next_range(6), None);
    assert_eq!(s.next_range(100), None);
}

#[test]
fn next_range_needs_a_line_after_the_number() {
    let s = Subtitles::from_contents("text\n\n12");
    assert_eq!(s.next_range(0), None);
}

#[test]
fn next_range_treats_numeric_text_as_a_subtitle_number() {
    let s = Subtitles::from_contents("1\nrange\n42\nmore\n");
    assert_eq!(s.next_range(2), Some(3));
    let t = Subtitles::from_contents("+7\nr\n");
    assert_eq!(t.next_range(0), Some(1));
    let u = Subtitles::from_contents("-7\nr\n4294967296\nr\n");
    assert_eq!(u.next_range(0), None);
}

#[test]
fn subtitle_text_joins_lines_up_to_the_blank_line() {
    let s = Subtitles::from_contents(SRT);
    assert_eq!(s.subtitle_text(1), Some("\x1B[KHello there".to_string()));
    assert_eq!(s.subtitle_text(5), Some("\x1B[KTwo\nlines".to_string()));
}

#[test]
fn subtitle_text_takes_the_first_line_even_when_empty() {
    let s = Subtitles::from_contents("1\nr\n\nsecond\n\n");
    assert_eq!(s.subtitle_text(1), Some("\x1B[K\nsecond".to_string()));
}

#[test]
fn subtitle_text_without_closing_blank_line() {
    let s = Subtitles::from_contents("1\nr\nlast");
    assert_eq!(s.subtitle_text(1), None);
    let t = Subtitles::from_contents("1\nr");
    assert_eq!(t.subtitle_text(1), None);
    assert_eq!(t.subtitle_text(7), None);
}

#[test]
fn time_range_fields_of_a_range() {
    let f = time_range_fields("00:01:02,345 --> 01:02:03,004").unwrap();
    assert_eq!(f.start_hours, "00");
    assert_eq!(f.start_minutes, "01");
    assert_eq!(f.start_seconds, "02.345");
    assert_eq!(f.end_hours, "01");
    assert_eq!(f.end_minutes, "02");
    assert_eq!(f.end_seconds, "03.004");
}

#[test]
fn time_range_fields_keeps_extra_pieces_out() {
    let f = time_range_fields("1:2:3:4 --> 5:6:7 --> 8").unwrap();
    assert_eq!(f.start_seconds, "3");
    assert_eq!(f.end_hours, "5");
    assert_eq!(f.end_seconds, "7");
}

#[test]
fn time_range_fields_refuses_malformed_ranges() {
    assert!(time_range_fields("00:00:01,000").is_none());
    assert!(time_range_fields("00:00:01,000 -> 00:00:02,000").is_none());
    assert!(time_range_fields("00:01 --> 00:00:02,000").is_none());
    assert!(time_range_fields("00:00:01 --> 00:02").is_none());
    assert!(time_range_fields("").is_none());
}

#[test]
fn frame_lateness() {
    assert!(!frame_is_late(0, 1, 41666));
    assert!(!frame_is_late(83332, 1, 41666));
    assert!(frame_is_late(83333, 1, 41666));
    assert!(frame_is_late(u128::MAX, usize::MAX, u64::MAX));
    assert!(frame_is_late(u128::MAX, 0, u64::MAX));
    assert!(!frame_is_late(0, 0, 0));
    assert!(frame_is_late(1, 5, 0));
}

fn lookup(s: &Subtitles, holds: impl Fn(&str) -> bool) -> Result<String, String> {
    let mut step = s.scan_start();
    loop {
        step = match step {
            ScanStep::Check(r) => s.scan_after(r, holds(&s.line(r))),
            ScanStep::Found(t) => return Ok(t),
            ScanStep::NotFound => return Err("\x1B[K".to_string()),
            ScanStep::Unterminated => return Err("unterminated".to_string()),
        };
    }
}

#[test]
fn lookup_shows_the_first_range_that_holds() {
    let s = Subtitles::from_contents(SRT);
    assert_eq!(lookup(&s, |r| r.starts_with("00:00:05")), Ok("\x1B[KTwo\nlines".to_string()));
    assert_eq!(lookup(&s, |_| true), Ok("\x1B[KHello there".to_string()));
    assert_eq!(lookup(&s, |_| false), Err("\x1B[K".to_string()));
    let t = Subtitles::from_contents("1\nr\nno end");
    assert_eq!(lookup(&t, |_| true), Err("unterminated".to_string()));
    let u = Subtitles::from_contents("");
    assert_eq!(lookup(&u, |_| true), Err("\x1B[K".to_string()));
}

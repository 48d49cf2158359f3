use video_player_console_r::decimal::{bool_to_text, parse_bool, parse_unsigned, u8_to_decimal};
use video_player_console_r::text::{
    chars_of, push_all, replace_char_exec, split_chars, string_of_range, vec_range,
};

fn chars(s: &str) -> Vec<char> {
    s.chars().collect()
}

fn split_std(s: &str, sep: &str) -> Vec<String> {
    s.split(sep).map(|p| p.to_string()).collect()
}

fn split_lib(s: &str, sep: &str) -> Vec<String> {
    split_chars(&chars(s), &chars(sep)).iter().map(|p| p.iter().collect()).collect()
}

const SAMPLES: &[&str] = &[
    "", "a", "\n", "\n\n", "a\nb", "a\n\nb\n", "1\n00:00:01,000 --> 00:00:02,000\nHi\n\n",
    "x --> y --> z", " --> ", "-->", " -- > ", "::", "a:b:c:d", "héllo\nwörld", "ab--> -->",
];

#[test]
fn split_agrees_with_str_split() {
    for s in SAMPLES {
        for sep in ["\n", ":", " --> ", "ab", "-->"] {
            assert_eq!(split_lib(s, sep), split_std(s, sep), "{:?} on {:?}", s, sep);
        }
    }
}

#[test]
fn split_overlapping_separator_goes_left_to_right() {
    assert_eq!(split_lib("aaa", "aa"), vec!["", "a"]);
    assert_eq!(split_lib("aaaa", "aa"), vec!["", "", ""]);
}

#[test]
fn joining_the_pieces_gives_back_the_text() {
    for s in SAMPLES {
        for sep in ["\n", ":", " --> "] {
            assert_eq!(split_lib(s, sep).join(sep), *s);
        }
    }
}

#[test]
fn chars_and_ranges() {
    assert_eq!(chars_of("héllo"), vec!['h', 'é', 'l', 'l', 'o']);
    let v = chars("abcdef");
    assert_eq!(string_of_range(&v, 1, 4), "bcd");
    assert_eq!(string_of_range(&v, 3, 3), "");
    assert_eq!(vec_range(&v, 2, 6), vec!['c', 'd', 'e', 'f']);
    let mut s = String::from("ab");
    push_all(&mut s, &chars("cd\u{1b}"));
    assert_eq!(s, "abcd\u{1b}");
}

#[test]
fn replace_char_turns_commas_into_points() {
    assert_eq!(replace_char_exec(&chars("01,500"), ',', '.'), "01.500");
    assert_eq!(replace_char_exec(&chars(",,a,"), ',', '.'), "..a.");
    assert_eq!(replace_char_exec(&chars(""), ',', '.'), "");
    assert_eq!(",,a,".replace(",", "."), "..a.");
}

#[test]
fn decimal_text_matches_to_string() {
    for n in 0..=255u8 {
        assert_eq!(u8_to_decimal(n), n.to_string());
    }
}

#[test]
fn decimal_text_reads_back() {
    for n in 0..=255u8 {
        assert_eq!(parse_unsigned(&chars(&u8_to_decimal(n)), 255), Some(n as u32));
    }
}

const NUMBER_TEXTS: &[&str] = &[
    "", "+", "-", "0", "00", "+0", "-0", "7", "+7", "++7", "-7", "255", "256", "0255", "1000",
    " 1", "1 ", "1a", "a1", "12,5", "4294967295", "4294967296", "+4294967295", "99999999999",
    "٣", "00000000000000000000042", "1.0",
];

#[test]
fn parse_u8_agrees_with_str_parse() {
    for s in NUMBER_TEXTS {
        let expected = s.parse::<u8>().ok().map(|v| v as u32);
        assert_eq!(parse_unsigned(&chars(s), 255), expected, "{:?}", s);
    }
}

#[test]
fn parse_u32_agrees_with_str_parse() {
    for s in NUMBER_TEXTS {
        let expected = s.parse::<u32>().ok();
        assert_eq!(parse_unsigned(&chars(s), u32::MAX), expected, "{:?}", s);
    }
}

#[test]
fn parse_bool_agrees_with_str_parse() {
    for s in ["true", "false", "True", "FALSE", "", "t", "1", " true", "truee", "fals"] {
        assert_eq!(parse_bool(&chars(s)), s.parse::<bool>().ok(), "{:?}", s);
    }
}

#[test]
fn bool_text_reads_back() {
    assert_eq!(bool_to_text(true), "true");
    assert_eq!(bool_to_text(false), "false");
    assert_eq!(parse_bool(&chars(&bool_to_text(false))), Some(false));
    assert_eq!(parse_bool(&chars(&bool_to_text(true))), Some(true));
}

use video_player_console_r::options::{
    find_arg, fps_text, get_options, modify_option, option_from_args, OptionError, MODE_COUNT,
};

fn args(v: &[&str]) -> Vec<String> {
    v.iter().map(|s| s.to_string()).collect()
}

#[test]
fn modify_option_takes_the_value_after_the_flag() {
    let a = args(&["--fps", "30", "--mode", "2"]);
    assert_eq!(modify_option("--fps", &a, "60".to_string()), Ok("30".to_string()));
    assert_eq!(modify_option("--mode", &a, "1".to_string()), Ok("2".to_string()));
}

#[test]
fn modify_option_uses_the_default_when_the_flag_is_absent() {
    let a = args(&["--fps", "30"]);
    assert_eq!(modify_option("--audio", &a, "false".to_string()), Ok("false".to_string()));
    assert_eq!(modify_option("--audio", &Vec::new(), "x".to_string()), Ok("x".to_string()));
}

#[test]
fn modify_option_refuses_a_flag_without_value() {
    let a = args(&["--mode", "2", "--fps"]);
    assert_eq!(modify_option("--fps", &a, "60".to_string()), Err(OptionError::MissingValue));
}

#[test]
fn modify_option_uses_the_first_occurrence() {
    let a = args(&["--fps", "24", "--fps", "50"]);
    assert_eq!(modify_option("--fps", &a, "60".to_string()), Ok("24".to_string()));
    let b = args(&["--fps", "--fps"]);
    assert_eq!(modify_option("--fps", &b, "60".to_string()), Ok("--fps".to_string()));
}

#[test]
fn modify_option_matches_whole_arguments_only() {
    let a = args(&["--fpsx", "24", "-fps", "10"]);
    assert_eq!(modify_option("--fps", &a, "60".to_string()), Ok("60".to_string()));
}

#[test]
fn get_options_defaults() {
    let o = get_options(&args(&["player"]), true).unwrap();
    assert_eq!(o.fps, "60");
    assert_eq!(o.color_mode, 1);
    assert!(!o.audio);
    assert_eq!(o.mode_option, 10);
    let e = get_options(&Vec::new(), true).unwrap();
    assert_eq!(e.fps, "60");
    assert_eq!(e.color_mode, 1);
}

#[test]
fn get_options_reads_every_flag() {
    let o = get_options(&args(&[
        "player", "--audio", "true", "--option", "255", "--mode", "5", "--fps", "12.5",
    ]), true)
    .unwrap();
    assert_eq!(o.fps, "12.5");
    assert_eq!(o.color_mode, 5);
    assert!(o.audio);
    assert_eq!(o.mode_option, 255);
}

#[test]
fn get_options_accepts_what_str_parse_accepts() {
    let o = get_options(&args(&["--mode", "+03", "--option", "007"]), true).unwrap();
    assert_eq!(o.color_mode, 3);
    assert_eq!(o.mode_option, 7);
    assert_eq!("+03".parse::<u8>().unwrap(), 3);
}

#[test]
fn get_options_mode_out_of_range() {
    assert_eq!(get_options(&args(&["--mode", "6"]), true).err(), Some(OptionError::ModeOutOfRange));
    assert_eq!(get_options(&args(&["--mode", "255"]), true).err(), Some(OptionError::ModeOutOfRange));
    assert_eq!(MODE_COUNT, 6);
}

#[test]
fn get_options_mode_not_a_number() {
    assert_eq!(get_options(&args(&["--mode", "256"]), true).err(), Some(OptionError::InvalidMode));
    assert_eq!(get_options(&args(&["--mode", "-1"]), true).err(), Some(OptionError::InvalidMode));
    assert_eq!(get_options(&args(&["--mode", ""]), true).err(), Some(OptionError::InvalidMode));
    assert_eq!(get_options(&args(&["--mode", " 2"]), true).err(), Some(OptionError::InvalidMode));
}

#[test]
fn get_options_audio_not_a_boolean() {
    assert_eq!(get_options(&args(&["--audio", "yes"]), true).err(), Some(OptionError::InvalidAudio));
    assert_eq!(get_options(&args(&["--audio", "True"]), true).err(), Some(OptionError::InvalidAudio));
}

#[test]
fn get_options_option_not_a_byte() {
    assert_eq!(
        get_options(&args(&["--option", "300"]), true).err(),
        Some(OptionError::InvalidModeOption)
    );
}

#[test]
fn get_options_missing_value() {
    assert_eq!(get_options(&args(&["--option"]), true).err(), Some(OptionError::MissingValue));
    assert_eq!(get_options(&args(&["--fps"]), true).err(), Some(OptionError::MissingValue));
}

#[test]
fn get_options_reports_the_first_refusal_in_flag_order() {
    // --fps is read first, then --mode, --audio, --option.
    assert_eq!(
        get_options(&args(&["--mode", "9", "--fps"]), true).err(),
        Some(OptionError::MissingValue)
    );
    assert_eq!(
        get_options(&args(&["--audio", "maybe", "--mode", "9"]), true).err(),
        Some(OptionError::ModeOutOfRange)
    );
    assert_eq!(
        get_options(&args(&["--option", "x", "--audio", "maybe"]), true).err(),
        Some(OptionError::InvalidAudio)
    );
}

#[test]
fn error_messages() {
    assert_eq!(OptionError::MissingValue.message(), "Please specify a fps value after --fps");
    assert_eq!(OptionError::InvalidFps.message(), "Please specify a valid fps value after --fps");
    assert_eq!(OptionError::ModeOutOfRange.message(), "Please specify a valid mode after --mode");
    assert_eq!(OptionError::InvalidMode.message(), "Please specify a valid fps value after --mode");
    assert_eq!(OptionError::InvalidAudio.message(), "Please specify a valid boolean after --audio");
    assert_eq!(
        OptionError::InvalidModeOption.message(),
        "Please specify a valid fps value after --fps"
    );
}

#[test]
fn get_options_refuses_a_bad_frame_rate_first() {
    assert_eq!(get_options(&args(&["prog", "--fps", "0"]), false).err(), Some(OptionError::InvalidFps));
    assert_eq!(
        get_options(&args(&["prog", "--fps", "-1", "--mode", "9"]), false).err(),
        Some(OptionError::InvalidFps)
    );
    assert_eq!(
        get_options(&args(&["prog", "--fps"]), false).err(),
        Some(OptionError::MissingValue)
    );
    assert_eq!(get_options(&args(&["prog"]), false).err(), Some(OptionError::InvalidFps));
}

#[test]
fn fps_text_is_the_frame_rate_value() {
    assert_eq!(fps_text(&args(&["prog", "--fps", "0"])), Ok("0".to_string()));
    assert_eq!(fps_text(&args(&["prog", "--mode", "2"])), Ok("60".to_string()));
    assert_eq!(fps_text(&args(&["prog"])), Ok("60".to_string()));
    assert_eq!(fps_text(&args(&["prog", "24", "1"])), Ok("24".to_string()));
    assert_eq!(fps_text(&args(&["prog", "--fps"])), Err(OptionError::MissingValue));
}

#[test]
fn positional_usage_from_the_readme() {
    let o = get_options(&args(&["prog", "30", "0", "true", "255"]), true).unwrap();
    assert_eq!(o.fps, "30");
    assert_eq!(o.color_mode, 0);
    assert!(o.audio);
    assert_eq!(o.mode_option, 255);
}

#[test]
fn positional_usage_with_fewer_values_takes_defaults() {
    let o = get_options(&args(&["prog", "30", "4"]), true).unwrap();
    assert_eq!(o.fps, "30");
    assert_eq!(o.color_mode, 4);
    assert!(!o.audio);
    assert_eq!(o.mode_option, 10);
    assert_eq!(
        get_options(&args(&["prog", "30", "7"]), true).err(),
        Some(OptionError::ModeOutOfRange)
    );
    assert_eq!(
        get_options(&args(&["prog", "30", "1", "on"]), true).err(),
        Some(OptionError::InvalidAudio)
    );
}

#[test]
fn flags_turn_off_positional_values() {
    let o = get_options(&args(&["prog", "30", "0", "--audio", "true"]), true).unwrap();
    assert_eq!(o.fps, "60");
    assert_eq!(o.color_mode, 1);
    assert!(o.audio);
}

#[test]
fn option_lookup_helpers() {
    let a = args(&["prog", "--mode", "3"]);
    assert_eq!(find_arg("--mode", &a), Some(1));
    assert_eq!(find_arg("--fps", &a), None);
    assert_eq!(option_from_args("--mode", 2, &a, "1".to_string()), Ok("3".to_string()));
    let b = args(&["prog", "5", "2"]);
    assert_eq!(option_from_args("--mode", 2, &b, "1".to_string()), Ok("2".to_string()));
    assert_eq!(option_from_args("--audio", 3, &b, "false".to_string()), Ok("false".to_string()));
}

//! Command-line options of the player: `--fps`, `--mode`, `--audio` and
//! `--option`, each followed by its value.
use vstd::prelude::*;

use crate::decimal::{
    bool_text, bool_to_text, decimal, lemma_bool_roundtrip, lemma_decimal_roundtrip, parse_bool,
    parse_bool_spec, parse_unsigned, parse_unsigned_spec, u8_to_decimal,
};
use crate::text::chars_of;

verus! {

/// Why the command line was refused.
#[derive(Debug, Clone, Copy, PartialEq, Eq, Structural)]
pub enum OptionError {
    /// A flag was the last argument, with no value after it.
    MissingValue,
    /// The value after `--fps` is not a positive number.
    InvalidFps,
    /// The value after `--mode` is a number, but no mode has that number.
    ModeOutOfRange,
    /// The value after `--mode` is not a number.
    InvalidMode,
    /// The value after `--audio` is neither `true` nor `false`.
    InvalidAudio,
    /// The value after `--option` is not a number from 0 to 255.
    InvalidModeOption,
}

/// The message that the player prints before it exits on `e`.
pub open spec fn error_message(e: OptionError) -> Seq<char> {
    match e {
        OptionError::MissingValue => "Please specify a fps value after --fps"@,
        OptionError::InvalidFps => "Please specify a valid fps value after --fps"@,
        OptionError::ModeOutOfRange => "Please specify a valid mode after --mode"@,
        OptionError::InvalidMode => "Please specify a valid fps value after --mode"@,
        OptionError::InvalidAudio => "Please specify a valid boolean after --audio"@,
        OptionError::InvalidModeOption => "Please specify a valid fps value after --fps"@,
    }
}

impl OptionError {
    /// The message that the player prints before it exits on this error.
    pub fn message(&self) -> (m: &'static str)
        ensures
            m@ == error_message(*self),
    {
        match self {
            OptionError::MissingValue => "Please specify a fps value after --fps",
            OptionError::InvalidFps => "Please specify a valid fps value after --fps",
            OptionError::ModeOutOfRange => "Please specify a valid mode after --mode",
            OptionError::InvalidMode => "Please specify a valid fps value after --mode",
            OptionError::InvalidAudio => "Please specify a valid boolean after --audio",
            OptionError::InvalidModeOption => "Please specify a valid fps value after --fps",
        }
    }
}

/// The views of the command-line arguments.
pub open spec fn arg_views(args: Seq<String>) -> Seq<Seq<char>> {
    args.map_values(|a: String| a@)
}

/// The first index `i >= k` with `args[i] == flag`.
pub open spec fn position_from(args: Seq<Seq<char>>, flag: Seq<char>, k: int) -> Option<int>
    decreases args.len() - k,
{
    if k < 0 || k >= args.len() {
        None
    } else if args[k] == flag {
        Some(k)
    } else {
        position_from(args, flag, k + 1)
    }
}

/// The first index at which `flag` occurs among `args`.
pub open spec fn position(args: Seq<Seq<char>>, flag: Seq<char>) -> Option<int> {
    position_from(args, flag, 0)
}

/// The value that `flag` gives: the argument after its first occurrence,
/// or `default` when it does not occur; an error when nothing follows it.
pub open spec fn option_value(args: Seq<Seq<char>>, flag: Seq<char>, default: Seq<char>) -> Result<
    Seq<char>,
    OptionError,
> {
    match position(args, flag) {
        Some(i) => if args.len() <= i + 1 {
            Err(OptionError::MissingValue)
        } else {
            Ok(args[i + 1])
        },
        None => Ok(default),
    }
}

/// `position_from` finds the first match at or after `k`.
pub proof fn lemma_position_from(args: Seq<Seq<char>>, flag: Seq<char>, k: int)
    requires
        0 <= k,
    ensures
        position_from(args, flag, k) matches Some(i) ==> k <= i < args.len() && args[i] == flag
            && forall|j: int| k <= j < i ==> args[j] != flag,
        position_from(args, flag, k) is None ==> forall|j: int| k <= j < args.len() ==> args[j]
            != flag,
    decreases args.len() - k,
{
    if k < args.len() && args[k] != flag {
        lemma_position_from(args, flag, k + 1);
    }
}

/// The index of the first argument equal to `flag`.
pub fn find_arg(flag: &str, args: &Vec<String>) -> (r: Option<usize>)
    ensures
        match r {
            Some(i) => position(arg_views(args@), flag@) == Some(i as int),
            None => position(arg_views(args@), flag@) is None,
        },
{
    let ghost views = arg_views(args@);
    let flag_string = String::from_str(flag);
    let mut i: usize = 0;
    while i < args.len()
        invariant
            i <= args@.len(),
            views == arg_views(args@),
            flag_string@ == flag@,
            position(views, flag@) == position_from(views, flag@, i as int),
        decreases args@.len() - i,
    {
        if args[i] == flag_string {
            return Some(i);
        }
        i = i + 1;
    }
    None
}

/// The value given after `flag` among `args`, or `default` when `flag` is
/// not there; refused when `flag` is the last argument.
pub fn modify_option(flag: &str, args: &Vec<String>, default: String) -> (r: Result<
    String,
    OptionError,
>)
    ensures
        match r {
            Ok(v) => option_value(arg_views(args@), flag@, default@) == Ok::<
                Seq<char>,
                OptionError,
            >(v@),
            Err(e) => option_value(arg_views(args@), flag@, default@) == Err::<
                Seq<char>,
                OptionError,
            >(e),
        },
{
    match find_arg(flag, args) {
        Some(i) => {
            if args.len() - 1 <= i {
                Err(OptionError::MissingValue)
            } else {
                Ok(args[i + 1].clone())
            }
        },
        None => Ok(default),
    }
}

/// The options that the command line selects. `fps` is the text given for
/// the frame rate; the player reads it as a number itself.
pub struct VideoOptions {
    pub fps: String,
    pub color_mode: u8,
    pub audio: bool,
    pub mode_option: u8,
}

impl View for VideoOptions {
    type V = (Seq<char>, u8, bool, u8);

    open spec fn view(&self) -> (Seq<char>, u8, bool, u8) {
        (self.fps@, self.color_mode, self.audio, self.mode_option)
    }
}

/// The number of rendering modes; the color mode selects one below it.
pub const MODE_COUNT: u8 = 6;

/// The frame-rate text used when none is given.
pub open spec fn default_fps_text() -> Seq<char> {
    "60"@
}

/// Whether the command line names any of the four flags; if not, its
/// values are positional: `<fps> <color mode> <audio> <mode option>` after
/// the program name.
pub open spec fn flags_given(args: Seq<Seq<char>>) -> bool {
    ||| position(args, "--fps"@) is Some
    ||| position(args, "--mode"@) is Some
    ||| position(args, "--audio"@) is Some
    ||| position(args, "--option"@) is Some
}

/// The text of one option: the value after `flag` when the command line
/// uses flags, else the positional argument at `index`; `default` when it
/// is not given.
pub open spec fn option_text(args: Seq<Seq<char>>, flag: Seq<char>, index: int, default: Seq<char>) -> Result<
    Seq<char>,
    OptionError,
> {
    if flags_given(args) {
        option_value(args, flag, default)
    } else if index < args.len() {
        Ok(args[index])
    } else {
        Ok(default)
    }
}

/// Whether the command line names any of the four flags.
fn uses_flags(args: &Vec<String>) -> (b: bool)
    ensures
        b == flags_given(arg_views(args@)),
{
    find_arg("--fps", args).is_some() || find_arg("--mode", args).is_some() || find_arg(
        "--audio",
        args,
    ).is_some() || find_arg("--option", args).is_some()
}

/// The text of one option: the value after `flag`, or the positional
/// argument at `index` when no flag is used, or `default`.
pub fn option_from_args(flag: &str, index: usize, args: &Vec<String>, default: String) -> (r:
    Result<String, OptionError>)
    ensures
        match r {
            Ok(v) => option_text(arg_views(args@), flag@, index as int, default@) == Ok::<
                Seq<char>,
                OptionError,
            >(v@),
            Err(e) => option_text(arg_views(args@), flag@, index as int, default@) == Err::<
                Seq<char>,
                OptionError,
            >(e),
        },
{
    if uses_flags(args) {
        modify_option(flag, args, default)
    } else if index < args.len() {
        Ok(args[index].clone())
    } else {
        Ok(default)
    }
}

/// The frame-rate text of the command line, which the player reads as a
/// number before it calls `get_options`.
pub fn fps_text(args: &Vec<String>) -> (r: Result<String, OptionError>)
    ensures
        match r {
            Ok(v) => option_text(arg_views(args@), "--fps"@, 1, default_fps_text()) == Ok::<
                Seq<char>,
                OptionError,
            >(v@),
            Err(e) => option_text(arg_views(args@), "--fps"@, 1, default_fps_text()) == Err::<
                Seq<char>,
                OptionError,
            >(e),
        },
{
    option_from_args("--fps", 1, args, String::from_str("60"))
}

/// What the command line `args` selects, given whether its frame-rate text
/// reads as a positive number (`fps_ok`): each option read in the order
/// frame rate, mode, audio, mode option, the first refusal winning.
pub open spec fn options_spec(args: Seq<Seq<char>>, fps_ok: bool) -> Result<
    (Seq<char>, u8, bool, u8),
    OptionError,
> {
    match option_text(args, "--fps"@, 1, default_fps_text()) {
        Err(e) => Err(e),
        Ok(fps) => if !fps_ok {
            Err(OptionError::InvalidFps)
        } else {
            match option_text(args, "--mode"@, 2, decimal(1)) {
                Err(e) => Err(e),
                Ok(mode_text) => match parse_unsigned_spec(mode_text, 255) {
                    None => Err(OptionError::InvalidMode),
                    Some(mode) => if mode >= MODE_COUNT {
                        Err(OptionError::ModeOutOfRange)
                    } else {
                        match option_text(args, "--audio"@, 3, bool_text(false)) {
                            Err(e) => Err(e),
                            Ok(audio_text) => match parse_bool_spec(audio_text) {
                                None => Err(OptionError::InvalidAudio),
                                Some(audio) => match option_text(
                                    args,
                                    "--option"@,
                                    4,
                                    decimal(10),
                                ) {
                                    Err(e) => Err(e),
                                    Ok(option_arg) => match parse_unsigned_spec(option_arg, 255) {
                                        None => Err(OptionError::InvalidModeOption),
                                        Some(option) => Ok((fps, mode as u8, audio, option as u8)),
                                    },
                                },
                            },
                        }
                    },
                },
            }
        },
    }
}

/// Reads the player's options from the command-line arguments, given the
/// player's verdict `fps_ok` on whether the frame-rate text (`fps_text`)
/// is a positive number.
pub fn get_options(args: &Vec<String>, fps_ok: bool) -> (r: Result<VideoOptions, OptionError>)
    ensures
        match r {
            Ok(o) => options_spec(arg_views(args@), fps_ok) == Ok::<
                (Seq<char>, u8, bool, u8),
                OptionError,
            >(o@),
            Err(e) => options_spec(arg_views(args@), fps_ok) == Err::<
                (Seq<char>, u8, bool, u8),
                OptionError,
            >(e),
        },
{
    let fps = fps_text(args)?;
    if !fps_ok {
        return Err(OptionError::InvalidFps);
    }
    let mode_text = option_from_args("--mode", 2, args, u8_to_decimal(1))?;
    let color_mode = match parse_unsigned(&chars_of(mode_text.as_str()), 255) {
        Some(m) => {
            if m >= MODE_COUNT as u32 {
                return Err(OptionError::ModeOutOfRange);
            }
            m as u8
        },
        None => {
            return Err(OptionError::InvalidMode);
        },
    };
    let audio_text = option_from_args("--audio", 3, args, bool_to_text(false))?;
    let audio = match parse_bool(&chars_of(audio_text.as_str())) {
        Some(b) => b,
        None => {
            return Err(OptionError::InvalidAudio);
        },
    };
    let option_arg = option_from_args("--option", 4, args, u8_to_decimal(10))?;
    let mode_option = match parse_unsigned(&chars_of(option_arg.as_str()), 255) {
        Some(o) => o as u8,
        None => {
            return Err(OptionError::InvalidModeOption);
        },
    };
    Ok(VideoOptions { fps, color_mode, audio, mode_option })
}

/// With no flag and no positional value on the command line (only the
/// program name, if that), every option takes its default: frame rate
/// `60`, mode 1, no audio, mode option 10.
pub proof fn lemma_default_options(args: Seq<Seq<char>>)
    requires
        args.len() <= 1,
        forall|i: int|
            0 <= i < args.len() ==> args[i] != "--fps"@ && args[i] != "--mode"@ && args[i]
                != "--audio"@ && args[i] != "--option"@,
    ensures
        options_spec(args, true) == Ok::<(Seq<char>, u8, bool, u8), OptionError>(
            (default_fps_text(), 1u8, false, 10u8),
        ),
{
    lemma_position_from(args, "--fps"@, 0);
    lemma_position_from(args, "--mode"@, 0);
    lemma_position_from(args, "--audio"@, 0);
    lemma_position_from(args, "--option"@, 0);
    lemma_decimal_roundtrip(1, 255);
    lemma_decimal_roundtrip(10, 255);
    lemma_bool_roundtrip(false);
}

/// The positional usage `<program> <fps> <color mode> <audio> <mode option>`:
/// without flags, the four values after the program name are the options.
pub proof fn lemma_positional_options(args: Seq<Seq<char>>, mode: nat, audio: bool, option: nat)
    requires
        args.len() >= 5,
        forall|i: int|
            0 <= i < args.len() ==> args[i] != "--fps"@ && args[i] != "--mode"@ && args[i]
                != "--audio"@ && args[i] != "--option"@,
        parse_unsigned_spec(args[2], 255) == Some(mode),
        mode < MODE_COUNT,
        parse_bool_spec(args[3]) == Some(audio),
        parse_unsigned_spec(args[4], 255) == Some(option),
    ensures
        options_spec(args, true) == Ok::<(Seq<char>, u8, bool, u8), OptionError>(
            (args[1], mode as u8, audio, option as u8),
        ),
{
    lemma_position_from(args, "--fps"@, 0);
    lemma_position_from(args, "--mode"@, 0);
    lemma_position_from(args, "--audio"@, 0);
    lemma_position_from(args, "--option"@, 0);
}

/// A frame rate that is not a positive number is refused before any other
/// option is looked at.
pub proof fn lemma_fps_refused_first(args: Seq<Seq<char>>)
    requires
        option_text(args, "--fps"@, 1, default_fps_text()) is Ok,
    ensures
        options_spec(args, false) == Err::<(Seq<char>, u8, bool, u8), OptionError>(
            OptionError::InvalidFps,
        ),
{
}

/// Whether `flag` first occurs among `args` at index `i`.
pub open spec fn first_at(args: Seq<Seq<char>>, flag: Seq<char>, i: int) -> bool {
    &&& 0 <= i < args.len()
    &&& args[i] == flag
    &&& forall|j: int| 0 <= j < i ==> args[j] != flag
}

/// Whether `s` is one of the four flags.
pub open spec fn is_flag(s: Seq<char>) -> bool {
    s == "--fps"@ || s == "--mode"@ || s == "--audio"@ || s == "--option"@
}

/// The first occurrence of a flag is what `position` reports.
proof fn lemma_first_at_position(args: Seq<Seq<char>>, flag: Seq<char>, i: int)
    requires
        first_at(args, flag, i),
    ensures
        position(args, flag) == Some(i),
{
    lemma_position_from(args, flag, 0);
    if let Some(i2) = position(args, flag) {
        if i2 < i {
            assert(args[i2] != flag);
        } else if i < i2 {
            assert(args[i] != flag);
        }
    }
}

/// With a flag on the command line, each option read by `get_options` is
/// the value after the first occurrence of its flag, read as that option's
/// type, or the option's default when its flag is absent: frame rate `60`,
/// mode 1, audio off, mode option 10.
pub proof fn lemma_flag_form_values(args: Seq<Seq<char>>, fps_ok: bool, k: int)
    requires
        0 <= k < args.len(),
        is_flag(args[k]),
    ensures
        options_spec(args, fps_ok) matches Ok(o) ==> {
            &&& forall|i: int|
                #[trigger] first_at(args, "--fps"@, i) && i + 1 < args.len() ==> o.0 == args[i + 1]
            &&& (forall|j: int| 0 <= j < args.len() ==> args[j] != "--fps"@) ==> o.0 == "60"@
            &&& forall|i: int|
                #[trigger] first_at(args, "--mode"@, i) && i + 1 < args.len() ==> parse_unsigned_spec(
                    args[i + 1],
                    255,
                ) == Some(o.1 as nat)
            &&& (forall|j: int| 0 <= j < args.len() ==> args[j] != "--mode"@) ==> o.1 == 1
            &&& forall|i: int|
                #[trigger] first_at(args, "--audio"@, i) && i + 1 < args.len() ==> parse_bool_spec(
                    args[i + 1],
                ) == Some(o.2)
            &&& (forall|j: int| 0 <= j < args.len() ==> args[j] != "--audio"@) ==> !o.2
            &&& forall|i: int|
                #[trigger] first_at(args, "--option"@, i) && i + 1 < args.len() ==> parse_unsigned_spec(
                    args[i + 1],
                    255,
                ) == Some(o.3 as nat)
            &&& (forall|j: int| 0 <= j < args.len() ==> args[j] != "--option"@) ==> o.3 == 10
        },
{
    lemma_position_from(args, "--fps"@, 0);
    lemma_position_from(args, "--mode"@, 0);
    lemma_position_from(args, "--audio"@, 0);
    lemma_position_from(args, "--option"@, 0);
    assert(flags_given(args));
    lemma_decimal_roundtrip(1, 255);
    lemma_decimal_roundtrip(10, 255);
    lemma_bool_roundtrip(false);
    if let Ok(o) = options_spec(args, fps_ok) {
        assert forall|i: int|
            #[trigger] first_at(args, "--fps"@, i) && i + 1 < args.len() implies o.0 == args[i
                + 1] by {
            lemma_first_at_position(args, "--fps"@, i);
        }
        assert forall|i: int|
            #[trigger] first_at(args, "--mode"@, i) && i + 1 < args.len() implies parse_unsigned_spec(
            args[i + 1],
            255,
        ) == Some(o.1 as nat) by {
            lemma_first_at_position(args, "--mode"@, i);
        }
        assert forall|i: int|
            #[trigger] first_at(args, "--audio"@, i) && i + 1 < args.len() implies parse_bool_spec(
            args[i + 1],
        ) == Some(o.2) by {
            lemma_first_at_position(args, "--audio"@, i);
        }
        assert forall|i: int|
            #[trigger] first_at(args, "--option"@, i) && i + 1 < args.len()
                implies parse_unsigned_spec(args[i + 1], 255) == Some(o.3 as nat) by {
            lemma_first_at_position(args, "--option"@, i);
        }
    }
}

/// Without flags, each option read by `get_options` is the positional
/// value after the program name (frame rate, mode, audio, mode option, in
/// that order) read as that option's type, or its default when the
/// command line ends before it.
pub proof fn lemma_positional_form_values(args: Seq<Seq<char>>, fps_ok: bool)
    requires
        forall|j: int| 0 <= j < args.len() ==> !is_flag(#[trigger] args[j]),
    ensures
        options_spec(args, fps_ok) matches Ok(o) ==> {
            &&& args.len() > 1 ==> o.0 == args[1]
            &&& args.len() <= 1 ==> o.0 == "60"@
            &&& args.len() > 2 ==> parse_unsigned_spec(args[2], 255) == Some(o.1 as nat)
            &&& args.len() <= 2 ==> o.1 == 1
            &&& args.len() > 3 ==> parse_bool_spec(args[3]) == Some(o.2)
            &&& args.len() <= 3 ==> !o.2
            &&& args.len() > 4 ==> parse_unsigned_spec(args[4], 255) == Some(o.3 as nat)
            &&& args.len() <= 4 ==> o.3 == 10
        },
{
    lemma_position_from(args, "--fps"@, 0);
    lemma_position_from(args, "--mode"@, 0);
    lemma_position_from(args, "--audio"@, 0);
    lemma_position_from(args, "--option"@, 0);
    if let Some(i) = position(args, "--fps"@) {
        assert(is_flag(args[i]));
    }
    if let Some(i) = position(args, "--mode"@) {
        assert(is_flag(args[i]));
    }
    if let Some(i) = position(args, "--audio"@) {
        assert(is_flag(args[i]));
    }
    if let Some(i) = position(args, "--option"@) {
        assert(is_flag(args[i]));
    }
    assert(!flags_given(args));
    lemma_decimal_roundtrip(1, 255);
    lemma_decimal_roundtrip(10, 255);
    lemma_bool_roundtrip(false);
}

/// With flags on the command line, `get_options` succeeds when the frame
/// rate is accepted and every flag that occurs has, after its first
/// occurrence, a valid value: a mode number below the number of modes,
/// `true` or `false` for audio, and a number up to 255 for the mode option.
pub proof fn lemma_flag_form_accepted(args: Seq<Seq<char>>, k: int)
    requires
        0 <= k < args.len(),
        is_flag(args[k]),
        forall|i: int| #[trigger] first_at(args, "--fps"@, i) ==> i + 1 < args.len(),
        forall|i: int|
            #[trigger] first_at(args, "--mode"@, i) ==> i + 1 < args.len() && (parse_unsigned_spec(
                args[i + 1],
                255,
            ) matches Some(m) && m < MODE_COUNT),
        forall|i: int|
            #[trigger] first_at(args, "--audio"@, i) ==> i + 1 < args.len() && parse_bool_spec(
                args[i + 1],
            ) is Some,
        forall|i: int|
            #[trigger] first_at(args, "--option"@, i) ==> i + 1 < args.len() && parse_unsigned_spec(
                args[i + 1],
                255,
            ) is Some,
    ensures
        options_spec(args, true) is Ok,
{
    lemma_position_from(args, "--fps"@, 0);
    lemma_position_from(args, "--mode"@, 0);
    lemma_position_from(args, "--audio"@, 0);
    lemma_position_from(args, "--option"@, 0);
    assert(flags_given(args));
    lemma_decimal_roundtrip(1, 255);
    lemma_decimal_roundtrip(10, 255);
    lemma_bool_roundtrip(false);
    if let Some(i) = position(args, "--fps"@) {
        assert(first_at(args, "--fps"@, i));
    }
    if let Some(i) = position(args, "--mode"@) {
        assert(first_at(args, "--mode"@, i));
    }
    if let Some(i) = position(args, "--audio"@) {
        assert(first_at(args, "--audio"@, i));
    }
    if let Some(i) = position(args, "--option"@) {
        assert(first_at(args, "--option"@, i));
    }
}

/// A flag whose first occurrence is the last argument is refused as
/// missing its value, unless an option read before it was refused; the
/// frame-rate flag, read first, always is.
pub proof fn lemma_flag_without_value(args: Seq<Seq<char>>, fps_ok: bool)
    requires
        args.len() > 0,
        first_at(args, "--fps"@, args.len() - 1),
    ensures
        options_spec(args, fps_ok) == Err::<(Seq<char>, u8, bool, u8), OptionError>(
            OptionError::MissingValue,
        ),
{
    lemma_first_at_position(args, "--fps"@, args.len() - 1);
}

/// With flags on the command line and the frame rate accepted, a mode
/// number of 6 or more after the first `--mode` is refused as out of range.
pub proof fn lemma_mode_out_of_range(args: Seq<Seq<char>>, i: int, m: nat)
    requires
        first_at(args, "--mode"@, i),
        i + 1 < args.len(),
        parse_unsigned_spec(args[i + 1], 255) == Some(m),
        m >= MODE_COUNT,
        forall|f: int| #[trigger] first_at(args, "--fps"@, f) ==> f + 1 < args.len(),
    ensures
        options_spec(args, true) == Err::<(Seq<char>, u8, bool, u8), OptionError>(
            OptionError::ModeOutOfRange,
        ),
{
    lemma_first_at_position(args, "--mode"@, i);
    lemma_position_from(args, "--fps"@, 0);
    if let Some(f) = position(args, "--fps"@) {
        assert(first_at(args, "--fps"@, f));
    }
    assert(flags_given(args));
}

/// `get_options` succeeds only when the frame rate is accepted, and then
/// with a mode below the number of modes.
pub proof fn lemma_options_accepted(args: Seq<Seq<char>>, fps_ok: bool)
    ensures
        options_spec(args, fps_ok) is Ok ==> fps_ok,
        options_spec(args, fps_ok) matches Ok(o) ==> o.1 < MODE_COUNT,
{
}

} // verus!

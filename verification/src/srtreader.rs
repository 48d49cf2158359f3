//! Reading SubRip (`.srt`) subtitles: the file's lines, the scan for the
//! next time range, the fields of a range, and the text of a subtitle.
//!
//! A subtitle is a number line, a time-range line
//! `HH:MM:SS,mmm --> HH:MM:SS,mmm`, then text lines up to an empty line.
use vstd::prelude::*;

use crate::decimal::{parse_unsigned, parse_unsigned_spec};
use crate::text::{
    chars_of, join_with, lemma_join_push, push_all, replace_char, replace_char_exec, split_chars,
    split_seq, string_of_range, views,
};

verus! {

/// The lines of a subtitle file.
pub struct Subtitles {
    lines: Vec<Vec<char>>,
}

impl View for Subtitles {
    type V = Seq<Seq<char>>;

    closed spec fn view(&self) -> Seq<Seq<char>> {
        views(self.lines@)
    }
}

/// Whether a line reads as a subtitle number (an unsigned 32-bit integer).
pub open spec fn is_number_line(line: Seq<char>) -> bool {
    parse_unsigned_spec(line, 0xffff_ffff) is Some
}

/// The index of the time-range line of the next subtitle, scanning from
/// line `k`: the line after the first number line, if there is one.
pub open spec fn next_range_spec(lines: Seq<Seq<char>>, k: int) -> Option<int>
    decreases lines.len() - k,
{
    if k < 0 || k >= lines.len() {
        None
    } else if is_number_line(lines[k]) {
        if k + 1 < lines.len() {
            Some(k + 1)
        } else {
            None
        }
    } else {
        next_range_spec(lines, k + 1)
    }
}

/// The index of the first empty line at or after line `k`.
pub open spec fn first_empty_from(lines: Seq<Seq<char>>, k: int) -> Option<int>
    decreases lines.len() - k,
{
    if k < 0 || k >= lines.len() {
        None
    } else if lines[k].len() == 0 {
        Some(k)
    } else {
        first_empty_from(lines, k + 1)
    }
}

/// The control sequence that clears the rest of the terminal line.
pub open spec fn clear_line() -> Seq<char> {
    "\x1B[K"@
}

/// The text of the subtitle whose time range is line `r`: the line after
/// it, then the following lines up to the next empty line, joined by
/// newlines, after the control sequence that clears the line. `None` when
/// the file ends before that empty line.
pub open spec fn subtitle_text_spec(lines: Seq<Seq<char>>, r: int) -> Option<Seq<char>> {
    if r < 0 || r + 1 >= lines.len() {
        None
    } else {
        match first_empty_from(lines, r + 2) {
            Some(e) => Some(clear_line() + join_with(lines.subrange(r + 1, e), seq!['\n'])),
            None => None,
        }
    }
}

/// The six fields of a time range `a:b:c --> d:e:f`: hours, minutes and
/// seconds of its start, then of its end, each seconds field with its
/// decimal comma turned into a point. `None` when the line has no arrow,
/// or when either side has fewer than three fields.
pub open spec fn time_fields_spec(range: Seq<char>) -> Option<Seq<Seq<char>>> {
    let sides = split_seq(range, " --> "@);
    if sides.len() < 2 {
        None
    } else {
        let start = split_seq(sides[0], seq![':']);
        let end = split_seq(sides[1], seq![':']);
        if start.len() < 3 || end.len() < 3 {
            None
        } else {
            Some(
                seq![
                    start[0],
                    start[1],
                    replace_char(start[2], ',', '.'),
                    end[0],
                    end[1],
                    replace_char(end[2], ',', '.'),
                ],
            )
        }
    }
}

/// The fields of a time range, as text.
pub struct TimeRangeFields {
    pub start_hours: String,
    pub start_minutes: String,
    pub start_seconds: String,
    pub end_hours: String,
    pub end_minutes: String,
    pub end_seconds: String,
}

impl View for TimeRangeFields {
    type V = Seq<Seq<char>>;

    open spec fn view(&self) -> Seq<Seq<char>> {
        seq![
            self.start_hours@,
            self.start_minutes@,
            self.start_seconds@,
            self.end_hours@,
            self.end_minutes@,
            self.end_seconds@,
        ]
    }
}

/// The fields of the time range `range`.
pub fn time_range_fields(range: &str) -> (r: Option<TimeRangeFields>)
    ensures
        match r {
            Some(f) => time_fields_spec(range@) == Some(f@),
            None => time_fields_spec(range@) is None,
        },
{
    let chars = chars_of(range);
    let arrow = vec![' ', '-', '-', '>', ' '];
    proof {
        reveal_strlit(" --> ");
        assert(arrow@ =~= " --> "@);
    }
    let sides = split_chars(&chars, &arrow);
    if sides.len() < 2 {
        return None;
    }
    let colon = vec![':'];
    assert(colon@ =~= seq![':']);
    let start = split_chars(&sides[0], &colon);
    let end = split_chars(&sides[1], &colon);
    if start.len() < 3 || end.len() < 3 {
        return None;
    }
    let fields = TimeRangeFields {
        start_hours: string_of_range(&start[0], 0, start[0].len()),
        start_minutes: string_of_range(&start[1], 0, start[1].len()),
        start_seconds: replace_char_exec(&start[2], ',', '.'),
        end_hours: string_of_range(&end[0], 0, end[0].len()),
        end_minutes: string_of_range(&end[1], 0, end[1].len()),
        end_seconds: replace_char_exec(&end[2], ',', '.'),
    };
    proof {
        assert(start[0]@.subrange(0, start[0]@.len() as int) =~= start[0]@);
        assert(start[1]@.subrange(0, start[1]@.len() as int) =~= start[1]@);
        assert(end[0]@.subrange(0, end[0]@.len() as int) =~= end[0]@);
        assert(end[1]@.subrange(0, end[1]@.len() as int) =~= end[1]@);
        assert(fields@ =~= time_fields_spec(range@).unwrap());
    }
    Some(fields)
}

impl Subtitles {
    /// The lines of the file with contents `contents`: the pieces between
    /// its newline characters.
    pub fn from_contents(contents: &str) -> (s: Subtitles)
        ensures
            s@ == split_seq(contents@, seq!['\n']),
    {
        let chars = chars_of(contents);
        let newline = vec!['\n'];
        assert(newline@ =~= seq!['\n']);
        Subtitles { lines: split_chars(&chars, &newline) }
    }

    /// The number of lines.
    pub fn len(&self) -> (n: usize)
        ensures
            n == self@.len(),
    {
        self.lines.len()
    }

    /// Line `i`.
    pub fn line(&self, i: usize) -> (s: String)
        requires
            i < self@.len(),
        ensures
            s@ == self@[i as int],
    {
        let l = &self.lines[i];
        let s = string_of_range(l, 0, l.len());
        assert(l@.subrange(0, l@.len() as int) =~= l@);
        s
    }

    /// The index of the time-range line of the next subtitle, scanning from
    /// line `from`; `None` when no number line with a line after it is left.
    pub fn next_range(&self, from: usize) -> (r: Option<usize>)
        ensures
            match r {
                Some(i) => next_range_spec(self@, from as int) == Some(i as int),
                None => next_range_spec(self@, from as int) is None,
            },
    {
        let n = self.lines.len();
        let mut k = from;
        while k < n
            invariant
                from <= k,
                n == self@.len(),
                self@ == views(self.lines@),
                next_range_spec(self@, from as int) == next_range_spec(self@, k as int),
            decreases n - k,
        {
            if parse_unsigned(&self.lines[k], 0xffff_ffff).is_some() {
                assert(self@[k as int] == self.lines@[k as int]@);
                if k + 1 < n {
                    return Some(k + 1);
                } else {
                    return None;
                }
            }
            assert(self@[k as int] == self.lines@[k as int]@);
            k = k + 1;
        }
        None
    }

    /// The text of the subtitle whose time range is line `range_index`,
    /// after the control sequence that clears the terminal line.
    pub fn subtitle_text(&self, range_index: usize) -> (r: Option<String>)
        ensures
            match r {
                Some(s) => subtitle_text_spec(self@, range_index as int) == Some(s@),
                None => subtitle_text_spec(self@, range_index as int) is None,
            },
    {
        let n = self.lines.len();
        let ghost lines = self@;
        assert(lines == views(self.lines@));
        if range_index >= n || n - range_index < 2 {
            return None;
        }
        let first = range_index + 1;
        let mut s = String::from_str("\x1B[K");
        push_all(&mut s, &self.lines[first]);
        let newline = vec!['\n'];
        proof {
            assert(lines[first as int] == self.lines@[first as int]@);
            assert(lines.subrange(first as int, first + 1) =~= seq![lines[first as int]]);
            assert(join_with(lines.subrange(first as int, first + 1), seq!['\n'])
                == lines[first as int]);
        }
        let mut j = first + 1;
        while j < n
            invariant
                first < j <= n,
                first == range_index + 1,
                n == lines.len(),
                lines == views(self.lines@),
                newline@ == seq!['\n'],
                first_empty_from(lines, first + 1) == first_empty_from(lines, j as int),
                s@ == clear_line() + join_with(lines.subrange(first as int, j as int), seq!['\n']),
            decreases n - j,
        {
            assert(lines[j as int] == self.lines@[j as int]@);
            if self.lines[j].len() == 0 {
                assert(first_empty_from(lines, j as int) == Some(j as int));
                return Some(s);
            }
            proof {
                lemma_join_push(lines.subrange(first as int, j as int), seq!['\n'], lines[j as int]);
                assert(lines.subrange(first as int, j as int).push(lines[j as int])
                    =~= lines.subrange(first as int, j + 1));
            }
            let ghost before = s@;
            push_all(&mut s, &newline);
            push_all(&mut s, &self.lines[j]);
            assert(s@ =~= before + seq!['\n'] + lines[j as int]);
            j = j + 1;
        }
        None
    }
}

/// What the subtitle lookup does next.
pub enum ScanStep {
    /// Test whether the time range on this line holds the playback time.
    Check(usize),
    /// The subtitle shown at the playback time.
    Found(String),
    /// No subtitle covers the playback time.
    NotFound,
    /// The subtitle whose range matched runs into the end of the file
    /// before its closing empty line.
    Unterminated,
}

/// Whether `step` is the first step of a lookup in `lines`: test the first
/// time range, or nothing found when there is none.
pub open spec fn is_start_step(lines: Seq<Seq<char>>, step: ScanStep) -> bool {
    match step {
        ScanStep::Check(r) => next_range_spec(lines, 0) == Some(r as int),
        ScanStep::NotFound => next_range_spec(lines, 0) is None,
        _ => false,
    }
}

/// Whether `step` follows the test of the time range on line `r` with
/// verdict `in_range`: its subtitle when the range holds the time, else the
/// test of the next range.
pub open spec fn is_step_after(lines: Seq<Seq<char>>, r: int, in_range: bool, step: ScanStep) -> bool {
    if in_range {
        match step {
            ScanStep::Found(s) => subtitle_text_spec(lines, r) == Some(s@),
            ScanStep::Unterminated => subtitle_text_spec(lines, r) is None,
            _ => false,
        }
    } else {
        match step {
            ScanStep::Check(next) => next_range_spec(lines, r + 1) == Some(next as int),
            ScanStep::NotFound => next_range_spec(lines, r + 1) is None,
            _ => false,
        }
    }
}

/// How a subtitle lookup ends.
pub enum LookupOutcome {
    /// This subtitle text is shown.
    Found(Seq<char>),
    /// No subtitle covers the playback time.
    NotFound,
    /// The matching subtitle is not closed by an empty line.
    Unterminated,
}

/// The outcome when the time range on line `r` holds the playback time.
pub open spec fn text_outcome(lines: Seq<Seq<char>>, r: int) -> LookupOutcome {
    match subtitle_text_spec(lines, r) {
        Some(t) => LookupOutcome::Found(t),
        None => LookupOutcome::Unterminated,
    }
}

/// The outcome of a lookup that scans from line `k`, where `holds(r)` says
/// whether the time range on line `r` holds the playback time: the
/// subtitle of the first range that holds it, else nothing found.
pub open spec fn lookup_from(lines: Seq<Seq<char>>, holds: spec_fn(int) -> bool, k: int) -> LookupOutcome
    decreases lines.len() - k,
{
    if k < 0 {
        LookupOutcome::NotFound
    } else {
        match next_range_spec(lines, k) {
            None => LookupOutcome::NotFound,
            Some(r) => if holds(r) {
                text_outcome(lines, r)
            } else {
                proof {
                    lemma_next_range(lines, k);
                }
                lookup_from(lines, holds, r + 1)
            },
        }
    }
}

/// The outcome of a whole lookup: the subtitle of the first time range in
/// the file that holds the playback time, else nothing found.
pub open spec fn lookup_spec(lines: Seq<Seq<char>>, holds: spec_fn(int) -> bool) -> LookupOutcome {
    lookup_from(lines, holds, 0)
}

/// The outcome that a lookup reaches from `step`.
pub open spec fn step_outcome(lines: Seq<Seq<char>>, holds: spec_fn(int) -> bool, step: ScanStep) -> LookupOutcome {
    match step {
        ScanStep::Check(r) => if holds(r as int) {
            text_outcome(lines, r as int)
        } else {
            lookup_from(lines, holds, r + 1)
        },
        ScanStep::Found(s) => LookupOutcome::Found(s@),
        ScanStep::NotFound => LookupOutcome::NotFound,
        ScanStep::Unterminated => LookupOutcome::Unterminated,
    }
}

/// A lookup driven by `scan_start` begins on the way to `lookup_spec`: the
/// first step leads to the subtitle of the first time range that holds the
/// playback time, or to nothing found.
pub proof fn lemma_start_step_outcome(lines: Seq<Seq<char>>, holds: spec_fn(int) -> bool, step: ScanStep)
    requires
        is_start_step(lines, step),
    ensures
        step_outcome(lines, holds, step) == lookup_spec(lines, holds),
{
}

/// Each `scan_after` step, given the true verdict for the range it tested,
/// keeps the lookup on the way to the same outcome, and a further test
/// lies on a later line.
pub proof fn lemma_step_after_outcome(
    lines: Seq<Seq<char>>,
    holds: spec_fn(int) -> bool,
    r: int,
    step: ScanStep,
)
    requires
        0 <= r <= usize::MAX,
        is_step_after(lines, r, holds(r), step),
    ensures
        step_outcome(lines, holds, ScanStep::Check(r as usize)) == step_outcome(lines, holds, step),
        step matches ScanStep::Check(next) ==> next > r,
{
    if let ScanStep::Check(next) = step {
        lemma_next_range(lines, r + 1);
    }
}

impl Subtitles {
    /// The first step of a lookup: test the first time range of the file.
    pub fn scan_start(&self) -> (step: ScanStep)
        ensures
            match step {
                ScanStep::Check(r) => next_range_spec(self@, 0) == Some(r as int),
                ScanStep::NotFound => next_range_spec(self@, 0) is None,
                _ => false,
            },
    {
        match self.next_range(0) {
            Some(r) => ScanStep::Check(r),
            None => ScanStep::NotFound,
        }
    }

    /// The step after the time range on line `range_index` was tested:
    /// show its subtitle when the range holds the playback time, else test
    /// the next range after it.
    pub fn scan_after(&self, range_index: usize, in_range: bool) -> (step: ScanStep)
        ensures
            is_step_after(self@, range_index as int, in_range, step),
    {
        if in_range {
            match self.subtitle_text(range_index) {
                Some(s) => ScanStep::Found(s),
                None => ScanStep::Unterminated,
            }
        } else if range_index >= self.lines.len() {
            ScanStep::NotFound
        } else {
            match self.next_range(range_index + 1) {
                Some(r) => ScanStep::Check(r),
                None => ScanStep::NotFound,
            }
        }
    }
}

/// The range line that `next_range` finds follows a line that reads as an
/// unsigned 32-bit number, and no line between the scan's start and that
/// number line reads as one.
pub proof fn lemma_next_range(lines: Seq<Seq<char>>, k: int)
    requires
        0 <= k,
    ensures
        next_range_spec(lines, k) matches Some(r) ==> k < r < lines.len() && parse_unsigned_spec(
            lines[r - 1],
            0xffff_ffff,
        ) is Some && forall|j: int|
            k <= j < r - 1 ==> parse_unsigned_spec(#[trigger] lines[j], 0xffff_ffff) is None,
    decreases lines.len() - k,
{
    if k < lines.len() && !is_number_line(lines[k]) {
        lemma_next_range(lines, k + 1);
    }
}

/// Any line that reads as an unsigned 32-bit number, with a line after it
/// and no such number line before it since the scan's start, starts the
/// entry that the scan finds: its range line is the line after it.
pub proof fn lemma_next_range_finds_first_number(lines: Seq<Seq<char>>, from: int, k: int)
    requires
        0 <= from <= k,
        k + 1 < lines.len(),
        parse_unsigned_spec(lines[k], 0xffff_ffff) is Some,
        forall|j: int| from <= j < k ==> parse_unsigned_spec(#[trigger] lines[j], 0xffff_ffff) is None,
    ensures
        next_range_spec(lines, from) == Some(k + 1),
    decreases k - from,
{
    if from < k {
        lemma_next_range_finds_first_number(lines, from + 1, k);
    }
}

/// The scan finds nothing only when no line from its start on, with a line
/// after it, reads as an unsigned 32-bit number.
pub proof fn lemma_next_range_none(lines: Seq<Seq<char>>, from: int)
    requires
        0 <= from,
    ensures
        next_range_spec(lines, from) is None ==> forall|j: int|
            from <= j && j + 1 < lines.len() ==> parse_unsigned_spec(#[trigger] lines[j], 0xffff_ffff)
                is None,
{
    if next_range_spec(lines, from) is None {
        assert forall|j: int|
            from <= j && j + 1 < lines.len() implies parse_unsigned_spec(
            #[trigger] lines[j],
            0xffff_ffff,
        ) is None by {
            if parse_unsigned_spec(lines[j], 0xffff_ffff) is Some {
                lemma_first_number_from(lines, from, j);
            }
        }
    }
}

/// If some line at or after `from`, with a line after it, reads as a
/// number, the scan from `from` finds a range line.
proof fn lemma_first_number_from(lines: Seq<Seq<char>>, from: int, j: int)
    requires
        0 <= from <= j,
        j + 1 < lines.len(),
        parse_unsigned_spec(lines[j], 0xffff_ffff) is Some,
    ensures
        next_range_spec(lines, from) is Some,
    decreases j - from,
{
    if from < j && !is_number_line(lines[from]) {
        lemma_first_number_from(lines, from + 1, j);
    }
}

/// The text of the subtitle whose range is line `r` is the clear-line
/// sequence, then every line from the one after the range up to the first
/// empty line after that one, joined by newlines.
pub proof fn lemma_subtitle_text_lines(lines: Seq<Seq<char>>, r: int, e: int)
    requires
        0 <= r,
        r + 2 <= e < lines.len(),
        lines[e].len() == 0,
        forall|j: int| r + 2 <= j < e ==> (#[trigger] lines[j]).len() > 0,
    ensures
        subtitle_text_spec(lines, r) == Some("\x1B[K"@ + join_with(lines.subrange(r + 1, e), seq!['\n'])),
{
    lemma_first_empty_at(lines, r + 2, e);
}

/// Without an empty line after the line that follows the range, there is
/// no subtitle text.
pub proof fn lemma_subtitle_text_unterminated(lines: Seq<Seq<char>>, r: int)
    requires
        0 <= r,
        forall|j: int| r + 2 <= j < lines.len() ==> (#[trigger] lines[j]).len() > 0,
    ensures
        subtitle_text_spec(lines, r) is None,
{
    lemma_no_empty_from(lines, r + 2);
}

proof fn lemma_first_empty_at(lines: Seq<Seq<char>>, k: int, e: int)
    requires
        0 <= k <= e < lines.len(),
        lines[e].len() == 0,
        forall|j: int| k <= j < e ==> (#[trigger] lines[j]).len() > 0,
    ensures
        first_empty_from(lines, k) == Some(e),
    decreases e - k,
{
    if k < e {
        lemma_first_empty_at(lines, k + 1, e);
    }
}

proof fn lemma_no_empty_from(lines: Seq<Seq<char>>, k: int)
    requires
        0 <= k,
        forall|j: int| k <= j < lines.len() ==> (#[trigger] lines[j]).len() > 0,
    ensures
        first_empty_from(lines, k) is None,
    decreases lines.len() - k,
{
    if k < lines.len() {
        lemma_no_empty_from(lines, k + 1);
    }
}

} // verus!

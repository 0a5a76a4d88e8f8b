//! Crop windows of a recording, as written on a command line.
//!
//! A window is written `start:end`. Each side is optional and is a duration written
//! `<minutes>m<seconds>s`, where either part may be left out. A side that is not
//! there leaves the recording unbounded on that edge. The grammar is lenient: what
//! follows the parts that can be read is ignored, and a text without a colon is
//! the window without bounds.
//!
//! As regular expressions, read from the leftmost place where they match and
//! preferring the longer reading, a duration is
//! `(?:(?P<minutes>[0-9]+)m)?(?:(?P<seconds>[0-9]+)s)?` and a window is
//! `(?P<left>[^:]+)?:(?P<right>[^:]+)?`. The functions below say the same over
//! the characters of the text.

use vstd::prelude::*;

verus! {

broadcast use vstd::string::group_string_axioms;

/// A point in a recording: `{minutes}m{seconds}s`.
///
/// Durations are ordered by their length in seconds, so that `0m90s` lies after
/// `1m0s`. The seconds are kept as written and not carried over into minutes:
/// `1m0s` and `0m60s` are two values of one length, and neither lies after the
/// other.
#[derive(Clone, Copy, Debug, PartialEq, Eq, Structural)]
pub struct Duration {
    pub minutes: usize,
    pub seconds: usize,
}

/// One edge of a crop window.
#[derive(Clone, Copy, Debug, PartialEq, Eq, Structural)]
pub enum MaybeDuration {
    /// The recording is cropped at this point.
    Bounded(Duration),
    /// The recording is not cropped on this edge.
    Unbounded,
}

/// The part of a recording to keep.
#[derive(Clone, Copy, Debug, PartialEq, Eq, Structural)]
pub struct RecordingWindow {
    /// How far into the clip to crop the beginning of the clip.
    pub start_time: MaybeDuration,
    /// How far into the clip to crop the end of the clip.
    pub end_time: MaybeDuration,
}

/// The crop windows of the two recordings that are laid over each other.
#[derive(Clone, Copy, Debug, PartialEq, Eq, Structural)]
pub struct PhaseShiftParameters {
    irl_recording_window: RecordingWindow,
    canonical_recording_window: RecordingWindow,
}

/// Why a numeral is not a `usize`.
#[derive(Clone, Copy, Debug, PartialEq, Eq, Structural)]
pub enum IntErrorKind {
    /// The text is empty.
    Empty,
    /// A character is not a decimal digit.
    InvalidDigit,
    /// The number is too large.
    PosOverflow,
}

/// Why a text is not a crop window.
#[derive(Debug, PartialEq, Eq)]
pub enum ParseError {
    /// A numeral could not be read; the text says why.
    IntegerParseFailure(String),
    /// The window is not one: the text that was given, and the reason.
    InvalidCropWindow(String, String),
}

/// The decimal digits.
pub open spec fn is_digit(c: char) -> bool {
    '0' <= c && c <= '9'
}

/// The number that a decimal digit stands for.
pub open spec fn digit_value(c: char) -> nat {
    (c as int - '0' as int) as nat
}

/// The number that a text of decimal digits stands for.
pub open spec fn decimal_value(digits: Seq<char>) -> nat
    decreases digits.len(),
{
    if digits.len() == 0 {
        0
    } else {
        10 * decimal_value(digits.drop_last()) + digit_value(digits.last())
    }
}

/// Every character of the text is a decimal digit.
pub open spec fn all_digits(digits: Seq<char>) -> bool {
    forall|i: int| 0 <= i < digits.len() ==> is_digit(#[trigger] digits[i])
}

/// Reading the first `upto` characters of `digits` from the left: the number read,
/// or the fault at the first character that cannot be taken. A character that is
/// no digit is an `InvalidDigit`; a digit that makes the number exceed
/// `usize::MAX` is a `PosOverflow`.
pub open spec fn read_digits(digits: Seq<char>, upto: int) -> Result<nat, IntErrorKind>
    decreases upto,
{
    if upto <= 0 {
        Ok(0)
    } else {
        match read_digits(digits, upto - 1) {
            Err(kind) => Err(kind),
            Ok(before) => {
                let c = digits[upto - 1];
                if !is_digit(c) {
                    Err(IntErrorKind::InvalidDigit)
                } else if 10 * before + digit_value(c) > usize::MAX {
                    Err(IntErrorKind::PosOverflow)
                } else {
                    Ok(10 * before + digit_value(c))
                }
            },
        }
    }
}

/// The `usize` that a numeral stands for: decimal digits, which one `+` may
/// precede.
pub open spec fn parse_numeral(text: Seq<char>) -> Result<nat, IntErrorKind> {
    if text.len() == 0 {
        Err(IntErrorKind::Empty)
    } else if text.len() > 1 && text[0] == '+' {
        read_digits(text.skip(1), text.len() - 1)
    } else {
        read_digits(text, text.len() as int)
    }
}

/// How a numeral fault is put into words.
pub open spec fn fault_text(kind: IntErrorKind) -> Seq<char> {
    match kind {
        IntErrorKind::Empty => "ParseIntError { kind: Empty }"@,
        IntErrorKind::InvalidDigit => "ParseIntError { kind: InvalidDigit }"@,
        IntErrorKind::PosOverflow => "ParseIntError { kind: PosOverflow }"@,
    }
}

/// Why a window with both edges is refused when the first lies after the second.
pub open spec fn inverted_text() -> Seq<char> {
    "left cannot be greater than right crop point"@
}

/// Where the longest run of decimal digits that starts at `from` ends.
pub open spec fn digits_end(text: Seq<char>, from: int) -> int
    decreases text.len() - from,
{
    if 0 <= from < text.len() && is_digit(text[from]) {
        digits_end(text, from + 1)
    } else {
        from
    }
}

/// The digits of the field that starts at `from`: a run of at least one decimal
/// digit, as long as it can be, with `unit` right behind it.
pub open spec fn field(text: Seq<char>, from: int, unit: char) -> Option<Seq<char>> {
    let end = digits_end(text, from);
    if from < end && end < text.len() && text[end] == unit {
        Some(text.subrange(from, end))
    } else {
        None
    }
}

/// The digits of the minutes, which stand at the very beginning of a duration.
pub open spec fn minutes_field(text: Seq<char>) -> Option<Seq<char>> {
    field(text, 0, 'm')
}

/// Where the seconds of a duration begin: behind the minutes, where there are any.
pub open spec fn seconds_start(text: Seq<char>) -> int {
    match minutes_field(text) {
        Some(digits) => digits.len() as int + 1,
        None => 0,
    }
}

/// The digits of the seconds.
pub open spec fn seconds_field(text: Seq<char>) -> Option<Seq<char>> {
    field(text, seconds_start(text), 's')
}

/// The number of a field; a field that is not there counts as zero.
pub open spec fn field_value(digits: Option<Seq<char>>) -> Result<nat, IntErrorKind> {
    match digits {
        Some(digits) => parse_numeral(digits),
        None => Ok(0),
    }
}

/// The duration that a text stands for. The minutes are read first, so their fault
/// is the one reported where both fields are too large.
pub open spec fn duration_of(text: Seq<char>) -> Result<Duration, IntErrorKind> {
    match field_value(minutes_field(text)) {
        Err(kind) => Err(kind),
        Ok(minutes) => match field_value(seconds_field(text)) {
            Err(kind) => Err(kind),
            Ok(seconds) => Ok(Duration { minutes: minutes as usize, seconds: seconds as usize }),
        },
    }
}

/// Where the first colon at or behind `from` stands; the length of the text where
/// there is none.
pub open spec fn colon_at(text: Seq<char>, from: int) -> int
    decreases text.len() - from,
{
    if 0 <= from < text.len() && text[from] != ':' {
        colon_at(text, from + 1)
    } else {
        from
    }
}

/// The text before the first colon, where there is any.
pub open spec fn left_side(text: Seq<char>) -> Option<Seq<char>> {
    let colon = colon_at(text, 0);
    if 0 < colon {
        Some(text.subrange(0, colon))
    } else {
        None
    }
}

/// The text between the first colon and the second, or the end; where there is any.
pub open spec fn right_side(text: Seq<char>) -> Option<Seq<char>> {
    let colon = colon_at(text, 0);
    let end = colon_at(text, colon + 1);
    if colon + 1 < end {
        Some(text.subrange(colon + 1, end))
    } else {
        None
    }
}

/// The edge that one side of a window stands for.
pub open spec fn side_value(side: Option<Seq<char>>) -> Result<MaybeDuration, IntErrorKind> {
    match side {
        None => Ok(MaybeDuration::Unbounded),
        Some(text) => match duration_of(text) {
            Ok(duration) => Ok(MaybeDuration::Bounded(duration)),
            Err(kind) => Err(kind),
        },
    }
}

/// Why a text is not a window.
pub ghost enum WindowFault {
    /// A numeral on one side could not be read.
    Numeral(IntErrorKind),
    /// Both edges are there and the first lies after the second.
    Inverted,
}

/// The window that a text stands for. A text without a colon is the window without
/// bounds. The left side is read first.
pub open spec fn window_of(text: Seq<char>) -> Result<RecordingWindow, WindowFault> {
    if colon_at(text, 0) >= text.len() {
        Ok(RecordingWindow::unbounded())
    } else {
        match side_value(left_side(text)) {
            Err(kind) => Err(WindowFault::Numeral(kind)),
            Ok(start_time) => match side_value(right_side(text)) {
                Err(kind) => Err(WindowFault::Numeral(kind)),
                Ok(end_time) => {
                    let window = RecordingWindow { start_time, end_time };
                    if window.inverted() {
                        Err(WindowFault::Inverted)
                    } else {
                        Ok(window)
                    }
                },
            },
        }
    }
}

impl Duration {
    /// The length in seconds.
    pub open spec fn total_seconds(self) -> nat {
        (self.minutes * 60 + self.seconds) as nat
    }

    /// The order of durations: by their length in seconds.
    pub open spec fn later_than(self, other: Duration) -> bool {
        self.total_seconds() > other.total_seconds()
    }

    /// The length in seconds. It is counted in 128 bits, which hold the length of
    /// every duration.
    pub fn length(&self) -> (seconds: u128)
        ensures
            seconds == self.total_seconds(),
    {
        (self.minutes as u128) * 60 + (self.seconds as u128)
    }

    /// Whether this duration is longer than `other`.
    pub fn is_later_than(&self, other: &Duration) -> (later: bool)
        ensures
            later == self.later_than(*other),
    {
        self.length() > other.length()
    }
}

impl MaybeDuration {
    /// The edge that an optional duration stands for.
    pub open spec fn of(value: Option<Duration>) -> MaybeDuration {
        match value {
            Some(duration) => MaybeDuration::Bounded(duration),
            None => MaybeDuration::Unbounded,
        }
    }
}

impl Default for MaybeDuration {
    fn default() -> (edge: MaybeDuration)
        ensures
            edge == MaybeDuration::Unbounded,
    {
        MaybeDuration::Unbounded
    }
}

impl From<Option<Duration>> for MaybeDuration {
    fn from(value: Option<Duration>) -> (edge: MaybeDuration) {
        match value {
            Some(duration) => MaybeDuration::Bounded(duration),
            None => MaybeDuration::Unbounded,
        }
    }
}

impl vstd::std_specs::convert::FromSpecImpl<Option<Duration>> for MaybeDuration {
    open spec fn obeys_from_spec() -> bool {
        true
    }

    open spec fn from_spec(value: Option<Duration>) -> MaybeDuration {
        MaybeDuration::of(value)
    }
}

impl RecordingWindow {
    /// The window that keeps the whole recording.
    pub open spec fn unbounded() -> RecordingWindow {
        RecordingWindow {
            start_time: MaybeDuration::Unbounded,
            end_time: MaybeDuration::Unbounded,
        }
    }

    /// Both edges are there and the start lies after the end, counted in seconds.
    pub open spec fn inverted(self) -> bool {
        self.start_time matches MaybeDuration::Bounded(start) && self.end_time
            matches MaybeDuration::Bounded(end) && start.later_than(end)
    }

    /// Whether both edges are there and the start lies after the end.
    pub fn is_inverted(&self) -> (inverted: bool)
        ensures
            inverted == self.inverted(),
    {
        match (self.start_time, self.end_time) {
            (MaybeDuration::Bounded(start), MaybeDuration::Bounded(end)) => start.is_later_than(
                &end,
            ),
            _ => false,
        }
    }
}

impl Default for RecordingWindow {
    fn default() -> (window: RecordingWindow)
        ensures
            window == RecordingWindow::unbounded(),
    {
        RecordingWindow {
            start_time: MaybeDuration::Unbounded,
            end_time: MaybeDuration::Unbounded,
        }
    }
}

/// A fault stays: once the characters up to `at` cannot be read, no longer prefix
/// can be read either, and the fault is the same.
pub proof fn lemma_fault_stays(digits: Seq<char>, at: int, upto: int)
    requires
        0 <= at <= upto,
        read_digits(digits, at) is Err,
    ensures
        read_digits(digits, upto) == read_digits(digits, at),
    decreases upto - at,
{
    if at < upto {
        lemma_fault_stays(digits, at, upto - 1);
    }
}

/// What `read_digits` reads is the decimal value of the digits, and it reads them
/// exactly when they are all digits and their value fits a `usize`.
pub proof fn lemma_read_digits_value(digits: Seq<char>, upto: int)
    requires
        0 <= upto <= digits.len(),
    ensures
        read_digits(digits, upto) is Ok <==> all_digits(digits.take(upto)) && decimal_value(
            digits.take(upto),
        ) <= usize::MAX,
        read_digits(digits, upto) matches Ok(value) ==> value == decimal_value(digits.take(upto)),
    decreases upto,
{
    if upto > 0 {
        lemma_read_digits_value(digits, upto - 1);
        assert(digits.take(upto).drop_last() =~= digits.take(upto - 1));
    }
}

fn chars_of(text: &str) -> (chars: Vec<char>)
    ensures
        chars@ == text@,
{
    let mut chars: Vec<char> = Vec::new();
    for c in it: text.chars()
        invariant
            it.seq() == text@,
            chars@ == it.seq().take(it.index() as int),
    {
        chars.push(c);
    }
    chars
}

fn copy_range(chars: &[char], from: usize, to: usize) -> (part: Vec<char>)
    requires
        from <= to <= chars@.len(),
    ensures
        part@ == chars@.subrange(from as int, to as int),
{
    let mut part: Vec<char> = Vec::new();
    let mut i: usize = from;
    while i < to
        invariant
            from <= i <= to <= chars@.len(),
            part@ == chars@.subrange(from as int, i as int),
        decreases to - i,
    {
        part.push(chars[i]);
        i = i + 1;
    }
    part
}

fn is_digit_char(c: char) -> (digit: bool)
    ensures
        digit == is_digit(c),
{
    '0' <= c && c <= '9'
}

fn digit_of(c: char) -> (value: usize)
    requires
        is_digit(c),
    ensures
        value == digit_value(c),
        value <= 9,
{
    (c as u32 - '0' as u32) as usize
}

fn read_numeral(chars: &[char]) -> (read: Result<usize, IntErrorKind>)
    ensures
        match parse_numeral(chars@) {
            Ok(value) => read == Ok::<usize, IntErrorKind>(value as usize) && value <= usize::MAX,
            Err(kind) => read == Err::<usize, IntErrorKind>(kind),
        },
{
    let len: usize = chars.len();
    if len == 0 {
        return Err(IntErrorKind::Empty);
    }
    let start: usize = if len > 1 && chars[0] == '+' {
        1
    } else {
        0
    };
    let ghost digits = chars@.skip(start as int);
    assert(start == 0 ==> digits =~= chars@);
    let mut value: usize = 0;
    let mut i: usize = start;
    while i < len
        invariant
            start <= i <= len,
            0 < len == chars@.len(),
            digits == chars@.skip(start as int),
            parse_numeral(chars@) == read_digits(digits, len - start),
            read_digits(digits, i - start) == Ok::<nat, IntErrorKind>(value as nat),
        decreases len - i,
    {
        let c = chars[i];
        if !is_digit_char(c) {
            proof {
                lemma_fault_stays(digits, i - start + 1, len - start);
            }
            return Err(IntErrorKind::InvalidDigit);
        }
        let digit = digit_of(c);
        if value > (usize::MAX - digit) / 10 {
            proof {
                lemma_fault_stays(digits, i - start + 1, len - start);
            }
            return Err(IntErrorKind::PosOverflow);
        }
        value = 10 * value + digit;
        i = i + 1;
    }
    Ok(value)
}

fn fault(kind: IntErrorKind) -> (error: ParseError)
    ensures
        error matches ParseError::IntegerParseFailure(text) && text@ == fault_text(kind),
{
    let text = match kind {
        IntErrorKind::Empty => "ParseIntError { kind: Empty }",
        IntErrorKind::InvalidDigit => "ParseIntError { kind: InvalidDigit }",
        IntErrorKind::PosOverflow => "ParseIntError { kind: PosOverflow }",
    };
    ParseError::IntegerParseFailure(text.to_owned())
}

/// Reads a `usize` written in decimal digits, which one `+` may precede.
///
/// The error holds the fault in words: that of the first character, from the
/// left, that is no digit or makes the number too large.
pub fn parse_integer(s: &str) -> (parsed: Result<usize, ParseError>)
    ensures
        match parse_numeral(s@) {
            Ok(value) => parsed matches Ok(n) && n == value,
            Err(kind) => parsed matches Err(ParseError::IntegerParseFailure(text)) && text@
                == fault_text(kind),
        },
{
    let chars = chars_of(s);
    match read_numeral(chars.as_slice()) {
        Ok(value) => Ok(value),
        Err(kind) => Err(fault(kind)),
    }
}

fn scan_digits(chars: &[char], from: usize) -> (end: usize)
    requires
        from <= chars@.len(),
    ensures
        end == digits_end(chars@, from as int),
        from <= end <= chars@.len(),
{
    let len: usize = chars.len();
    let mut end: usize = from;
    while end < len && is_digit_char(chars[end])
        invariant
            from <= end <= len,
            len == chars@.len(),
            digits_end(chars@, end as int) == digits_end(chars@, from as int),
        decreases len - end,
    {
        end = end + 1;
    }
    end
}

fn read_field(chars: &[char], from: usize, unit: char) -> (end: Option<usize>)
    requires
        from <= chars@.len(),
    ensures
        match end {
            Some(end) => from < end < chars@.len() && field(chars@, from as int, unit) == Some(
                chars@.subrange(from as int, end as int),
            ),
            None => field(chars@, from as int, unit) is None,
        },
{
    let end = scan_digits(chars, from);
    if from < end && end < chars.len() && chars[end] == unit {
        Some(end)
    } else {
        None
    }
}

fn read_field_value(chars: &[char], from: usize, end: Option<usize>) -> (read: Result<
    usize,
    IntErrorKind,
>)
    requires
        end matches Some(end) ==> from <= end <= chars@.len(),
    ensures
        match field_value(
            match end {
                Some(end) => Some(chars@.subrange(from as int, end as int)),
                None => None,
            },
        ) {
            Ok(value) => read == Ok::<usize, IntErrorKind>(value as usize) && value <= usize::MAX,
            Err(kind) => read == Err::<usize, IntErrorKind>(kind),
        },
{
    match end {
        Some(end) => {
            let digits = copy_range(chars, from, end);
            read_numeral(digits.as_slice())
        },
        None => Ok(0),
    }
}

fn read_duration(chars: &[char]) -> (read: Result<Duration, IntErrorKind>)
    ensures
        read == duration_of(chars@),
{
    let minutes_end = read_field(chars, 0, 'm');
    let minutes = match read_field_value(chars, 0, minutes_end) {
        Ok(minutes) => minutes,
        Err(kind) => {
            return Err(kind);
        },
    };
    let len: usize = chars.len();
    let seconds_from: usize = match minutes_end {
        Some(end) => end + 1,
        None => 0,
    };
    let seconds_end = read_field(chars, seconds_from, 's');
    let seconds = match read_field_value(chars, seconds_from, seconds_end) {
        Ok(seconds) => seconds,
        Err(kind) => {
            return Err(kind);
        },
    };
    Ok(Duration { minutes, seconds })
}

/// Reads a duration written `<minutes>m<seconds>s`.
///
/// Either part may be left out and counts as zero. The minutes stand at the very
/// beginning, the seconds right behind them; what follows the parts that can be
/// read is ignored, so a text that begins with neither part is `0m0s`. The only
/// fault is a number too large for a `usize`.
pub fn minutes_and_seconds(s: &str) -> (parsed: Result<Duration, ParseError>)
    ensures
        match duration_of(s@) {
            Ok(duration) => parsed matches Ok(d) && d == duration,
            Err(kind) => parsed matches Err(ParseError::IntegerParseFailure(text)) && text@
                == fault_text(kind),
        },
{
    let chars = chars_of(s);
    match read_duration(chars.as_slice()) {
        Ok(duration) => Ok(duration),
        Err(kind) => Err(fault(kind)),
    }
}

fn find_colon(chars: &[char], from: usize) -> (colon: usize)
    requires
        from <= chars@.len(),
    ensures
        colon == colon_at(chars@, from as int),
        from <= colon <= chars@.len(),
{
    let len: usize = chars.len();
    let mut colon: usize = from;
    while colon < len && chars[colon] != ':'
        invariant
            from <= colon <= len,
            len == chars@.len(),
            colon_at(chars@, colon as int) == colon_at(chars@, from as int),
        decreases len - colon,
    {
        colon = colon + 1;
    }
    colon
}

fn read_side(chars: &[char], from: usize, to: usize) -> (read: Result<MaybeDuration, IntErrorKind>)
    requires
        from <= to <= chars@.len(),
    ensures
        read == side_value(
            if from < to {
                Some(chars@.subrange(from as int, to as int))
            } else {
                None
            },
        ),
{
    if from < to {
        let side = copy_range(chars, from, to);
        match read_duration(side.as_slice()) {
            Ok(duration) => Ok(MaybeDuration::Bounded(duration)),
            Err(kind) => Err(kind),
        }
    } else {
        Ok(MaybeDuration::Unbounded)
    }
}

/// Reads a crop window written `start:end`.
///
/// Each side is a duration as `minutes_and_seconds` reads it; a side that is
/// empty leaves that edge unbounded. The right side ends at a second colon, and
/// what follows that is ignored. A text without a colon is the window without
/// bounds. A window whose start is longer in seconds than its end is refused
/// with the text and the reason.
pub fn time_window(s: &str) -> (parsed: Result<RecordingWindow, ParseError>)
    ensures
        match window_of(s@) {
            Ok(window) => parsed matches Ok(w) && w == window,
            Err(WindowFault::Numeral(kind)) => parsed matches Err(
                ParseError::IntegerParseFailure(text),
            ) && text@ == fault_text(kind),
            Err(WindowFault::Inverted) => parsed matches Err(
                ParseError::InvalidCropWindow(given, reason),
            ) && given@ == s@ && reason@ == inverted_text(),
        },
{
    let chars = chars_of(s);
    let len: usize = chars.len();
    let colon = find_colon(chars.as_slice(), 0);
    if colon >= len {
        return Ok(RecordingWindow::default());
    }
    let start_time = match read_side(chars.as_slice(), 0, colon) {
        Ok(edge) => edge,
        Err(kind) => {
            return Err(fault(kind));
        },
    };
    let end = find_colon(chars.as_slice(), colon + 1);
    let end_time = match read_side(chars.as_slice(), colon + 1, end) {
        Ok(edge) => edge,
        Err(kind) => {
            return Err(fault(kind));
        },
    };
    let window = RecordingWindow { start_time, end_time };
    if window.is_inverted() {
        return Err(
            ParseError::InvalidCropWindow(
                s.to_owned(),
                "left cannot be greater than right crop point".to_owned(),
            ),
        );
    }
    Ok(window)
}

impl PhaseShiftParameters {
    /// The crop parameters for the IRL recording.
    pub closed spec fn irl(&self) -> RecordingWindow {
        self.irl_recording_window
    }

    /// The crop parameters for the canonical recording.
    pub closed spec fn canonical(&self) -> RecordingWindow {
        self.canonical_recording_window
    }

    /// The parameters that crop the two recordings to the given windows.
    pub fn new(irl_recording_window: RecordingWindow, canonical_recording_window: RecordingWindow) -> (made:
        PhaseShiftParameters)
        ensures
            made.irl() == irl_recording_window,
            made.canonical() == canonical_recording_window,
    {
        PhaseShiftParameters { irl_recording_window, canonical_recording_window }
    }

    /// The crop parameters for the IRL recording.
    pub fn irl_recording_window(&self) -> (window: RecordingWindow)
        ensures
            window == self.irl(),
    {
        self.irl_recording_window
    }

    /// The crop parameters for the canonical recording.
    pub fn canonical_recording_window(&self) -> (window: RecordingWindow)
        ensures
            window == self.canonical(),
    {
        self.canonical_recording_window
    }
}

impl Default for PhaseShiftParameters {
    fn default() -> (made: PhaseShiftParameters)
        ensures
            made.irl() == RecordingWindow::unbounded(),
            made.canonical() == RecordingWindow::unbounded(),
    {
        PhaseShiftParameters {
            irl_recording_window: RecordingWindow::default(),
            canonical_recording_window: RecordingWindow::default(),
        }
    }
}

/// A window that is read never starts after it ends: where it has both edges,
/// its start is no longer in seconds than its end. And a text whose two sides
/// read as durations of which the first is longer than the second is refused as
/// inverted.
pub proof fn lemma_window_is_never_inverted(text: Seq<char>)
    ensures
        window_of(text) matches Ok(window) ==> !window.inverted(),
        forall|start: Duration, end: Duration|
            window_of(text) == Ok::<RecordingWindow, WindowFault>(
                RecordingWindow {
                    start_time: MaybeDuration::Bounded(start),
                    end_time: MaybeDuration::Bounded(end),
                },
            ) ==> #[trigger] start.total_seconds() <= #[trigger] end.total_seconds(),
        forall|start: Duration, end: Duration|
            colon_at(text, 0) < text.len() && side_value(left_side(text)) == Ok::<
                MaybeDuration,
                IntErrorKind,
            >(MaybeDuration::Bounded(start)) && side_value(right_side(text)) == Ok::<
                MaybeDuration,
                IntErrorKind,
            >(MaybeDuration::Bounded(end)) && #[trigger] start.later_than(end) ==> window_of(text)
                == Err::<RecordingWindow, WindowFault>(WindowFault::Inverted),
{
}

} // verus!

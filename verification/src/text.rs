//! Crop windows put into words, the way they are shown to a person.

use crate::window::{
    all_digits, decimal_value, digits_end, duration_of, is_digit, lemma_read_digits_value,
    minutes_field, parse_numeral, seconds_field, seconds_start, Duration, IntErrorKind,
    MaybeDuration, ParseError, RecordingWindow,
};
use vstd::prelude::*;
use vstd::string::StringExecFns;

verus! {

/// The character that stands for the decimal digit `d`.
pub open spec fn digit_char(d: nat) -> char {
    ('0' as int + d as int) as char
}

/// The decimal numeral of `n`, without leading zeros.
pub open spec fn decimal_digits(n: nat) -> Seq<char>
    decreases n,
{
    if n < 10 {
        seq![digit_char(n)]
    } else {
        decimal_digits(n / 10).push(digit_char(n % 10))
    }
}

impl Duration {
    /// The duration in words: `{minutes}m{seconds}s`.
    pub open spec fn text(self) -> Seq<char> {
        decimal_digits(self.minutes as nat) + seq!['m'] + decimal_digits(self.seconds as nat)
            + seq!['s']
    }

    /// The duration in words: `{minutes}m{seconds}s`.
    pub fn to_text(&self) -> (text: String)
        ensures
            text@ == self.text(),
    {
        let mut text = String::new();
        append_decimal(&mut text, self.minutes);
        proof {
            reveal_strlit("m");
            reveal_strlit("s");
        }
        text.append("m");
        append_decimal(&mut text, self.seconds);
        text.append("s");
        text
    }
}

impl MaybeDuration {
    /// The edge in words: the duration, or `<no crop>`.
    pub open spec fn text(self) -> Seq<char> {
        match self {
            MaybeDuration::Bounded(duration) => duration.text(),
            MaybeDuration::Unbounded => "<no crop>"@,
        }
    }

    /// The edge in words: the duration, or `<no crop>`.
    pub fn to_text(&self) -> (text: String)
        ensures
            text@ == self.text(),
    {
        match self {
            MaybeDuration::Bounded(duration) => duration.to_text(),
            MaybeDuration::Unbounded => String::from_str("<no crop>"),
        }
    }
}

impl RecordingWindow {
    /// The window in words: `Crop recording to start {start_time} and end
    /// {end_time}`.
    pub open spec fn text(self) -> Seq<char> {
        "Crop recording to start "@ + self.start_time.text() + " and end "@
            + self.end_time.text()
    }

    /// The window in words: `Crop recording to start {start_time} and end
    /// {end_time}`.
    pub fn to_text(&self) -> (text: String)
        ensures
            text@ == self.text(),
    {
        let mut text = String::from_str("Crop recording to start ");
        let start = self.start_time.to_text();
        text.append(start.as_str());
        text.append(" and end ");
        let end = self.end_time.to_text();
        text.append(end.as_str());
        text
    }
}

impl ParseError {
    /// The error in words.
    pub open spec fn text(self) -> Seq<char> {
        match self {
            ParseError::IntegerParseFailure(fault) => "Failed to parse integer numeral "@ + fault@,
            ParseError::InvalidCropWindow(given, reason) => "Invalid crop window "@ + given@
                + ": "@ + reason@,
        }
    }

    /// The error in words.
    pub fn to_text(&self) -> (text: String)
        ensures
            text@ == self.text(),
    {
        match self {
            ParseError::IntegerParseFailure(fault) => {
                let mut text = String::from_str("Failed to parse integer numeral ");
                text.append(fault.as_str());
                text
            },
            ParseError::InvalidCropWindow(given, reason) => {
                let mut text = String::from_str("Invalid crop window ");
                text.append(given.as_str());
                text.append(": ");
                text.append(reason.as_str());
                text
            },
        }
    }
}

fn digit_str(d: usize) -> (text: &'static str)
    requires
        d < 10,
    ensures
        text@ == seq![digit_char(d as nat)],
{
    proof {
        reveal_strlit("0");
        reveal_strlit("1");
        reveal_strlit("2");
        reveal_strlit("3");
        reveal_strlit("4");
        reveal_strlit("5");
        reveal_strlit("6");
        reveal_strlit("7");
        reveal_strlit("8");
        reveal_strlit("9");
    }
    let text = if d == 0 {
        "0"
    } else if d == 1 {
        "1"
    } else if d == 2 {
        "2"
    } else if d == 3 {
        "3"
    } else if d == 4 {
        "4"
    } else if d == 5 {
        "5"
    } else if d == 6 {
        "6"
    } else if d == 7 {
        "7"
    } else if d == 8 {
        "8"
    } else {
        "9"
    };
    text
}

fn append_decimal(text: &mut String, n: usize)
    ensures
        final(text)@ == old(text)@ + decimal_digits(n as nat),
    decreases n,
{
    if n >= 10 {
        append_decimal(text, n / 10);
    }
    text.append(digit_str(n % 10));
}

/// The decimal numeral of `n`, without leading zeros.
pub fn decimal_text(n: usize) -> (text: String)
    ensures
        text@ == decimal_digits(n as nat),
{
    let mut text = String::new();
    append_decimal(&mut text, n);
    text
}

/// A decimal numeral is made of digits, at least one, and stands for its number.
pub proof fn lemma_decimal_digits(n: nat)
    ensures
        decimal_digits(n).len() >= 1,
        all_digits(decimal_digits(n)),
        decimal_value(decimal_digits(n)) == n,
    decreases n,
{
    let digits = decimal_digits(n);
    if n < 10 {
        assert(decimal_value(digits.drop_last()) == 0);
    } else {
        lemma_decimal_digits(n / 10);
        let high = decimal_digits(n / 10);
        assert(digits.drop_last() =~= high);
    }
}

/// A run of digits that something else ends is the longest one from its start.
pub proof fn lemma_digits_end(text: Seq<char>, from: int, end: int)
    requires
        0 <= from <= end <= text.len(),
        forall|i: int| from <= i < end ==> is_digit(#[trigger] text[i]),
        end == text.len() || !is_digit(text[end]),
    ensures
        digits_end(text, from) == end,
    decreases end - from,
{
    if from < end {
        lemma_digits_end(text, from + 1, end);
    }
}

/// Reading gives back what was written: the text of a duration reads as that
/// duration.
pub proof fn lemma_duration_round_trip(duration: Duration)
    ensures
        duration_of(duration.text()) == Ok::<Duration, IntErrorKind>(duration),
{
    let minutes = decimal_digits(duration.minutes as nat);
    let seconds = decimal_digits(duration.seconds as nat);
    let text = duration.text();
    lemma_decimal_digits(duration.minutes as nat);
    lemma_decimal_digits(duration.seconds as nat);
    let m = minutes.len() as int;
    let s = seconds.len() as int;
    lemma_digits_end(text, 0, m);
    assert(text.subrange(0, m) =~= minutes);
    lemma_digits_end(text, m + 1, m + 1 + s);
    assert(text.subrange(m + 1, m + 1 + s) =~= seconds);
    lemma_numeral_round_trip(duration.minutes);
    lemma_numeral_round_trip(duration.seconds);
}

/// The decimal numeral of a `usize` reads as that number.
pub proof fn lemma_numeral_round_trip(n: usize)
    ensures
        parse_numeral(decimal_digits(n as nat)) == Ok::<nat, IntErrorKind>(n as nat),
{
    let digits = decimal_digits(n as nat);
    lemma_decimal_digits(n as nat);
    lemma_read_digits_value(digits, digits.len() as int);
    assert(digits.take(digits.len() as int) =~= digits);
}

} // verus!

//! What the session commands of the command line compute: ages in words,
//! durations read from text, and the lines that describe a session.

use vstd::prelude::*;
use vstd::string::*;
use crate::clock::current_time;
use crate::session_manager::{
    age_hours_spec, has_file, SessionData, SessionInfo, SessionManager, DEFAULT_SESSION,
};
use crate::text::{lowercase_text, lowercased, str_eq, trim_text, trimmed};

verus! {

/// The character of a decimal digit.
pub open spec fn digit_char(d: int) -> char {
    if d == 0 {
        '0'
    } else if d == 1 {
        '1'
    } else if d == 2 {
        '2'
    } else if d == 3 {
        '3'
    } else if d == 4 {
        '4'
    } else if d == 5 {
        '5'
    } else if d == 6 {
        '6'
    } else if d == 7 {
        '7'
    } else if d == 8 {
        '8'
    } else {
        '9'
    }
}

/// A number written in decimal digits, without leading zeros.
pub open spec fn decimal_spec(n: nat) -> Seq<char>
    decreases n,
{
    if n < 10 {
        seq![digit_char(n as int)]
    } else {
        decimal_spec(n / 10).push(digit_char((n % 10) as int))
    }
}

fn digit_text(d: u64) -> (r: &'static str)
    requires
        d < 10,
    ensures
        r@ == seq![digit_char(d as int)],
{
    proof {
        reveal_strlit("0");
        reveal_strlit("1");
        reveal_strlit("2");
        reveal_strlit("3");
        reveal_strlit("4");
        reveal_strlit("5");
        reveal_strlit("6");
        reveal_strlit("7");
        reveal_strlit("8");
        reveal_strlit("9");
    }
    let r = if d == 0 {
        "0"
    } else if d == 1 {
        "1"
    } else if d == 2 {
        "2"
    } else if d == 3 {
        "3"
    } else if d == 4 {
        "4"
    } else if d == 5 {
        "5"
    } else if d == 6 {
        "6"
    } else if d == 7 {
        "7"
    } else if d == 8 {
        "8"
    } else {
        "9"
    };
    assert(r@ =~= seq![digit_char(d as int)]);
    r
}

/// Writes a number in decimal digits.
pub fn decimal(n: u64) -> (r: String)
    ensures
        r@ == decimal_spec(n as nat),
    decreases n,
{
    if n < 10 {
        digit_text(n).to_owned()
    } else {
        let mut text = decimal(n / 10);
        let ghost before = text@;
        text.append(digit_text(n % 10));
        assert(text@ =~= before.push(digit_char((n % 10) as int)));
        text
    }
}

/// An age of whole hours in words: "just now" for less than an hour, hours
/// up to a day, whole days from there on.
pub open spec fn format_age_spec(hours: u64) -> Seq<char> {
    if hours == 0 {
        "just now"@
    } else if hours < 24 {
        decimal_spec(hours as nat) + if hours == 1 {
            " hour ago"@
        } else {
            " hours ago"@
        }
    } else {
        decimal_spec((hours / 24) as nat) + if hours / 24 == 1 {
            " day ago"@
        } else {
            " days ago"@
        }
    }
}

pub fn format_age(hours: u64) -> (r: String)
    ensures
        r@ == format_age_spec(hours),
{
    if hours == 0 {
        "just now".to_owned()
    } else if hours < 24 {
        let mut text = decimal(hours);
        if hours == 1 {
            text.append(" hour ago");
        } else {
            text.append(" hours ago");
        }
        text
    } else {
        let days = hours / 24;
        let mut text = decimal(days);
        if days == 1 {
            text.append(" day ago");
        } else {
            text.append(" days ago");
        }
        text
    }
}

/// How long ago `timestamp` was at `now`, in words.
pub open spec fn format_timestamp_spec(timestamp: u64, now: u64) -> Seq<char> {
    if now >= timestamp {
        format_age_spec(((now - timestamp) / 3600) as u64)
    } else {
        "in the future"@
    }
}

/// How long ago a time was, as of the given time.
pub fn format_timestamp_at(timestamp: u64, now: u64) -> (r: String)
    ensures
        r@ == format_timestamp_spec(timestamp, now),
{
    if now >= timestamp {
        format_age((now - timestamp) / 3600)
    } else {
        "in the future".to_owned()
    }
}

/// How long ago a time was, by the system clock.
pub fn format_timestamp(timestamp: u64) -> (r: String)
    ensures
        exists|now: u64| r@ == format_timestamp_spec(timestamp, now),
{
    let now = current_time();
    format_timestamp_at(timestamp, now)
}

/// The value of a decimal digit, or none for any other character.
pub open spec fn digit_value(c: char) -> Option<int> {
    if c == '0' {
        Some(0)
    } else if c == '1' {
        Some(1)
    } else if c == '2' {
        Some(2)
    } else if c == '3' {
        Some(3)
    } else if c == '4' {
        Some(4)
    } else if c == '5' {
        Some(5)
    } else if c == '6' {
        Some(6)
    } else if c == '7' {
        Some(7)
    } else if c == '8' {
        Some(8)
    } else if c == '9' {
        Some(9)
    } else {
        None
    }
}

/// The number that a run of decimal digits stands for; none where a
/// character is no digit. The empty run stands for zero.
pub open spec fn digits_value(digits: Seq<char>) -> Option<int>
    decreases digits.len(),
{
    if digits.len() == 0 {
        Some(0)
    } else {
        match (digits_value(digits.drop_last()), digit_value(digits.last())) {
            (Some(high), Some(low)) => Some(high * 10 + low),
            _ => None,
        }
    }
}

/// The number that a text stands for: decimal digits, at least one, after
/// an optional plus sign, and within the range of 64 bits.
pub open spec fn parse_u64_spec(text: Seq<char>) -> Option<u64> {
    let digits = if text.len() > 0 && text[0] == '+' {
        text.skip(1)
    } else {
        text
    };
    if digits.len() == 0 {
        None
    } else {
        match digits_value(digits) {
            Some(value) => if value <= u64::MAX {
                Some(value as u64)
            } else {
                None
            },
            None => None,
        }
    }
}

fn digit_of(c: char) -> (r: Option<u64>)
    ensures
        match r {
            Some(d) => digit_value(c) == Some(d as int) && d < 10,
            None => digit_value(c) is None,
        },
{
    if c == '0' {
        Some(0)
    } else if c == '1' {
        Some(1)
    } else if c == '2' {
        Some(2)
    } else if c == '3' {
        Some(3)
    } else if c == '4' {
        Some(4)
    } else if c == '5' {
        Some(5)
    } else if c == '6' {
        Some(6)
    } else if c == '7' {
        Some(7)
    } else if c == '8' {
        Some(8)
    } else if c == '9' {
        Some(9)
    } else {
        None
    }
}

/// A run of digits is worth at least as much as any of its beginnings, and
/// where a beginning is no number, neither is the run.
proof fn lemma_digits_value_grows(digits: Seq<char>, k: int)
    requires
        0 <= k <= digits.len(),
    ensures
        digits_value(digits.take(k)) is None ==> digits_value(digits) is None,
        digits_value(digits) is Some ==> digits_value(digits.take(k)) is Some && 0
            <= digits_value(digits.take(k)).unwrap() <= digits_value(digits).unwrap(),
    decreases digits.len() - k,
{
    if k == digits.len() {
        assert(digits.take(k) =~= digits);
        lemma_digits_value_nonnegative(digits);
    } else {
        lemma_digits_value_grows(digits, k + 1);
        assert(digits.take(k + 1).drop_last() =~= digits.take(k));
        lemma_digits_value_nonnegative(digits.take(k));
    }
}

proof fn lemma_digits_value_nonnegative(digits: Seq<char>)
    ensures
        digits_value(digits) is Some ==> digits_value(digits).unwrap() >= 0,
    decreases digits.len(),
{
    if digits.len() > 0 {
        lemma_digits_value_nonnegative(digits.drop_last());
    }
}

/// Reads a number from text.
pub fn parse_u64(text: &str) -> (r: Option<u64>)
    ensures
        r == parse_u64_spec(text@),
{
    let len = text.unicode_len();
    let start: usize = if len > 0 && text.get_char(0) == '+' {
        1
    } else {
        0
    };
    if start == len {
        return None;
    }
    let ghost digits = text@.skip(start as int);
    let mut value: u64 = 0;
    let mut i: usize = start;
    proof {
        assert(digits.take(0) =~= Seq::<char>::empty());
        assert(text@.skip(0) =~= text@);
    }
    while i < len
        invariant
            start <= i <= len,
            start < len,
            len == text@.len(),
            digits == text@.skip(start as int),
            digits == if text@.len() > 0 && text@[0] == '+' {
                text@.skip(1)
            } else {
                text@
            },
            digits_value(digits.take(i - start)) == Some(value as int),
        decreases len - i,
    {
        let c = text.get_char(i);
        proof {
            assert(digits.take(i - start + 1).drop_last() =~= digits.take(i - start));
            assert(digits.take(i - start + 1).last() == text@[i as int]);
            lemma_digits_value_grows(digits, i - start + 1);
            assert(digits_value(digits.take(i - start + 1)) == match digit_value(c) {
                Some(low) => Some(value as int * 10 + low),
                None => None::<int>,
            });
        }
        let d = match digit_of(c) {
            Some(d) => d,
            None => {
                return None;
            },
        };
        let high = match value.checked_mul(10) {
            Some(high) => high,
            None => {
                return None;
            },
        };
        value = match high.checked_add(d) {
            Some(sum) => sum,
            None => {
                return None;
            },
        };
        i += 1;
    }
    assert(digits.take(i - start) =~= digits);
    Some(value)
}

/// Why a duration could not be read.
#[derive(Debug, Clone, Copy, PartialEq, Eq, Structural)]
pub enum DurationError {
    /// What stands before the unit is no number.
    InvalidNumber,
    /// The text does not end in a unit, `d` for days or `h` for hours.
    InvalidFormat,
}

/// The whole days that a duration stands for: a number of days before a
/// `d`, or a number of hours before an `h`, of which every full 24 make a
/// day. The text is taken as it is: trimmed and in lower case already.
pub open spec fn duration_days_spec(text: Seq<char>) -> Result<u64, DurationError> {
    if text.len() > 0 && text.last() == 'd' {
        match parse_u64_spec(text.drop_last()) {
            Some(days) => Ok(days),
            None => Err(DurationError::InvalidNumber),
        }
    } else if text.len() > 0 && text.last() == 'h' {
        match parse_u64_spec(text.drop_last()) {
            Some(hours) => Ok((hours / 24) as u64),
            None => Err(DurationError::InvalidNumber),
        }
    } else {
        Err(DurationError::InvalidFormat)
    }
}

/// Reads a duration in days from text that is trimmed and in lower case.
pub fn duration_days(text: &str) -> (r: Result<u64, DurationError>)
    ensures
        r == duration_days_spec(text@),
{
    let len = text.unicode_len();
    if len == 0 {
        return Err(DurationError::InvalidFormat);
    }
    let unit = text.get_char(len - 1);
    let number = text.substring_char(0, len - 1);
    assert(number@ =~= text@.drop_last());
    if unit == 'd' {
        match parse_u64(number) {
            Some(days) => Ok(days),
            None => Err(DurationError::InvalidNumber),
        }
    } else if unit == 'h' {
        match parse_u64(number) {
            Some(hours) => Ok(hours / 24),
            None => Err(DurationError::InvalidNumber),
        }
    } else {
        Err(DurationError::InvalidFormat)
    }
}

/// Reads a duration such as "30d", "7d" or "24h" as whole days. White
/// space around it and the case of its letters do not matter.
pub fn parse_duration_days(duration_str: &str) -> (r: Result<u64, DurationError>)
    ensures
        r == duration_days_spec(lowercased(trimmed(duration_str@))),
{
    let normal = lowercase_text(trim_text(duration_str));
    duration_days(normal.as_str())
}

/// Days after which cleaning deletes an idle session when no duration is
/// given.
pub const DEFAULT_CLEAN_DAYS: u64 = 30;

/// The days after which cleaning deletes an idle session: those of the
/// duration given, or the default where none is given.
pub fn clean_days(older_than: Option<&str>) -> (r: Result<u64, DurationError>)
    ensures
        r == match older_than {
            Some(text) => duration_days_spec(lowercased(trimmed(text@))),
            None => Ok::<u64, DurationError>(DEFAULT_CLEAN_DAYS),
        },
{
    match older_than {
        Some(text) => parse_duration_days(text),
        None => Ok(DEFAULT_CLEAN_DAYS),
    }
}

/// The line that lists a session in brief: name, number of messages, age,
/// and the preset in brackets where it has one.
pub open spec fn session_brief_spec(
    name: Seq<char>,
    message_count: u32,
    age_hours: u64,
    preset: Option<Seq<char>>,
) -> Seq<char> {
    "  "@ + name + " ("@ + decimal_spec(message_count as nat) + " messages, "@ + format_age_spec(
        age_hours,
    ) + ")"@ + match preset {
        Some(p) => " ["@ + p + "]"@,
        None => Seq::empty(),
    }
}

/// The line that lists a session in brief, as of the given time.
pub fn session_brief(session: &SessionInfo, now: u64) -> (r: String)
    ensures
        r@ == session_brief_spec(
            session.name@,
            session.message_count,
            age_hours_spec(session.last_accessed, now) as u64,
            session.config_preset.deep_view(),
        ),
{
    let age = format_age(session.age_hours_at(now));
    let count = decimal(session.message_count as u64);
    let mut line = "  ".to_owned();
    line.append(session.name.as_str());
    line.append(" (");
    line.append(count.as_str());
    line.append(" messages, ");
    line.append(age.as_str());
    line.append(")");
    if let Some(preset) = &session.config_preset {
        line.append(" [");
        line.append(preset.as_str());
        line.append("]");
    }
    assert(line@ =~= session_brief_spec(
        session.name@,
        session.message_count,
        age_hours_spec(session.last_accessed, now) as u64,
        session.config_preset.deep_view(),
    ));
    line
}

/// A label, then a value.
fn labelled(label: &str, value: &str) -> (r: String)
    ensures
        r@ == label@ + value@,
{
    let mut line = label.to_owned();
    line.append(value);
    line
}

/// The lines that list a session in detail: name, description if any,
/// number of messages, when it was last used, preset if any, and an empty
/// line.
pub open spec fn session_detailed_spec(
    name: Seq<char>,
    description: Option<Seq<char>>,
    message_count: u32,
    age_hours: u64,
    preset: Option<Seq<char>>,
) -> Seq<Seq<char>> {
    seq!["  📝 "@ + name] + match description {
        Some(d) => seq!["     Description: "@ + d],
        None => Seq::empty(),
    } + seq![
        "     Messages: "@ + decimal_spec(message_count as nat),
        "     Last used: "@ + format_age_spec(age_hours),
    ] + match preset {
        Some(p) => seq!["     Preset: "@ + p],
        None => Seq::empty(),
    } + seq![Seq::empty()]
}

/// The lines that list a session in detail, as of the given time.
pub fn session_detailed(session: &SessionInfo, now: u64) -> (r: Vec<String>)
    ensures
        r.deep_view() == session_detailed_spec(
            session.name@,
            session.description.deep_view(),
            session.message_count,
            age_hours_spec(session.last_accessed, now) as u64,
            session.config_preset.deep_view(),
        ),
{
    let mut lines: Vec<String> = Vec::new();
    lines.push(labelled("  📝 ", session.name.as_str()));
    if let Some(desc) = &session.description {
        lines.push(labelled("     Description: ", desc.as_str()));
    }
    lines.push(labelled("     Messages: ", decimal(session.message_count as u64).as_str()));
    lines.push(labelled("     Last used: ", format_age(session.age_hours_at(now)).as_str()));
    if let Some(preset) = &session.config_preset {
        lines.push(labelled("     Preset: ", preset.as_str()));
    }
    lines.push(String::new());
    assert(lines.deep_view() =~= session_detailed_spec(
        session.name@,
        session.description.deep_view(),
        session.message_count,
        age_hours_spec(session.last_accessed, now) as u64,
        session.config_preset.deep_view(),
    ));
    lines
}

/// The lines that tell all that is known of a session.
pub open spec fn session_info_spec(session: crate::session_manager::SessionDataView, now: u64) -> Seq<
    Seq<char>,
> {
    seq!["📝 Session: "@ + session.name] + match session.description {
        Some(d) => seq!["   Description: "@ + d],
        None => Seq::empty(),
    } + seq![
        "   Created: "@ + format_timestamp_spec(session.created_at, now),
        "   Last accessed: "@ + format_timestamp_spec(session.last_accessed, now),
        "   Messages: "@ + decimal_spec(session.message_count as nat),
    ] + match session.config_preset {
        Some(p) => seq!["   Config preset: "@ + p],
        None => Seq::empty(),
    } + seq![
        "   Conversation ID: "@ + session.conversation_id,
        "   Store ID: "@ + session.store_id,
    ]
}

/// The lines that tell all that is known of a session, as of the given
/// time.
pub fn session_info_lines(session: &SessionData, now: u64) -> (r: Vec<String>)
    ensures
        r.deep_view() == session_info_spec(session.deep_view(), now),
{
    let mut lines: Vec<String> = Vec::new();
    lines.push(labelled("📝 Session: ", session.name.as_str()));
    if let Some(desc) = &session.description {
        lines.push(labelled("   Description: ", desc.as_str()));
    }
    lines.push(labelled("   Created: ", format_timestamp_at(session.created_at, now).as_str()));
    lines.push(
        labelled("   Last accessed: ", format_timestamp_at(session.last_accessed, now).as_str()),
    );
    lines.push(labelled("   Messages: ", decimal(session.message_count as u64).as_str()));
    if let Some(preset) = &session.config_preset {
        lines.push(labelled("   Config preset: ", preset.as_str()));
    }
    lines.push(labelled("   Conversation ID: ", session.conversation_id.as_str()));
    lines.push(labelled("   Store ID: ", session.store_id.as_str()));
    assert(lines.deep_view() =~= session_info_spec(session.deep_view(), now));
    lines
}

/// What to do about a request to delete a session.
#[derive(Debug, Clone, Copy, PartialEq, Eq, Structural)]
pub enum DeleteDecision {
    /// It is the default session: refuse.
    RefuseDefault,
    /// There is no such session.
    NotFound,
    /// Ask the user first.
    Confirm,
    /// Delete it.
    Delete,
}

/// What to do about a request to delete the session `name`.
pub fn delete_decision(manager: &SessionManager, name: &str, force: bool) -> (r: DeleteDecision)
    ensures
        r == if name@ == DEFAULT_SESSION@ {
            DeleteDecision::RefuseDefault
        } else if !has_file(manager.files(), name@) {
            DeleteDecision::NotFound
        } else if !force {
            DeleteDecision::Confirm
        } else {
            DeleteDecision::Delete
        },
{
    if str_eq(name, DEFAULT_SESSION) {
        DeleteDecision::RefuseDefault
    } else if !manager.session_exists(name) {
        DeleteDecision::NotFound
    } else if !force {
        DeleteDecision::Confirm
    } else {
        DeleteDecision::Delete
    }
}

/// Whether an answer, trimmed and in lower case already, says yes: it
/// begins with a `y`.
pub fn says_yes(answer: &str) -> (r: bool)
    ensures
        r == (answer@.len() > 0 && answer@[0] == 'y'),
{
    answer.unicode_len() > 0 && answer.get_char(0) == 'y'
}

/// Whether the user's answer to a question confirms it. White space around
/// the answer and the case of its letters do not matter.
pub fn confirms(answer: &str) -> (r: bool)
    ensures
        r == (lowercased(trimmed(answer@)).len() > 0 && lowercased(trimmed(answer@))[0] == 'y'),
{
    let normal = lowercase_text(trim_text(answer));
    says_yes(normal.as_str())
}

/// What to do about a request to rename a session.
#[derive(Debug, Clone, Copy, PartialEq, Eq, Structural)]
pub enum RenameDecision {
    /// There is no session of the old name.
    SourceNotFound,
    /// The new name is taken.
    TargetExists,
    /// Rename it.
    Rename,
}

/// What to do about a request to rename `old_name` to `new_name`.
pub fn rename_decision(manager: &SessionManager, old_name: &str, new_name: &str) -> (r:
    RenameDecision)
    ensures
        r == if !has_file(manager.files(), old_name@) {
            RenameDecision::SourceNotFound
        } else if has_file(manager.files(), new_name@) {
            RenameDecision::TargetExists
        } else {
            RenameDecision::Rename
        },
{
    if !manager.session_exists(old_name) {
        RenameDecision::SourceNotFound
    } else if manager.session_exists(new_name) {
        RenameDecision::TargetExists
    } else {
        RenameDecision::Rename
    }
}

} // verus!
